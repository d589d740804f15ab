//! What processing rows means.
//!
//! A processor keeps named maps. Each map has entries, live (`Some`) or deleted (`None`), and
//! the set of keys written since the last checkpoint. A row runs every operation in order, and
//! rows run one after the other.
use vstd::prelude::*;

use crate::ops::StateOpType;

verus! {

/// One named map.
#[verifier::ext_equal]
pub struct MapView {
    /// `Some` for a live entry, `None` for a tombstone.
    pub entries: Map<Seq<char>, Option<Seq<char>>>,
    /// The keys written since the last checkpoint.
    pub dirty: Set<Seq<char>>,
}

/// All the maps, by name.
pub type StateView = Map<Seq<char>, MapView>;

/// What one operation reads of one row.
#[verifier::ext_equal]
pub struct OpArgs {
    pub key: Option<Seq<char>>,
    pub value: Option<Seq<char>>,
    pub condition: Option<bool>,
}

/// An operation: what it does and to which map.
#[verifier::ext_equal]
pub struct OpView {
    pub map: Seq<char>,
    pub op_type: StateOpType,
}

/// One answer of one operation.
#[verifier::ext_equal]
pub enum Cell {
    Str(Option<Seq<char>>),
    Bool(bool),
}

impl MapView {
    /// A map with nothing in it.
    pub open spec fn empty() -> MapView {
        MapView { entries: Map::empty(), dirty: Set::empty() }
    }

    /// The live value of a key.
    pub open spec fn live(self, key: Seq<char>) -> Option<Seq<char>> {
        if self.entries.contains_key(key) {
            self.entries[key]
        } else {
            None
        }
    }

    /// The map after an entry is written.
    pub open spec fn write(self, key: Seq<char>, value: Option<Seq<char>>) -> MapView {
        MapView { entries: self.entries.insert(key, value), dirty: self.dirty.insert(key) }
    }

    /// The entries under the keys written since the last checkpoint.
    pub open spec fn dirty_entries(self) -> Map<Seq<char>, Option<Seq<char>>> {
        self.entries.restrict(self.dirty)
    }

    /// The map right after a checkpoint.
    pub open spec fn clean(self) -> MapView {
        MapView { dirty: Set::empty(), ..self }
    }

    /// Whether a durable table and the keys written since it was made give the entries.
    pub open spec fn tracks(self, table: Map<Seq<char>, Option<Seq<char>>>) -> bool {
        table.union_prefer_right(self.dirty_entries()) == self.entries
    }
}

/// The entry that an operation writes, if it writes one.
pub open spec fn written(op_type: StateOpType, map: MapView, args: OpArgs) -> Option<
    (Seq<char>, Option<Seq<char>>),
> {
    match (op_type, args.key) {
        (StateOpType::StatePut, Some(key)) if args.value is Some => Some((key, args.value)),
        (StateOpType::StateUpsert, Some(key)) if map.live(key) is None && args.value is Some => {
            Some((key, args.value))
        },
        (StateOpType::StateUpdate, Some(key)) if args.value is Some && args.condition == Some(
            true,
        ) => Some((key, args.value)),
        (StateOpType::StateDelete, Some(key)) => Some((key, None)),
        _ => None,
    }
}

/// What an operation answers, given the map before it.
pub open spec fn answer(op_type: StateOpType, map: MapView, args: OpArgs) -> Cell {
    match op_type {
        StateOpType::StateGet => Cell::Str(
            match args.key {
                Some(key) => map.live(key),
                None => None,
            },
        ),
        StateOpType::StatePut => Cell::Str(
            if args.key is Some {
                args.value
            } else {
                None
            },
        ),
        StateOpType::StateUpsert => Cell::Str(
            match args.key {
                Some(key) => if map.live(key) is Some {
                    map.live(key)
                } else {
                    args.value
                },
                None => None,
            },
        ),
        StateOpType::StateUpdate => Cell::Bool(written(op_type, map, args) is Some),
        StateOpType::StateDelete => Cell::Bool(
            match args.key {
                Some(key) => map.live(key) is Some,
                None => false,
            },
        ),
    }
}

/// A map after an operation.
pub open spec fn step_map(op_type: StateOpType, map: MapView, args: OpArgs) -> MapView {
    match written(op_type, map, args) {
        Some((key, value)) => map.write(key, value),
        None => map,
    }
}

/// All the maps after an operation.
pub open spec fn step(state: StateView, op: OpView, args: OpArgs) -> StateView {
    state.insert(op.map, step_map(op.op_type, state[op.map], args))
}

/// All the maps after the first `count` operations of a row.
pub open spec fn run_ops(
    state: StateView,
    plan: Seq<OpView>,
    row: Seq<OpArgs>,
    count: nat,
) -> StateView
    decreases count,
{
    if count == 0 {
        state
    } else {
        step(
            run_ops(state, plan, row, (count - 1) as nat),
            plan[count - 1],
            row[count - 1],
        )
    }
}

/// All the maps after some rows.
pub open spec fn run_rows(
    state: StateView,
    plan: Seq<OpView>,
    rows: Seq<Seq<OpArgs>>,
) -> StateView
    decreases rows.len(),
{
    if rows.len() == 0 {
        state
    } else {
        run_ops(run_rows(state, plan, rows.drop_last()), plan, rows.last(), plan.len())
    }
}

/// What the `op`-th operation answers for the `row`-th row.
pub open spec fn cell(
    state: StateView,
    plan: Seq<OpView>,
    rows: Seq<Seq<OpArgs>>,
    row: int,
    op: int,
) -> Cell {
    let before = run_ops(run_rows(state, plan, rows.take(row)), plan, rows[row], op as nat);
    answer(plan[op].op_type, before[plan[op].map], rows[row][op])
}

/// The answers of the `op`-th operation, a cell for each row.
pub open spec fn column(
    state: StateView,
    plan: Seq<OpView>,
    rows: Seq<Seq<OpArgs>>,
    op: int,
) -> Seq<Cell> {
    Seq::new(rows.len(), |row: int| cell(state, plan, rows, row, op))
}

/// All the maps after one takes its entries over from its table. Which keys count as written stays
/// as it is.
pub open spec fn take_over(
    state: StateView,
    name: Seq<char>,
    entries: Map<Seq<char>, Option<Seq<char>>>,
) -> StateView {
    state.insert(name, MapView { entries, ..state[name] })
}

/// All the maps right after a checkpoint.
pub open spec fn saved(state: StateView) -> StateView {
    state.map_values(|map: MapView| map.clean())
}

/// Whether every operation has its map.
pub open spec fn maps_known(state: StateView, plan: Seq<OpView>) -> bool {
    forall|i: int| 0 <= i < plan.len() ==> state.contains_key(#[trigger] plan[i].map)
}

/// Operations keep the names of the maps.
pub proof fn lemma_run_ops_dom(
    state: StateView,
    plan: Seq<OpView>,
    row: Seq<OpArgs>,
    count: nat,
)
    requires
        maps_known(state, plan),
        count <= plan.len(),
    ensures
        run_ops(state, plan, row, count).dom() == state.dom(),
    decreases count,
{
    if count > 0 {
        lemma_run_ops_dom(state, plan, row, (count - 1) as nat);
        assert(state.contains_key(plan[count - 1].map));
        assert(run_ops(state, plan, row, count).dom() =~= state.dom());
    }
}

/// Rows keep the names of the maps.
pub proof fn lemma_run_rows_dom(state: StateView, plan: Seq<OpView>, rows: Seq<Seq<OpArgs>>)
    requires
        maps_known(state, plan),
    ensures
        run_rows(state, plan, rows).dom() == state.dom(),
    decreases rows.len(),
{
    if rows.len() > 0 {
        lemma_run_rows_dom(state, plan, rows.drop_last());
        let before = run_rows(state, plan, rows.drop_last());
        assert forall|i: int| 0 <= i < plan.len() implies before.contains_key(
            #[trigger] plan[i].map,
        ) by {
            assert(state.contains_key(plan[i].map));
        }
        lemma_run_ops_dom(before, plan, rows.last(), plan.len());
    }
}

} // verus!
