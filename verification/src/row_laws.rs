//! What holds of operations run through the rows of a batch, and from row to row.
use vstd::prelude::*;

use crate::model::{
    cell, column, lemma_run_ops_dom, lemma_run_rows_dom, maps_known, run_ops, run_rows, Cell,
    OpArgs, OpView, StateView,
};
use crate::ops::StateOpType;
use crate::state_laws::{law_step_keeps, law_step_writes};

verus! {

/// The maps as the `op`-th operation of the `row`-th row finds them.
pub open spec fn state_before(
    state: StateView,
    plan: Seq<OpView>,
    rows: Seq<Seq<OpArgs>>,
    row: int,
    op: int,
) -> StateView {
    run_ops(run_rows(state, plan, rows.take(row)), plan, rows[row], op as nat)
}

/// Whether an operation stores this entry under a key of a map, whatever is there.
pub open spec fn stores(
    op: OpView,
    args: OpArgs,
    name: Seq<char>,
    key: Seq<char>,
    entry: Option<Seq<char>>,
) -> bool {
    &&& op.map == name
    &&& args.key == Some(key)
    &&& match op.op_type {
        StateOpType::StatePut => args.value is Some && entry == args.value,
        StateOpType::StateUpdate => {
            &&& args.value is Some
            &&& entry == args.value
            &&& args.condition == Some(true)
        },
        StateOpType::StateDelete => entry is None,
        _ => false,
    }
}

/// Whether an operation stores nothing under a key of a map that holds this slot there: `None` for
/// no entry.
pub open spec fn passes_by(
    op: OpView,
    args: OpArgs,
    name: Seq<char>,
    key: Seq<char>,
    slot: Option<Option<Seq<char>>>,
) -> bool {
    ||| op.map != name
    ||| args.key != Some(key)
    ||| match op.op_type {
        StateOpType::StateGet => true,
        StateOpType::StatePut => args.value is None,
        StateOpType::StateUpsert => args.value is None || (slot matches Some(Some(_))),
        StateOpType::StateUpdate => args.value is None || args.condition != Some(true),
        StateOpType::StateDelete => false,
    }
}

/// What an operation on a key answers where the key holds this slot.
pub open spec fn answers_slot(
    op_type: StateOpType,
    args: OpArgs,
    slot: Option<Option<Seq<char>>>,
    given: Cell,
) -> bool {
    match (op_type, slot) {
        (StateOpType::StateGet, Some(entry)) => given == Cell::Str(entry),
        (StateOpType::StateGet, None) => given == Cell::Str(None),
        (StateOpType::StatePut, _) => given == Cell::Str(args.value),
        (StateOpType::StateUpsert, Some(Some(live))) => given == Cell::Str(Some(live)),
        (StateOpType::StateUpsert, _) => given == Cell::Str(args.value),
        (StateOpType::StateUpdate, _) => given == Cell::Bool(
            args.value is Some && args.condition == Some(true),
        ),
        (StateOpType::StateDelete, Some(Some(_))) => given == Cell::Bool(true),
        (StateOpType::StateDelete, _) => given == Cell::Bool(false),
    }
}

/// Whether one place in the rows comes before another: in a row before, or in the same row at an
/// operation before.
pub open spec fn earlier(row: int, op: int, later_row: int, later_op: int) -> bool {
    row < later_row || row == later_row && op < later_op
}

/// Whether there is an operation at a place.
pub open spec fn is_place(plan: Seq<OpView>, rows: Seq<Seq<OpArgs>>, row: int, op: int) -> bool {
    0 <= row < rows.len() && 0 <= op < plan.len()
}

/// The maps before the first operation of the first row are those that the rows start from; an
/// operation hands its maps to the next one, and the last one of a row to the first of the next.
proof fn lemma_places(
    state: StateView,
    plan: Seq<OpView>,
    rows: Seq<Seq<OpArgs>>,
    row: int,
)
    requires
        0 <= row < rows.len(),
    ensures
        state_before(state, plan, rows, 0, 0) == state,
        state_before(state, plan, rows, row + 1, 0) == state_before(
            state,
            plan,
            rows,
            row,
            plan.len() as int,
        ),
        state_before(state, plan, rows, rows.len() as int, 0) == run_rows(state, plan, rows),
{
    assert(rows.take(0) =~= Seq::empty());
    assert(rows.take(row + 1).drop_last() =~= rows.take(row));
    assert(rows.take(row + 1).last() == rows[row]);
    assert(rows.take(rows.len() as int) =~= rows);
}

/// Every map is there at every place.
proof fn lemma_place_dom(
    state: StateView,
    plan: Seq<OpView>,
    rows: Seq<Seq<OpArgs>>,
    row: int,
    op: int,
)
    requires
        maps_known(state, plan),
        0 <= op <= plan.len(),
    ensures
        state_before(state, plan, rows, row, op).dom() == state.dom(),
{
    let start = run_rows(state, plan, rows.take(row));
    lemma_run_rows_dom(state, plan, rows.take(row));
    assert forall|i: int| 0 <= i < plan.len() implies start.contains_key(
        #[trigger] plan[i].map,
    ) by {
        assert(state.contains_key(plan[i].map));
    }
    lemma_run_ops_dom(start, plan, rows[row], op as nat);
}

/// What a key holds, and that it is marked, stays from place to place while the operations between
/// pass it by.
proof fn lemma_slot_stays(
    state: StateView,
    plan: Seq<OpView>,
    rows: Seq<Seq<OpArgs>>,
    name: Seq<char>,
    key: Seq<char>,
    row: int,
    op: int,
    later_row: int,
    later_op: int,
)
    requires
        maps_known(state, plan),
        state.contains_key(name),
        0 <= row <= later_row <= rows.len(),
        0 <= op <= plan.len(),
        0 <= later_op <= plan.len(),
        later_row == rows.len() ==> later_op == 0,
        (row == later_row && op == later_op) || earlier(row, op, later_row, later_op),
        forall|r: int, i: int|
            #![trigger rows[r][i]]
            is_place(plan, rows, r, i) && !earlier(r, i, row, op) && earlier(
                r,
                i,
                later_row,
                later_op,
            ) ==> passes_by(
                plan[i],
                rows[r][i],
                name,
                key,
                state_before(state, plan, rows, row, op)[name].entries.get(key),
            ),
    ensures
        ({
            let before = state_before(state, plan, rows, row, op)[name];
            let after = state_before(state, plan, rows, later_row, later_op)[name];
            &&& after.entries.get(key) == before.entries.get(key)
            &&& after.dirty.contains(key) == before.dirty.contains(key)
        }),
    decreases later_row, later_op,
{
    if row == later_row && op == later_op {
    } else if later_op > 0 {
        let last = later_op - 1;
        lemma_slot_stays(state, plan, rows, name, key, row, op, later_row, last);
        lemma_place_dom(state, plan, rows, later_row, last);
        lemma_place_dom(state, plan, rows, later_row, later_op);
        let middle = state_before(state, plan, rows, later_row, last);
        assert(state.contains_key(plan[last].map));
        assert(is_place(plan, rows, later_row, last));
        let args = rows[later_row][last];
        assert(passes_by(plan[last], args, name, key, middle[name].entries.get(key)));
    } else {
        lemma_places(state, plan, rows, later_row - 1);
        lemma_slot_stays(
            state,
            plan,
            rows,
            name,
            key,
            row,
            op,
            later_row - 1,
            plan.len() as int,
        );
    }
}

/// What an operation answers at a place is fixed by what its key holds there.
proof fn lemma_place_answers(
    state: StateView,
    plan: Seq<OpView>,
    rows: Seq<Seq<OpArgs>>,
    row: int,
    op: int,
    key: Seq<char>,
)
    requires
        is_place(plan, rows, row, op),
        rows[row][op].key == Some(key),
    ensures
        answers_slot(
            plan[op].op_type,
            rows[row][op],
            state_before(state, plan, rows, row, op)[plan[op].map].entries.get(key),
            cell(state, plan, rows, row, op),
        ),
{
}

/// An operation answers by the latest write to its map and key, in its own row or in any before:
/// after a put, an update that holds or a delete, and with nothing stored under that key since, a
/// read answers the stored value, null after a delete; an upsert answers the stored value, its own
/// after a delete; a delete answers whether a value was stored. And the key is marked.
pub proof fn law_latest_write(
    state: StateView,
    plan: Seq<OpView>,
    rows: Seq<Seq<OpArgs>>,
    key: Seq<char>,
    entry: Option<Seq<char>>,
    row: int,
    op: int,
    later_row: int,
    later_op: int,
)
    requires
        maps_known(state, plan),
        is_place(plan, rows, row, op),
        is_place(plan, rows, later_row, later_op),
        earlier(row, op, later_row, later_op),
        stores(plan[op], rows[row][op], plan[later_op].map, key, entry),
        rows[later_row][later_op].key == Some(key),
        forall|r: int, i: int|
            #![trigger rows[r][i]]
            is_place(plan, rows, r, i) && earlier(row, op, r, i) && earlier(
                r,
                i,
                later_row,
                later_op,
            ) ==> passes_by(plan[i], rows[r][i], plan[later_op].map, key, Some(entry)),
    ensures
        answers_slot(
            plan[later_op].op_type,
            rows[later_row][later_op],
            Some(entry),
            cell(state, plan, rows, later_row, later_op),
        ),
        state_before(state, plan, rows, later_row, later_op)[plan[later_op].map].dirty.contains(
            key,
        ),
{
    let name = plan[later_op].map;
    lemma_stored(state, plan, rows, name, key, entry, row, op);
    lemma_slot_stays(state, plan, rows, name, key, row, op + 1, later_row, later_op);
    lemma_place_answers(state, plan, rows, later_row, later_op, key);
}

/// What a write at a place leaves for the next one.
proof fn lemma_stored(
    state: StateView,
    plan: Seq<OpView>,
    rows: Seq<Seq<OpArgs>>,
    name: Seq<char>,
    key: Seq<char>,
    entry: Option<Seq<char>>,
    row: int,
    op: int,
)
    requires
        maps_known(state, plan),
        is_place(plan, rows, row, op),
        stores(plan[op], rows[row][op], name, key, entry),
    ensures
        state.contains_key(name),
        ({
            let after = state_before(state, plan, rows, row, op + 1)[name];
            &&& after.entries.get(key) == Some(entry)
            &&& after.dirty.contains(key)
        }),
{
    lemma_place_dom(state, plan, rows, row, op);
    assert(state.contains_key(plan[op].map));
    let before = state_before(state, plan, rows, row, op);
    law_step_writes(before, plan[op], rows[row][op], key, entry);
}

/// With nothing stored under its map and key before it, an operation answers by what the rows
/// started from.
pub proof fn law_nothing_written(
    state: StateView,
    plan: Seq<OpView>,
    rows: Seq<Seq<OpArgs>>,
    key: Seq<char>,
    row: int,
    op: int,
)
    requires
        maps_known(state, plan),
        is_place(plan, rows, row, op),
        rows[row][op].key == Some(key),
        forall|r: int, i: int|
            #![trigger rows[r][i]]
            is_place(plan, rows, r, i) && earlier(r, i, row, op) ==> passes_by(
                plan[i],
                rows[r][i],
                plan[op].map,
                key,
                state[plan[op].map].entries.get(key),
            ),
    ensures
        answers_slot(
            plan[op].op_type,
            rows[row][op],
            state[plan[op].map].entries.get(key),
            cell(state, plan, rows, row, op),
        ),
{
    lemma_places(state, plan, rows, row);
    assert(state.contains_key(plan[op].map));
    lemma_slot_stays(state, plan, rows, plan[op].map, key, 0, 0, row, op);
    lemma_place_answers(state, plan, rows, row, op, key);
}

/// After all the rows a key holds what the latest write to it stored, and is marked.
pub proof fn law_rows_leave_latest_write(
    state: StateView,
    plan: Seq<OpView>,
    rows: Seq<Seq<OpArgs>>,
    name: Seq<char>,
    key: Seq<char>,
    entry: Option<Seq<char>>,
    row: int,
    op: int,
)
    requires
        maps_known(state, plan),
        is_place(plan, rows, row, op),
        stores(plan[op], rows[row][op], name, key, entry),
        forall|r: int, i: int|
            #![trigger rows[r][i]]
            is_place(plan, rows, r, i) && earlier(row, op, r, i) ==> passes_by(
                plan[i],
                rows[r][i],
                name,
                key,
                Some(entry),
            ),
    ensures
        run_rows(state, plan, rows)[name].entries.get(key) == Some(entry),
        run_rows(state, plan, rows)[name].dirty.contains(key),
{
    lemma_places(state, plan, rows, row);
    lemma_stored(state, plan, rows, name, key, entry, row, op);
    lemma_slot_stays(state, plan, rows, name, key, row, op + 1, rows.len() as int, 0);
}

/// After rows that store nothing under a key, it holds what it held and is marked as it was.
pub proof fn law_rows_keep_unwritten(
    state: StateView,
    plan: Seq<OpView>,
    rows: Seq<Seq<OpArgs>>,
    name: Seq<char>,
    key: Seq<char>,
)
    requires
        maps_known(state, plan),
        state.contains_key(name),
        forall|r: int, i: int|
            #![trigger rows[r][i]]
            is_place(plan, rows, r, i) ==> passes_by(
                plan[i],
                rows[r][i],
                name,
                key,
                state[name].entries.get(key),
            ),
    ensures
        run_rows(state, plan, rows)[name].entries.get(key) == state[name].entries.get(key),
        run_rows(state, plan, rows)[name].dirty.contains(key) == state[name].dirty.contains(key),
{
    if rows.len() > 0 {
        lemma_places(state, plan, rows, 0);
        lemma_slot_stays(state, plan, rows, name, key, 0, 0, rows.len() as int, 0);
    }
}

/// An upsert that finds no live value leaves its own, marked, for the operations after it.
pub proof fn law_upsert_leaves_value(
    state: StateView,
    plan: Seq<OpView>,
    rows: Seq<Seq<OpArgs>>,
    key: Seq<char>,
    value: Seq<char>,
    row: int,
    op: int,
)
    requires
        maps_known(state, plan),
        is_place(plan, rows, row, op),
        plan[op].op_type is StateUpsert,
        rows[row][op].key == Some(key),
        rows[row][op].value == Some(value),
        !(state_before(state, plan, rows, row, op)[plan[op].map].entries.get(key) matches Some(
            Some(_),
        )),
    ensures
        cell(state, plan, rows, row, op) == Cell::Str(Some(value)),
        state_before(state, plan, rows, row, op + 1)[plan[op].map].entries.get(key) == Some(
            Some(value),
        ),
        state_before(state, plan, rows, row, op + 1)[plan[op].map].dirty.contains(key),
{
    let before = state_before(state, plan, rows, row, op);
    lemma_place_dom(state, plan, rows, row, op);
    assert(state.contains_key(plan[op].map));
    law_step_writes(before, plan[op], rows[row][op], key, Some(value));
}

/// What an upsert or any other write has left is what the operations after it find, as long as
/// those between store nothing under the key.
pub proof fn law_left_value_is_found(
    state: StateView,
    plan: Seq<OpView>,
    rows: Seq<Seq<OpArgs>>,
    key: Seq<char>,
    row: int,
    op: int,
    later_row: int,
    later_op: int,
)
    requires
        maps_known(state, plan),
        is_place(plan, rows, row, op),
        is_place(plan, rows, later_row, later_op),
        earlier(row, op, later_row, later_op),
        rows[later_row][later_op].key == Some(key),
        forall|r: int, i: int|
            #![trigger rows[r][i]]
            is_place(plan, rows, r, i) && earlier(row, op, r, i) && earlier(
                r,
                i,
                later_row,
                later_op,
            ) ==> passes_by(
                plan[i],
                rows[r][i],
                plan[later_op].map,
                key,
                state_before(state, plan, rows, row, op + 1)[plan[later_op].map].entries.get(key),
            ),
    ensures
        answers_slot(
            plan[later_op].op_type,
            rows[later_row][later_op],
            state_before(state, plan, rows, row, op + 1)[plan[later_op].map].entries.get(key),
            cell(state, plan, rows, later_row, later_op),
        ),
{
    let name = plan[later_op].map;
    assert(state.contains_key(name));
    lemma_slot_stays(state, plan, rows, name, key, row, op + 1, later_row, later_op);
    lemma_place_answers(state, plan, rows, later_row, later_op, key);
}

/// An operation without a key answers null or false, and the next one finds the maps as it did.
pub proof fn law_null_key_in_row(
    state: StateView,
    plan: Seq<OpView>,
    rows: Seq<Seq<OpArgs>>,
    row: int,
    op: int,
)
    requires
        maps_known(state, plan),
        is_place(plan, rows, row, op),
        rows[row][op].key is None,
    ensures
        plan[op].op_type is StateGet || plan[op].op_type is StatePut || plan[op].op_type is StateUpsert
            ==> cell(state, plan, rows, row, op) == Cell::Str(None),
        plan[op].op_type is StateUpdate || plan[op].op_type is StateDelete ==> cell(
            state,
            plan,
            rows,
            row,
            op,
        ) == Cell::Bool(false),
        state_before(state, plan, rows, row, op + 1) == state_before(state, plan, rows, row, op),
{
    let before = state_before(state, plan, rows, row, op);
    lemma_place_dom(state, plan, rows, row, op);
    assert(state.contains_key(plan[op].map));
    law_step_keeps(before, plan[op], rows[row][op]);
}

/// A column of answers has one for each row, each the answer that its operation gave there; and
/// what comes in later rows changes no answer.
pub proof fn law_column(
    state: StateView,
    plan: Seq<OpView>,
    rows: Seq<Seq<OpArgs>>,
    more: Seq<Seq<OpArgs>>,
    op: int,
    row: int,
)
    requires
        0 <= op < plan.len(),
        0 <= row < rows.len(),
    ensures
        column(state, plan, rows, op).len() == rows.len(),
        column(state, plan, rows, op)[row] == cell(state, plan, rows, row, op),
        cell(state, plan, rows + more, row, op) == cell(state, plan, rows, row, op),
{
    assert((rows + more).take(row) =~= rows.take(row));
}

/// The operations that follow in a row change no answer and no map that an operation finds.
pub proof fn law_later_operations_do_not_matter(
    state: StateView,
    plan: Seq<OpView>,
    other_plan: Seq<OpView>,
    row: Seq<OpArgs>,
    other_row: Seq<OpArgs>,
    op: int,
)
    requires
        0 <= op < plan.len(),
        op < other_plan.len(),
        op < row.len(),
        op < other_row.len(),
        forall|i: int| 0 <= i <= op ==> #[trigger] plan[i] == other_plan[i],
        forall|i: int| 0 <= i <= op ==> #[trigger] row[i] == other_row[i],
    ensures
        cell(state, plan, seq![row], 0, op) == cell(state, other_plan, seq![other_row], 0, op),
{
    assert(seq![row].take(0) =~= Seq::empty());
    assert(seq![other_row].take(0) =~= Seq::empty());
    lemma_same_prefix(state, plan, other_plan, row, other_row, op as nat);
}

/// The maps after operations that are the same.
proof fn lemma_same_prefix(
    state: StateView,
    plan: Seq<OpView>,
    other_plan: Seq<OpView>,
    row: Seq<OpArgs>,
    other_row: Seq<OpArgs>,
    count: nat,
)
    requires
        forall|i: int| 0 <= i < count ==> #[trigger] plan[i] == other_plan[i],
        forall|i: int| 0 <= i < count ==> #[trigger] row[i] == other_row[i],
    ensures
        run_ops(state, plan, row, count) == run_ops(state, other_plan, other_row, count),
    decreases count,
{
    if count > 0 {
        lemma_same_prefix(state, plan, other_plan, row, other_row, (count - 1) as nat);
        assert(plan[count - 1] == other_plan[count - 1]);
        assert(row[count - 1] == other_row[count - 1]);
    }
}

/// No rows change nothing.
pub proof fn law_no_rows(state: StateView, plan: Seq<OpView>)
    ensures
        run_rows(state, plan, Seq::empty()) == state,
{
}

} // verus!
