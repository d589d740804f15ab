//! What holds of the operator as a whole.
use arrow_schema::Schema;
use datafusion::error::DataFusionError;
use datafusion::logical_expr::ColumnarValue;
use vstd::prelude::*;

use crate::columns::{batch_rows, Batch};
use crate::evaluation::{ExprField, ProcessError};
use crate::model::{
    answer, cell, column, lemma_run_ops_dom, lemma_run_rows_dom, maps_known, run_ops, run_rows,
    saved, step, step_map, take_over, written, Cell, MapView, OpArgs, OpView, StateView,
};
use crate::ops::StateOpType;
use crate::processor::{
    batch_gives, empty_maps, has_dirty, is_checkpoint, ops_evaluate, ops_fail, plan_of, rows_give, rows_of, written_names, BatchOutcome,
    StatefulProcessorFunc, TableWrites,
};
use crate::results::EvaluatedOp;
use crate::schema::ColumnType;
use crate::state::{entries_map, entry_texts};

verus! {

/// The arguments of a read or a delete of a key.
pub open spec fn of_key(key: Seq<char>) -> OpArgs {
    OpArgs { key: Some(key), value: None, condition: None }
}

/// A read after a write gives back what was written, and so does the write.
pub proof fn law_get_after_put(map: MapView, key: Seq<char>, value: Seq<char>, args: OpArgs)
    requires
        args.key == Some(key),
        args.value == Some(value),
    ensures
        answer(StateOpType::StatePut, map, args) == Cell::Str(Some(value)),
        answer(StateOpType::StateGet, step_map(StateOpType::StatePut, map, args), of_key(key))
            == Cell::Str(Some(value)),
{
}

/// An upsert leaves a live value as it is and answers with it.
pub proof fn law_upsert_keeps_live(map: MapView, key: Seq<char>, args: OpArgs)
    requires
        args.key == Some(key),
        map.live(key) is Some,
    ensures
        step_map(StateOpType::StateUpsert, map, args) == map,
        answer(StateOpType::StateUpsert, map, args) == Cell::Str(map.live(key)),
{
}

/// An upsert answers with what is live after it, and a second one answers the same whatever
/// value it brings, unless the first found nothing and wrote nothing.
pub proof fn law_upsert_answers_live(map: MapView, key: Seq<char>, first: OpArgs, second: OpArgs)
    requires
        first.key == Some(key),
        second.key == Some(key),
    ensures
        answer(StateOpType::StateUpsert, map, first) == Cell::Str(
            step_map(StateOpType::StateUpsert, map, first).live(key),
        ),
        step_map(StateOpType::StateUpsert, map, first).live(key) is Some ==> {
            let after = step_map(StateOpType::StateUpsert, map, first);
            &&& answer(StateOpType::StateUpsert, after, second) == answer(
                StateOpType::StateUpsert,
                map,
                first,
            )
            &&& step_map(StateOpType::StateUpsert, after, second) == after
        },
{
}

/// An update answers whether it wrote: it writes exactly where it has a key, a value and a
/// condition that holds, and a read then gives the value; else nothing changes.
pub proof fn law_update(map: MapView, args: OpArgs)
    ensures
        ({
            let after = step_map(StateOpType::StateUpdate, map, args);
            let writes = args.key is Some && args.value is Some && args.condition == Some(true);
            &&& answer(StateOpType::StateUpdate, map, args) == Cell::Bool(writes)
            &&& writes ==> answer(StateOpType::StateGet, after, of_key(args.key->Some_0))
                == Cell::Str(args.value)
            &&& !writes ==> after == map
        }),
{
}

/// A delete answers whether the key was live. After it a read gives null, a second delete
/// answers false, and the map keeps a tombstone that the next checkpoint writes.
pub proof fn law_delete(map: MapView, key: Seq<char>, args: OpArgs)
    requires
        args.key == Some(key),
    ensures
        ({
            let after = step_map(StateOpType::StateDelete, map, args);
            &&& answer(StateOpType::StateDelete, map, args) == Cell::Bool(map.live(key) is Some)
            &&& answer(StateOpType::StateGet, after, of_key(key)) == Cell::Str(None)
            &&& answer(StateOpType::StateDelete, after, of_key(key)) == Cell::Bool(false)
            &&& after.dirty_entries().contains_pair(key, None)
        }),
{
}

/// A deleted key can be written again by an upsert.
pub proof fn law_upsert_after_delete(
    map: MapView,
    key: Seq<char>,
    value: Seq<char>,
    delete: OpArgs,
    upsert: OpArgs,
)
    requires
        delete.key == Some(key),
        upsert.key == Some(key),
        upsert.value == Some(value),
    ensures
        ({
            let deleted = step_map(StateOpType::StateDelete, map, delete);
            let after = step_map(StateOpType::StateUpsert, deleted, upsert);
            &&& answer(StateOpType::StateUpsert, deleted, upsert) == Cell::Str(Some(value))
            &&& after.live(key) == Some(value)
        }),
{
}

/// A null key changes nothing and is answered with null or false.
pub proof fn law_null_key(op_type: StateOpType, map: MapView, args: OpArgs)
    requires
        args.key is None,
    ensures
        step_map(op_type, map, args) == map,
        answer(op_type, map, args) == (match op_type.answers() {
            ColumnType::Utf8 => Cell::Str(None),
            ColumnType::Boolean => Cell::Bool(false),
        }),
{
}

/// A read changes nothing.
pub proof fn law_get_changes_nothing(map: MapView, args: OpArgs)
    ensures
        step_map(StateOpType::StateGet, map, args) == map,
{
}

/// A write, upsert or update without a value changes nothing.
pub proof fn law_null_value(op_type: StateOpType, map: MapView, args: OpArgs)
    requires
        args.value is None,
        op_type is StatePut || op_type is StateUpsert || op_type is StateUpdate,
    ensures
        step_map(op_type, map, args) == map,
{
}

/// Every answer is of the type of its operation's column.
pub proof fn law_answer_type(op_type: StateOpType, map: MapView, args: OpArgs)
    ensures
        op_type.answers() == ColumnType::Utf8 <==> answer(op_type, map, args) is Str,
        op_type.answers() == ColumnType::Boolean <==> answer(op_type, map, args) is Bool,
{
}

/// An operation touches no map but its own and there no key but its own.
pub proof fn law_touches_own_key(
    state: StateView,
    op: OpView,
    args: OpArgs,
    name: Seq<char>,
    key: Seq<char>,
)
    requires
        state.contains_key(op.map),
        state.contains_key(name),
        name != op.map || args.key != Some(key),
    ensures
        ({
            let before = state[name];
            let after = step(state, op, args)[name];
            &&& step(state, op, args).dom() == state.dom()
            &&& after.entries.contains_key(key) == before.entries.contains_key(key)
            &&& after.entries[key] == before.entries[key]
            &&& after.live(key) == before.live(key)
            &&& after.dirty.contains(key) == before.dirty.contains(key)
        }),
{
    assert(step(state, op, args).dom() =~= state.dom());
}

/// A key keeps its entry through the operations of a row that do not write it, so that a read
/// gives what the latest write before it left, in the same row or in one before.
pub proof fn law_entry_stays(
    state: StateView,
    plan: Seq<OpView>,
    row: Seq<OpArgs>,
    name: Seq<char>,
    key: Seq<char>,
    from: nat,
    to: nat,
)
    requires
        maps_known(state, plan),
        state.contains_key(name),
        from <= to <= plan.len(),
        forall|i: int|
            from <= i < to ==> {
                ||| (#[trigger] plan[i]).map != name
                ||| row[i].key != Some(key)
                ||| written(
                    plan[i].op_type,
                    run_ops(state, plan, row, i as nat)[name],
                    row[i],
                ) is None
            },
    ensures
        run_ops(state, plan, row, to)[name].live(key) == run_ops(state, plan, row, from)[name].live(
            key,
        ),
    decreases to,
{
    if from < to {
        let last = (to - 1) as nat;
        law_entry_stays(state, plan, row, name, key, from, last);
        lemma_run_ops_dom(state, plan, row, last);
        assert(plan[last as int].map != name || row[last as int].key != Some(key) || written(
            plan[last as int].op_type,
            run_ops(state, plan, row, last)[name],
            row[last as int],
        ) is None);
    }
}

/// Rows may be cut into batches anywhere: the maps and the answers come out the same.
pub proof fn law_batches_split(
    state: StateView,
    plan: Seq<OpView>,
    first: Seq<Seq<OpArgs>>,
    second: Seq<Seq<OpArgs>>,
)
    ensures
        run_rows(state, plan, first + second) == run_rows(
            run_rows(state, plan, first),
            plan,
            second,
        ),
        forall|op: int|
            0 <= op < plan.len() ==> #[trigger] column(state, plan, first + second, op) == column(
                state,
                plan,
                first,
                op,
            ) + column(run_rows(state, plan, first), plan, second, op),
{
    let all = first + second;
    let middle = run_rows(state, plan, first);
    lemma_split_state(state, plan, first, second);
    assert forall|op: int| 0 <= op < plan.len() implies #[trigger] column(state, plan, all, op)
        == column(state, plan, first, op) + column(middle, plan, second, op) by {
        let split = column(state, plan, first, op) + column(middle, plan, second, op);
        assert forall|row: int| 0 <= row < all.len() implies cell(state, plan, all, row, op)
            == #[trigger] split[row] by {
            if row < first.len() {
                assert(all.take(row) =~= first.take(row));
            } else {
                let at = row - first.len();
                assert(all.take(row) =~= first + second.take(at));
                lemma_split_state(state, plan, first, second.take(at));
            }
        }
        assert(column(state, plan, all, op) =~= split);
    }
}

/// The maps after two runs of rows.
proof fn lemma_split_state(
    state: StateView,
    plan: Seq<OpView>,
    first: Seq<Seq<OpArgs>>,
    second: Seq<Seq<OpArgs>>,
)
    ensures
        run_rows(state, plan, first + second) == run_rows(
            run_rows(state, plan, first),
            plan,
            second,
        ),
    decreases second.len(),
{
    let all = first + second;
    if second.len() == 0 {
        assert(all =~= first);
    } else {
        assert(all.drop_last() =~= first + second.drop_last());
        lemma_split_state(state, plan, first, second.drop_last());
    }
}

/// The tables that maps are kept in, by name.
pub type TablesView = Map<Seq<char>, Map<Seq<char>, Option<Seq<char>>>>;

/// Whether tables together with the keys written since the last checkpoint give the maps.
pub open spec fn tables_track(tables: TablesView, state: StateView) -> bool {
    forall|name: Seq<char>| #[trigger] state.contains_key(name) ==> state[name].tracks(tables[name])
}

/// The tables after a checkpoint's writes.
pub open spec fn after_writes(tables: TablesView, writes: Seq<TableWrites>) -> TablesView
    decreases writes.len(),
{
    if writes.len() == 0 {
        tables
    } else {
        let before = after_writes(tables, writes.drop_last());
        let name = writes.last().map_name@;
        before.insert(
            name,
            before[name].union_prefer_right(entries_map(entry_texts(writes.last().entries@))),
        )
    }
}

/// A map that was just taken over from its table is tracked by it.
pub proof fn law_restored_is_tracked(table: Map<Seq<char>, Option<Seq<char>>>)
    ensures
        (MapView { entries: table, dirty: Set::empty() }).tracks(table),
{
    let map = MapView { entries: table, dirty: Set::empty() };
    assert(table.union_prefer_right(map.dirty_entries()) =~= map.entries);
}

/// An operation keeps a map tracked: what it writes it marks.
proof fn lemma_step_tracks(
    table: Map<Seq<char>, Option<Seq<char>>>,
    op_type: StateOpType,
    map: MapView,
    args: OpArgs,
)
    requires
        map.tracks(table),
    ensures
        step_map(op_type, map, args).tracks(table),
{
    let after = step_map(op_type, map, args);
    let was = table.union_prefer_right(map.dirty_entries());
    let now = table.union_prefer_right(after.dirty_entries());
    assert(was == map.entries);
    assert forall|key: Seq<char>| now.contains_key(key) == after.entries.contains_key(key) && (
    now.contains_key(key) ==> now[key] == after.entries[key]) by {
        assert(was.contains_key(key) == map.entries.contains_key(key));
        if was.contains_key(key) {
            assert(was[key] == map.entries[key]);
        }
    }
    assert(now =~= after.entries);
}

/// The operations of a row keep the maps tracked.
proof fn lemma_ops_track(
    tables: TablesView,
    state: StateView,
    plan: Seq<OpView>,
    row: Seq<OpArgs>,
    count: nat,
)
    requires
        maps_known(state, plan),
        count <= plan.len(),
        tables_track(tables, state),
    ensures
        tables_track(tables, run_ops(state, plan, row, count)),
    decreases count,
{
    if count > 0 {
        let before = run_ops(state, plan, row, (count - 1) as nat);
        lemma_ops_track(tables, state, plan, row, (count - 1) as nat);
        lemma_run_ops_dom(state, plan, row, (count - 1) as nat);
        let op = plan[count - 1];
        assert(before.contains_key(op.map));
        lemma_step_tracks(tables[op.map], op.op_type, before[op.map], row[count - 1]);
    }
}

/// Rows keep the maps tracked: whatever differs from a table is marked as written.
pub proof fn law_rows_keep_tracking(
    tables: TablesView,
    state: StateView,
    plan: Seq<OpView>,
    rows: Seq<Seq<OpArgs>>,
)
    requires
        maps_known(state, plan),
        tables_track(tables, state),
    ensures
        tables_track(tables, run_rows(state, plan, rows)),
    decreases rows.len(),
{
    if rows.len() > 0 {
        let before = run_rows(state, plan, rows.drop_last());
        law_rows_keep_tracking(tables, state, plan, rows.drop_last());
        lemma_run_rows_dom(state, plan, rows.drop_last());
        assert forall|i: int| 0 <= i < plan.len() implies before.contains_key(
            #[trigger] plan[i].map,
        ) by {
            assert(state.contains_key(plan[i].map));
        }
        lemma_ops_track(tables, before, plan, rows.last(), plan.len());
    }
}

/// A table after some of a checkpoint's writes: as before where none was to it, else the map's
/// entries.
proof fn lemma_writes_prefix(
    tables: TablesView,
    state: StateView,
    writes: Seq<TableWrites>,
    name: Seq<char>,
)
    requires
        state[name].tracks(tables[name]),
        forall|i: int|
            0 <= i < writes.len() ==> entries_map(entry_texts((#[trigger] writes[i]).entries@))
                == state[writes[i].map_name@].dirty_entries(),
    ensures
        written_names(writes).contains(name) ==> after_writes(tables, writes)[name]
            == state[name].entries,
        !written_names(writes).contains(name) ==> after_writes(tables, writes)[name]
            == tables[name],
    decreases writes.len(),
{
    if writes.len() > 0 {
        let before = writes.drop_last();
        lemma_writes_prefix(tables, state, before, name);
        let last = writes.last();
        assert(last == writes[writes.len() - 1]);
        assert(written_names(writes) =~= written_names(before).push(last.map_name@));
        let names = written_names(writes);
        assert(names[writes.len() - 1] == last.map_name@);
        if written_names(before).contains(name) {
            let i = choose|i: int|
                0 <= i < written_names(before).len() && written_names(before)[i] == name;
            assert(names[i] == name);
        }
        if names.contains(name) && last.map_name@ != name {
            let i = choose|i: int| 0 <= i < names.len() && names[i] == name;
            assert(written_names(before)[i] == name);
        }
        if last.map_name@ == name {
            let map = state[name];
            let was = after_writes(tables, before)[name];
            assert(was.union_prefer_right(map.dirty_entries()) =~= map.entries) by {
                if was == map.entries {
                    assert(map.entries.union_prefer_right(map.dirty_entries()) =~= map.entries);
                }
            }
        }
    }
}

/// A checkpoint loses nothing: once its writes are in the tables, every table holds its map's
/// entries, so that an operator which takes the tables over has the maps as they stood.
pub proof fn law_checkpoint_restores(
    tables: TablesView,
    state: StateView,
    names: Seq<Seq<char>>,
    writes: Seq<TableWrites>,
)
    requires
        state.dom() == names.to_set(),
        tables_track(tables, state),
        is_checkpoint(state, names, writes),
    ensures
        forall|name: Seq<char>| #[trigger]
            state.contains_key(name) ==> {
                &&& after_writes(tables, writes)[name] == state[name].entries
                &&& (MapView {
                    entries: after_writes(tables, writes)[name],
                    dirty: Set::empty(),
                }) == state[name].clean()
            },
{
    assert forall|name: Seq<char>| #[trigger] state.contains_key(name) implies after_writes(
        tables,
        writes,
    )[name] == state[name].entries by {
        lemma_writes_prefix(tables, state, writes, name);
        let dirty = |other: Seq<char>| has_dirty(state, other);
        if !written_names(writes).contains(name) {
            assert(names.to_set().contains(name));
            let i = choose|i: int| 0 <= i < names.len() && names[i] == name;
            if has_dirty(state, name) {
                assert(dirty(names[i]));
                names.lemma_filter_contains(dirty, i);
            }
            let map = state[name];
            assert(map.dirty_entries() =~= Map::empty());
            assert(tables[name].union_prefer_right(map.dirty_entries()) =~= tables[name]);
        }
    }
}

/// After a checkpoint the tables track the maps again, with no key marked.
pub proof fn law_checkpoint_keeps_tracking(
    tables: TablesView,
    state: StateView,
    names: Seq<Seq<char>>,
    writes: Seq<TableWrites>,
)
    requires
        state.dom() == names.to_set(),
        tables_track(tables, state),
        is_checkpoint(state, names, writes),
    ensures
        tables_track(after_writes(tables, writes), saved(state)),
{
    let cleaned = saved(state);
    law_checkpoint_restores(tables, state, names, writes);
    assert forall|name: Seq<char>| #[trigger] cleaned.contains_key(name) implies cleaned[name].tracks(
        after_writes(tables, writes)[name],
    ) by {
        assert(state.contains_key(name));
        law_restored_is_tracked(after_writes(tables, writes)[name]);
    }
}

/// The maps after they are taken over from their tables, name by name.
pub open spec fn restore_maps(
    state: StateView,
    tables: TablesView,
    names: Seq<Seq<char>>,
) -> StateView
    decreases names.len(),
{
    if names.len() == 0 {
        state
    } else {
        let before = restore_maps(state, tables, names.drop_last());
        take_over(before, names.last(), tables[names.last()])
    }
}

/// The maps that start with no key marked, after some are taken over.
proof fn lemma_restore_prefix(state: StateView, tables: TablesView, names: Seq<Seq<char>>)
    requires
        forall|name: Seq<char>| #[trigger] names.contains(name) ==> state.contains_key(name),
        forall|name: Seq<char>| #[trigger]
            state.contains_key(name) ==> state[name].dirty == Set::<Seq<char>>::empty(),
    ensures
        ({
            let after = restore_maps(state, tables, names);
            &&& after.dom() == state.dom()
            &&& forall|name: Seq<char>| #[trigger]
                state.contains_key(name) ==> {
                    &&& after[name].dirty == Set::<Seq<char>>::empty()
                    &&& after[name].entries == (if names.contains(name) {
                        tables[name]
                    } else {
                        state[name].entries
                    })
                }
        }),
    decreases names.len(),
{
    if names.len() > 0 {
        let rest = names.drop_last();
        let last = names.last();
        assert forall|name: Seq<char>| #[trigger] names.contains(name) <==> rest.contains(name)
            || name == last by {
            if rest.contains(name) {
                let i = choose|i: int| 0 <= i < rest.len() && rest[i] == name;
                assert(names[i] == name);
            }
            if name == last {
                assert(names[names.len() - 1] == name);
            }
            if names.contains(name) && name != last {
                let i = choose|i: int| 0 <= i < names.len() && names[i] == name;
                assert(rest[i] == name);
            }
        }
        assert forall|name: Seq<char>| #[trigger] rest.contains(name) implies state.contains_key(
            name,
        ) by {
            assert(names.contains(name));
        }
        lemma_restore_prefix(state, tables, rest);
        assert(names.contains(last));
        assert(restore_maps(state, tables, names).dom() =~= state.dom());
    }
}

/// A restart gives the maps back: an operator that starts empty and takes the tables over after
/// a checkpoint has every entry, tombstones included, with no key marked.
pub proof fn law_restart(
    tables: TablesView,
    state: StateView,
    names: Seq<Seq<char>>,
    writes: Seq<TableWrites>,
)
    requires
        state.dom() == names.to_set(),
        tables_track(tables, state),
        is_checkpoint(state, names, writes),
    ensures
        restore_maps(empty_maps(names.to_set()), after_writes(tables, writes), names)
            == saved(state),
{
    let empty = empty_maps(names.to_set());
    let cleaned = saved(state);
    let held = after_writes(tables, writes);
    assert forall|name: Seq<char>| #[trigger] names.contains(name) implies empty.contains_key(
        name,
    ) by {
        assert(names.to_set().contains(name));
    }
    lemma_restore_prefix(empty, held, names);
    law_checkpoint_restores(tables, state, names, writes);
    let after = restore_maps(empty, held, names);
    assert(after.dom() =~= cleaned.dom());
    assert forall|name: Seq<char>| #[trigger] after.contains_key(name) implies after[name]
        == cleaned[name] by {
        assert(empty.contains_key(name));
        assert(names.to_set().contains(name));
        assert(state.contains_key(name));
    }
    assert(after =~= cleaned);
}

/// A checkpoint right after another one writes nothing.
pub proof fn law_second_checkpoint_is_empty(
    state: StateView,
    names: Seq<Seq<char>>,
    writes: Seq<TableWrites>,
)
    requires
        state.dom() == names.to_set(),
        is_checkpoint(saved(state), names, writes),
    ensures
        writes.len() == 0,
{
    let cleaned = saved(state);
    let dirty = |name: Seq<char>| has_dirty(cleaned, name);
    if writes.len() > 0 {
        let name = written_names(writes)[0];
        assert(names.filter(dirty).contains(name));
        names.lemma_filter_contains_rev(dirty, name);
        names.lemma_filter_pred(dirty, 0);
        assert(names.to_set().contains(name));
        assert(cleaned.contains_key(name));
        assert(cleaned[name].dirty =~= Set::empty());
    }
}

/// Whether a map has only grown into another one: no entry and no mark has gone, whatever differs
/// is marked, and every new mark is on an entry.
pub open spec fn grows(before: MapView, after: MapView) -> bool {
    &&& before.entries.dom().subset_of(after.entries.dom())
    &&& before.dirty.subset_of(after.dirty)
    &&& forall|key: Seq<char>|
        !(#[trigger] after.dirty.contains(key)) ==> {
            &&& after.entries.contains_key(key) == before.entries.contains_key(key)
            &&& after.entries.contains_key(key) ==> after.entries[key] == before.entries[key]
        }
    &&& forall|key: Seq<char>| #[trigger]
        after.dirty.contains(key) && !before.dirty.contains(key) ==> after.entries.contains_key(key)
}

/// Growing twice is growing.
proof fn lemma_grows_on(before: MapView, middle: MapView, after: MapView)
    requires
        grows(before, middle),
        grows(middle, after),
    ensures
        grows(before, after),
{
    assert forall|key: Seq<char>| !(#[trigger] after.dirty.contains(key)) implies {
        &&& after.entries.contains_key(key) == before.entries.contains_key(key)
        &&& after.entries.contains_key(key) ==> after.entries[key] == before.entries[key]
    } by {
        assert(!middle.dirty.contains(key));
    }
    assert forall|key: Seq<char>| #[trigger]
        after.dirty.contains(key) && !before.dirty.contains(key) implies after.entries.contains_key(
        key,
    ) by {
        if middle.dirty.contains(key) {
            assert(middle.entries.dom().contains(key));
        }
    }
}

/// Operations grow a map.
proof fn lemma_ops_grow(
    state: StateView,
    plan: Seq<OpView>,
    row: Seq<OpArgs>,
    count: nat,
    name: Seq<char>,
)
    requires
        maps_known(state, plan),
        state.contains_key(name),
        count <= plan.len(),
    ensures
        grows(state[name], run_ops(state, plan, row, count)[name]),
        (forall|i: int| 0 <= i < plan.len() ==> (#[trigger] plan[i]).map != name) ==> run_ops(
            state,
            plan,
            row,
            count,
        )[name] == state[name],
    decreases count,
{
    if count > 0 {
        let before = run_ops(state, plan, row, (count - 1) as nat);
        let after = run_ops(state, plan, row, count);
        lemma_ops_grow(state, plan, row, (count - 1) as nat, name);
        assert(grows(before[name], after[name]));
        lemma_grows_on(state[name], before[name], after[name]);
        assert(plan[count - 1].map == name || after[name] == before[name]);
    }
}

/// Rows keep the set of maps and grow every map; a map that no operation names stays as it was.
pub proof fn law_rows_grow(
    state: StateView,
    plan: Seq<OpView>,
    rows: Seq<Seq<OpArgs>>,
    name: Seq<char>,
)
    requires
        maps_known(state, plan),
        state.contains_key(name),
    ensures
        run_rows(state, plan, rows).dom() == state.dom(),
        grows(state[name], run_rows(state, plan, rows)[name]),
        (forall|i: int| 0 <= i < plan.len() ==> (#[trigger] plan[i]).map != name) ==> run_rows(
            state,
            plan,
            rows,
        )[name] == state[name],
    decreases rows.len(),
{
    lemma_run_rows_dom(state, plan, rows);
    if rows.len() > 0 {
        let middle = run_rows(state, plan, rows.drop_last());
        law_rows_grow(state, plan, rows.drop_last(), name);
        lemma_run_rows_dom(state, plan, rows.drop_last());
        assert forall|i: int| 0 <= i < plan.len() implies middle.contains_key(
            #[trigger] plan[i].map,
        ) by {
            assert(state.contains_key(plan[i].map));
        }
        lemma_ops_grow(middle, plan, rows.last(), plan.len(), name);
        lemma_grows_on(state[name], middle[name], run_rows(state, plan, rows)[name]);
    }
}

/// Whatever comes of a batch, the set of maps stays, every map has only grown, and a map that no
/// operation names is as it was.
pub proof fn law_batch_grows<
    E,
    F: Fn(&E, &Batch) -> Result<ColumnarValue, DataFusionError>,
    G: Fn(&E, &Schema) -> Result<ExprField, DataFusionError>,
>(
    eval: F,
    describe: G,
    func: StatefulProcessorFunc<E>,
    batch: Batch,
    evaluated: Seq<EvaluatedOp>,
    after: StateView,
    outcome: Result<BatchOutcome, ProcessError>,
    name: Seq<char>,
)
    requires
        rows_give(eval, describe, func, batch, evaluated, after, outcome),
        func.state().contains_key(name),
    ensures
        after.dom() == func.state().dom(),
        grows(func.state()[name], after[name]),
        (forall|i: int| 0 <= i < func.ops().len() ==> (#[trigger] func.ops()[i]).map_name@ != name)
            ==> after[name] == func.state()[name],
{
    let plan = plan_of(func.ops());
    let rows = rows_of(func.ops(), evaluated, batch_rows(batch));
    if maps_known(func.state(), plan) {
        law_rows_grow(func.state(), plan, rows, name);
        assert forall|i: int|
            0 <= i < plan.len() && (forall|j: int|
                0 <= j < func.ops().len() ==> (#[trigger] func.ops()[j]).map_name@
                    != name) implies (#[trigger] plan[i]).map != name by {
            assert(func.ops()[i].map_name@ != name);
        }
    }
}

/// Whatever a call on a batch gives, error or not, the set of maps stays, every map has only grown,
/// and a map that no operation names is as it was. Where an operation's expression fails, nothing
/// has changed at all.
pub proof fn law_call_grows<
    E,
    F: Fn(&E, &Batch) -> Result<ColumnarValue, DataFusionError>,
    G: Fn(&E, &Schema) -> Result<ExprField, DataFusionError>,
>(
    eval: F,
    describe: G,
    func: StatefulProcessorFunc<E>,
    batch: Batch,
    after: StateView,
    outcome: Result<BatchOutcome, ProcessError>,
    name: Seq<char>,
)
    requires
        batch_gives(eval, describe, func, batch, after, outcome),
        func.state().contains_key(name),
    ensures
        after.dom() == func.state().dom(),
        grows(func.state()[name], after[name]),
        (forall|i: int| 0 <= i < func.ops().len() ==> (#[trigger] func.ops()[i]).map_name@ != name)
            ==> after[name] == func.state()[name],
        (forall|evaluated: Seq<EvaluatedOp>|
            !#[trigger] ops_evaluate(eval, func.ops(), batch, evaluated)) ==> {
            &&& after == func.state()
            &&& outcome matches Err(ProcessError::Expression(error)) && ops_fail(
                eval,
                func.ops(),
                batch,
                error,
            )
        },
{
    if exists|evaluated: Seq<EvaluatedOp>|
        {
            &&& #[trigger] ops_evaluate(eval, func.ops(), batch, evaluated)
            &&& rows_give(eval, describe, func, batch, evaluated, after, outcome)
        } {
        let evaluated = choose|evaluated: Seq<EvaluatedOp>|
            {
                &&& #[trigger] ops_evaluate(eval, func.ops(), batch, evaluated)
                &&& rows_give(eval, describe, func, batch, evaluated, after, outcome)
            };
        law_batch_grows(eval, describe, func, batch, evaluated, after, outcome, name);
    }
}

/// Something that happens to a running operator.
pub enum Event {
    /// Rows are processed, in one batch or in several.
    Rows(Seq<Seq<OpArgs>>),
    /// A checkpoint makes these writes.
    Checkpoint(Seq<TableWrites>),
}

/// The maps and the tables after some events.
pub open spec fn after_events(
    state: StateView,
    tables: TablesView,
    plan: Seq<OpView>,
    events: Seq<Event>,
) -> (StateView, TablesView)
    decreases events.len(),
{
    if events.len() == 0 {
        (state, tables)
    } else {
        let (before, held) = after_events(state, tables, plan, events.drop_last());
        match events.last() {
            Event::Rows(rows) => (run_rows(before, plan, rows), held),
            Event::Checkpoint(writes) => (saved(before), after_writes(held, writes)),
        }
    }
}

/// Whether the writes of every checkpoint among some events are those that the maps call for.
pub open spec fn events_follow(
    state: StateView,
    tables: TablesView,
    plan: Seq<OpView>,
    names: Seq<Seq<char>>,
    events: Seq<Event>,
) -> bool
    decreases events.len(),
{
    events.len() == 0 || {
        &&& events_follow(state, tables, plan, names, events.drop_last())
        &&& events.last() matches Event::Checkpoint(writes) ==> is_checkpoint(
            after_events(state, tables, plan, events.drop_last()).0,
            names,
            writes,
        )
    }
}

/// Events keep the set of maps, and the tables track the maps all along.
proof fn lemma_events_track(
    state: StateView,
    tables: TablesView,
    plan: Seq<OpView>,
    names: Seq<Seq<char>>,
    events: Seq<Event>,
)
    requires
        state.dom() == names.to_set(),
        maps_known(state, plan),
        tables_track(tables, state),
        events_follow(state, tables, plan, names, events),
    ensures
        after_events(state, tables, plan, events).0.dom() == state.dom(),
        tables_track(
            after_events(state, tables, plan, events).1,
            after_events(state, tables, plan, events).0,
        ),
    decreases events.len(),
{
    if events.len() > 0 {
        lemma_events_track(state, tables, plan, names, events.drop_last());
        let (before, held) = after_events(state, tables, plan, events.drop_last());
        assert forall|i: int| 0 <= i < plan.len() implies before.contains_key(
            #[trigger] plan[i].map,
        ) by {
            assert(state.contains_key(plan[i].map));
        }
        match events.last() {
            Event::Rows(rows) => {
                lemma_run_rows_dom(before, plan, rows);
                law_rows_keep_tracking(held, before, plan, rows);
            },
            Event::Checkpoint(writes) => {
                law_checkpoint_keeps_tracking(held, before, names, writes);
                assert(saved(before).dom() =~= before.dom());
            },
        }
    }
}

/// Nothing is lost between a start and a restart: an operator that starts from any tables and goes
/// through any batches and checkpoints has, at every checkpoint, exactly the maps that a fresh
/// operator gets from the tables.
pub proof fn law_history_is_restored(
    tables: TablesView,
    plan: Seq<OpView>,
    names: Seq<Seq<char>>,
    events: Seq<Event>,
    writes: Seq<TableWrites>,
)
    requires
        maps_known(empty_maps(names.to_set()), plan),
        ({
            let start = restore_maps(empty_maps(names.to_set()), tables, names);
            events_follow(start, tables, plan, names, events.push(Event::Checkpoint(writes)))
        }),
    ensures
        ({
            let empty = empty_maps(names.to_set());
            let start = restore_maps(empty, tables, names);
            let (state, held) = after_events(
                start,
                tables,
                plan,
                events.push(Event::Checkpoint(writes)),
            );
            restore_maps(empty, held, names) == state
        }),
{
    let empty = empty_maps(names.to_set());
    let start = restore_maps(empty, tables, names);
    let all = events.push(Event::Checkpoint(writes));
    assert(all.drop_last() =~= events);
    assert forall|name: Seq<char>| #[trigger] names.contains(name) implies empty.contains_key(
        name,
    ) by {
        assert(names.to_set().contains(name));
    }
    lemma_restore_prefix(empty, tables, names);
    assert(start.dom() =~= names.to_set());
    assert forall|i: int| 0 <= i < plan.len() implies start.contains_key(
        #[trigger] plan[i].map,
    ) by {
        assert(empty.contains_key(plan[i].map));
    }
    assert forall|name: Seq<char>| #[trigger] start.contains_key(name) implies start[name].tracks(
        tables[name],
    ) by {
        assert(empty.contains_key(name));
        assert(names.to_set().contains(name));
        law_restored_is_tracked(tables[name]);
        assert(start[name] =~= MapView { entries: tables[name], dirty: Set::empty() });
    }
    lemma_events_track(start, tables, plan, names, events);
    let (before, held) = after_events(start, tables, plan, events);
    law_restart(held, before, names, writes);
}

} // verus!
