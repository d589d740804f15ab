//! What each operation does to the maps and what it answers, in terms of entries and marks.
use vstd::prelude::*;

use crate::laws::of_key;
use crate::model::{
    answer, maps_known, saved, step, step_map, take_over, Cell, MapView, OpArgs, OpView, StateView,
};
use crate::ops::StateOpType;
use crate::schema::ColumnType;
use crate::state::{entries_map, entry_texts, text_of, Answer, RowArgs};

verus! {

/// A key is live under the string of its entry; a tombstone or a missing entry is not live.
pub proof fn law_live(map: MapView, key: Seq<char>)
    ensures
        map.live(key) is Some <==> map.entries.contains_key(key) && map.entries[key] is Some,
        map.live(key) is Some ==> map.live(key) == map.entries[key],
{
}

/// A read answers the entry under its key, null for a tombstone or no entry, and changes nothing.
pub proof fn law_get(map: MapView, args: OpArgs)
    ensures
        step_map(StateOpType::StateGet, map, args) == map,
        args.key matches Some(key) ==> {
            &&& map.entries.contains_key(key) ==> answer(StateOpType::StateGet, map, args)
                == Cell::Str(map.entries[key])
            &&& !map.entries.contains_key(key) ==> answer(StateOpType::StateGet, map, args)
                == Cell::Str(None)
        },
        args.key is None ==> answer(StateOpType::StateGet, map, args) == Cell::Str(None),
{
}

/// Which keys are marked as written matters to no operation: maps with the same entries answer
/// alike, have the same entries afterwards, and mark the same key or none.
pub proof fn law_marks_do_not_matter(
    op_type: StateOpType,
    map: MapView,
    other: MapView,
    args: OpArgs,
)
    requires
        map.entries == other.entries,
    ensures
        answer(op_type, map, args) == answer(op_type, other, args),
        step_map(op_type, map, args).entries == step_map(op_type, other, args).entries,
        forall|key: Seq<char>|
            !map.dirty.contains(key) && !other.dirty.contains(key) ==> #[trigger] step_map(
                op_type,
                map,
                args,
            ).dirty.contains(key) == step_map(op_type, other, args).dirty.contains(key),
{
}

/// What other keys hold matters to no operation: maps that hold the same under its key answer
/// alike and hold the same under it afterwards.
pub proof fn law_other_entries_do_not_matter(
    op_type: StateOpType,
    map: MapView,
    other: MapView,
    key: Seq<char>,
    args: OpArgs,
)
    requires
        args.key == Some(key),
        map.entries.get(key) == other.entries.get(key),
    ensures
        answer(op_type, map, args) == answer(op_type, other, args),
        step_map(op_type, map, args).entries.get(key) == step_map(
            op_type,
            other,
            args,
        ).entries.get(key),
        map.dirty.contains(key) == other.dirty.contains(key) ==> step_map(
            op_type,
            map,
            args,
        ).dirty.contains(key) == step_map(op_type, other, args).dirty.contains(key),
{
}

/// An operation on one key leaves what every other key holds, how it is marked, and what a read of
/// it answers.
pub proof fn law_other_key_stays(
    op_type: StateOpType,
    map: MapView,
    args: OpArgs,
    key: Seq<char>,
)
    requires
        args.key != Some(key),
    ensures
        step_map(op_type, map, args).entries.get(key) == map.entries.get(key),
        step_map(op_type, map, args).dirty.contains(key) == map.dirty.contains(key),
        answer(StateOpType::StateGet, step_map(op_type, map, args), of_key(key)) == answer(
            StateOpType::StateGet,
            map,
            of_key(key),
        ),
{
}

/// A put with a key and a value stores the value, marks the key and answers the value, whatever
/// the map held and whatever was marked.
pub proof fn law_put(map: MapView, key: Seq<char>, value: Seq<char>, args: OpArgs)
    requires
        args.key == Some(key),
        args.value == Some(value),
    ensures
        step_map(StateOpType::StatePut, map, args).entries == map.entries.insert(key, Some(value)),
        step_map(StateOpType::StatePut, map, args).dirty == map.dirty.insert(key),
        answer(StateOpType::StatePut, map, args) == Cell::Str(Some(value)),
{
}

/// A put without a key or without a value changes nothing and answers null.
pub proof fn law_put_of_null(map: MapView, args: OpArgs)
    requires
        args.key is None || args.value is None,
    ensures
        step_map(StateOpType::StatePut, map, args) == map,
        answer(StateOpType::StatePut, map, args) == Cell::Str(None),
{
}

/// An upsert of a value for a key that is not live, by a tombstone or for want of an entry, stores
/// the value, marks the key and answers the value, whatever else the map holds.
pub proof fn law_upsert_stores(map: MapView, key: Seq<char>, value: Seq<char>, args: OpArgs)
    requires
        args.key == Some(key),
        args.value == Some(value),
        !map.entries.contains_key(key) || map.entries[key] is None,
    ensures
        step_map(StateOpType::StateUpsert, map, args).entries == map.entries.insert(
            key,
            Some(value),
        ),
        step_map(StateOpType::StateUpsert, map, args).dirty == map.dirty.insert(key),
        answer(StateOpType::StateUpsert, map, args) == Cell::Str(Some(value)),
{
}

/// An upsert for a live key changes nothing and answers what is live; one without a key, or
/// without a value for a key that is not live, changes nothing and answers null.
pub proof fn law_upsert_keeps(map: MapView, args: OpArgs)
    ensures
        args.key matches Some(key) ==> (map.entries.contains_key(key) && map.entries[key] is Some
            ==> {
            &&& step_map(StateOpType::StateUpsert, map, args) == map
            &&& answer(StateOpType::StateUpsert, map, args) == Cell::Str(map.entries[key])
        }),
        args.key is None ==> step_map(StateOpType::StateUpsert, map, args) == map && answer(
            StateOpType::StateUpsert,
            map,
            args,
        ) == Cell::Str(None),
        args.value is None && (args.key matches Some(key) ==> !map.entries.contains_key(key)
            || map.entries[key] is None) ==> step_map(StateOpType::StateUpsert, map, args) == map
            && answer(StateOpType::StateUpsert, map, args) == Cell::Str(None),
{
}

/// An update with a key, a value and a condition that holds stores the value, marks the key and
/// answers true, whatever the map held and whatever was marked.
pub proof fn law_update_stores(map: MapView, key: Seq<char>, value: Seq<char>, args: OpArgs)
    requires
        args.key == Some(key),
        args.value == Some(value),
        args.condition == Some(true),
    ensures
        step_map(StateOpType::StateUpdate, map, args).entries == map.entries.insert(
            key,
            Some(value),
        ),
        step_map(StateOpType::StateUpdate, map, args).dirty == map.dirty.insert(key),
        answer(StateOpType::StateUpdate, map, args) == Cell::Bool(true),
{
}

/// An update that lacks its key, its value or a condition that holds changes nothing and answers
/// false.
pub proof fn law_update_refused(map: MapView, args: OpArgs)
    requires
        args.key is None || args.value is None || args.condition != Some(true),
    ensures
        step_map(StateOpType::StateUpdate, map, args) == map,
        answer(StateOpType::StateUpdate, map, args) == Cell::Bool(false),
{
}

/// A delete stores a tombstone, marks the key and answers whether the key was live, whatever the
/// map held and whatever was marked; without a key it changes nothing and answers false.
pub proof fn law_delete_stores(map: MapView, args: OpArgs)
    ensures
        args.key matches Some(key) ==> {
            let after = step_map(StateOpType::StateDelete, map, args);
            &&& after.entries == map.entries.insert(key, None)
            &&& after.dirty == map.dirty.insert(key)
            &&& answer(StateOpType::StateDelete, map, args) == Cell::Bool(
                map.entries.contains_key(key) && map.entries[key] is Some,
            )
        },
        args.key is None ==> {
            &&& step_map(StateOpType::StateDelete, map, args) == map
            &&& answer(StateOpType::StateDelete, map, args) == Cell::Bool(false)
        },
{
}

/// Over all the maps: a put or an update that holds leaves exactly its value under its key in its
/// own map, marked, and a delete a tombstone, whatever was there and whatever was marked. No other
/// map changes, and no other key.
pub proof fn law_step_writes(
    state: StateView,
    op: OpView,
    args: OpArgs,
    key: Seq<char>,
    entry: Option<Seq<char>>,
)
    requires
        state.contains_key(op.map),
        args.key == Some(key),
        match op.op_type {
            StateOpType::StateGet => false,
            StateOpType::StatePut => args.value is Some && entry == args.value,
            StateOpType::StateUpsert => {
                &&& args.value is Some
                &&& entry == args.value
                &&& !state[op.map].entries.contains_key(key) || state[op.map].entries[key] is None
            },
            StateOpType::StateUpdate => {
                &&& args.value is Some
                &&& entry == args.value
                &&& args.condition == Some(true)
            },
            StateOpType::StateDelete => entry is None,
        },
    ensures
        step(state, op, args) == state.insert(
            op.map,
            MapView {
                entries: state[op.map].entries.insert(key, entry),
                dirty: state[op.map].dirty.insert(key),
            },
        ),
{
}

/// Over all the maps: an operation that has nothing to write changes nothing at all.
pub proof fn law_step_keeps(state: StateView, op: OpView, args: OpArgs)
    requires
        state.contains_key(op.map),
        match (op.op_type, args.key) {
            (_, None) => true,
            (StateOpType::StateGet, _) => true,
            (StateOpType::StatePut, _) => args.value is None,
            (StateOpType::StateUpsert, Some(key)) => {
                ||| args.value is None
                ||| state[op.map].entries.contains_key(key) && state[op.map].entries[key] is Some
            },
            (StateOpType::StateUpdate, _) => args.value is None || args.condition != Some(true),
            (StateOpType::StateDelete, _) => false,
        },
    ensures
        step(state, op, args) == state,
{
    assert(step(state, op, args) =~= state);
}

/// Every operation has its map exactly where the maps hold one under each operation's name.
pub proof fn law_maps_known(state: StateView, plan: Seq<OpView>)
    ensures
        maps_known(state, plan) <==> forall|i: int|
            0 <= i < plan.len() ==> state.dom().contains(#[trigger] plan[i].map),
{
    if maps_known(state, plan) {
        assert forall|i: int| 0 <= i < plan.len() implies state.dom().contains(
            #[trigger] plan[i].map,
        ) by {
            assert(state.contains_key(plan[i].map));
        }
    }
    if forall|i: int| 0 <= i < plan.len() ==> state.dom().contains(#[trigger] plan[i].map) {
        assert forall|i: int| 0 <= i < plan.len() implies state.contains_key(
            #[trigger] plan[i].map,
        ) by {
            assert(state.dom().contains(plan[i].map));
        }
    }
}

/// An empty map has no entry and no mark.
pub proof fn law_empty_map(key: Seq<char>)
    ensures
        !MapView::empty().entries.contains_key(key),
        !MapView::empty().dirty.contains(key),
{
}

/// A checkpoint forgets the marks and no entry.
pub proof fn law_clean(map: MapView, key: Seq<char>)
    ensures
        map.clean().entries == map.entries,
        !map.clean().dirty.contains(key),
{
}

/// All the maps after a checkpoint: the same names, the same entries, and no mark.
pub proof fn law_saved(state: StateView, name: Seq<char>, key: Seq<char>)
    ensures
        saved(state).contains_key(name) <==> state.contains_key(name),
        state.contains_key(name) ==> saved(state)[name].entries == state[name].entries
            && !saved(state)[name].dirty.contains(key),
{
}

/// Taking a map's entries over from its table replaces all of them, tombstones included, marks
/// nothing, and touches no other map.
pub proof fn law_take_over(
    state: StateView,
    name: Seq<char>,
    other: Seq<char>,
    entries: Map<Seq<char>, Option<Seq<char>>>,
)
    requires
        state.contains_key(name),
    ensures
        take_over(state, name, entries).dom() == state.dom(),
        take_over(state, name, entries)[name].entries == entries,
        take_over(state, name, entries)[name].dirty == state[name].dirty,
        other != name && state.contains_key(other) ==> take_over(state, name, entries)[other]
            == state[other],
{
    assert(take_over(state, name, entries).dom() =~= state.dom());
}

/// Writing an entry stores it under its key, marks the key, and does nothing else.
pub proof fn law_write(
    map: MapView,
    key: Seq<char>,
    value: Option<Seq<char>>,
    other: Seq<char>,
)
    ensures
        map.write(key, value).entries.get(key) == Some(value),
        map.write(key, value).dirty.contains(key),
        other != key ==> map.write(key, value).entries.get(other) == map.entries.get(other)
            && map.write(key, value).dirty.contains(other) == map.dirty.contains(other),
{
}

/// The entries to save are those under marked keys, each as it is.
pub proof fn law_dirty_entries(map: MapView, key: Seq<char>)
    ensures
        map.dirty_entries().contains_key(key) <==> map.dirty.contains(key)
            && map.entries.contains_key(key),
        map.dirty.contains(key) && map.entries.contains_key(key) ==> map.dirty_entries()[key]
            == map.entries[key],
{
}

/// A tracked map holds under a marked key its own entry, and under any other what the table holds.
pub proof fn law_tracks(
    map: MapView,
    table: Map<Seq<char>, Option<Seq<char>>>,
    key: Seq<char>,
)
    requires
        map.tracks(table),
        !map.dirty.contains(key),
    ensures
        map.entries.get(key) == table.get(key),
{
    let all = table.union_prefer_right(map.dirty_entries());
    assert(all.contains_key(key) == table.contains_key(key));
    assert(all == map.entries);
}

/// Texts are neither made up nor lost: null stays null, and a string, empty or not, stays itself.
pub proof fn law_texts(text: String, answer: Answer, args: RowArgs)
    ensures
        text_of(Some(text)) == Some(text@),
        text_of(None) is None,
        answer is Str ==> answer@ == Cell::Str(
            match answer->Str_0 {
                Some(string) => Some(string@),
                None => None,
            },
        ),
        answer is Bool ==> answer@ == Cell::Bool(answer->Bool_0),
        args@.key is Some <==> args.key is Some,
        args.key matches Some(key) ==> args@.key == Some(key@),
        args@.value is Some <==> args.value is Some,
        args.value matches Some(value) ==> args@.value == Some(value@),
        args@.condition == args.condition,
{
}

/// Whether a key occurs among entries.
pub open spec fn key_occurs(entries: Seq<(String, Option<String>)>, key: Seq<char>) -> bool {
    exists|i: int| 0 <= i < entries.len() && (#[trigger] entries[i]).0@ == key
}

/// The map of entries one longer.
proof fn lemma_last_entry(entries: Seq<(String, Option<String>)>)
    requires
        entries.len() > 0,
    ensures
        entries_map(entry_texts(entries)) == entries_map(entry_texts(entries.drop_last())).insert(
            entries.last().0@,
            text_of(entries.last().1),
        ),
{
    assert(entry_texts(entries).drop_last() =~= entry_texts(entries.drop_last()));
}

/// Restored entries hold something under exactly the keys that occur.
pub proof fn law_restored_keys(entries: Seq<(String, Option<String>)>, key: Seq<char>)
    ensures
        entries_map(entry_texts(entries)).contains_key(key) <==> key_occurs(entries, key),
    decreases entries.len(),
{
    if entries.len() > 0 {
        let rest = entries.drop_last();
        lemma_last_entry(entries);
        law_restored_keys(rest, key);
        if entries.last().0@ == key {
            assert(entries[entries.len() - 1].0@ == key);
        } else {
            if key_occurs(rest, key) {
                let i = choose|i: int| 0 <= i < rest.len() && (#[trigger] rest[i]).0@ == key;
                assert(entries[i].0@ == key);
            }
            if key_occurs(entries, key) {
                let i = choose|i: int| 0 <= i < entries.len() && (#[trigger] entries[i]).0@ == key;
                assert(rest[i].0@ == key);
            }
        }
    }
}

/// Restored entries hold under a key what comes last for it.
pub proof fn law_restored_entries(entries: Seq<(String, Option<String>)>, i: int)
    requires
        0 <= i < entries.len(),
        forall|j: int| i < j < entries.len() ==> (#[trigger] entries[j]).0@ != entries[i].0@,
    ensures
        entries[i].1 matches Some(value) ==> entries_map(entry_texts(entries))[entries[i].0@]
            == Some(value@),
        entries[i].1 is None ==> entries_map(entry_texts(entries))[entries[i].0@] is None,
    decreases entries.len(),
{
    lemma_last_entry(entries);
    if i < entries.len() - 1 {
        let rest = entries.drop_last();
        assert(entries[entries.len() - 1].0@ != entries[i].0@);
        assert forall|j: int| i < j < rest.len() implies (#[trigger] rest[j]).0@ != rest[i].0@ by {
            assert(entries[j].0@ != entries[i].0@);
        }
        law_restored_entries(rest, i);
    }
}

/// Reads, puts and upserts answer strings; updates and deletes answer booleans.
pub proof fn law_answer_types(op_type: StateOpType)
    ensures
        op_type is StateGet || op_type is StatePut || op_type is StateUpsert <==> op_type.answers()
            == ColumnType::Utf8,
        op_type is StateUpdate || op_type is StateDelete <==> op_type.answers()
            == ColumnType::Boolean,
{
}

/// Two writes to one key: the later one stays, whatever the kinds of write.
pub proof fn law_last_write_wins(
    first: StateOpType,
    second: StateOpType,
    map: MapView,
    first_args: OpArgs,
    second_args: OpArgs,
    key: Seq<char>,
    value: Seq<char>,
)
    requires
        first_args.key == Some(key),
        second_args.key == Some(key),
        second_args.value == Some(value),
        second is StatePut || second is StateUpdate && second_args.condition == Some(true),
    ensures
        answer(
            StateOpType::StateGet,
            step_map(second, step_map(first, map, first_args), second_args),
            of_key(key),
        ) == Cell::Str(Some(value)),
        step_map(second, step_map(first, map, first_args), second_args).dirty.contains(key),
{
}

} // verus!
