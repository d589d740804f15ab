//! The named maps that a processor keeps.
use vstd::hash_map::StringHashMap;
use vstd::hash_set::StringHashSet;
use vstd::prelude::*;

use crate::model::{answer, step, step_map, Cell, MapView, OpArgs, OpView, StateView};
use crate::ops::StateOpType;

verus! {

/// One answer of one operation.
#[derive(Debug, PartialEq, Eq)]
pub enum Answer {
    /// A string, or null.
    Str(Option<String>),
    /// A boolean.
    Bool(bool),
}

/// What one operation reads of one row.
#[derive(Debug, PartialEq, Eq)]
pub struct RowArgs {
    pub key: Option<String>,
    pub value: Option<String>,
    pub condition: Option<bool>,
}

/// The text of an optional string.
pub open spec fn text_of(text: Option<String>) -> Option<Seq<char>> {
    match text {
        Some(string) => Some(string@),
        None => None,
    }
}

/// The texts of stored entries.
pub open spec fn entry_texts(entries: Seq<(String, Option<String>)>) -> Seq<
    (Seq<char>, Option<Seq<char>>),
> {
    entries.map_values(|entry: (String, Option<String>)| (entry.0@, text_of(entry.1)))
}

/// The map that entries give when they are inserted in order.
pub open spec fn entries_map(entries: Seq<(Seq<char>, Option<Seq<char>>)>) -> Map<
    Seq<char>,
    Option<Seq<char>>,
>
    decreases entries.len(),
{
    if entries.len() == 0 {
        Map::empty()
    } else {
        entries_map(entries.drop_last()).insert(entries.last().0, entries.last().1)
    }
}

/// Whether no key occurs twice among entries.
pub open spec fn distinct_keys(entries: Seq<(Seq<char>, Option<Seq<char>>)>) -> bool {
    forall|i: int, j: int|
        0 <= i < j < entries.len() ==> (#[trigger] entries[i]).0 != (#[trigger] entries[j]).0
}

impl Answer {
    /// The answer as a cell.
    pub open spec fn view(&self) -> Cell {
        match self {
            Answer::Str(text) => Cell::Str(text_of(*text)),
            Answer::Bool(value) => Cell::Bool(*value),
        }
    }
}

impl RowArgs {
    /// The arguments as the model has them.
    pub open spec fn view(&self) -> OpArgs {
        OpArgs { key: text_of(self.key), value: text_of(self.value), condition: self.condition }
    }
}

/// Texts of entries one longer.
proof fn lemma_push_entry(entries: Seq<(String, Option<String>)>, entry: (String, Option<String>))
    ensures
        entry_texts(entries.push(entry)) == entry_texts(entries).push(
            (entry.0@, text_of(entry.1)),
        ),
        entries_map(entry_texts(entries.push(entry))) == entries_map(entry_texts(entries)).insert(
            entry.0@,
            text_of(entry.1),
        ),
{
    let texts = entry_texts(entries.push(entry));
    assert(texts =~= entry_texts(entries).push((entry.0@, text_of(entry.1))));
    assert(texts.drop_last() =~= entry_texts(entries));
}

/// One named map with the keys written since the last checkpoint.
pub struct MapState {
    // Some(v) is a live entry, None a tombstone.
    entries: StringHashMap<Option<String>>,
    dirty: StringHashSet,
    // The members of `dirty`, each once, in the order in which they came.
    dirty_order: Vec<String>,
}

impl MapState {
    /// The map as the model has it.
    pub closed spec fn view(&self) -> MapView {
        MapView {
            entries: self.entries@.map_values(|value: Option<String>| text_of(value)),
            dirty: self.dirty@,
        }
    }

    /// Whether the list of dirty keys has every dirty key once.
    pub closed spec fn wf(&self) -> bool {
        &&& forall|i: int, j: int|
            0 <= i < j < self.dirty_order@.len() ==> (#[trigger] self.dirty_order@[i])@ != (
            #[trigger] self.dirty_order@[j])@
        &&& forall|i: int|
            0 <= i < self.dirty_order@.len() ==> self.dirty@.contains(
                (#[trigger] self.dirty_order@[i])@,
            )
        &&& forall|key: Seq<char>| #[trigger]
            self.dirty@.contains(key) ==> exists|i: int|
                0 <= i < self.dirty_order@.len() && (#[trigger] self.dirty_order@[i])@ == key
    }

    /// A map with nothing in it.
    pub fn new() -> (map: MapState)
        ensures
            map.wf(),
            map@ == MapView::empty(),
    {
        let map = MapState {
            entries: StringHashMap::new(),
            dirty: StringHashSet::new(),
            dirty_order: Vec::new(),
        };
        assert(map@.entries =~= Map::empty());
        map
    }

    /// The live value of a key.
    pub fn live(&self, key: &str) -> (value: Option<&String>)
        ensures
            match value {
                Some(text) => self@.live(key@) == Some(text@),
                None => self@.live(key@) is None,
            },
    {
        match self.entries.get(key) {
            Some(Some(text)) => Some(text),
            _ => None,
        }
    }

    /// Writes an entry and marks its key as written.
    pub fn write(&mut self, key: String, value: Option<String>)
        requires
            old(self).wf(),
        ensures
            final(self).wf(),
            final(self)@ == old(self)@.write(key@, text_of(value)),
    {
        let ghost before = *self;
        if self.dirty.insert(key.clone()) {
            self.dirty_order.push(key.clone());
        }
        self.entries.insert(key, value);
        proof {
            assert(self@.entries =~= before@.entries.insert(key@, text_of(value)));
            let order = self.dirty_order@;
            assert forall|k: Seq<char>| #[trigger] self.dirty@.contains(k) implies exists|i: int|
                0 <= i < order.len() && (#[trigger] order[i])@ == k by {
                if before.dirty@.contains(k) {
                    let i = choose|i: int|
                        0 <= i < before.dirty_order@.len() && (#[trigger] before.dirty_order@[i])@
                            == k;
                    assert(order[i]@ == k);
                } else {
                    assert(order[order.len() - 1]@ == k);
                }
            }
        }
    }

    /// Runs one operation and answers.
    pub fn apply(&mut self, op_type: StateOpType, args: RowArgs) -> (result: Answer)
        requires
            old(self).wf(),
        ensures
            final(self).wf(),
            final(self)@ == step_map(op_type, old(self)@, args@),
            result@ == answer(op_type, old(self)@, args@),
    {
        match op_type {
            StateOpType::StateGet => {
                match args.key {
                    Some(key) => match self.live(key.as_str()) {
                        Some(value) => Answer::Str(Some(value.clone())),
                        None => Answer::Str(None),
                    },
                    None => Answer::Str(None),
                }
            },
            StateOpType::StatePut => {
                match (args.key, args.value) {
                    (Some(key), Some(value)) => {
                        self.write(key, Some(value.clone()));
                        Answer::Str(Some(value))
                    },
                    _ => Answer::Str(None),
                }
            },
            StateOpType::StateUpsert => {
                match args.key {
                    Some(key) => {
                        if let Some(existing) = self.live(key.as_str()) {
                            Answer::Str(Some(existing.clone()))
                        } else if let Some(value) = args.value {
                            self.write(key, Some(value.clone()));
                            Answer::Str(Some(value))
                        } else {
                            Answer::Str(None)
                        }
                    },
                    None => Answer::Str(None),
                }
            },
            StateOpType::StateUpdate => {
                match (args.key, args.value, args.condition) {
                    (Some(key), Some(value), Some(true)) => {
                        self.write(key, Some(value));
                        Answer::Bool(true)
                    },
                    _ => Answer::Bool(false),
                }
            },
            StateOpType::StateDelete => {
                match args.key {
                    Some(key) => {
                        let existed = self.live(key.as_str()).is_some();
                        self.write(key, None);
                        Answer::Bool(existed)
                    },
                    None => Answer::Bool(false),
                }
            },
        }
    }

    /// Whether a key was written since the last checkpoint.
    pub fn has_dirty(&self) -> (dirty: bool)
        requires
            self.wf(),
        ensures
            dirty == !(self@.dirty =~= Set::empty()),
    {
        proof {
            if self.dirty_order@.len() > 0 {
                assert(self.dirty@.contains(self.dirty_order@[0]@));
            }
        }
        self.dirty_order.len() > 0
    }

    /// The entries under the keys written since the last checkpoint, each key once.
    pub fn dirty_entries(&self) -> (entries: Vec<(String, Option<String>)>)
        requires
            self.wf(),
        ensures
            entries_map(entry_texts(entries@)) == self@.dirty_entries(),
            distinct_keys(entry_texts(entries@)),
    {
        let mut out: Vec<(String, Option<String>)> = Vec::new();
        let ghost seen: Set<Seq<char>> = Set::empty();
        proof {
            assert(entry_texts(out@) =~= Seq::empty());
            assert(entries_map(entry_texts(out@)) =~= self@.entries.restrict(seen));
        }
        for i in 0..self.dirty_order.len()
            invariant
                self.wf(),
                forall|key: Seq<char>| #[trigger]
                    seen.contains(key) <==> exists|j: int|
                        0 <= j < i && (#[trigger] self.dirty_order@[j])@ == key,
                entries_map(entry_texts(out@)) == self@.entries.restrict(seen),
                distinct_keys(entry_texts(out@)),
                forall|j: int|
                    0 <= j < out@.len() ==> seen.contains((#[trigger] entry_texts(out@)[j]).0),
        {
            let key = &self.dirty_order[i];
            let ghost out_before = out@;
            let ghost seen_before = seen;
            proof {
                seen = seen.insert(key@);
                assert forall|other: Seq<char>| #[trigger] seen.contains(other) implies exists|
                    j: int,
                |
                    0 <= j < i + 1 && (#[trigger] self.dirty_order@[j])@ == other by {
                    if seen_before.contains(other) {
                        let j = choose|j: int|
                            0 <= j < i && (#[trigger] self.dirty_order@[j])@ == other;
                        assert(self.dirty_order@[j]@ == other);
                    } else {
                        assert(self.dirty_order@[i as int]@ == other);
                    }
                }
            }
            if let Some(value) = self.entries.get(key.as_str()) {
                out.push((key.clone(), value.clone()));
                proof {
                    lemma_push_entry(out_before, (*key, *value));
                }
            }
            assert(entries_map(entry_texts(out@)) =~= self@.entries.restrict(seen));
        }
        assert(seen =~= self@.dirty);
        out
    }

    /// Forgets which keys were written.
    pub fn clear_dirty(&mut self)
        ensures
            final(self).wf(),
            final(self)@ == old(self)@.clean(),
    {
        self.dirty.clear();
        self.dirty_order.clear();
    }

    /// Replaces the entries.
    pub fn restore(&mut self, entries: Vec<(String, Option<String>)>)
        requires
            old(self).wf(),
        ensures
            final(self).wf(),
            final(self)@ == (MapView {
                entries: entries_map(entry_texts(entries@)),
                ..old(self)@
            }),
    {
        let mut fresh: StringHashMap<Option<String>> = StringHashMap::new();
        let ghost texts = |value: Option<String>| text_of(value);
        proof {
            assert(fresh@.map_values(texts) =~= Map::empty());
            assert(entry_texts(entries@).take(0) =~= Seq::empty());
        }
        for i in 0..entries.len()
            invariant
                texts == (|value: Option<String>| text_of(value)),
                fresh@.map_values(texts) == entries_map(entry_texts(entries@).take(i as int)),
        {
            let (key, value) = &entries[i];
            let ghost before = fresh@;
            fresh.insert(key.clone(), value.clone());
            proof {
                let now = entry_texts(entries@).take(i + 1);
                assert(now.drop_last() =~= entry_texts(entries@).take(i as int));
                assert(now.last() == (key@, text_of(*value)));
                assert(fresh@.map_values(texts) =~= before.map_values(texts).insert(
                    key@,
                    text_of(*value),
                ));
            }
        }
        assert(entry_texts(entries@).take(entries@.len() as int) =~= entry_texts(entries@));
        self.entries = fresh;
    }
}

/// All the named maps.
pub struct StateMaps {
    index: StringHashMap<usize>,
    maps: Vec<MapState>,
}

impl StateMaps {
    /// The maps as the model has them.
    pub closed spec fn view(&self) -> StateView {
        Map::new(
            |name: Seq<char>| self.index@.contains_key(name),
            |name: Seq<char>| self.maps@[self.index@[name] as int]@,
        )
    }

    /// Whether every name has a map of its own.
    pub closed spec fn wf(&self) -> bool {
        &&& forall|name: Seq<char>| #[trigger]
            self.index@.contains_key(name) ==> self.index@[name] < self.maps@.len()
        &&& forall|name: Seq<char>, other: Seq<char>|
            #![trigger self.index@.contains_key(name), self.index@.contains_key(other)]
            self.index@.contains_key(name) && self.index@.contains_key(other) && name != other
                ==> self.index@[name] != self.index@[other]
        &&& forall|i: int| 0 <= i < self.maps@.len() ==> (#[trigger] self.maps@[i]).wf()
    }

    /// No maps.
    pub fn new() -> (state: StateMaps)
        ensures
            state.wf(),
            state@ == Map::<Seq<char>, MapView>::empty(),
    {
        let state = StateMaps { index: StringHashMap::new(), maps: Vec::new() };
        assert(state@ =~= Map::empty());
        state
    }

    /// Whether there is a map of this name.
    pub fn contains(&self, name: &str) -> (known: bool)
        ensures
            known == self@.contains_key(name@),
    {
        self.index.contains_key(name)
    }

    /// The map of this name.
    pub fn map(&self, name: &str) -> (map: Option<&MapState>)
        requires
            self.wf(),
        ensures
            match map {
                Some(found) => found.wf() && self@.contains_key(name@) && found@ == self@[name@],
                None => !self@.contains_key(name@),
            },
    {
        match self.index.get(name) {
            Some(i) => Some(&self.maps[*i]),
            None => None,
        }
    }

    /// Adds a map with nothing in it where there is none of this name.
    pub fn add_map(&mut self, name: &str)
        requires
            old(self).wf(),
        ensures
            final(self).wf(),
            final(self)@ == (if old(self)@.contains_key(name@) {
                old(self)@
            } else {
                old(self)@.insert(name@, MapView::empty())
            }),
    {
        if !self.index.contains_key(name) {
            let ghost before = *self;
            self.index.insert(name.to_owned(), self.maps.len());
            self.maps.push(MapState::new());
            assert(self@ =~= before@.insert(name@, MapView::empty()));
        }
    }

    /// Replaces the entries of a map, which is added where there is none of this name. Which
    /// keys count as written stays as it is.
    pub fn restore(&mut self, name: &str, entries: Vec<(String, Option<String>)>)
        requires
            old(self).wf(),
        ensures
            final(self).wf(),
            final(self)@ == old(self)@.insert(
                name@,
                MapView {
                    entries: entries_map(entry_texts(entries@)),
                    dirty: if old(self)@.contains_key(name@) {
                        old(self)@[name@].dirty
                    } else {
                        Set::empty()
                    },
                },
            ),
    {
        self.add_map(name);
        let ghost before = *self;
        if let Some(i) = self.index.get(name) {
            let i = *i;
            self.maps[i].restore(entries);
            assert(self@ =~= before@.insert(
                name@,
                MapView { entries: entries_map(entry_texts(entries@)), ..before@[name@] },
            ));
            assert(self@ =~= old(self)@.insert(name@, self@[name@]));
        }
    }

    /// Runs one operation on the map of this name and answers.
    pub fn apply(&mut self, name: &str, op_type: StateOpType, args: RowArgs) -> (result: Answer)
        requires
            old(self).wf(),
            old(self)@.contains_key(name@),
        ensures
            final(self).wf(),
            final(self)@ == step(
                old(self)@,
                OpView { map: name@, op_type },
                args@,
            ),
            result@ == answer(op_type, old(self)@[name@], args@),
    {
        let ghost before = *self;
        match self.index.get(name) {
            Some(i) => {
                let i = *i;
                let result = self.maps[i].apply(op_type, args);
                assert(self@ =~= before@.insert(
                    name@,
                    step_map(op_type, before@[name@], args@),
                ));
                result
            },
            None => Answer::Bool(false),
        }
    }

    /// Forgets which keys were written, in every map.
    pub fn clear_dirty(&mut self)
        requires
            old(self).wf(),
        ensures
            final(self).wf(),
            final(self)@ == old(self)@.map_values(|map: MapView| map.clean()),
    {
        let ghost before = *self;
        let count: usize = self.maps.len();
        for i in 0..count
            invariant
                before.wf(),
                self.wf(),
                self.index == before.index,
                count == self.maps@.len(),
                count == before.maps@.len(),
                forall|j: int|
                    0 <= j < i ==> (#[trigger] self.maps@[j])@ == before.maps@[j]@.clean(),
                forall|j: int| i <= j < self.maps@.len() ==> self.maps@[j] == before.maps@[j],
        {
            self.maps[i].clear_dirty();
        }
        assert(self@ =~= before@.map_values(|map: MapView| map.clean()));
    }
}

} // verus!
