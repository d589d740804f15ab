use stateful_processor::ops::StateOpType;
use stateful_processor::results::ResultColumn;
use stateful_processor::schema::ColumnType;
use stateful_processor::state::{Answer, MapState, RowArgs, StateMaps};
use stateful_processor::text::{append_decimal, append_signed_decimal};

fn text(s: &str) -> Option<String> {
    Some(s.to_string())
}

fn args(key: Option<&str>, value: Option<&str>, condition: Option<bool>) -> RowArgs {
    RowArgs {
        key: key.map(|k| k.to_string()),
        value: value.map(|v| v.to_string()),
        condition,
    }
}

fn get(map: &mut MapState, key: &str) -> Answer {
    map.apply(StateOpType::StateGet, args(Some(key), None, None))
}

fn put(map: &mut MapState, key: &str, value: &str) -> Answer {
    map.apply(StateOpType::StatePut, args(Some(key), Some(value), None))
}

fn delete(map: &mut MapState, key: &str) -> Answer {
    map.apply(StateOpType::StateDelete, args(Some(key), None, None))
}

fn upsert(map: &mut MapState, key: &str, value: Option<&str>) -> Answer {
    map.apply(StateOpType::StateUpsert, args(Some(key), value, None))
}

fn update(map: &mut MapState, key: &str, value: Option<&str>, condition: Option<bool>) -> Answer {
    map.apply(StateOpType::StateUpdate, args(Some(key), value, condition))
}

#[test]
fn get_after_put_gives_the_value() {
    let mut map = MapState::new();
    assert_eq!(get(&mut map, "k"), Answer::Str(None));
    assert_eq!(put(&mut map, "k", "v"), Answer::Str(text("v")));
    assert_eq!(get(&mut map, "k"), Answer::Str(text("v")));
    assert_eq!(put(&mut map, "k", "w"), Answer::Str(text("w")));
    assert_eq!(get(&mut map, "k"), Answer::Str(text("w")));
    assert_eq!(map.live("k"), Some(&"w".to_string()));
    assert_eq!(map.live("other"), None);
}

#[test]
fn upsert_keeps_what_is_live() {
    let mut map = MapState::new();
    assert_eq!(upsert(&mut map, "k", None), Answer::Str(None));
    assert!(!map.has_dirty());
    assert_eq!(upsert(&mut map, "k", Some("first")), Answer::Str(text("first")));
    assert_eq!(upsert(&mut map, "k", Some("second")), Answer::Str(text("first")));
    assert_eq!(upsert(&mut map, "k", None), Answer::Str(text("first")));
    assert_eq!(get(&mut map, "k"), Answer::Str(text("first")));
}

#[test]
fn upsert_writes_over_a_tombstone() {
    let mut map = MapState::new();
    put(&mut map, "k", "v");
    assert_eq!(delete(&mut map, "k"), Answer::Bool(true));
    assert_eq!(upsert(&mut map, "k", Some("new")), Answer::Str(text("new")));
    assert_eq!(get(&mut map, "k"), Answer::Str(text("new")));
}

#[test]
fn update_needs_key_value_and_condition() {
    let mut map = MapState::new();
    assert_eq!(update(&mut map, "k", Some("v"), Some(false)), Answer::Bool(false));
    assert_eq!(update(&mut map, "k", Some("v"), None), Answer::Bool(false));
    assert_eq!(update(&mut map, "k", None, Some(true)), Answer::Bool(false));
    assert!(!map.has_dirty());
    assert_eq!(update(&mut map, "k", Some("v"), Some(true)), Answer::Bool(true));
    assert_eq!(get(&mut map, "k"), Answer::Str(text("v")));
}

#[test]
fn delete_answers_whether_the_key_was_live() {
    let mut map = MapState::new();
    assert_eq!(delete(&mut map, "k"), Answer::Bool(false));
    put(&mut map, "k", "v");
    assert_eq!(delete(&mut map, "k"), Answer::Bool(true));
    assert_eq!(delete(&mut map, "k"), Answer::Bool(false));
    assert_eq!(get(&mut map, "k"), Answer::Str(None));
}

#[test]
fn delete_of_an_unknown_key_leaves_a_tombstone() {
    let mut map = MapState::new();
    delete(&mut map, "k");
    assert_eq!(map.dirty_entries(), vec![("k".to_string(), None)]);
}

#[test]
fn null_key_changes_nothing() {
    let mut map = MapState::new();
    let null = |value: Option<&str>| args(None, value, Some(true));
    assert_eq!(map.apply(StateOpType::StateGet, null(None)), Answer::Str(None));
    assert_eq!(map.apply(StateOpType::StatePut, null(Some("v"))), Answer::Str(None));
    assert_eq!(map.apply(StateOpType::StateUpsert, null(Some("v"))), Answer::Str(None));
    assert_eq!(map.apply(StateOpType::StateUpdate, null(Some("v"))), Answer::Bool(false));
    assert_eq!(map.apply(StateOpType::StateDelete, null(None)), Answer::Bool(false));
    assert!(!map.has_dirty());
    assert_eq!(map.dirty_entries(), vec![]);
}

#[test]
fn null_value_is_not_put() {
    let mut map = MapState::new();
    put(&mut map, "k", "v");
    map.clear_dirty();
    let answer = map.apply(StateOpType::StatePut, args(Some("k"), None, None));
    assert_eq!(answer, Answer::Str(None));
    assert!(!map.has_dirty());
    assert_eq!(get(&mut map, "k"), Answer::Str(text("v")));
}

#[test]
fn a_dirty_key_is_listed_once_with_its_latest_entry() {
    let mut map = MapState::new();
    put(&mut map, "a", "1");
    put(&mut map, "b", "2");
    put(&mut map, "a", "3");
    delete(&mut map, "b");
    assert_eq!(
        map.dirty_entries(),
        vec![("a".to_string(), text("3")), ("b".to_string(), None)]
    );
    map.clear_dirty();
    assert!(!map.has_dirty());
    assert_eq!(map.dirty_entries(), vec![]);
    assert_eq!(get(&mut map, "a"), Answer::Str(text("3")));
}

#[test]
fn restored_entries_are_not_dirty() {
    let mut map = MapState::new();
    map.restore(vec![
        ("a".to_string(), text("1")),
        ("b".to_string(), None),
        ("a".to_string(), text("2")),
    ]);
    assert!(!map.has_dirty());
    assert_eq!(get(&mut map, "a"), Answer::Str(text("2")));
    assert_eq!(get(&mut map, "b"), Answer::Str(None));
}

#[test]
fn maps_do_not_touch_each_other() {
    let mut maps = StateMaps::new();
    maps.add_map("m");
    maps.add_map("n");
    maps.add_map("m");
    assert!(maps.contains("m") && maps.contains("n") && !maps.contains("o"));
    maps.apply("m", StateOpType::StatePut, args(Some("k"), Some("v"), None));
    let other = maps.apply("n", StateOpType::StateGet, args(Some("k"), None, None));
    assert_eq!(other, Answer::Str(None));
    assert!(maps.map("m").unwrap().has_dirty());
    assert!(!maps.map("n").unwrap().has_dirty());
    assert!(maps.map("o").is_none());
    maps.clear_dirty();
    assert!(!maps.map("m").unwrap().has_dirty());
    let same = maps.apply("m", StateOpType::StateGet, args(Some("k"), None, None));
    assert_eq!(same, Answer::Str(text("v")));
}

#[test]
fn restoring_adds_a_missing_map() {
    let mut maps = StateMaps::new();
    maps.restore("m", vec![("k".to_string(), text("v"))]);
    assert_eq!(maps.map("m").unwrap().live("k"), Some(&"v".to_string()));
}

#[test]
fn every_kind_has_its_code() {
    assert_eq!(StateOpType::from_code(0), Some(StateOpType::StateGet));
    assert_eq!(StateOpType::from_code(1), Some(StateOpType::StatePut));
    assert_eq!(StateOpType::from_code(2), Some(StateOpType::StateUpsert));
    assert_eq!(StateOpType::from_code(3), Some(StateOpType::StateUpdate));
    assert_eq!(StateOpType::from_code(4), Some(StateOpType::StateDelete));
    assert_eq!(StateOpType::from_code(5), None);
    assert_eq!(StateOpType::from_code(-1), None);
}

#[test]
fn strings_and_booleans_are_answered() {
    assert_eq!(StateOpType::StateGet.column_type(), ColumnType::Utf8);
    assert_eq!(StateOpType::StatePut.column_type(), ColumnType::Utf8);
    assert_eq!(StateOpType::StateUpsert.column_type(), ColumnType::Utf8);
    assert_eq!(StateOpType::StateUpdate.column_type(), ColumnType::Boolean);
    assert_eq!(StateOpType::StateDelete.column_type(), ColumnType::Boolean);
}

#[test]
fn answers_are_collected_in_order() {
    let mut strings = ResultColumn::new(ColumnType::Utf8);
    strings.push(Answer::Str(text("é")));
    strings.push(Answer::Str(None));
    assert_eq!(strings, ResultColumn::Str(vec![text("é"), None]));
    assert!(strings.check_fits());
    let mut booleans = ResultColumn::new(ColumnType::Boolean);
    booleans.push(Answer::Bool(true));
    booleans.push(Answer::Bool(false));
    assert_eq!(booleans, ResultColumn::Bool(vec![true, false]));
    assert!(booleans.check_fits());
}

#[test]
fn numbers_are_written_in_decimal() {
    let mut out = String::new();
    append_decimal(&mut out, 0);
    append_decimal(&mut out, 1234567890);
    append_signed_decimal(&mut out, -7);
    append_signed_decimal(&mut out, i32::MIN);
    append_signed_decimal(&mut out, 10);
    assert_eq!(out, "01234567890-7-214748364810");
    let mut max = String::new();
    append_decimal(&mut max, u64::MAX);
    assert_eq!(max, "18446744073709551615");
}
