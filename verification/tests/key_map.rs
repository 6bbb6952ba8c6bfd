use dprint_plugin_sql::configuration::{ConfigKeyMap, ConfigKeyValue};

fn keys(names: &[&str]) -> Vec<String> {
    names.iter().map(|name| name.to_string()).collect()
}

fn letters() -> ConfigKeyMap {
    let mut map = ConfigKeyMap::new();
    map.insert(String::from("a"), ConfigKeyValue::Number(1));
    map.insert(String::from("b"), ConfigKeyValue::Number(2));
    map.insert(String::from("c"), ConfigKeyValue::Number(3));
    map.insert(String::from("d"), ConfigKeyValue::Number(4));
    map
}

#[test]
fn a_new_store_is_empty() {
    let map = ConfigKeyMap::new();
    assert_eq!(map.len(), 0);
    assert_eq!(map.into_keys(), keys(&[]));
}

#[test]
fn insert_appends_a_new_key() {
    let mut map = ConfigKeyMap::new();
    assert_eq!(map.insert(String::from("b"), ConfigKeyValue::Bool(true)), None);
    assert_eq!(map.insert(String::from("a"), ConfigKeyValue::Number(7)), None);
    assert_eq!(map.len(), 2);
    assert_eq!(map.into_keys(), keys(&["b", "a"]));
}

#[test]
fn insert_overwrites_in_place() {
    let mut map = letters();
    assert_eq!(
        map.insert(String::from("b"), ConfigKeyValue::from_str("two")),
        Some(ConfigKeyValue::Number(2))
    );
    assert_eq!(map.len(), 4);
    assert_eq!(map.clone().into_keys(), keys(&["a", "b", "c", "d"]));
    assert_eq!(map.remove("b"), Some(ConfigKeyValue::String(String::from("two"))));
}

#[test]
fn remove_puts_the_last_entry_in_the_free_place() {
    let mut map = letters();
    assert_eq!(map.remove("b"), Some(ConfigKeyValue::Number(2)));
    assert_eq!(map.len(), 3);
    assert_eq!(map.clone().into_keys(), keys(&["a", "d", "c"]));
    assert_eq!(map.remove("c"), Some(ConfigKeyValue::Number(3)));
    assert_eq!(map.clone().into_keys(), keys(&["a", "d"]));
    assert_eq!(map.remove("a"), Some(ConfigKeyValue::Number(1)));
    assert_eq!(map.remove("d"), Some(ConfigKeyValue::Number(4)));
    assert_eq!(map.len(), 0);
}

#[test]
fn shift_remove_keeps_the_order() {
    let mut map = letters();
    assert_eq!(map.shift_remove("b"), Some(ConfigKeyValue::Number(2)));
    assert_eq!(map.len(), 3);
    assert_eq!(map.clone().into_keys(), keys(&["a", "c", "d"]));
    assert_eq!(map.shift_remove("a"), Some(ConfigKeyValue::Number(1)));
    assert_eq!(map.clone().into_keys(), keys(&["c", "d"]));
    assert_eq!(map.shift_remove("d"), Some(ConfigKeyValue::Number(4)));
    assert_eq!(map.into_keys(), keys(&["c"]));
}

#[test]
fn removing_an_absent_key_changes_nothing() {
    let mut map = letters();
    assert_eq!(map.remove("e"), None);
    assert_eq!(map.shift_remove("e"), None);
    assert_eq!(map.shift_remove(""), None);
    assert_eq!(map.len(), 4);
    assert_eq!(map.into_keys(), keys(&["a", "b", "c", "d"]));
    let mut empty = ConfigKeyMap::new();
    assert_eq!(empty.remove("a"), None);
    assert_eq!(empty.shift_remove("a"), None);
    assert_eq!(empty.len(), 0);
}

#[test]
fn a_removed_key_can_be_inserted_again() {
    let mut map = letters();
    map.shift_remove("a");
    assert_eq!(map.insert(String::from("a"), ConfigKeyValue::Bool(false)), None);
    assert_eq!(map.clone().into_keys(), keys(&["b", "c", "d", "a"]));
    assert_eq!(map.remove("a"), Some(ConfigKeyValue::Bool(false)));
}

#[test]
fn keys_are_told_apart_by_every_character() {
    let mut map = ConfigKeyMap::new();
    map.insert(String::from("useTabs"), ConfigKeyValue::Bool(true));
    map.insert(String::from("usetabs"), ConfigKeyValue::Bool(false));
    map.insert(String::from("useTabs "), ConfigKeyValue::Number(0));
    assert_eq!(map.len(), 3);
    assert_eq!(map.shift_remove("usetabs"), Some(ConfigKeyValue::Bool(false)));
    assert_eq!(map.shift_remove("useTabs"), Some(ConfigKeyValue::Bool(true)));
    assert_eq!(map.into_keys(), keys(&["useTabs "]));
}

#[test]
fn a_clone_is_independent() {
    let mut map = letters();
    let mut copy = map.clone();
    map.insert(String::from("e"), ConfigKeyValue::Number(5));
    copy.remove("a");
    assert_eq!(map.len(), 5);
    assert_eq!(copy.len(), 3);
    assert_eq!(map.into_keys(), keys(&["a", "b", "c", "d", "e"]));
    assert_eq!(copy.into_keys(), keys(&["d", "b", "c"]));
}

#[test]
fn values_are_made_from_scalars() {
    assert_eq!(ConfigKeyValue::from_bool(true), ConfigKeyValue::Bool(true));
    assert_eq!(ConfigKeyValue::from_i32(-3), ConfigKeyValue::Number(-3));
    assert_eq!(ConfigKeyValue::from_str("lf"), ConfigKeyValue::String(String::from("lf")));
    assert_eq!(ConfigKeyValue::from(false), ConfigKeyValue::Bool(false));
    assert_eq!(ConfigKeyValue::from(12), ConfigKeyValue::Number(12));
    assert_eq!(
        ConfigKeyValue::from(String::from("crlf")),
        ConfigKeyValue::String(String::from("crlf"))
    );
    let value: ConfigKeyValue = true.into();
    assert_eq!(value, ConfigKeyValue::Bool(true));
    assert_eq!(value.clone(), value);
    assert_ne!(ConfigKeyValue::Number(1), ConfigKeyValue::Bool(true));
    assert_eq!(
        ConfigKeyValue::String(String::from("x")).clone(),
        ConfigKeyValue::String(String::from("x"))
    );
}
