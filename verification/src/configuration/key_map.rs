//! The store of configuration overrides: string keys with scalar values,
//! kept in the order in which the keys were first inserted.

use indexmap::IndexMap;
use vstd::prelude::*;

verus! {

/// A scalar configuration value as a caller supplies it.
#[derive(Debug, PartialEq, Eq)]
pub enum ConfigKeyValue {
    /// A text, such as the name of a new line kind.
    String(String),
    /// An integer, such as a width or a limit.
    Number(i32),
    /// A switch.
    Bool(bool),
}

/// What a [`ConfigKeyValue`] holds, as a mathematical value.
pub enum KeyValue {
    Text(Seq<char>),
    Number(i32),
    Bool(bool),
}

impl View for ConfigKeyValue {
    type V = KeyValue;

    open spec fn view(&self) -> KeyValue {
        match self {
            ConfigKeyValue::String(text) => KeyValue::Text(text@),
            ConfigKeyValue::Number(number) => KeyValue::Number(*number),
            ConfigKeyValue::Bool(flag) => KeyValue::Bool(*flag),
        }
    }
}

impl ConfigKeyValue {
    /// The value that holds the integer.
    pub fn from_i32(value: i32) -> (result: ConfigKeyValue)
        ensures
            result@ == KeyValue::Number(value),
    {
        ConfigKeyValue::Number(value)
    }

    /// The value that holds a copy of the text.
    pub fn from_str(value: &str) -> (result: ConfigKeyValue)
        ensures
            result@ == KeyValue::Text(value@),
    {
        ConfigKeyValue::String(value.to_owned())
    }

    /// The value that holds the switch.
    pub fn from_bool(value: bool) -> (result: ConfigKeyValue)
        ensures
            result@ == KeyValue::Bool(value),
    {
        ConfigKeyValue::Bool(value)
    }
}

impl Clone for ConfigKeyValue {
    fn clone(&self) -> (copy: ConfigKeyValue)
        ensures
            copy@ == self@,
    {
        match self {
            ConfigKeyValue::String(text) => ConfigKeyValue::String(text.clone()),
            ConfigKeyValue::Number(number) => ConfigKeyValue::Number(*number),
            ConfigKeyValue::Bool(flag) => ConfigKeyValue::Bool(*flag),
        }
    }
}

impl From<i32> for ConfigKeyValue {
    fn from(item: i32) -> (result: ConfigKeyValue)
        ensures
            result@ == KeyValue::Number(item),
    {
        ConfigKeyValue::from_i32(item)
    }
}

impl vstd::std_specs::convert::FromSpecImpl<i32> for ConfigKeyValue {
    open spec fn obeys_from_spec() -> bool {
        true
    }

    open spec fn from_spec(item: i32) -> ConfigKeyValue {
        ConfigKeyValue::Number(item)
    }
}

impl From<bool> for ConfigKeyValue {
    fn from(item: bool) -> (result: ConfigKeyValue)
        ensures
            result@ == KeyValue::Bool(item),
    {
        ConfigKeyValue::from_bool(item)
    }
}

impl vstd::std_specs::convert::FromSpecImpl<bool> for ConfigKeyValue {
    open spec fn obeys_from_spec() -> bool {
        true
    }

    open spec fn from_spec(item: bool) -> ConfigKeyValue {
        ConfigKeyValue::Bool(item)
    }
}

impl From<String> for ConfigKeyValue {
    fn from(item: String) -> (result: ConfigKeyValue)
        ensures
            result@ == KeyValue::Text(item@),
    {
        ConfigKeyValue::String(item)
    }
}

impl vstd::std_specs::convert::FromSpecImpl<String> for ConfigKeyValue {
    open spec fn obeys_from_spec() -> bool {
        true
    }

    open spec fn from_spec(item: String) -> ConfigKeyValue {
        ConfigKeyValue::String(item)
    }
}

/// The view of a value that may be absent.
pub open spec fn value_view(value: Option<ConfigKeyValue>) -> Option<KeyValue> {
    match value {
        Some(value) => Some(value@),
        None => None,
    }
}

/// The entries of a store in their order: each key with its value.
pub type Entries = Seq<(Seq<char>, KeyValue)>;

/// `index` is a position of `entries` that holds `key`.
pub open spec fn holds_key_at(entries: Entries, key: Seq<char>, index: int) -> bool {
    0 <= index < entries.len() && entries[index].0 == key
}

/// Some position of `entries` holds `key`.
pub open spec fn contains_key(entries: Entries, key: Seq<char>) -> bool {
    exists|index: int| holds_key_at(entries, key, index)
}

/// A position that holds `key`; the only one where the keys are unique.
pub open spec fn index_of(entries: Entries, key: Seq<char>) -> int {
    choose|index: int| holds_key_at(entries, key, index)
}

/// No key occurs twice.
pub open spec fn unique_keys(entries: Entries) -> bool {
    forall|i: int, j: int| 0 <= i < j < entries.len() ==> entries[i].0 != entries[j].0
}

/// The value stored under `key`, if any.
pub open spec fn lookup(entries: Entries, key: Seq<char>) -> Option<KeyValue> {
    if contains_key(entries, key) {
        Some(entries[index_of(entries, key)].1)
    } else {
        None
    }
}

/// The entries after `value` is stored under `key`: a key that is present
/// keeps its place, a new key goes last.
pub open spec fn inserted(entries: Entries, key: Seq<char>, value: KeyValue) -> Entries {
    if contains_key(entries, key) {
        entries.update(index_of(entries, key), (key, value))
    } else {
        entries.push((key, value))
    }
}

/// The entries after `key` is removed with the later entries moving up.
pub open spec fn shift_removed(entries: Entries, key: Seq<char>) -> Entries {
    if contains_key(entries, key) {
        entries.remove(index_of(entries, key))
    } else {
        entries
    }
}

/// The entries after `key` is removed with the last entry taking its place.
pub open spec fn swap_removed(entries: Entries, key: Seq<char>) -> Entries {
    if contains_key(entries, key) {
        let index = index_of(entries, key);
        if index == entries.len() - 1 {
            entries.drop_last()
        } else {
            entries.update(index, entries.last()).drop_last()
        }
    } else {
        entries
    }
}

/// The keys of `entries`, in order.
pub open spec fn keys_of(entries: Entries) -> Seq<Seq<char>> {
    Seq::new(entries.len(), |index: int| entries[index].0)
}

/// In a store with unique keys a key has one position.
pub proof fn lemma_index_of_unique(entries: Entries, key: Seq<char>, index: int)
    requires
        unique_keys(entries),
        holds_key_at(entries, key, index),
    ensures
        contains_key(entries, key),
        index_of(entries, key) == index,
        lookup(entries, key) == Some(entries[index].1),
{
    assert(holds_key_at(entries, key, index_of(entries, key)));
}

/// A key that no position holds is not found.
pub proof fn lemma_lookup_absent(entries: Entries, key: Seq<char>)
    requires
        forall|index: int| 0 <= index < entries.len() ==> (#[trigger] entries[index]).0 != key,
    ensures
        !contains_key(entries, key),
        lookup(entries, key) is None,
{
    if contains_key(entries, key) {
        assert(holds_key_at(entries, key, index_of(entries, key)));
    }
}

/// Storing a value keeps the keys unique, makes the value the one found
/// under its key, and leaves every other key as it was.
pub proof fn lemma_inserted(entries: Entries, key: Seq<char>, value: KeyValue)
    requires
        unique_keys(entries),
    ensures
        unique_keys(inserted(entries, key, value)),
        lookup(inserted(entries, key, value), key) == Some(value),
        forall|other: Seq<char>|
            other != key ==> #[trigger] lookup(inserted(entries, key, value), other) == lookup(
                entries,
                other,
            ),
{
    let after = inserted(entries, key, value);
    if contains_key(entries, key) {
        let index: int = index_of(entries, key);
        lemma_index_of_unique(after, key, index);
        assert forall|other: Seq<char>| other != key implies #[trigger] lookup(after, other)
            == lookup(entries, other) by {
            if contains_key(entries, other) {
                let at: int = index_of(entries, other);
                lemma_index_of_unique(after, other, at);
            } else {
                assert forall|i: int| 0 <= i < after.len() implies (#[trigger] after[i]).0
                    != other by {
                    assert(!holds_key_at(entries, other, i));
                }
                lemma_lookup_absent(after, other);
            }
        }
    } else {
        let end: int = entries.len() as int;
        assert forall|i: int, j: int| 0 <= i < j < after.len() implies after[i].0
            != after[j].0 by {
            if j == end {
                assert(!holds_key_at(entries, key, i));
            }
        }
        lemma_index_of_unique(after, key, end);
        assert forall|other: Seq<char>| other != key implies #[trigger] lookup(after, other)
            == lookup(entries, other) by {
            if contains_key(entries, other) {
                let at: int = index_of(entries, other);
                lemma_index_of_unique(after, other, at);
            } else {
                assert forall|i: int| 0 <= i < after.len() implies (#[trigger] after[i]).0
                    != other by {
                    if i < end {
                        assert(!holds_key_at(entries, other, i));
                    }
                }
                lemma_lookup_absent(after, other);
            }
        }
    }
}

/// Removing a key, the later entries moving up, keeps the keys unique,
/// leaves the key absent and every other key as it was.
pub proof fn lemma_shift_removed(entries: Entries, key: Seq<char>)
    requires
        unique_keys(entries),
    ensures
        unique_keys(shift_removed(entries, key)),
        lookup(shift_removed(entries, key), key) is None,
        forall|other: Seq<char>|
            other != key ==> #[trigger] lookup(shift_removed(entries, key), other) == lookup(
                entries,
                other,
            ),
{
    let after = shift_removed(entries, key);
    if contains_key(entries, key) {
        let index: int = index_of(entries, key);
        assert forall|i: int, j: int| 0 <= i < j < after.len() implies after[i].0
            != after[j].0 by {
            let from_i: int = if i < index { i } else { i + 1 };
            let from_j: int = if j < index { j } else { j + 1 };
            assert(entries[from_i].0 != entries[from_j].0);
        }
        assert forall|i: int| 0 <= i < after.len() implies (#[trigger] after[i]).0 != key by {
            let from: int = if i < index { i } else { i + 1 };
            assert(entries[from].0 != entries[index].0);
        }
        lemma_lookup_absent(after, key);
        assert forall|other: Seq<char>| other != key implies #[trigger] lookup(after, other)
            == lookup(entries, other) by {
            if contains_key(entries, other) {
                let at: int = index_of(entries, other);
                let to: int = if at < index { at } else { at - 1 };
                lemma_index_of_unique(after, other, to);
            } else {
                assert forall|i: int| 0 <= i < after.len() implies (#[trigger] after[i]).0
                    != other by {
                    let from: int = if i < index { i } else { i + 1 };
                    assert(!holds_key_at(entries, other, from));
                }
                lemma_lookup_absent(after, other);
            }
        }
    }
}

/// Removing a key, the last entry taking its place, keeps the keys unique,
/// leaves the key absent and every other key as it was.
pub proof fn lemma_swap_removed(entries: Entries, key: Seq<char>)
    requires
        unique_keys(entries),
    ensures
        unique_keys(swap_removed(entries, key)),
        lookup(swap_removed(entries, key), key) is None,
        forall|other: Seq<char>|
            other != key ==> #[trigger] lookup(swap_removed(entries, key), other) == lookup(
                entries,
                other,
            ),
{
    let after = swap_removed(entries, key);
    if contains_key(entries, key) {
        let index: int = index_of(entries, key);
        let last: int = entries.len() - 1;
        assert forall|i: int, j: int| 0 <= i < j < after.len() implies after[i].0
            != after[j].0 by {
            let from_i: int = if i == index { last } else { i };
            let from_j: int = if j == index { last } else { j };
            assert(entries[from_i].0 != entries[from_j].0);
        }
        assert forall|i: int| 0 <= i < after.len() implies (#[trigger] after[i]).0 != key by {
            let from: int = if i == index { last } else { i };
            assert(entries[from].0 != entries[index].0);
        }
        lemma_lookup_absent(after, key);
        assert forall|other: Seq<char>| other != key implies #[trigger] lookup(after, other)
            == lookup(entries, other) by {
            if contains_key(entries, other) {
                let at: int = index_of(entries, other);
                let to: int = if at == last { index } else { at };
                lemma_index_of_unique(after, other, to);
            } else {
                assert forall|i: int| 0 <= i < after.len() implies (#[trigger] after[i]).0
                    != other by {
                    let from: int = if i == index { last } else { i };
                    assert(!holds_key_at(entries, other, from));
                }
                lemma_lookup_absent(after, other);
            }
        }
    }
}

/// `indexmap::IndexMap`, of which the verifier knows the name and no more.
#[verifier::external_type_specification]
#[verifier::external_body]
#[verifier::reject_recursive_types(K)]
#[verifier::reject_recursive_types(V)]
#[verifier::reject_recursive_types(S)]
pub struct ExIndexMap<K, V, S>(IndexMap<K, V, S>);

/// The entries that an `indexmap::IndexMap` holds, in the order in which it
/// is walked.
pub uninterp spec fn stored(map: IndexMap<String, ConfigKeyValue>) -> Entries;

/// `IndexMap::new`: a map without entries.
#[verifier::external_body]
fn index_map_new() -> (map: IndexMap<String, ConfigKeyValue>)
    ensures
        stored(map) == Seq::<(Seq<char>, KeyValue)>::empty(),
{
    IndexMap::new()
}

/// `IndexMap::len`: the number of entries.
#[verifier::external_body]
fn index_map_len(map: &IndexMap<String, ConfigKeyValue>) -> (len: usize)
    ensures
        len == stored(*map).len(),
{
    map.len()
}

/// `IndexMap::clone`: a map with the same entries in the same order.
#[verifier::external_body]
fn index_map_clone(map: &IndexMap<String, ConfigKeyValue>) -> (copy: IndexMap<
    String,
    ConfigKeyValue,
>)
    ensures
        stored(copy) == stored(*map),
{
    map.clone()
}

/// `IndexMap::insert`: a key that is present keeps its place and gets the
/// new value, and the old value is returned; a new key is appended, and
/// `None` is returned.
#[verifier::external_body]
fn index_map_insert(
    map: &mut IndexMap<String, ConfigKeyValue>,
    key: String,
    value: ConfigKeyValue,
) -> (previous: Option<ConfigKeyValue>)
    requires
        unique_keys(stored(*old(map))),
    ensures
        stored(*final(map)) == inserted(stored(*old(map)), key@, value@),
        value_view(previous) == lookup(stored(*old(map)), key@),
{
    map.insert(key, value)
}

/// `IndexMap::remove`, which is `swap_remove`: the entry of `key` leaves and
/// its value is returned; the last entry takes the free place. `None` where
/// the key is absent.
#[verifier::external_body]
fn index_map_remove(map: &mut IndexMap<String, ConfigKeyValue>, key: &str) -> (removed: Option<
    ConfigKeyValue,
>)
    requires
        unique_keys(stored(*old(map))),
    ensures
        stored(*final(map)) == swap_removed(stored(*old(map)), key@),
        value_view(removed) == lookup(stored(*old(map)), key@),
{
    map.remove(key)
}

/// `IndexMap::shift_remove`: the entry of `key` leaves and its value is
/// returned; the entries behind it move up by one. `None` where the key is
/// absent.
#[verifier::external_body]
fn index_map_shift_remove(map: &mut IndexMap<String, ConfigKeyValue>, key: &str) -> (removed:
    Option<ConfigKeyValue>)
    requires
        unique_keys(stored(*old(map))),
    ensures
        stored(*final(map)) == shift_removed(stored(*old(map)), key@),
        value_view(removed) == lookup(stored(*old(map)), key@),
{
    map.shift_remove(key)
}

/// `IndexMap::into_keys`, collected: the keys in the map's order.
#[verifier::external_body]
fn index_map_into_keys(map: IndexMap<String, ConfigKeyValue>) -> (keys: Vec<String>)
    ensures
        keys.deep_view() == keys_of(stored(map)),
{
    map.into_keys().collect()
}

/// An ordered mapping from key names to scalar values. A key occurs once;
/// storing under a key that is present overwrites its value.
pub struct ConfigKeyMap {
    entries: IndexMap<String, ConfigKeyValue>,
}

impl View for ConfigKeyMap {
    type V = Entries;

    closed spec fn view(&self) -> Entries {
        stored(self.entries)
    }
}

impl ConfigKeyMap {
    /// No key occurs twice.
    #[verifier::type_invariant]
    pub open spec fn well_formed(&self) -> bool {
        unique_keys(self@)
    }

    /// Takes the map out and leaves an empty one, so that the store holds a
    /// map with unique keys also while the map that was taken out changes.
    fn take_entries(&mut self) -> (entries: IndexMap<String, ConfigKeyValue>)
        ensures
            stored(entries) == old(self)@,
            unique_keys(stored(entries)),
    {
        proof {
            use_type_invariant(&*self);
        }
        let mut entries = index_map_new();
        core::mem::swap(&mut self.entries, &mut entries);
        entries
    }

    /// A store without entries.
    pub fn new() -> (map: ConfigKeyMap)
        ensures
            map@ == Seq::<(Seq<char>, KeyValue)>::empty(),
    {
        ConfigKeyMap { entries: index_map_new() }
    }

    /// The number of keys.
    pub fn len(&self) -> (len: usize)
        ensures
            len == self@.len(),
            unique_keys(self@),
    {
        proof {
            use_type_invariant(self);
        }
        index_map_len(&self.entries)
    }

    /// Stores `value` under `key` and returns the value that it replaces.
    pub fn insert(&mut self, key: String, value: ConfigKeyValue) -> (previous: Option<
        ConfigKeyValue,
    >)
        ensures
            final(self)@ == inserted(old(self)@, key@, value@),
            value_view(previous) == lookup(old(self)@, key@),
            unique_keys(old(self)@),
            unique_keys(final(self)@),
    {
        proof {
            use_type_invariant(&*self);
            lemma_inserted(self@, key@, value@);
        }
        let mut entries = self.take_entries();
        let previous = index_map_insert(&mut entries, key, value);
        self.entries = entries;
        previous
    }

    /// Removes `key` and returns its value; the last entry takes the place
    /// of the removed one. Nothing changes where the key is absent.
    pub fn remove(&mut self, key: &str) -> (removed: Option<ConfigKeyValue>)
        ensures
            final(self)@ == swap_removed(old(self)@, key@),
            value_view(removed) == lookup(old(self)@, key@),
            unique_keys(old(self)@),
            unique_keys(final(self)@),
    {
        proof {
            use_type_invariant(&*self);
            lemma_swap_removed(self@, key@);
        }
        let mut entries = self.take_entries();
        let removed = index_map_remove(&mut entries, key);
        self.entries = entries;
        removed
    }

    /// Removes `key` and returns its value; the other entries keep their
    /// order. Nothing changes where the key is absent.
    pub fn shift_remove(&mut self, key: &str) -> (removed: Option<ConfigKeyValue>)
        ensures
            final(self)@ == shift_removed(old(self)@, key@),
            value_view(removed) == lookup(old(self)@, key@),
            unique_keys(old(self)@),
            unique_keys(final(self)@),
    {
        proof {
            use_type_invariant(&*self);
            lemma_shift_removed(self@, key@);
        }
        let mut entries = self.take_entries();
        let removed = index_map_shift_remove(&mut entries, key);
        self.entries = entries;
        removed
    }

    /// The keys in the store's order.
    pub fn into_keys(self) -> (keys: Vec<String>)
        ensures
            keys.deep_view() == keys_of(self@),
            unique_keys(self@),
    {
        proof {
            use_type_invariant(&self);
        }
        index_map_into_keys(self.entries)
    }
}

impl Default for ConfigKeyMap {
    /// A store without entries.
    fn default() -> (map: ConfigKeyMap)
        ensures
            map@ == Seq::<(Seq<char>, KeyValue)>::empty(),
    {
        ConfigKeyMap::new()
    }
}

impl Clone for ConfigKeyMap {
    /// An independent copy with the same entries.
    fn clone(&self) -> (copy: ConfigKeyMap)
        ensures
            copy@ == self@,
            unique_keys(copy@),
    {
        proof {
            use_type_invariant(self);
        }
        ConfigKeyMap { entries: index_map_clone(&self.entries) }
    }
}

} // verus!
