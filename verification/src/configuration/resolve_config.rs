//! Resolution: from the overrides of a caller and the options shared by all
//! formatters to one configuration, with a diagnostic for each key that
//! could not be used.

use super::configuration::Configuration;
use super::global::{
    new_line_kind_from_str, recommended_global_configuration, GlobalConfiguration, NewLineKind,
    RecommendedGlobalConfiguration,
};
use super::key_map::{
    contains_key, holds_key_at, index_of, keys_of, lemma_index_of_unique, lemma_lookup_absent,
    lookup, shift_removed, unique_keys, ConfigKeyMap, ConfigKeyValue, Entries, KeyValue,
};
use super::keys::{
    known_keys, lemma_known_keys_differ, INDENT_WIDTH, INLINE, JOINS_AS_TOP_LEVEL,
    LINES_BETWEEN_QUERIES, MAX_INLINE_ARGUMENTS, MAX_INLINE_BLOCK, MAX_INLINE_TOP_LEVEL,
    NEW_LINE_KIND, UPPERCASE, USE_TABS,
};
use vstd::prelude::*;

verus! {

/// The message for a key that names no option.
pub const UNKNOWN_PROPERTY: &'static str = "Unknown property in configuration.";

/// The message for a value that is no boolean where one is asked for.
pub const EXPECTED_BOOLEAN: &'static str = "Expected a boolean value.";

/// The message for a value that is no integer from 0 to 255 where one is
/// asked for.
pub const EXPECTED_SMALL_INTEGER: &'static str = "Expected an integer from 0 to 255.";

/// The message for a value that is no integer from 0 up where one is asked
/// for.
pub const EXPECTED_SIZE: &'static str = "Expected an integer that is not negative.";

/// The message for a value that is no text where the name of a new line
/// kind is asked for.
pub const EXPECTED_NEW_LINE_KIND: &'static str = "Expected the name of a new line kind.";

/// Reserved words are written as they are found.
pub const DEFAULT_UPPERCASE: bool = false;

/// One line break stands between two queries.
pub const DEFAULT_LINES_BETWEEN_QUERIES: u8 = 1;

/// A query is written over several lines.
pub const DEFAULT_INLINE: bool = false;

/// A block is broken over several lines from this length on.
pub const DEFAULT_MAX_INLINE_BLOCK: usize = 50;

/// A join starts no statement of its own.
pub const DEFAULT_JOINS_AS_TOP_LEVEL: bool = false;

/// A finding about one key of the overrides. It does not stop resolution.
#[derive(Debug, PartialEq, Eq)]
pub struct ConfigurationDiagnostic {
    /// The key that the finding is about.
    pub property_name: String,
    /// What was found, for the user to read.
    pub message: String,
}

/// What a [`ConfigurationDiagnostic`] says, as a mathematical value.
pub struct Diagnostic {
    pub property_name: Seq<char>,
    pub message: Seq<char>,
}

impl DeepView for ConfigurationDiagnostic {
    type V = Diagnostic;

    open spec fn deep_view(&self) -> Diagnostic {
        Diagnostic { property_name: self.property_name@, message: self.message@ }
    }
}

impl Clone for ConfigurationDiagnostic {
    fn clone(&self) -> (copy: ConfigurationDiagnostic)
        ensures
            copy.deep_view() == self.deep_view(),
    {
        ConfigurationDiagnostic {
            property_name: self.property_name.clone(),
            message: self.message.clone(),
        }
    }
}

/// What resolution gives: the configuration, and the findings in the order
/// in which they were made.
#[derive(Debug, PartialEq, Eq)]
pub struct ResolveConfigurationResult {
    pub diagnostics: Vec<ConfigurationDiagnostic>,
    pub config: Configuration,
}

/// The kind of value that an option takes.
pub enum ValueKind {
    Bool,
    SmallInteger,
    Size,
    NewLineKind,
}

/// `value` can be used where a value of `kind` is asked for.
pub open spec fn accepted(kind: ValueKind, value: KeyValue) -> bool {
    match kind {
        ValueKind::Bool => value is Bool,
        ValueKind::SmallInteger => value matches KeyValue::Number(number) && 0 <= number <= 255,
        ValueKind::Size => value matches KeyValue::Number(number) && 0 <= number,
        ValueKind::NewLineKind => value matches KeyValue::Text(text) && NewLineKind::named(text)
            is Some,
    }
}

/// The message for a `value` that cannot be used as a value of `kind`.
pub open spec fn mismatch_message(kind: ValueKind, value: KeyValue) -> Seq<char> {
    match kind {
        ValueKind::Bool => EXPECTED_BOOLEAN@,
        ValueKind::SmallInteger => EXPECTED_SMALL_INTEGER@,
        ValueKind::Size => EXPECTED_SIZE@,
        ValueKind::NewLineKind => match value {
            KeyValue::Text(text) => NewLineKind::invalid_value_message(text),
            _ => EXPECTED_NEW_LINE_KIND@,
        },
    }
}

/// The findings about what was `found` under `key`, where a value of `kind`
/// is asked for: one if a value is there and cannot be used, else none.
pub open spec fn mismatch_diagnostics(key: Seq<char>, kind: ValueKind, found: Option<KeyValue>)
    -> Seq<Diagnostic> {
    match found {
        Some(value) => if accepted(kind, value) {
            Seq::empty()
        } else {
            seq![Diagnostic { property_name: key, message: mismatch_message(kind, value) }]
        },
        None => Seq::empty(),
    }
}

/// The boolean that was `found`, or the default.
pub open spec fn bool_or(found: Option<KeyValue>, default_value: bool) -> bool {
    match found {
        Some(KeyValue::Bool(flag)) => flag,
        _ => default_value,
    }
}

/// The integer from 0 to 255 that was `found`, or the default.
pub open spec fn small_integer_or(found: Option<KeyValue>, default_value: u8) -> u8 {
    match found {
        Some(KeyValue::Number(number)) => if 0 <= number <= 255 {
            number as u8
        } else {
            default_value
        },
        _ => default_value,
    }
}

/// The integer from 0 up that was `found`, if there is one.
pub open spec fn size_of(found: Option<KeyValue>) -> Option<usize> {
    match found {
        Some(KeyValue::Number(number)) => if 0 <= number {
            Some(number as usize)
        } else {
            None
        },
        _ => None,
    }
}

/// The integer from 0 up that was `found`, or the default.
pub open spec fn size_or(found: Option<KeyValue>, default_value: usize) -> usize {
    match size_of(found) {
        Some(size) => size,
        None => default_value,
    }
}

/// The new line kind whose name was `found`, or the default.
pub open spec fn new_line_kind_or(found: Option<KeyValue>, default_value: NewLineKind)
    -> NewLineKind {
    match found {
        Some(KeyValue::Text(text)) => match NewLineKind::named(text) {
            Some(kind) => kind,
            None => default_value,
        },
        _ => default_value,
    }
}

/// The entries whose key is none of `keys`, in their order.
pub open spec fn without_keys(entries: Entries, keys: Set<Seq<char>>) -> Entries
    decreases entries.len(),
{
    if entries.len() == 0 {
        entries
    } else if keys.contains(entries.last().0) {
        without_keys(entries.drop_last(), keys)
    } else {
        without_keys(entries.drop_last(), keys).push(entries.last())
    }
}

/// The keys that name no option, in the order of the entries.
pub open spec fn unknown_keys(entries: Entries) -> Seq<Seq<char>> {
    keys_of(without_keys(entries, known_keys()))
}

/// The finding that `key` names no option.
pub open spec fn unknown_diagnostic(key: Seq<char>) -> Diagnostic {
    Diagnostic { property_name: key, message: UNKNOWN_PROPERTY@ }
}

/// One finding for each key that names no option, in the order of the
/// entries.
pub open spec fn unknown_diagnostics(entries: Entries) -> Seq<Diagnostic> {
    Seq::new(
        unknown_keys(entries).len(),
        |index: int| unknown_diagnostic(unknown_keys(entries)[index]),
    )
}

/// The configuration that `entries` and `global` resolve to. An option takes
/// the value stored under its key where that can be used. Else a shared
/// option takes the value of `global`, or the recommended one where `global`
/// leaves it open, and an option of the formatter takes its default.
pub open spec fn resolved_configuration(entries: Entries, global: GlobalConfiguration)
    -> Configuration {
    let recommended = RecommendedGlobalConfiguration::value();
    Configuration {
        use_tabs: bool_or(
            lookup(entries, USE_TABS@),
            match global.use_tabs {
                Some(use_tabs) => use_tabs,
                None => recommended.use_tabs,
            },
        ),
        indent_width: small_integer_or(
            lookup(entries, INDENT_WIDTH@),
            match global.indent_width {
                Some(indent_width) => indent_width,
                None => recommended.indent_width,
            },
        ),
        new_line_kind: new_line_kind_or(
            lookup(entries, NEW_LINE_KIND@),
            match global.new_line_kind {
                Some(new_line_kind) => new_line_kind,
                None => recommended.new_line_kind,
            },
        ),
        uppercase: bool_or(lookup(entries, UPPERCASE@), DEFAULT_UPPERCASE),
        lines_between_queries: small_integer_or(
            lookup(entries, LINES_BETWEEN_QUERIES@),
            DEFAULT_LINES_BETWEEN_QUERIES,
        ),
        inline: bool_or(lookup(entries, INLINE@), DEFAULT_INLINE),
        max_inline_block: size_or(lookup(entries, MAX_INLINE_BLOCK@), DEFAULT_MAX_INLINE_BLOCK),
        max_inline_arguments: size_of(lookup(entries, MAX_INLINE_ARGUMENTS@)),
        max_inline_top_level: size_of(lookup(entries, MAX_INLINE_TOP_LEVEL@)),
        joins_as_top_level: bool_or(
            lookup(entries, JOINS_AS_TOP_LEVEL@),
            DEFAULT_JOINS_AS_TOP_LEVEL,
        ),
    }
}

/// The findings about what `entries` hold under `key`, where a value of
/// `kind` is asked for.
pub open spec fn key_diagnostics(entries: Entries, key: Seq<char>, kind: ValueKind) -> Seq<
    Diagnostic,
> {
    mismatch_diagnostics(key, kind, lookup(entries, key))
}

/// The findings about the values stored under the keys of the options, in
/// the order in which the options are resolved.
pub open spec fn option_diagnostics(entries: Entries) -> Seq<Diagnostic> {
    key_diagnostics(entries, USE_TABS@, ValueKind::Bool)
        + key_diagnostics(entries, INDENT_WIDTH@, ValueKind::SmallInteger)
        + key_diagnostics(entries, NEW_LINE_KIND@, ValueKind::NewLineKind)
        + key_diagnostics(entries, UPPERCASE@, ValueKind::Bool)
        + key_diagnostics(entries, LINES_BETWEEN_QUERIES@, ValueKind::SmallInteger)
        + key_diagnostics(entries, INLINE@, ValueKind::Bool)
        + key_diagnostics(entries, MAX_INLINE_BLOCK@, ValueKind::Size)
        + key_diagnostics(entries, MAX_INLINE_ARGUMENTS@, ValueKind::Size)
        + key_diagnostics(entries, MAX_INLINE_TOP_LEVEL@, ValueKind::Size)
        + key_diagnostics(entries, JOINS_AS_TOP_LEVEL@, ValueKind::Bool)
}

/// All findings of a resolution: first those about the options, then one
/// for each key that names no option.
pub open spec fn resolved_diagnostics(entries: Entries) -> Seq<Diagnostic> {
    option_diagnostics(entries) + unknown_diagnostics(entries)
}

/// Leaving out no key leaves the entries as they are.
pub proof fn lemma_without_no_keys(entries: Entries)
    ensures
        without_keys(entries, Set::empty()) == entries,
    decreases entries.len(),
{
    if entries.len() > 0 {
        lemma_without_no_keys(entries.drop_last());
    }
}

/// What is left after keys are left out is what was there under another
/// key.
pub proof fn lemma_without_keys_members(entries: Entries, keys: Set<Seq<char>>)
    ensures
        forall|entry: (Seq<char>, KeyValue)| #[trigger]
            without_keys(entries, keys).contains(entry) <==> entries.contains(entry)
                && !keys.contains(entry.0),
    decreases entries.len(),
{
    let left = without_keys(entries, keys);
    if entries.len() > 0 {
        let front = entries.drop_last();
        let last = entries.last();
        let front_left = without_keys(front, keys);
        lemma_without_keys_members(front, keys);
        assert forall|entry: (Seq<char>, KeyValue)| #[trigger]
            left.contains(entry) <==> entries.contains(entry) && !keys.contains(entry.0) by {
            if left.contains(entry) {
                let at: int = choose|at: int| 0 <= at < left.len() && left[at] == entry;
                if keys.contains(last.0) || at < front_left.len() {
                    assert(front_left.contains(entry));
                    let from: int = choose|from: int| 0 <= from < front.len() && front[from] == entry;
                    assert(entries[from] == entry);
                }
            }
            if entries.contains(entry) && !keys.contains(entry.0) {
                let from: int = choose|from: int| 0 <= from < entries.len() && entries[from] == entry;
                if from < front.len() {
                    assert(front[from] == entry);
                    assert(front_left.contains(entry));
                    let at: int = choose|at: int| 0 <= at < front_left.len() && front_left[at] == entry;
                    assert(left[at] == entry);
                } else {
                    assert(left[left.len() - 1] == entry);
                }
            }
        }
    }
}

/// Leaving keys out keeps the keys unique.
pub proof fn lemma_without_keys_unique(entries: Entries, keys: Set<Seq<char>>)
    requires
        unique_keys(entries),
    ensures
        unique_keys(without_keys(entries, keys)),
    decreases entries.len(),
{
    let left = without_keys(entries, keys);
    if entries.len() > 0 {
        let front = entries.drop_last();
        let last = entries.last();
        let front_left = without_keys(front, keys);
        lemma_without_keys_unique(front, keys);
        lemma_without_keys_members(front, keys);
        if !keys.contains(last.0) {
            assert forall|i: int, j: int| 0 <= i < j < left.len() implies left[i].0
                != left[j].0 by {
                if j == front_left.len() {
                    assert(front_left.contains(front_left[i]));
                    let from: int = choose|from: int|
                        0 <= from < front.len() && front[from] == front_left[i];
                    assert(entries[from].0 != last.0);
                }
            }
        }
    }
}

/// A key that is not left out is found as before.
pub proof fn lemma_without_keys_lookup(entries: Entries, keys: Set<Seq<char>>, key: Seq<char>)
    requires
        unique_keys(entries),
        !keys.contains(key),
    ensures
        lookup(without_keys(entries, keys), key) == lookup(entries, key),
{
    let left = without_keys(entries, keys);
    lemma_without_keys_members(entries, keys);
    lemma_without_keys_unique(entries, keys);
    if contains_key(entries, key) {
        let from: int = index_of(entries, key);
        assert(left.contains(entries[from]));
        let at: int = choose|at: int| 0 <= at < left.len() && left[at] == entries[from];
        lemma_index_of_unique(left, key, at);
    } else {
        assert forall|at: int| 0 <= at < left.len() implies (#[trigger] left[at]).0 != key by {
            assert(left.contains(left[at]));
            let from: int = choose|from: int| 0 <= from < entries.len() && entries[from] == left[at];
            assert(!holds_key_at(entries, key, from));
        }
        lemma_lookup_absent(left, key);
    }
}

/// Removing a key from what is left, the later entries moving up, is
/// leaving that key out as well.
pub proof fn lemma_without_keys_remove(entries: Entries, keys: Set<Seq<char>>, key: Seq<char>)
    requires
        unique_keys(entries),
    ensures
        shift_removed(without_keys(entries, keys), key) == without_keys(entries, keys.insert(key)),
    decreases entries.len(),
{
    let left = without_keys(entries, keys);
    if entries.len() == 0 {
        lemma_lookup_absent(left, key);
    } else {
        let front = entries.drop_last();
        let last = entries.last();
        let front_left = without_keys(front, keys);
        lemma_without_keys_remove(front, keys, key);
        lemma_without_keys_unique(entries, keys);
        lemma_without_keys_members(front, keys);
        if keys.contains(last.0) {
            // The last entry is left out on both sides.
        } else if last.0 == key {
            // The last entry is the one to remove, and the only one.
            lemma_index_of_unique(left, key, front_left.len() as int);
            assert forall|at: int| 0 <= at < front_left.len() implies (#[trigger] front_left[at]).0
                != key by {
                assert(front_left.contains(front_left[at]));
                let from: int = choose|from: int|
                    0 <= from < front.len() && front[from] == front_left[at];
                assert(entries[from].0 != last.0);
            }
            lemma_lookup_absent(front_left, key);
        } else if contains_key(front_left, key) {
            // The entry to remove stands before the last one.
            lemma_index_of_unique(left, key, index_of(front_left, key));
        } else {
            // There is no entry to remove.
            assert forall|at: int| 0 <= at < left.len() implies (#[trigger] left[at]).0 != key by {
                if at < front_left.len() {
                    assert(!holds_key_at(front_left, key, at));
                }
            }
            lemma_lookup_absent(left, key);
        }
    }
}

/// What taking `key` out does to the entries that are left when `taken`
/// has been taken out: the key is found as in all entries, and what is left
/// then is all entries without `taken` and `key`.
proof fn lemma_take(entries: Entries, taken: Set<Seq<char>>, key: Seq<char>)
    requires
        unique_keys(entries),
        !taken.contains(key),
    ensures
        unique_keys(without_keys(entries, taken)),
        lookup(without_keys(entries, taken), key) == lookup(entries, key),
        shift_removed(without_keys(entries, taken), key) == without_keys(
            entries,
            taken.insert(key),
        ),
{
    lemma_without_keys_unique(entries, taken);
    lemma_without_keys_lookup(entries, taken, key);
    lemma_without_keys_remove(entries, taken, key);
}

/// Appends a finding about `key`.
fn push_diagnostic(diagnostics: &mut Vec<ConfigurationDiagnostic>, key: &str, message: String)
    ensures
        final(diagnostics).deep_view() == old(diagnostics).deep_view().push(
            Diagnostic { property_name: key@, message: message@ },
        ),
{
    diagnostics.push(ConfigurationDiagnostic { property_name: key.to_owned(), message });
}

/// Takes the boolean stored under `key` out of `config`. Where none is
/// stored, the result is the default; where what is stored is no boolean,
/// a finding is added as well.
pub fn take_bool(
    config: &mut ConfigKeyMap,
    key: &str,
    default_value: bool,
    diagnostics: &mut Vec<ConfigurationDiagnostic>,
) -> (value: bool)
    ensures
        final(config)@ == shift_removed(old(config)@, key@),
        value == bool_or(lookup(old(config)@, key@), default_value),
        final(diagnostics).deep_view() == old(diagnostics).deep_view() + mismatch_diagnostics(
            key@,
            ValueKind::Bool,
            lookup(old(config)@, key@),
        ),
{
    match config.shift_remove(key) {
        Some(ConfigKeyValue::Bool(flag)) => flag,
        Some(_) => {
            push_diagnostic(diagnostics, key, EXPECTED_BOOLEAN.to_owned());
            default_value
        },
        None => default_value,
    }
}

/// Takes the integer from 0 to 255 stored under `key` out of `config`.
/// Where none is stored, the result is the default; where what is stored is
/// no such integer, a finding is added as well.
pub fn take_small_integer(
    config: &mut ConfigKeyMap,
    key: &str,
    default_value: u8,
    diagnostics: &mut Vec<ConfigurationDiagnostic>,
) -> (value: u8)
    ensures
        final(config)@ == shift_removed(old(config)@, key@),
        value == small_integer_or(lookup(old(config)@, key@), default_value),
        final(diagnostics).deep_view() == old(diagnostics).deep_view() + mismatch_diagnostics(
            key@,
            ValueKind::SmallInteger,
            lookup(old(config)@, key@),
        ),
{
    match config.shift_remove(key) {
        Some(ConfigKeyValue::Number(number)) if 0 <= number && number <= 255 => number as u8,
        Some(_) => {
            push_diagnostic(diagnostics, key, EXPECTED_SMALL_INTEGER.to_owned());
            default_value
        },
        None => default_value,
    }
}

/// Takes the integer from 0 up stored under `key` out of `config`. Where
/// none is stored, the result is `None`; where what is stored is no such
/// integer, a finding is added as well.
pub fn take_limit(
    config: &mut ConfigKeyMap,
    key: &str,
    diagnostics: &mut Vec<ConfigurationDiagnostic>,
) -> (value: Option<usize>)
    ensures
        final(config)@ == shift_removed(old(config)@, key@),
        value == size_of(lookup(old(config)@, key@)),
        final(diagnostics).deep_view() == old(diagnostics).deep_view() + mismatch_diagnostics(
            key@,
            ValueKind::Size,
            lookup(old(config)@, key@),
        ),
{
    match config.shift_remove(key) {
        Some(ConfigKeyValue::Number(number)) if 0 <= number => Some(number as usize),
        Some(_) => {
            push_diagnostic(diagnostics, key, EXPECTED_SIZE.to_owned());
            None
        },
        None => None,
    }
}

/// Takes the integer from 0 up stored under `key` out of `config`. Where
/// none is stored, the result is the default; where what is stored is no
/// such integer, a finding is added as well.
pub fn take_size(
    config: &mut ConfigKeyMap,
    key: &str,
    default_value: usize,
    diagnostics: &mut Vec<ConfigurationDiagnostic>,
) -> (value: usize)
    ensures
        final(config)@ == shift_removed(old(config)@, key@),
        value == size_or(lookup(old(config)@, key@), default_value),
        final(diagnostics).deep_view() == old(diagnostics).deep_view() + mismatch_diagnostics(
            key@,
            ValueKind::Size,
            lookup(old(config)@, key@),
        ),
{
    match take_limit(config, key, diagnostics) {
        Some(size) => size,
        None => default_value,
    }
}

/// Takes the new line kind whose name is stored under `key` out of
/// `config`. Where none is stored, the result is the default; where what is
/// stored is not the name of a kind, a finding is added as well.
pub fn take_new_line_kind(
    config: &mut ConfigKeyMap,
    key: &str,
    default_value: NewLineKind,
    diagnostics: &mut Vec<ConfigurationDiagnostic>,
) -> (value: NewLineKind)
    ensures
        final(config)@ == shift_removed(old(config)@, key@),
        value == new_line_kind_or(lookup(old(config)@, key@), default_value),
        final(diagnostics).deep_view() == old(diagnostics).deep_view() + mismatch_diagnostics(
            key@,
            ValueKind::NewLineKind,
            lookup(old(config)@, key@),
        ),
{
    match config.shift_remove(key) {
        Some(ConfigKeyValue::String(text)) => match new_line_kind_from_str(text.as_str()) {
            Ok(kind) => kind,
            Err(message) => {
                push_diagnostic(diagnostics, key, message);
                default_value
            },
        },
        Some(_) => {
            push_diagnostic(diagnostics, key, EXPECTED_NEW_LINE_KIND.to_owned());
            default_value
        },
        None => default_value,
    }
}

/// One finding for each key that is left in `config`, in the order of its
/// entries: that the key names no option.
pub fn report_unknown_keys(config: ConfigKeyMap) -> (diagnostics: Vec<
    ConfigurationDiagnostic,
>)
    ensures
        diagnostics.deep_view() == Seq::new(
            config@.len(),
            |index: int| unknown_diagnostic(config@[index].0),
        ),
{
    let keys = config.into_keys();
    let mut diagnostics: Vec<ConfigurationDiagnostic> = Vec::new();
    let mut index: usize = 0;
    assert(keys.deep_view().len() == config@.len());
    while index < keys.len()
        invariant
            index <= keys.len(),
            keys.len() == config@.len(),
            keys.deep_view() == keys_of(config@),
            diagnostics.deep_view() == Seq::new(
                index as nat,
                |at: int| unknown_diagnostic(config@[at].0),
            ),
        decreases keys.len() - index,
    {
        assert(keys.deep_view()[index as int] == config@[index as int].0);
        push_diagnostic(&mut diagnostics, keys[index].as_str(), UNKNOWN_PROPERTY.to_owned());
        index += 1;
    }
    diagnostics
}

/// Resolves the overrides in `config` against the shared options in
/// `global_config`. Resolution does not fail: a value that cannot be used
/// and a key that names no option each give a finding, and the option
/// concerned falls back as if nothing were stored for it.
pub fn resolve_config(config: ConfigKeyMap, global_config: &GlobalConfiguration) -> (result:
    ResolveConfigurationResult)
    ensures
        result.config == resolved_configuration(config@, *global_config),
        result.diagnostics.deep_view() == resolved_diagnostics(config@),
{
    // Each step takes one key out. What is left after a step are the
    // entries without the keys taken so far: the next key is found in it as
    // in all entries, and in the end the keys that name no option are left.
    let ghost entries = config@;
    let ghost taken: Set<Seq<char>> = Set::empty();
    let mut config = config;
    let mut diagnostics: Vec<ConfigurationDiagnostic> = Vec::new();
    let recommended = recommended_global_configuration();
    proof {
        use_type_invariant(&config);
        lemma_known_keys_differ();
        lemma_without_no_keys(entries);
        lemma_take(entries, taken, USE_TABS@);
    }
    let use_tabs = take_bool(
        &mut config,
        USE_TABS,
        global_config.use_tabs.unwrap_or(recommended.use_tabs),
        &mut diagnostics,
    );

    let ghost taken = taken.insert(USE_TABS@);
    proof {
        lemma_take(entries, taken, INDENT_WIDTH@);
    }
    let indent_width = take_small_integer(
        &mut config,
        INDENT_WIDTH,
        global_config.indent_width.unwrap_or(recommended.indent_width),
        &mut diagnostics,
    );

    let ghost taken = taken.insert(INDENT_WIDTH@);
    proof {
        lemma_take(entries, taken, NEW_LINE_KIND@);
    }
    let new_line_kind = take_new_line_kind(
        &mut config,
        NEW_LINE_KIND,
        global_config.new_line_kind.unwrap_or(recommended.new_line_kind),
        &mut diagnostics,
    );

    let ghost taken = taken.insert(NEW_LINE_KIND@);
    proof {
        lemma_take(entries, taken, UPPERCASE@);
    }
    let uppercase = take_bool(&mut config, UPPERCASE, DEFAULT_UPPERCASE, &mut diagnostics);

    let ghost taken = taken.insert(UPPERCASE@);
    proof {
        lemma_take(entries, taken, LINES_BETWEEN_QUERIES@);
    }
    let lines_between_queries = take_small_integer(
        &mut config,
        LINES_BETWEEN_QUERIES,
        DEFAULT_LINES_BETWEEN_QUERIES,
        &mut diagnostics,
    );

    let ghost taken = taken.insert(LINES_BETWEEN_QUERIES@);
    proof {
        lemma_take(entries, taken, INLINE@);
    }
    let inline = take_bool(&mut config, INLINE, DEFAULT_INLINE, &mut diagnostics);

    let ghost taken = taken.insert(INLINE@);
    proof {
        lemma_take(entries, taken, MAX_INLINE_BLOCK@);
    }
    let max_inline_block = take_size(
        &mut config,
        MAX_INLINE_BLOCK,
        DEFAULT_MAX_INLINE_BLOCK,
        &mut diagnostics,
    );

    let ghost taken = taken.insert(MAX_INLINE_BLOCK@);
    proof {
        lemma_take(entries, taken, MAX_INLINE_ARGUMENTS@);
    }
    let max_inline_arguments = take_limit(
        &mut config,
        MAX_INLINE_ARGUMENTS,
        &mut diagnostics,
    );

    let ghost taken = taken.insert(MAX_INLINE_ARGUMENTS@);
    proof {
        lemma_take(entries, taken, MAX_INLINE_TOP_LEVEL@);
    }
    let max_inline_top_level = take_limit(
        &mut config,
        MAX_INLINE_TOP_LEVEL,
        &mut diagnostics,
    );

    let ghost taken = taken.insert(MAX_INLINE_TOP_LEVEL@);
    proof {
        lemma_take(entries, taken, JOINS_AS_TOP_LEVEL@);
    }
    let joins_as_top_level = take_bool(
        &mut config,
        JOINS_AS_TOP_LEVEL,
        DEFAULT_JOINS_AS_TOP_LEVEL,
        &mut diagnostics,
    );

    let ghost taken = taken.insert(JOINS_AS_TOP_LEVEL@);
    assert(taken =~= known_keys());
    let mut unknown = report_unknown_keys(config);
    assert(unknown.deep_view() =~= unknown_diagnostics(entries));
    diagnostics.append(&mut unknown);
    ResolveConfigurationResult {
        diagnostics,
        config: Configuration {
            use_tabs,
            indent_width,
            new_line_kind,
            uppercase,
            lines_between_queries,
            inline,
            max_inline_block,
            max_inline_arguments,
            max_inline_top_level,
            joins_as_top_level,
        },
    }
}

} // verus!
