//! What holds of resolution and of the builder, whatever the overrides and
//! the shared options are.

use super::builder::{stored_size, with_configuration, with_limit, ConfigurationBuilder};
use super::configuration::Configuration;
use super::global::{GlobalConfiguration, NewLineKind};
use super::key_map::{
    contains_key, index_of, inserted, lemma_inserted, lemma_lookup_absent,
    lemma_swap_removed, lookup, swap_removed, unique_keys, ConfigKeyMap, Entries, KeyValue,
};
use super::keys::{
    is_known_key, known_keys, lemma_known_keys_differ, INDENT_WIDTH, INLINE, JOINS_AS_TOP_LEVEL,
    LINES_BETWEEN_QUERIES, MAX_INLINE_ARGUMENTS, MAX_INLINE_BLOCK, MAX_INLINE_TOP_LEVEL,
    NEW_LINE_KIND, UPPERCASE, USE_TABS,
};
use super::resolve_config::{
    lemma_without_keys_members, lemma_without_keys_unique, option_diagnostics, resolve_config,
    resolved_configuration, resolved_diagnostics, unknown_diagnostic, unknown_diagnostics,
    unknown_keys, without_keys, Diagnostic, ResolveConfigurationResult,
};
use vstd::prelude::*;

verus! {

/// Every key of `entries` names an option.
pub open spec fn only_known_keys(entries: Entries) -> bool {
    forall|index: int| 0 <= index < entries.len() ==> is_known_key(#[trigger] entries[index].0)
}

/// What is found under the key of an option that sets a limit or none.
pub open spec fn stored_limit(limit: Option<usize>) -> Option<KeyValue> {
    match limit {
        Some(size) => Some(stored_size(size)),
        None => None,
    }
}

/// Every size of `config` can be held as a 32-bit integer.
pub open spec fn fits_store(config: Configuration) -> bool {
    &&& config.max_inline_block <= i32::MAX
    &&& config.max_inline_arguments matches Some(limit) ==> limit <= i32::MAX
    &&& config.max_inline_top_level matches Some(limit) ==> limit <= i32::MAX
}

/// `entries` hold, under the key of each option, the value that `config`
/// has for it, and nothing for a limit that is not set.
pub open spec fn holds_configuration(entries: Entries, config: Configuration) -> bool {
    &&& lookup(entries, USE_TABS@) == Some(KeyValue::Bool(config.use_tabs))
    &&& lookup(entries, INDENT_WIDTH@) == Some(KeyValue::Number(config.indent_width as i32))
    &&& lookup(entries, NEW_LINE_KIND@) == Some(KeyValue::Text(config.new_line_kind.name()))
    &&& lookup(entries, UPPERCASE@) == Some(KeyValue::Bool(config.uppercase))
    &&& lookup(entries, LINES_BETWEEN_QUERIES@) == Some(
        KeyValue::Number(config.lines_between_queries as i32),
    )
    &&& lookup(entries, INLINE@) == Some(KeyValue::Bool(config.inline))
    &&& lookup(entries, MAX_INLINE_BLOCK@) == Some(stored_size(config.max_inline_block))
    &&& lookup(entries, MAX_INLINE_ARGUMENTS@) == stored_limit(config.max_inline_arguments)
    &&& lookup(entries, MAX_INLINE_TOP_LEVEL@) == stored_limit(config.max_inline_top_level)
    &&& lookup(entries, JOINS_AS_TOP_LEVEL@) == Some(KeyValue::Bool(config.joins_as_top_level))
}

/// The configuration that the formatter works from where nothing is
/// overridden and the host leaves every shared option open.
pub open spec fn default_configuration() -> Configuration {
    Configuration {
        use_tabs: false,
        indent_width: 2,
        new_line_kind: NewLineKind::LineFeed,
        uppercase: false,
        lines_between_queries: 1,
        inline: false,
        max_inline_block: 50,
        max_inline_arguments: None,
        max_inline_top_level: None,
        joins_as_top_level: false,
    }
}

/// Overrides that give every option a value that it can take, and hold no
/// other key, resolve without a finding to exactly these values, whatever
/// the shared options are.
pub proof fn lemma_complete_overrides(
    entries: Entries,
    config: Configuration,
    global: GlobalConfiguration,
)
    requires
        unique_keys(entries),
        only_known_keys(entries),
        holds_configuration(entries, config),
        fits_store(config),
    ensures
        resolved_configuration(entries, global) == config,
        resolved_diagnostics(entries) == Seq::<Diagnostic>::empty(),
{
    config.new_line_kind.lemma_named_name();
    lemma_only_known_keys(entries);
}

/// Where every key names an option, no key is reported as unknown.
pub proof fn lemma_only_known_keys(entries: Entries)
    requires
        only_known_keys(entries),
    ensures
        unknown_keys(entries) == Seq::<Seq<char>>::empty(),
        unknown_diagnostics(entries) == Seq::<Diagnostic>::empty(),
{
    let left = without_keys(entries, known_keys());
    lemma_without_keys_members(entries, known_keys());
    if left.len() > 0 {
        assert(left.contains(left[0]));
        let from: int = choose|from: int| 0 <= from < entries.len() && entries[from] == left[0];
        assert(is_known_key(entries[from].0));
    }
}

/// Without overrides every option takes the value of the shared options,
/// or the recommended one where they leave it open, or else its default;
/// and nothing is found.
pub proof fn lemma_no_overrides(global: GlobalConfiguration)
    ensures
        resolved_configuration(Seq::empty(), global) == (Configuration {
            use_tabs: match global.use_tabs {
                Some(use_tabs) => use_tabs,
                None => false,
            },
            indent_width: match global.indent_width {
                Some(indent_width) => indent_width,
                None => 2,
            },
            new_line_kind: match global.new_line_kind {
                Some(new_line_kind) => new_line_kind,
                None => NewLineKind::LineFeed,
            },
            ..default_configuration()
        }),
        resolved_configuration(Seq::empty(), GlobalConfiguration::unset())
            == default_configuration(),
        resolved_diagnostics(Seq::empty()) == Seq::<Diagnostic>::empty(),
{
    let entries = Seq::<(Seq<char>, KeyValue)>::empty();
    assert forall|key: Seq<char>| lookup(entries, key) is None by {
        lemma_lookup_absent(entries, key);
    }
    lemma_only_known_keys(entries);
}

/// An override of a shared option wins over the shared options: where the
/// overrides hold a value that the option can take, the option has this
/// value whatever `global` says. Where they hold nothing for it, the option
/// has the value of `global`, or the recommended one where `global` leaves
/// it open.
pub proof fn lemma_overrides_win(entries: Entries, global: GlobalConfiguration)
    ensures
        lookup(entries, USE_TABS@) matches Some(KeyValue::Bool(use_tabs))
            ==> resolved_configuration(entries, global).use_tabs == use_tabs,
        lookup(entries, INDENT_WIDTH@) matches Some(KeyValue::Number(indent_width)) ==> (0
            <= indent_width <= 255 ==> resolved_configuration(entries, global).indent_width
            == indent_width),
        lookup(entries, NEW_LINE_KIND@) matches Some(KeyValue::Text(name)) ==> (NewLineKind::named(
            name,
        ) matches Some(new_line_kind) ==> resolved_configuration(entries, global).new_line_kind
            == new_line_kind),
        lookup(entries, USE_TABS@) is None ==> resolved_configuration(entries, global).use_tabs
            == (match global.use_tabs {
            Some(use_tabs) => use_tabs,
            None => false,
        }),
        lookup(entries, INDENT_WIDTH@) is None ==> resolved_configuration(
            entries,
            global,
        ).indent_width == (match global.indent_width {
            Some(indent_width) => indent_width,
            None => 2,
        }),
        lookup(entries, NEW_LINE_KIND@) is None ==> resolved_configuration(
            entries,
            global,
        ).new_line_kind == (match global.new_line_kind {
            Some(new_line_kind) => new_line_kind,
            None => NewLineKind::LineFeed,
        }),
{
}

/// A limit that is set and then taken back is no limit: after the setter
/// of a limit has been called, with a number or with `None`, and then with
/// `None`, the option resolves to `None`, not to a number.
pub proof fn lemma_unset_limit(
    entries: Entries,
    first: Option<usize>,
    global: GlobalConfiguration,
)
    requires
        unique_keys(entries),
    ensures
        resolved_configuration(
            with_limit(with_limit(entries, MAX_INLINE_ARGUMENTS@, first), MAX_INLINE_ARGUMENTS@, None),
            global,
        ).max_inline_arguments is None,
        resolved_configuration(
            with_limit(with_limit(entries, MAX_INLINE_TOP_LEVEL@, first), MAX_INLINE_TOP_LEVEL@, None),
            global,
        ).max_inline_top_level is None,
{
    lemma_limit_taken_back(entries, MAX_INLINE_ARGUMENTS@, first);
    lemma_limit_taken_back(entries, MAX_INLINE_TOP_LEVEL@, first);
}

/// After the setter of a limit has been called and then called with `None`,
/// nothing is stored under its key.
proof fn lemma_limit_taken_back(entries: Entries, key: Seq<char>, first: Option<usize>)
    requires
        unique_keys(entries),
    ensures
        lookup(with_limit(with_limit(entries, key, first), key, None), key) is None,
{
    match first {
        Some(size) => {
            lemma_inserted(entries, key, stored_size(size));
        },
        None => {
            lemma_swap_removed(entries, key);
        },
    }
    lemma_swap_removed(with_limit(entries, key, first), key);
}

/// A key that names no option changes no option: with such a key stored,
/// the overrides resolve to the same configuration, and the findings about
/// the options are the same.
pub proof fn lemma_unknown_key_changes_no_option(
    entries: Entries,
    key: Seq<char>,
    value: KeyValue,
    global: GlobalConfiguration,
)
    requires
        unique_keys(entries),
        !is_known_key(key),
    ensures
        resolved_configuration(inserted(entries, key, value), global) == resolved_configuration(
            entries,
            global,
        ),
        option_diagnostics(inserted(entries, key, value)) == option_diagnostics(entries),
{
    lemma_inserted(entries, key, value);
}

/// A key that names no option and is new to the overrides adds one finding,
/// the last one, which names the key.
pub proof fn lemma_unknown_key_adds_diagnostic(entries: Entries, key: Seq<char>, value: KeyValue)
    requires
        unique_keys(entries),
        !is_known_key(key),
        !contains_key(entries, key),
    ensures
        resolved_diagnostics(inserted(entries, key, value)) == resolved_diagnostics(entries).push(
            unknown_diagnostic(key),
        ),
{
    let after = inserted(entries, key, value);
    lemma_inserted(entries, key, value);
    assert(after.drop_last() =~= entries);
}

/// A finding about an option names the key of an option.
pub proof fn lemma_option_diagnostics_name_options(entries: Entries, index: int)
    requires
        0 <= index < option_diagnostics(entries).len(),
    ensures
        is_known_key(option_diagnostics(entries)[index].property_name),
{
}

/// A stored key that names no option is named by exactly one finding: that
/// the key is unknown.
pub proof fn lemma_unknown_key_has_one_diagnostic(entries: Entries, key: Seq<char>)
    requires
        unique_keys(entries),
        !is_known_key(key),
        contains_key(entries, key),
    ensures
        exists|at: int|
            {
                &&& 0 <= at < resolved_diagnostics(entries).len()
                &&& #[trigger] resolved_diagnostics(entries)[at] == unknown_diagnostic(key)
                &&& forall|other: int|
                    0 <= other < resolved_diagnostics(entries).len() && (
                    #[trigger] resolved_diagnostics(entries)[other]).property_name == key ==> other
                        == at
            },
{
    let found = resolved_diagnostics(entries);
    let options = option_diagnostics(entries);
    let left = without_keys(entries, known_keys());
    lemma_without_keys_members(entries, known_keys());
    lemma_without_keys_unique(entries, known_keys());
    let from: int = index_of(entries, key);
    assert(left.contains(entries[from]));
    let place: int = choose|place: int| 0 <= place < left.len() && left[place] == entries[from];
    let at: int = options.len() + place;
    assert(found[at] == unknown_diagnostics(entries)[place]);
    assert forall|other: int| 0 <= other < found.len() && (#[trigger] found[other]).property_name
        == key implies other == at by {
        if other < options.len() {
            lemma_option_diagnostics_name_options(entries, other);
        } else {
            let there: int = other - options.len();
            assert(left[there].0 == left[place].0);
        }
    }
}

/// Building can be repeated: whatever two calls of `build` on one builder
/// return, with no change to the builder in between, is the same
/// configuration.
pub proof fn lemma_build_repeats(
    builder: ConfigurationBuilder,
    first: Configuration,
    second: Configuration,
)
    requires
        call_ensures(ConfigurationBuilder::build, (&builder,), first),
        call_ensures(ConfigurationBuilder::build, (&builder,), second),
    ensures
        first == second,
        first == builder.resolved(),
{
}

/// Resolving can be repeated: whatever two calls of `resolve_config` on
/// stores with the same entries and on the same shared options return is
/// the same configuration with the same findings.
pub proof fn lemma_resolve_repeats(
    first_config: ConfigKeyMap,
    second_config: ConfigKeyMap,
    global: GlobalConfiguration,
    first: ResolveConfigurationResult,
    second: ResolveConfigurationResult,
)
    requires
        first_config@ == second_config@,
        call_ensures(resolve_config, (first_config, &global), first),
        call_ensures(resolve_config, (second_config, &global), second),
    ensures
        first.config == second.config,
        first.diagnostics.deep_view() == second.diagnostics.deep_view(),
{
}

/// What the setters of the builder write, resolution reads back: after
/// every setter has been called with the value that `config` has for its
/// option, the overrides hold `config`, and where they held no key but
/// those of options before, they resolve to `config` without a finding.
pub proof fn lemma_configuration_round_trip(
    entries: Entries,
    config: Configuration,
    global: GlobalConfiguration,
)
    requires
        unique_keys(entries),
        only_known_keys(entries),
        fits_store(config),
    ensures
        unique_keys(with_configuration(entries, config)),
        holds_configuration(with_configuration(entries, config), config),
        resolved_configuration(with_configuration(entries, config), global) == config,
        resolved_diagnostics(with_configuration(entries, config)) == Seq::<Diagnostic>::empty(),
{
    lemma_known_keys_differ();
    let step1 = inserted(entries, USE_TABS@, KeyValue::Bool(config.use_tabs));
    lemma_set(entries, USE_TABS@, KeyValue::Bool(config.use_tabs));
    let step2 = inserted(step1, INDENT_WIDTH@, KeyValue::Number(config.indent_width as i32));
    lemma_set(step1, INDENT_WIDTH@, KeyValue::Number(config.indent_width as i32));
    let step3 = inserted(step2, NEW_LINE_KIND@, KeyValue::Text(config.new_line_kind.name()));
    lemma_set(step2, NEW_LINE_KIND@, KeyValue::Text(config.new_line_kind.name()));
    let step4 = inserted(step3, UPPERCASE@, KeyValue::Bool(config.uppercase));
    lemma_set(step3, UPPERCASE@, KeyValue::Bool(config.uppercase));
    let step5 = inserted(
        step4,
        LINES_BETWEEN_QUERIES@,
        KeyValue::Number(config.lines_between_queries as i32),
    );
    lemma_set(step4, LINES_BETWEEN_QUERIES@, KeyValue::Number(config.lines_between_queries as i32));
    let step6 = inserted(step5, INLINE@, KeyValue::Bool(config.inline));
    lemma_set(step5, INLINE@, KeyValue::Bool(config.inline));
    let step7 = inserted(step6, MAX_INLINE_BLOCK@, stored_size(config.max_inline_block));
    lemma_set(step6, MAX_INLINE_BLOCK@, stored_size(config.max_inline_block));
    let step8 = with_limit(step7, MAX_INLINE_ARGUMENTS@, config.max_inline_arguments);
    lemma_set_limit(step7, MAX_INLINE_ARGUMENTS@, config.max_inline_arguments);
    let step9 = with_limit(step8, MAX_INLINE_TOP_LEVEL@, config.max_inline_top_level);
    lemma_set_limit(step8, MAX_INLINE_TOP_LEVEL@, config.max_inline_top_level);
    let step10 = inserted(step9, JOINS_AS_TOP_LEVEL@, KeyValue::Bool(config.joins_as_top_level));
    lemma_set(step9, JOINS_AS_TOP_LEVEL@, KeyValue::Bool(config.joins_as_top_level));
    lemma_complete_overrides(step10, config, global);
}

/// A setter that stores a value keeps the keys unique and those of options,
/// makes its value the one found under its key, and changes no other key.
proof fn lemma_set(entries: Entries, key: Seq<char>, value: KeyValue)
    requires
        unique_keys(entries),
        only_known_keys(entries),
        is_known_key(key),
    ensures
        unique_keys(inserted(entries, key, value)),
        only_known_keys(inserted(entries, key, value)),
        lookup(inserted(entries, key, value), key) == Some(value),
        forall|other: Seq<char>|
            other != key ==> #[trigger] lookup(inserted(entries, key, value), other) == lookup(
                entries,
                other,
            ),
{
    lemma_inserted(entries, key, value);
    let after = inserted(entries, key, value);
    assert forall|index: int| 0 <= index < after.len() implies is_known_key(
        #[trigger] after[index].0,
    ) by {
        assert(index < entries.len() ==> is_known_key(entries[index].0));
    }
}

/// The setter of a limit keeps the keys unique and those of options, makes
/// its limit what is found under its key, and changes no other key.
proof fn lemma_set_limit(entries: Entries, key: Seq<char>, limit: Option<usize>)
    requires
        unique_keys(entries),
        only_known_keys(entries),
        is_known_key(key),
    ensures
        unique_keys(with_limit(entries, key, limit)),
        only_known_keys(with_limit(entries, key, limit)),
        lookup(with_limit(entries, key, limit), key) == stored_limit(limit),
        forall|other: Seq<char>|
            other != key ==> #[trigger] lookup(with_limit(entries, key, limit), other) == lookup(
                entries,
                other,
            ),
{
    match limit {
        Some(size) => {
            lemma_set(entries, key, stored_size(size));
        },
        None => {
            lemma_swap_removed(entries, key);
            let after = swap_removed(entries, key);
            assert forall|index: int| 0 <= index < after.len() implies is_known_key(
                #[trigger] after[index].0,
            ) by {
                let from: int = if contains_key(entries, key) && index == index_of(entries, key) {
                    entries.len() - 1
                } else {
                    index
                };
                assert(is_known_key(entries[from].0));
            }
        },
    }
}

} // verus!
