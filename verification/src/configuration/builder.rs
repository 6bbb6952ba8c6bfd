//! A builder with one typed setter for each option.

use super::configuration::Configuration;
use super::global::{
    new_line_kind_to_string, resolve_default_global_config, GlobalConfiguration, NewLineKind,
};
use super::key_map::{
    inserted, swap_removed, unique_keys, ConfigKeyMap, ConfigKeyValue, Entries, KeyValue,
};
use super::keys::{
    INDENT_WIDTH, INLINE, JOINS_AS_TOP_LEVEL, LINES_BETWEEN_QUERIES, MAX_INLINE_ARGUMENTS,
    MAX_INLINE_BLOCK, MAX_INLINE_TOP_LEVEL, NEW_LINE_KIND, UPPERCASE, USE_TABS,
};
use super::resolve_config::{resolve_config, resolved_configuration};
use vstd::prelude::*;

verus! {

/// The value under which the store holds a size: the size as a 32-bit
/// integer.
pub open spec fn stored_size(size: usize) -> KeyValue {
    KeyValue::Number(size as i32)
}

/// The entries after the setter of a limit has been called: a number is
/// stored under the key, and `None` takes the key out.
pub open spec fn with_limit(entries: Entries, key: Seq<char>, limit: Option<usize>) -> Entries {
    match limit {
        Some(size) => inserted(entries, key, stored_size(size)),
        None => swap_removed(entries, key),
    }
}

/// The entries after each setter of the builder has been called with the
/// value that `config` has for its option.
pub open spec fn with_configuration(entries: Entries, config: Configuration) -> Entries {
    let entries = inserted(entries, USE_TABS@, KeyValue::Bool(config.use_tabs));
    let entries = inserted(entries, INDENT_WIDTH@, KeyValue::Number(config.indent_width as i32));
    let entries = inserted(entries, NEW_LINE_KIND@, KeyValue::Text(config.new_line_kind.name()));
    let entries = inserted(entries, UPPERCASE@, KeyValue::Bool(config.uppercase));
    let entries = inserted(
        entries,
        LINES_BETWEEN_QUERIES@,
        KeyValue::Number(config.lines_between_queries as i32),
    );
    let entries = inserted(entries, INLINE@, KeyValue::Bool(config.inline));
    let entries = inserted(entries, MAX_INLINE_BLOCK@, stored_size(config.max_inline_block));
    let entries = with_limit(entries, MAX_INLINE_ARGUMENTS@, config.max_inline_arguments);
    let entries = with_limit(entries, MAX_INLINE_TOP_LEVEL@, config.max_inline_top_level);
    inserted(entries, JOINS_AS_TOP_LEVEL@, KeyValue::Bool(config.joins_as_top_level))
}

/// Collects overrides for the options of the formatter and resolves them to
/// a [`Configuration`].
///
/// ```
/// use dprint_plugin_sql::configuration::ConfigurationBuilder;
///
/// let config = ConfigurationBuilder::new()
///     .uppercase(true)
///     .build();
/// ```
pub struct ConfigurationBuilder {
    config: ConfigKeyMap,
    global_config: Option<GlobalConfiguration>,
}

impl ConfigurationBuilder {
    /// The overrides collected so far.
    pub closed spec fn entries(&self) -> Entries {
        self.config@
    }

    /// The shared options that were supplied, if any were.
    pub closed spec fn global(&self) -> Option<GlobalConfiguration> {
        self.global_config
    }

    /// The shared options that the overrides are resolved against: those
    /// supplied, or else those that the host resolves from nothing, which
    /// leave every option open.
    pub open spec fn global_or_default(&self) -> GlobalConfiguration {
        match self.global() {
            Some(global) => global,
            None => GlobalConfiguration::unset(),
        }
    }

    /// The configuration that the builder stands for.
    pub open spec fn resolved(&self) -> Configuration {
        resolved_configuration(self.entries(), self.global_or_default())
    }

    /// A builder without overrides and without shared options.
    pub fn new() -> (builder: ConfigurationBuilder)
        ensures
            builder.entries() == Seq::<(Seq<char>, KeyValue)>::empty(),
            builder.global() is None,
    {
        ConfigurationBuilder { config: ConfigKeyMap::new(), global_config: None }
    }

    /// The configuration that the overrides resolve to. The builder stays
    /// as it is, and the findings of the resolution are dropped.
    pub fn build(&self) -> (config: Configuration)
        ensures
            config == self.resolved(),
    {
        if let Some(global_config) = &self.global_config {
            resolve_config(self.config.clone(), global_config).config
        } else {
            let global_config = resolve_default_global_config();
            resolve_config(self.config.clone(), &global_config).config
        }
    }

    /// Supplies the shared options to resolve against.
    pub fn global_config(&mut self, global_config: GlobalConfiguration) -> (builder: &mut Self)
        ensures
            builder.entries() == old(self).entries(),
            builder.global() == Some(global_config),
            unique_keys(builder.entries()),
            *final(self) == *final(builder),
    {
        proof {
            use_type_invariant(&self.config);
        }
        self.global_config = Some(global_config);
        self
    }

    /// Whether to indent with tabs rather than spaces.
    pub fn use_tabs(&mut self, value: bool) -> (builder: &mut Self)
        ensures
            builder.entries() == inserted(old(self).entries(), USE_TABS@, KeyValue::Bool(value)),
            builder.global() == old(self).global(),
            unique_keys(builder.entries()),
            *final(self) == *final(builder),
    {
        self.insert(USE_TABS, ConfigKeyValue::from_bool(value))
    }

    /// The number of columns of one indent.
    pub fn indent_width(&mut self, value: u8) -> (builder: &mut Self)
        ensures
            builder.entries() == inserted(
                old(self).entries(),
                INDENT_WIDTH@,
                KeyValue::Number(value as i32),
            ),
            builder.global() == old(self).global(),
            unique_keys(builder.entries()),
            *final(self) == *final(builder),
    {
        self.insert(INDENT_WIDTH, ConfigKeyValue::from_i32(value as i32))
    }

    /// The line terminator to write.
    pub fn new_line_kind(&mut self, value: NewLineKind) -> (builder: &mut Self)
        ensures
            builder.entries() == inserted(
                old(self).entries(),
                NEW_LINE_KIND@,
                KeyValue::Text(value.name()),
            ),
            builder.global() == old(self).global(),
            unique_keys(builder.entries()),
            *final(self) == *final(builder),
    {
        self.insert(NEW_LINE_KIND, ConfigKeyValue::String(new_line_kind_to_string(value)))
    }

    /// Whether reserved words are written in capitals.
    pub fn uppercase(&mut self, value: bool) -> (builder: &mut Self)
        ensures
            builder.entries() == inserted(old(self).entries(), UPPERCASE@, KeyValue::Bool(value)),
            builder.global() == old(self).global(),
            unique_keys(builder.entries()),
            *final(self) == *final(builder),
    {
        self.insert(UPPERCASE, ConfigKeyValue::from_bool(value))
    }

    /// The number of line breaks between two queries.
    pub fn lines_between_queries(&mut self, value: u8) -> (builder: &mut Self)
        ensures
            builder.entries() == inserted(
                old(self).entries(),
                LINES_BETWEEN_QUERIES@,
                KeyValue::Number(value as i32),
            ),
            builder.global() == old(self).global(),
            unique_keys(builder.entries()),
            *final(self) == *final(builder),
    {
        self.insert(LINES_BETWEEN_QUERIES, ConfigKeyValue::from_i32(value as i32))
    }

    /// Whether a query is written on one line.
    pub fn inline(&mut self, value: bool) -> (builder: &mut Self)
        ensures
            builder.entries() == inserted(old(self).entries(), INLINE@, KeyValue::Bool(value)),
            builder.global() == old(self).global(),
            unique_keys(builder.entries()),
            *final(self) == *final(builder),
    {
        self.insert(INLINE, ConfigKeyValue::from_bool(value))
    }

    /// The length from which a block is broken over several lines. The
    /// store holds 32-bit integers: a greater length is cut down to its
    /// low 32 bits.
    pub fn max_inline_block(&mut self, value: usize) -> (builder: &mut Self)
        ensures
            builder.entries() == inserted(
                old(self).entries(),
                MAX_INLINE_BLOCK@,
                stored_size(value),
            ),
            builder.global() == old(self).global(),
            unique_keys(builder.entries()),
            *final(self) == *final(builder),
    {
        self.insert(MAX_INLINE_BLOCK, ConfigKeyValue::from_i32(value as i32))
    }

    /// The most arguments that are kept on one line. `None` takes the
    /// override back, so that no limit is set. The store holds 32-bit
    /// integers: a greater number is cut down to its low 32 bits.
    pub fn max_inline_arguments(&mut self, value: Option<usize>) -> (builder: &mut Self)
        ensures
            builder.entries() == with_limit(old(self).entries(), MAX_INLINE_ARGUMENTS@, value),
            builder.global() == old(self).global(),
            unique_keys(builder.entries()),
            *final(self) == *final(builder),
    {
        if let Some(limit) = value {
            self.insert(MAX_INLINE_ARGUMENTS, ConfigKeyValue::from_i32(limit as i32))
        } else {
            self.config.remove(MAX_INLINE_ARGUMENTS);
            self
        }
    }

    /// The greatest length of a top-level statement that is kept on one
    /// line. `None` takes the override back, so that no limit is set. The
    /// store holds 32-bit integers: a greater length is cut down to its low
    /// 32 bits.
    pub fn max_inline_top_level(&mut self, value: Option<usize>) -> (builder: &mut Self)
        ensures
            builder.entries() == with_limit(old(self).entries(), MAX_INLINE_TOP_LEVEL@, value),
            builder.global() == old(self).global(),
            unique_keys(builder.entries()),
            *final(self) == *final(builder),
    {
        if let Some(limit) = value {
            self.insert(MAX_INLINE_TOP_LEVEL, ConfigKeyValue::from_i32(limit as i32))
        } else {
            self.config.remove(MAX_INLINE_TOP_LEVEL);
            self
        }
    }

    /// Whether a join starts a statement of its own.
    pub fn joins_as_top_level(&mut self, value: bool) -> (builder: &mut Self)
        ensures
            builder.entries() == inserted(
                old(self).entries(),
                JOINS_AS_TOP_LEVEL@,
                KeyValue::Bool(value),
            ),
            builder.global() == old(self).global(),
            unique_keys(builder.entries()),
            *final(self) == *final(builder),
    {
        self.insert(JOINS_AS_TOP_LEVEL, ConfigKeyValue::from_bool(value))
    }

    /// A copy of the overrides collected so far.
    pub fn get_inner_config(&self) -> (config: ConfigKeyMap)
        ensures
            config@ == self.entries(),
            unique_keys(config@),
    {
        self.config.clone()
    }

    fn insert(&mut self, name: &str, value: ConfigKeyValue) -> (builder: &mut Self)
        ensures
            builder.entries() == inserted(old(self).entries(), name@, value@),
            builder.global() == old(self).global(),
            unique_keys(builder.entries()),
            *final(self) == *final(builder),
    {
        self.config.insert(name.to_owned(), value);
        self
    }
}

impl Default for ConfigurationBuilder {
    fn default() -> (builder: ConfigurationBuilder)
        ensures
            builder.entries() == Seq::<(Seq<char>, KeyValue)>::empty(),
            builder.global() is None,
    {
        ConfigurationBuilder::new()
    }
}

} // verus!
