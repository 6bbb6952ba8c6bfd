//! The formatting options that many formatters share, as the host resolves
//! them, and the defaults that stand in where the host leaves one open.

use dprint_core::configuration as dprint;
use vstd::prelude::*;

verus! {

/// The line terminator to write.
#[derive(Clone, Copy, Debug, PartialEq, Eq, Structural, Hash)]
pub enum NewLineKind {
    /// Decide by the last line terminator found in the file.
    Auto,
    /// Line feed.
    LineFeed,
    /// Carriage return, line feed.
    CarriageReturnLineFeed,
    /// The standard of the system that the formatter runs on.
    System,
}

impl NewLineKind {
    /// The name under which the kind is written in a configuration.
    pub open spec fn name(self) -> Seq<char> {
        match self {
            NewLineKind::Auto => "auto"@,
            NewLineKind::LineFeed => "lf"@,
            NewLineKind::CarriageReturnLineFeed => "crlf"@,
            NewLineKind::System => "system"@,
        }
    }

    /// The kind that `name` stands for, if it is the name of one.
    pub open spec fn named(name: Seq<char>) -> Option<NewLineKind> {
        if name == "auto"@ {
            Some(NewLineKind::Auto)
        } else if name == "lf"@ {
            Some(NewLineKind::LineFeed)
        } else if name == "crlf"@ {
            Some(NewLineKind::CarriageReturnLineFeed)
        } else if name == "system"@ {
            Some(NewLineKind::System)
        } else {
            None
        }
    }

    /// The message that reports `text` as the name of no kind.
    pub open spec fn invalid_value_message(text: Seq<char>) -> Seq<char> {
        "Found invalid value '"@ + text + "'."@
    }

    /// A kind is found again under its name.
    pub proof fn lemma_named_name(self)
        ensures
            NewLineKind::named(self.name()) == Some(self),
    {
        reveal_strlit("auto");
        reveal_strlit("lf");
        reveal_strlit("crlf");
        reveal_strlit("system");
        assert("lf"@.len() == 2);
        assert("crlf"@[0] == 'c');
        assert("system"@.len() == 6);
    }
}

/// The options that the host has resolved for all formatters. One that it
/// leaves open is `None`.
#[derive(Clone, Copy, Debug, PartialEq, Eq, Structural)]
pub struct GlobalConfiguration {
    pub line_width: Option<u32>,
    pub use_tabs: Option<bool>,
    pub indent_width: Option<u8>,
    pub new_line_kind: Option<NewLineKind>,
}

impl GlobalConfiguration {
    /// The configuration that leaves every option open.
    pub open spec fn unset() -> GlobalConfiguration {
        GlobalConfiguration {
            line_width: None,
            use_tabs: None,
            indent_width: None,
            new_line_kind: None,
        }
    }
}

impl Default for GlobalConfiguration {
    fn default() -> (global: GlobalConfiguration)
        ensures
            global == GlobalConfiguration::unset(),
    {
        GlobalConfiguration {
            line_width: None,
            use_tabs: None,
            indent_width: None,
            new_line_kind: None,
        }
    }
}

/// The values recommended for the shared options.
#[derive(Clone, Copy, Debug, PartialEq, Eq, Structural)]
pub struct RecommendedGlobalConfiguration {
    pub line_width: u32,
    pub use_tabs: bool,
    pub indent_width: u8,
    pub new_line_kind: NewLineKind,
}

impl RecommendedGlobalConfiguration {
    /// The values that the host recommends.
    pub open spec fn value() -> RecommendedGlobalConfiguration {
        RecommendedGlobalConfiguration {
            line_width: 120,
            use_tabs: false,
            indent_width: 2,
            new_line_kind: NewLineKind::LineFeed,
        }
    }
}

/// `to_string` of `dprint_core::configuration::NewLineKind`: `auto`, `lf`,
/// `crlf` or `system`, by the variant.
#[verifier::external_body]
pub(crate) fn new_line_kind_to_string(kind: NewLineKind) -> (text: String)
    ensures
        text@ == kind.name(),
{
    let outside = match kind {
        NewLineKind::Auto => dprint::NewLineKind::Auto,
        NewLineKind::LineFeed => dprint::NewLineKind::LineFeed,
        NewLineKind::CarriageReturnLineFeed => dprint::NewLineKind::CarriageReturnLineFeed,
        NewLineKind::System => dprint::NewLineKind::System,
    };
    outside.to_string()
}

/// `from_str` of `dprint_core::configuration::NewLineKind`: the variant whose
/// name the text is. For any other text it fails, and its error is shown as
/// `Found invalid value '`, the text, `'.`.
#[verifier::external_body]
pub(crate) fn new_line_kind_from_str(text: &str) -> (parsed: Result<NewLineKind, String>)
    ensures
        match parsed {
            Ok(kind) => NewLineKind::named(text@) == Some(kind),
            Err(message) => NewLineKind::named(text@) is None && message@
                == NewLineKind::invalid_value_message(text@),
        },
{
    match text.parse::<dprint::NewLineKind>() {
        Ok(dprint::NewLineKind::Auto) => Ok(NewLineKind::Auto),
        Ok(dprint::NewLineKind::LineFeed) => Ok(NewLineKind::LineFeed),
        Ok(dprint::NewLineKind::CarriageReturnLineFeed) => Ok(NewLineKind::CarriageReturnLineFeed),
        Ok(dprint::NewLineKind::System) => Ok(NewLineKind::System),
        Err(error) => Err(error.to_string()),
    }
}

/// `dprint_core::configuration::resolve_global_config` on an empty map with
/// its default options: it finds none of its keys, so every option of the
/// result is `None`.
#[verifier::external_body]
pub(crate) fn resolve_default_global_config() -> (global: GlobalConfiguration)
    ensures
        global == GlobalConfiguration::unset(),
{
    let resolved = dprint::resolve_global_config(Default::default(), &Default::default()).config;
    let new_line_kind = match resolved.new_line_kind {
        Some(dprint::NewLineKind::Auto) => Some(NewLineKind::Auto),
        Some(dprint::NewLineKind::LineFeed) => Some(NewLineKind::LineFeed),
        Some(dprint::NewLineKind::CarriageReturnLineFeed) => Some(NewLineKind::CarriageReturnLineFeed),
        Some(dprint::NewLineKind::System) => Some(NewLineKind::System),
        None => None,
    };
    GlobalConfiguration {
        line_width: resolved.line_width,
        use_tabs: resolved.use_tabs,
        indent_width: resolved.indent_width,
        new_line_kind,
    }
}

/// `dprint_core::configuration::RECOMMENDED_GLOBAL_CONFIGURATION`: a line
/// width of 120, spaces, an indent of 2 and line feeds.
#[verifier::external_body]
pub(crate) fn recommended_global_configuration() -> (recommended: RecommendedGlobalConfiguration)
    ensures
        recommended == RecommendedGlobalConfiguration::value(),
{
    let outside = dprint::RECOMMENDED_GLOBAL_CONFIGURATION;
    let new_line_kind = match outside.new_line_kind {
        dprint::NewLineKind::Auto => NewLineKind::Auto,
        dprint::NewLineKind::LineFeed => NewLineKind::LineFeed,
        dprint::NewLineKind::CarriageReturnLineFeed => NewLineKind::CarriageReturnLineFeed,
        dprint::NewLineKind::System => NewLineKind::System,
    };
    RecommendedGlobalConfiguration {
        line_width: outside.line_width,
        use_tabs: outside.use_tabs,
        indent_width: outside.indent_width,
        new_line_kind,
    }
}

} // verus!
