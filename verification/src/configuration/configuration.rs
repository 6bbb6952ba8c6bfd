//! The configuration that the formatter works from.

use super::global::NewLineKind;
use vstd::prelude::*;

verus! {

/// The resolved configuration: every option has a value.
#[derive(Clone, Copy, Debug, PartialEq, Eq, Structural)]
pub struct Configuration {
    /// Whether to indent with tabs rather than spaces.
    pub use_tabs: bool,
    /// The number of columns of one indent.
    pub indent_width: u8,
    /// The line terminator to write.
    pub new_line_kind: NewLineKind,
    /// Whether reserved words are written in capitals.
    pub uppercase: bool,
    /// The number of line breaks between two queries.
    pub lines_between_queries: u8,
    /// Whether a query is written on one line.
    pub inline: bool,
    /// The length from which a block is broken over several lines.
    pub max_inline_block: usize,
    /// The most arguments that are kept on one line; `None` sets no limit.
    pub max_inline_arguments: Option<usize>,
    /// The greatest length of a top-level statement that is kept on one
    /// line; `None` sets no limit.
    pub max_inline_top_level: Option<usize>,
    /// Whether a join starts a statement of its own.
    pub joins_as_top_level: bool,
}

} // verus!
