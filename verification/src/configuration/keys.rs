//! The names under which the options are written in a configuration.

use vstd::prelude::*;

verus! {

pub const USE_TABS: &'static str = "useTabs";

pub const INDENT_WIDTH: &'static str = "indentWidth";

pub const NEW_LINE_KIND: &'static str = "newLineKind";

pub const UPPERCASE: &'static str = "uppercase";

pub const LINES_BETWEEN_QUERIES: &'static str = "linesBetweenQueries";

pub const INLINE: &'static str = "inline";

pub const MAX_INLINE_BLOCK: &'static str = "maxInlineBlock";

pub const MAX_INLINE_ARGUMENTS: &'static str = "maxInlineArguments";

pub const MAX_INLINE_TOP_LEVEL: &'static str = "maxInlineTopLevel";

pub const JOINS_AS_TOP_LEVEL: &'static str = "joinsAsTopLevel";

/// `key` is the name of an option.
pub open spec fn is_known_key(key: Seq<char>) -> bool {
    ||| key == USE_TABS@
    ||| key == INDENT_WIDTH@
    ||| key == NEW_LINE_KIND@
    ||| key == UPPERCASE@
    ||| key == LINES_BETWEEN_QUERIES@
    ||| key == INLINE@
    ||| key == MAX_INLINE_BLOCK@
    ||| key == MAX_INLINE_ARGUMENTS@
    ||| key == MAX_INLINE_TOP_LEVEL@
    ||| key == JOINS_AS_TOP_LEVEL@
}

/// The names of all options.
pub open spec fn known_keys() -> Set<Seq<char>> {
    Set::new(|key: Seq<char>| is_known_key(key))
}

/// The ten names differ from each other: by their lengths, and the two of
/// equal length by their first letter.
pub proof fn lemma_known_keys_differ()
    ensures
        USE_TABS@.len() == 7,
        INDENT_WIDTH@.len() == 11,
        INDENT_WIDTH@[0] == 'i',
        NEW_LINE_KIND@.len() == 11,
        NEW_LINE_KIND@[0] == 'n',
        UPPERCASE@.len() == 9,
        LINES_BETWEEN_QUERIES@.len() == 19,
        INLINE@.len() == 6,
        MAX_INLINE_BLOCK@.len() == 14,
        MAX_INLINE_ARGUMENTS@.len() == 18,
        MAX_INLINE_TOP_LEVEL@.len() == 17,
        JOINS_AS_TOP_LEVEL@.len() == 15,
{
    reveal_strlit("useTabs");
    reveal_strlit("indentWidth");
    reveal_strlit("newLineKind");
    reveal_strlit("uppercase");
    reveal_strlit("linesBetweenQueries");
    reveal_strlit("inline");
    reveal_strlit("maxInlineBlock");
    reveal_strlit("maxInlineArguments");
    reveal_strlit("maxInlineTopLevel");
    reveal_strlit("joinsAsTopLevel");
}

} // verus!
