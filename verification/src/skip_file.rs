//! The Skip-State Store's content: a single boolean flag, serialized as the
//! literal text `true` or `false`, the file's entire content. Reading and
//! writing the file itself is I/O and lives outside the library; what the
//! content means is decided here.

use crate::text;
use vstd::prelude::*;

verus! {

/// The entire flag-file content recording a verdict.
pub open spec fn skip_flag_text(value: bool) -> Seq<char> {
    if value {
        "true"@
    } else {
        "false"@
    }
}

/// The verdict recorded in flag-file content: exactly `true` is a recorded
/// "skip", exactly `false` a recorded "do not skip"; anything else is no
/// verdict at all, and the decision is made afresh.
pub open spec fn skip_flag_of(content: Seq<char>) -> Option<bool> {
    if content == "true"@ {
        Some(true)
    } else if content == "false"@ {
        Some(false)
    } else {
        None
    }
}

/// Serializes a verdict for the flag file.
pub fn render_skip_flag(value: bool) -> (r: String)
    ensures
        r@ == skip_flag_text(value),
{
    text::bool_str(value).to_owned()
}

/// Interprets flag-file content as a verdict (see [`skip_flag_of`]).
pub fn parse_skip_flag(content: &str) -> (r: Option<bool>)
    ensures
        r == skip_flag_of(content@),
{
    if text::str_eq(content, "true") {
        Some(true)
    } else if text::str_eq(content, "false") {
        Some(false)
    } else {
        None
    }
}

/// Law: a verdict written to the store is the verdict read back; the two
/// serializations never collide, and neither is mistaken for garbage.
pub proof fn lemma_skip_flag_round_trip(value: bool)
    ensures
        skip_flag_of(skip_flag_text(value)) == Some(value),
{
    reveal_strlit("true");
    reveal_strlit("false");
    assert("false"@.len() != "true"@.len());
}

} // verus!
