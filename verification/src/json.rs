//! JSON string literals, written by `serde_json`.

use vstd::prelude::*;

verus! {

/// The JSON string literal that stands for `s`: quoted, with the characters
/// that JSON reserves escaped.
pub uninterp spec fn json_string(s: Seq<char>) -> Seq<char>;

/// Calls `serde_json::to_string` on a string. The contract names the text that
/// comes back and says nothing more of it; should the call report an error,
/// which writing a string into memory gives it no cause for, the text is empty.
#[verifier::external_body]
pub(crate) fn quote(s: &str) -> (text: String)
    ensures
        text@ == json_string(s@),
{
    serde_json::to_string(s).unwrap_or_default()
}

} // verus!
