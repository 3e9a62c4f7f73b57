//! The calls into `serde_json`, each behind a contract that is taken on trust.

use vstd::prelude::*;

verus! {

/// The error type of `serde_json`, carried through as an opaque value.
#[verifier::external_type_specification]
#[verifier::external_body]
pub struct ExJsonError(serde_json::Error);

/// Whether `c` is a printable ASCII character other than `"` and `\`: one
/// that a JSON string holds as it is.
pub open spec fn is_plain_char(c: char) -> bool {
    ' ' <= c <= '~' && c != '"' && c != '\\'
}

/// Whether every character of `s` is plain.
pub open spec fn is_plain(s: Seq<char>) -> bool {
    forall|i: int| 0 <= i < s.len() ==> is_plain_char(#[trigger] s[i])
}

/// `s` between two double quotes.
pub open spec fn quoted(s: Seq<char>) -> Seq<char> {
    seq!['"'] + s + seq!['"']
}

/// The JSON string literal that `serde_json` writes for the string `s`.
pub uninterp spec fn json_string_text(s: Seq<char>) -> Seq<char>;

/// `serde_json::to_string` on a string slice.
///
/// Taken on trust: the call succeeds (the text is written to a vector, and a
/// string slice serialises without failing), its result depends on the
/// characters of `s` alone, and a string of plain characters comes back
/// unchanged between two double quotes, since none of them is escaped.
#[verifier::external_body]
pub(crate) fn json_quote(s: &str) -> (out: Result<String, serde_json::Error>)
    ensures
        out is Ok,
        out->Ok_0@ == json_string_text(s@),
        is_plain(s@) ==> out->Ok_0@ == quoted(s@),
{
    serde_json::to_string(s)
}

/// The sequence id that `serde_json` reads from the body of the ledger's
/// global state: the second element of a JSON array of three, where
/// `serde_json` takes the body for such an array and its second element for
/// a `u64`; `None` where it does not.
pub uninterp spec fn global_state_sequence(body: Seq<u8>) -> Option<u64>;

/// `serde_json::from_slice` for a triple of any value, a `u64` and any value.
///
/// Taken on trust: whether the call succeeds and the number it yields depend
/// on the bytes of `body` alone.
#[verifier::external_body]
pub(crate) fn parse_global_state(body: &[u8]) -> (out: Result<u64, serde_json::Error>)
    ensures
        match out {
            Ok(sequence) => global_state_sequence(body@) == Some(sequence),
            Err(_) => global_state_sequence(body@) is None,
        },
{
    serde_json::from_slice::<(serde_json::Value, u64, serde_json::Value)>(body).map(|state| state.1)
}

} // verus!
