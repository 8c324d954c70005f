//! The outside escape-decoding routine, behind a trusted boundary.
//!
//! Resolution reacts to the success or failure of shell/quote-style escape
//! decoding but does not reimplement its grammar; the decoded text is known
//! to the contracts only under the name [`unescape_spec`].

use vstd::prelude::*;

verus! {

/// What escape decoding yields on a given input: `Some` with the decoded
/// characters when every escape is well formed, `None` otherwise.  The result
/// depends on the input characters alone.
pub uninterp spec fn unescape_spec(s: Seq<char>) -> Option<Seq<char>>;

#[verifier::external_type_specification]
#[verifier::external_body]
pub struct ExUnescapeError(snailquote::UnescapeError);

/// Relies on `snailquote::unescape`: decodes single/double-quote regions and
/// backslash escapes, rejecting an unterminated or unrecognized escape; a
/// pure function of the input string, and it does not panic.
#[verifier::external_body]
pub(crate) fn unescape(raw: &str) -> (r: Result<String, snailquote::UnescapeError>)
    ensures
        r is Ok <==> unescape_spec(raw@) is Some,
        r is Ok ==> r->Ok_0@ == unescape_spec(raw@)->Some_0,
{
    snailquote::unescape(raw)
}

} // verus!
