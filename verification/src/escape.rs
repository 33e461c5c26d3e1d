//! Percent-decoding of a parameter's value, done by the `urlencoding` crate.

use crate::text::text_of;
use vstd::prelude::*;

verus! {

/// What `urlencoding::decode` gives for a value that holds a `%`: the text
/// that the value decodes to, or `None` where the decoded bytes are not
/// UTF-8. It depends on the value alone.
pub uninterp spec fn percent_decoded(value: Seq<char>) -> Option<Seq<char>>;

/// The text that `value` stands for once its escapes are decoded, or `None`
/// where it stands for none. A value without a `%` has no escape and stands
/// for itself.
pub open spec fn decoded_text(value: Seq<char>) -> Option<Seq<char>> {
    if value.contains('%') {
        percent_decoded(value)
    } else {
        Some(value)
    }
}

/// Calls `urlencoding::decode` and keeps the text of a success.
///
/// Believed, not proved: the call returns on every input; its result is a
/// function of the value alone, named `percent_decoded`; and a value without
/// a `%` is handed back as it is, which the crate does before it decodes
/// anything.
#[verifier::external_body]
pub(crate) fn percent_decode(value: &str) -> (decoded: Option<String>)
    ensures
        value@.contains('%') ==> text_of(decoded) == percent_decoded(value@),
        !value@.contains('%') ==> text_of(decoded) == Some(value@),
{
    match urlencoding::decode(value) {
        Ok(text) => Some(text.into_owned()),
        Err(_) => None,
    }
}

} // verus!
