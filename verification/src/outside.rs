//! What the library takes on trust from the standard library and from
//! `html_escape`: each function here makes one outside call, and its
//! contract is believed, not proved.

use vstd::prelude::*;
use crate::text::{escaped_text, int_text};

verus! {

/// `i128::to_string`: the decimal digits of `n`, after a minus sign when `n`
/// is negative.
#[verifier::external_body]
pub(crate) fn int_to_string(n: i128) -> (s: String)
    ensures
        s@ == int_text(n as int),
{
    n.to_string()
}

/// The text that `{:?}` gives for a character: the character between single
/// quotes, escaped where it does not print as itself.
pub uninterp spec fn char_debug_text(c: char) -> Seq<char>;

/// `<char as Debug>::fmt`, reached through `format!`: the text that `{:?}`
/// gives for the character.
#[verifier::external_body]
pub(crate) fn char_debug(c: char) -> (s: String)
    ensures
        s@ == char_debug_text(c),
{
    format!("{:?}", c)
}

/// `html_escape::encode_text`: the text with `&`, `<` and `>` written as
/// `&amp;`, `&lt;` and `&gt;`, and every other character as it stands.
#[verifier::external_body]
pub(crate) fn encode_text(text: &str) -> (r: String)
    ensures
        r@ == escaped_text(text@),
{
    html_escape::encode_text(text).into_owned()
}

/// `str::eq`: two string slices are equal when they hold the same characters.
#[verifier::external_body]
pub(crate) fn str_equal(a: &str, b: &str) -> (r: bool)
    ensures
        r == (a@ == b@),
{
    a == b
}

} // verus!
