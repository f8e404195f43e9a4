//! Unicode normalization and the decoding of UTF-8.

use unicode_normalization::UnicodeNormalization;
use vstd::prelude::*;

verus! {

/// The Normalization Form C of a text.
pub uninterp spec fn nfc_form(text: Seq<char>) -> Seq<char>;

/// Normalizes `text`.
///
/// Calls `UnicodeNormalization::nfc` of the crate `unicode_normalization` and
/// collects what it yields. The result depends on `text` alone; which
/// characters it holds is left to the Unicode tables of that crate.
#[verifier::external_body]
pub(crate) fn nfc(text: &str) -> (r: String)
    ensures
        r@ == nfc_form(text@),
{
    text.nfc().collect::<String>()
}

/// The text that `bytes` encode, or nothing where they are not UTF-8.
///
/// Calls `std::str::from_utf8`, which documents that it returns the bytes as
/// a string slice exactly where they are valid UTF-8.
#[verifier::external_body]
pub(crate) fn decoded(bytes: &Vec<u8>) -> (r: Option<String>)
    ensures
        match r {
            Some(text) => vstd::utf8::valid_utf8(bytes@) && text@ == vstd::utf8::decode_utf8(
                bytes@,
            ),
            None => !vstd::utf8::valid_utf8(bytes@),
        },
{
    std::str::from_utf8(bytes).ok().map(str::to_string)
}

} // verus!
