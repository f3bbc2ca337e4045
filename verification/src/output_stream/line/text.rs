//! Searching and decoding the bytes of a line.

use std::borrow::Cow;
use vstd::prelude::*;
use vstd::utf8::*;

verus! {

/// [`memchr::memchr`] gives the position of the first byte of `haystack` that equals `needle`, and
/// `None` if there is no such byte.
pub assume_specification[ memchr::memchr ](needle: u8, haystack: &[u8]) -> (r: Option<usize>)
    ensures
        match r {
            Some(pos) => {
                &&& pos < haystack@.len()
                &&& haystack@[pos as int] == needle
                &&& forall|i: int| 0 <= i < pos ==> haystack@[i] != needle
            },
            None => forall|i: int| 0 <= i < haystack@.len() ==> haystack@[i] != needle,
        },
;

/// The text that [`String::from_utf8_lossy`] makes of a byte string that is not valid UTF-8.
pub uninterp spec fn lossy_text(bytes: Seq<u8>) -> Seq<char>;

/// The text of a line: its characters, with replacements where it is not valid UTF-8.
pub open spec fn text_of(bytes: Seq<u8>) -> Seq<char> {
    if valid_utf8(bytes) {
        decode_utf8(bytes)
    } else {
        lossy_text(bytes)
    }
}

/// The texts of byte strings.
pub open spec fn decoded(lines: Seq<Seq<u8>>) -> Seq<Seq<char>> {
    lines.map_values(|line: Seq<u8>| text_of(line))
}

/// The texts of strings.
pub open spec fn texts(strings: Seq<String>) -> Seq<Seq<char>> {
    strings.map_values(|string: String| string@)
}

/// The text as a string of its own.
pub(crate) fn into_owned(text: Cow<'_, str>) -> (r: String)
    ensures
        r@ == text@,
{
    match text {
        Cow::Borrowed(text) => text.to_owned(),
        Cow::Owned(text) => text,
    }
}

/// The text as a string slice.
pub(crate) fn as_text<'a>(text: &'a Cow<'_, str>) -> (r: &'a str)
    ensures
        r@ == text@,
{
    match text {
        Cow::Borrowed(text) => text,
        Cow::Owned(text) => text.as_str(),
    }
}

/// Converts bytes to text with a fast path for proper UTF-8 text.
///
/// [`String::from_utf8_lossy`] hands valid UTF-8 back as borrowed text with the same characters.
/// In other input each invalid sequence is replaced, which is only named here and not spelled out.
#[verifier::external_body]
pub(crate) fn decode_line_lossy(bytes: &[u8]) -> (r: Cow<'_, str>)
    ensures
        valid_utf8(bytes@) ==> r is Borrowed && r@ == decode_utf8(bytes@),
        !valid_utf8(bytes@) ==> r@ == lossy_text(bytes@),
{
    String::from_utf8_lossy(bytes)
}

} // verus!
