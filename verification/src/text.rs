//! Text that the codec makes from bytes: UTF-8 names and hexadecimal dumps.

use vstd::prelude::*;
use vstd::utf8::{decode_utf8, encode_utf8, valid_utf8};
use vstd::string::StringSliceAdditionalSpecFns;

verus! {

/// The lower-case hexadecimal digit of a number below 16.
pub open spec fn hex_digit(n: int) -> char {
    if n < 10 {
        (0x30 + n) as char
    } else {
        (0x61 + n - 10) as char
    }
}

/// The bytes of `data` in lower-case hexadecimal, two digits for each byte,
/// the high half first.
pub open spec fn hex_string(data: Seq<u8>) -> Seq<char> {
    Seq::new(
        2 * data.len(),
        |i: int|
            if i % 2 == 0 {
                hex_digit(data[i / 2] as int / 16)
            } else {
                hex_digit(data[i / 2] as int % 16)
            },
    )
}

/// `hex::encode`: the lower-case hexadecimal text of `data`.
#[verifier::external_body]
pub(crate) fn hex_encode(data: &[u8]) -> (s: String)
    ensures
        s@ == hex_string(data@),
{
    hex::encode(data)
}

/// `core::str::from_utf8`: the text that `data` spells, where it is UTF-8,
/// and `None` where it is not.
#[verifier::external_body]
pub(crate) fn utf8_text(data: &[u8]) -> (text: Option<&str>)
    ensures
        text is Some <==> valid_utf8(data@),
        text is Some ==> text->Some_0.spec_bytes() == data@,
{
    core::str::from_utf8(data).ok()
}

/// What `String::from_utf8_lossy` makes of bytes: the text they spell,
/// with the replacement character where they spell none.
pub uninterp spec fn utf8_lossy(data: Seq<u8>) -> Seq<char>;

/// `String::from_utf8_lossy`: the text that `data` spells, made whole with
/// replacement characters where it is not UTF-8.  Of valid UTF-8 it is the
/// text itself.
#[verifier::external_body]
pub(crate) fn utf8_text_lossy(data: &[u8]) -> (text: String)
    ensures
        text@ == utf8_lossy(data@),
        valid_utf8(data@) ==> text@ == decode_utf8(data@),
{
    String::from_utf8_lossy(data).into_owned()
}

/// Text read from valid UTF-8 is the decoding of those bytes.
pub proof fn lemma_text_of_bytes(text: Seq<char>, data: Seq<u8>)
    requires
        encode_utf8(text) == data,
    ensures
        valid_utf8(data),
        decode_utf8(data) == text,
{
    vstd::utf8::encode_utf8_valid_utf8(text);
    vstd::utf8::encode_utf8_decode_utf8(text);
}

} // verus!
