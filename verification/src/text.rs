//! Symbols as text: the step from the ASCII bytes that encoding writes to a
//! `String`.

use vstd::prelude::*;
use vstd::utf8::{
    encode_utf8, encode_utf8_decode_utf8, encode_utf8_valid_utf8, is_ascii_chars,
    is_ascii_chars_encode_utf8, valid_utf8,
};

verus! {

/// The error of `String::from_utf8`. Nothing is read from it.
#[verifier::external_type_specification]
#[verifier::external_body]
pub struct ExFromUtf8Error(std::string::FromUtf8Error);

/// `String::from_utf8` turns a vector of bytes into a string without changing
/// them: it succeeds exactly on valid UTF-8, and the string it gives has the
/// bytes of the vector as its UTF-8 encoding.
pub assume_specification[ String::from_utf8 ](vec: Vec<u8>) -> (res: Result<
    String,
    std::string::FromUtf8Error,
>)
    ensures
        res is Ok <==> valid_utf8(vec@),
        res matches Ok(s) ==> encode_utf8(s@) == vec@,
;

/// Whether every byte of `bytes` is 7-bit ASCII.
pub open spec fn all_ascii(bytes: Seq<u8>) -> bool {
    forall|i: int| 0 <= i < bytes.len() ==> #[trigger] bytes[i] < 128
}

/// The characters that the ASCII bytes `bytes` stand for.
pub open spec fn text_of(bytes: Seq<u8>) -> Seq<char>
    recommends
        all_ascii(bytes),
{
    Seq::new(bytes.len(), |i: int| bytes[i] as char)
}

/// ASCII bytes are valid UTF-8, and the only text that they encode is the
/// one with a character for each byte.
pub proof fn lemma_ascii_text(bytes: Seq<u8>)
    requires
        all_ascii(bytes),
    ensures
        valid_utf8(bytes),
        encode_utf8(text_of(bytes)) == bytes,
        forall|text: Seq<char>| encode_utf8(text) == bytes ==> text == text_of(bytes),
{
    let chars = text_of(bytes);
    assert(is_ascii_chars(chars));
    is_ascii_chars_encode_utf8(chars);
    assert(encode_utf8(chars) =~= bytes);
    encode_utf8_valid_utf8(chars);
    encode_utf8_decode_utf8(chars);
    assert forall|text: Seq<char>| encode_utf8(text) == bytes implies text == chars by {
        encode_utf8_decode_utf8(text);
    }
}

} // verus!
