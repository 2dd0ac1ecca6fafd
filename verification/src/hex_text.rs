//! The textual form of a byte sequence: `0x`, then two hexadecimal digits
//! for each byte. The digits are written and read by the `hex` crate.

use crate::error::CodecError;
use hex::FromHexError;
use vstd::prelude::*;
use vstd::string::*;
use vstd::utf8::{encode_utf8, is_ascii_chars, is_ascii_chars_encode_utf8};

verus! {

/// `hex::FromHexError`: why `hex::decode` turned a text down.
#[verifier::external_type_specification]
#[verifier::external_body]
pub struct ExFromHexError(FromHexError);

/// The value of a hexadecimal digit given as an ASCII byte, in either case;
/// `None` for any other byte.
pub open spec fn hex_digit_value(c: u8) -> Option<u8> {
    if 0x30 <= c <= 0x39 {
        Some((c - 0x30) as u8)
    } else if 0x61 <= c <= 0x66 {
        Some((c - 0x61 + 10) as u8)
    } else if 0x41 <= c <= 0x46 {
        Some((c - 0x41 + 10) as u8)
    } else {
        None
    }
}

/// Whether `text` is an even number of hexadecimal digits.
pub open spec fn is_hex_text(text: Seq<u8>) -> bool {
    &&& text.len() % 2 == 0
    &&& forall|i: int| 0 <= i < text.len() ==> hex_digit_value(#[trigger] text[i]) is Some
}

/// The bytes that the digit pairs of `text` spell, the high digit first.
pub open spec fn hex_decoded(text: Seq<u8>) -> Seq<u8> {
    Seq::new(
        text.len() / 2,
        |i: int|
            (16 * hex_digit_value(text[2 * i]).unwrap() + hex_digit_value(
                text[2 * i + 1],
            ).unwrap()) as u8,
    )
}

/// The lower-case hexadecimal digit for a value below 16.
pub open spec fn hex_digit_char(value: int) -> char {
    if value < 10 {
        (0x30 + value) as char
    } else {
        (0x61 + value - 10) as char
    }
}

/// Two lower-case digits for each byte, the high digit first.
pub open spec fn hex_encoded(bytes: Seq<u8>) -> Seq<char> {
    Seq::new(
        2 * bytes.len(),
        |i: int|
            hex_digit_char(
                if i % 2 == 0 {
                    bytes[i / 2] as int / 16
                } else {
                    bytes[i / 2] as int % 16
                },
            ),
    )
}

/// The textual form of `bytes`: `0x`, then the digits.
pub open spec fn hex_text_of(bytes: Seq<u8>) -> Seq<char> {
    seq!['0', 'x'] + hex_encoded(bytes)
}

/// The bytes that a text stands for, given as the text's UTF-8 bytes: `Some`
/// if the text is `0x` followed by an even number of hexadecimal digits.
pub open spec fn hex_text_bytes(text: Seq<u8>) -> Option<Seq<u8>> {
    if text.len() >= 2 && text[0] == 0x30 && text[1] == 0x78 && is_hex_text(text.skip(2)) {
        Some(hex_decoded(text.skip(2)))
    } else {
        None
    }
}

/// Calls `hex::decode`. Trusted: it succeeds on an even number of
/// hexadecimal digits of either case and on nothing else, and then returns
/// one byte for each pair of digits, the first digit of a pair being the
/// high half.
#[verifier::external_body]
fn hex_decode(text: &[u8]) -> (res: Result<Vec<u8>, FromHexError>)
    ensures
        res is Ok <==> is_hex_text(text@),
        res matches Ok(bytes) ==> bytes@ == hex_decoded(text@),
{
    hex::decode(text)
}

/// Calls `hex::encode`. Trusted: the text holds two lower-case digits for
/// each byte, the high half first.
#[verifier::external_body]
fn hex_encode(bytes: &[u8]) -> (text: String)
    ensures
        text@ == hex_encoded(bytes@),
{
    hex::encode(bytes)
}

/// The textual form of any bytes is plain ASCII, and stands for those bytes.
pub proof fn lemma_hex_text_roundtrip(bytes: Seq<u8>)
    ensures
        is_ascii_chars(hex_text_of(bytes)),
        hex_text_bytes(encode_utf8(hex_text_of(bytes))) == Some(bytes),
{
    let chars = hex_text_of(bytes);
    assert forall|i: int| 0 <= i < chars.len() implies '\0' <= #[trigger] chars[i]
        <= '\u{7f}' by {
        if i >= 2 {
            assert(chars[i] == hex_encoded(bytes)[i - 2]);
        }
    }
    is_ascii_chars_encode_utf8(chars);
    let text = encode_utf8(chars);
    let digits = text.skip(2);
    assert(text[0] == chars[0] as u8);
    assert(text[1] == chars[1] as u8);
    assert forall|i: int| 0 <= i < digits.len() implies hex_digit_value(#[trigger] digits[i])
        == Some(
        if i % 2 == 0 {
            bytes[i / 2] / 16
        } else {
            bytes[i / 2] % 16
        },
    ) by {
        assert(digits[i] == text[i + 2]);
        assert(text[i + 2] == chars[i + 2] as u8);
        assert(chars[i + 2] == hex_encoded(bytes)[i]);
    }
    assert(is_hex_text(digits));
    assert(hex_decoded(digits) =~= bytes);
}

/// Renders bytes as text: `0x`, then two lower-case digits per byte. The
/// text reads back as the same bytes.
pub fn to_hex(bytes: &[u8]) -> (text: String)
    ensures
        text@ == hex_text_of(bytes@),
        hex_text_bytes(encode_utf8(text@)) == Some(bytes@),
{
    proof {
        lemma_hex_text_roundtrip(bytes@);
    }
    let mut text = String::from_str("0x");
    let digits = hex_encode(bytes);
    text.append(digits.as_str());
    proof {
        reveal_strlit("0x");
        assert("0x"@ =~= seq!['0', 'x']);
    }
    text
}

/// Reads the bytes that a text stands for. Fails with `InvalidHexEncoding`
/// unless the text is `0x` followed by an even number of hexadecimal digits.
pub fn from_hex(text: &str) -> (res: Result<Vec<u8>, CodecError>)
    ensures
        match res {
            Ok(bytes) => hex_text_bytes(text.spec_bytes()) == Some(bytes@),
            Err(e) => e == CodecError::InvalidHexEncoding && hex_text_bytes(text.spec_bytes())
                is None,
        },
{
    let raw = text.as_bytes();
    if raw.len() < 2 || raw[0] != 0x30 || raw[1] != 0x78 {
        return Err(CodecError::InvalidHexEncoding);
    }
    match hex_decode(&raw[2..raw.len()]) {
        Ok(bytes) => Ok(bytes),
        Err(_) => Err(CodecError::InvalidHexEncoding),
    }
}

} // verus!
