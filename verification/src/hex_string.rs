//! Bytes as hexadecimal text, the form in which checksums are written.

use crate::text::{digit_char, trim_start_matches, without_leading};
use vstd::prelude::*;
use vstd::utf8::encode_utf8;

verus! {

/// Why text is not the hexadecimal form of bytes.
#[derive(Clone, Copy, Debug, PartialEq, Eq, Structural)]
pub enum FromHexError {
    /// The byte at `index` of the text, read as the character `c`, is no
    /// hexadecimal digit.
    InvalidHexCharacter { c: char, index: usize },
    /// The text has an odd number of bytes.
    OddLength,
    /// The text does not have the length that was asked for.
    InvalidStringLength,
}

/// The hexadecimal digit for `n`, in lower case.
pub open spec fn hex_digit(n: nat) -> char {
    if n < 10 {
        digit_char(n)
    } else if n == 10 {
        'a'
    } else if n == 11 {
        'b'
    } else if n == 12 {
        'c'
    } else if n == 13 {
        'd'
    } else if n == 14 {
        'e'
    } else {
        'f'
    }
}

/// The bytes in hexadecimal: two digits in lower case for each byte, the
/// higher one first.
pub open spec fn hex_lower(bytes: Seq<u8>) -> Seq<char>
    decreases bytes.len(),
{
    if bytes.len() == 0 {
        Seq::empty()
    } else {
        hex_lower(bytes.drop_last()).push(hex_digit(bytes.last() as nat / 16)).push(
            hex_digit(bytes.last() as nat % 16),
        )
    }
}

/// A hexadecimal digit in lower case.
pub open spec fn is_hex_lower_char(c: char) -> bool {
    ('0' <= c <= '9') || ('a' <= c <= 'f')
}

/// Text of hexadecimal digits in lower case.
pub open spec fn is_hex_lower_text(s: Seq<char>) -> bool {
    forall|i: int| 0 <= i < s.len() ==> is_hex_lower_char(#[trigger] s[i])
}

/// Bytes in hexadecimal are two digits in lower case for each byte.
pub proof fn lemma_hex_lower_shape(bytes: Seq<u8>)
    ensures
        hex_lower(bytes).len() == 2 * bytes.len(),
        is_hex_lower_text(hex_lower(bytes)),
    decreases bytes.len(),
{
    if bytes.len() > 0 {
        lemma_hex_lower_shape(bytes.drop_last());
        let front = hex_lower(bytes.drop_last());
        let high = hex_digit(bytes.last() as nat / 16);
        let low = hex_digit(bytes.last() as nat % 16);
        assert(is_hex_lower_char(high));
        assert(is_hex_lower_char(low));
        assert forall|i: int| 0 <= i < hex_lower(bytes).len() implies is_hex_lower_char(
            #[trigger] hex_lower(bytes)[i],
        ) by {
            if i < front.len() {
                assert(hex_lower(bytes)[i] == front[i]);
            }
        }
    }
}

/// The value of a hexadecimal digit, in either case, given as a byte of
/// text.
pub open spec fn hex_value(b: u8) -> Option<int> {
    if 0x30 <= b <= 0x39 {
        Some(b - 0x30)
    } else if 0x41 <= b <= 0x46 {
        Some(b - 0x41 + 10)
    } else if 0x61 <= b <= 0x66 {
        Some(b - 0x61 + 10)
    } else {
        None
    }
}

/// The byte at `index` is the first that is no hexadecimal digit.
pub open spec fn is_first_invalid(text: Seq<u8>, index: int) -> bool {
    &&& 0 <= index < text.len()
    &&& hex_value(text[index]) is None
    &&& forall|k: int| 0 <= k < index ==> hex_value(#[trigger] text[k]) is Some
}

/// The bytes that the text is the hexadecimal form of: each pair of digits
/// gives one byte, the higher digit first.
pub open spec fn is_decoded(text: Seq<u8>, bytes: Seq<u8>) -> bool {
    &&& text.len() == 2 * bytes.len()
    &&& forall|i: int|
        0 <= i < bytes.len() ==> hex_value(text[2 * i]) is Some && hex_value(text[2 * i + 1])
            is Some && #[trigger] bytes[i] == hex_value(text[2 * i])->0 * 16 + hex_value(
            text[2 * i + 1],
        )->0
}

/// What decoding the text gives: the bytes, or the first thing that is
/// wrong with the text.
pub open spec fn is_decoding(text: Seq<u8>, r: Result<Vec<u8>, FromHexError>) -> bool {
    match r {
        Ok(bytes) => is_decoded(text, bytes@),
        Err(FromHexError::OddLength) => text.len() % 2 == 1,
        Err(FromHexError::InvalidHexCharacter { c, index }) => text.len() % 2 == 0
            && is_first_invalid(text, index as int) && c == text[index as int] as char,
        Err(FromHexError::InvalidStringLength) => false,
    }
}

/// Calls `hex::encode`. The contract claims two digits in lower case for
/// each byte, the higher one first.
#[verifier::external_body]
pub(crate) fn hex_encode(data: &[u8]) -> (r: String)
    ensures
        r@ == hex_lower(data@),
{
    hex::encode(data)
}

/// Calls `hex::decode`. The contract claims that text of an odd number of
/// bytes is refused as such, that other text is refused for its first byte
/// that is no digit, and that all other text gives one byte for each pair
/// of digits.
#[verifier::external_body]
pub(crate) fn hex_decode(text: &[u8]) -> (r: Result<Vec<u8>, FromHexError>)
    ensures
        is_decoding(text@, r),
{
    match hex::decode(text) {
        Ok(bytes) => Ok(bytes),
        Err(hex::FromHexError::InvalidHexCharacter { c, index }) => Err(
            FromHexError::InvalidHexCharacter { c, index },
        ),
        Err(hex::FromHexError::OddLength) => Err(FromHexError::OddLength),
        Err(hex::FromHexError::InvalidStringLength) => Err(FromHexError::InvalidStringLength),
    }
}

/// Reads a checksum from its hexadecimal text, with or without `0x` before
/// it.
pub fn deserialize(str_hex: &str) -> (r: Result<Vec<u8>, FromHexError>)
    ensures
        is_decoding(encode_utf8(without_leading(str_hex@, "0x"@)), r),
{
    let digits = trim_start_matches(str_hex, "0x");
    hex_decode(digits.as_str().as_bytes())
}

/// Writes a checksum as hexadecimal text.
pub fn serialize(value: &[u8]) -> (r: String)
    ensures
        r@ == hex_lower(value@),
{
    hex_encode(value)
}

} // verus!
