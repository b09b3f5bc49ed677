//! Hexadecimal form of the fixed-size byte-array fields, for human-readable
//! transport.  The encoding side is lowercase; the decoding side accepts both
//! cases, as the hex crate does.

use vstd::prelude::*;
use vstd::utf8::{encode_utf8, is_ascii_chars, is_ascii_chars_encode_utf8};

verus! {

/// The lowercase hex digit standing for nibble `n` (meaningful when `n < 16`).
pub open spec fn hex_digit_of(n: u8) -> char {
    if n < 10 {
        ((n + 48) as u8) as char
    } else {
        ((n + 87) as u8) as char
    }
}

/// The lowercase hex image of a byte sequence: two digits per byte, high
/// nibble first.
pub open spec fn hex_chars_of(bytes: Seq<u8>) -> Seq<char> {
    Seq::new(
        2 * bytes.len(),
        |i: int|
            if i % 2 == 0 {
                hex_digit_of(bytes[i / 2] >> 4)
            } else {
                hex_digit_of(bytes[i / 2] & 0x0f)
            },
    )
}

/// Whether `b` is the ASCII code of a hex digit, in either case.
pub open spec fn is_hex_digit_byte(b: u8) -> bool {
    ||| 48 <= b <= 57
    ||| 65 <= b <= 70
    ||| 97 <= b <= 102
}

/// The nibble value of a hex digit byte (meaningful when `is_hex_digit_byte`).
pub open spec fn hex_val_of(b: u8) -> u8 {
    if 48 <= b <= 57 {
        (b - 48) as u8
    } else if 65 <= b <= 70 {
        (b - 55) as u8
    } else {
        (b - 87) as u8
    }
}

/// Whether a byte sequence is a well-formed hex string: even length, hex
/// digits only.
pub open spec fn is_hex_bytes(t: Seq<u8>) -> bool {
    &&& t.len() % 2 == 0
    &&& forall|j: int| 0 <= j < t.len() ==> is_hex_digit_byte(#[trigger] t[j])
}

/// The byte sequence a well-formed hex string stands for: each digit pair
/// becomes one byte, high nibble first.
pub open spec fn hex_bytes_value(t: Seq<u8>) -> Seq<u8> {
    Seq::new(t.len() / 2, |i: int| (hex_val_of(t[2 * i]) << 4) | hex_val_of(t[2 * i + 1]))
}

/// Decoding undoes encoding: the hex image of any byte sequence, read back
/// as UTF-8 text, is well-formed hex and stands for that sequence again.
pub proof fn lemma_hex_round_trip(bytes: Seq<u8>)
    ensures
        is_hex_bytes(encode_utf8(hex_chars_of(bytes))),
        hex_bytes_value(encode_utf8(hex_chars_of(bytes))) == bytes,
{
    let chars = hex_chars_of(bytes);
    assert forall|i: int| 0 <= i < chars.len() implies '\0' <= #[trigger] chars[i]
        <= '\u{7f}' by {
        let b = bytes[i / 2];
        assert(b >> 4 < 16 && b & 0x0f < 16) by (bit_vector);
    }
    assert(is_ascii_chars(chars));
    is_ascii_chars_encode_utf8(chars);
    let t = encode_utf8(chars);
    assert forall|j: int| 0 <= j < t.len() implies is_hex_digit_byte(#[trigger] t[j]) by {
        let b = bytes[j / 2];
        assert(b >> 4 < 16 && b & 0x0f < 16) by (bit_vector);
        assert(t[j] == chars[j] as u8);
    }
    assert forall|i: int| 0 <= i < bytes.len() implies (hex_val_of(t[2 * i]) << 4) | hex_val_of(
        t[2 * i + 1],
    ) == bytes[i] by {
        let b = bytes[i];
        assert(b >> 4 < 16 && b & 0x0f < 16) by (bit_vector);
        assert(t[2 * i] == chars[2 * i] as u8);
        assert(t[2 * i + 1] == chars[2 * i + 1] as u8);
        assert(((b >> 4) << 4) | (b & 0x0f) == b) by (bit_vector);
    }
    assert(hex_bytes_value(t) =~= bytes);
}

/// Relies on `hex::encode`: each input byte becomes two lowercase hex digits,
/// high nibble first.
#[verifier::external_body]
pub fn bytes_to_hex(data: &[u8]) -> (r: String)
    ensures
        r@ == hex_chars_of(data@),
{
    hex::encode(data)
}

/// Relies on `hex::decode`: it succeeds exactly when the input has even
/// length and holds only hex digit bytes of either case, and then each digit
/// pair becomes one byte, high nibble first.
#[verifier::external_body]
pub fn hex_to_bytes(data: &[u8]) -> (r: Option<Vec<u8>>)
    ensures
        r is Some <==> is_hex_bytes(data@),
        r matches Some(v) ==> v@ == hex_bytes_value(data@),
{
    match hex::decode(data) {
        Ok(v) => Some(v),
        Err(_) => None,
    }
}

} // verus!
