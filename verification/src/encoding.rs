//! How a token's identifier is written for its holder: two lower-case
//! hexadecimal digits for each byte.

use vstd::prelude::*;
use crate::error::ApiError;

verus! {

/// The lower-case digit that stands for `n`, for `n` from 0 to 15.
pub open spec fn hex_digit(n: int) -> char {
    if n == 0 { '0' } else if n == 1 { '1' } else if n == 2 { '2' } else if n == 3 { '3' }
    else if n == 4 { '4' } else if n == 5 { '5' } else if n == 6 { '6' } else if n == 7 { '7' }
    else if n == 8 { '8' } else if n == 9 { '9' } else if n == 10 { 'a' } else if n == 11 { 'b' }
    else if n == 12 { 'c' } else if n == 13 { 'd' } else if n == 14 { 'e' } else { 'f' }
}

/// What a hexadecimal digit is worth; both cases of a letter count.
pub open spec fn hex_value(c: char) -> Option<int> {
    let n = c as int;
    if 48 <= n <= 57 {
        Some(n - 48)
    } else if 97 <= n <= 102 {
        Some(n - 87)
    } else if 65 <= n <= 70 {
        Some(n - 55)
    } else {
        None
    }
}

/// The text of `bytes`: the high half of each byte first, then the low half.
pub open spec fn hex_encoding(bytes: Seq<u8>) -> Seq<char> {
    Seq::new(
        2 * bytes.len(),
        |i: int| if i % 2 == 0 { hex_digit(bytes[i / 2] as int / 16) } else { hex_digit(bytes[i / 2] as int % 16) },
    )
}

/// Whether `text` stands for some bytes: digits only, and two for each byte.
pub open spec fn is_hex_text(text: Seq<char>) -> bool {
    &&& text.len() % 2 == 0
    &&& forall|i: int| 0 <= i < text.len() ==> (#[trigger] hex_value(text[i])) is Some
}

/// The bytes that `text` stands for, where `is_hex_text(text)`.
pub open spec fn hex_decoding(text: Seq<char>) -> Seq<u8> {
    Seq::new(
        text.len() / 2,
        |i: int| (16 * hex_value(text[2 * i])->0 + hex_value(text[2 * i + 1])->0) as u8,
    )
}

/// The most bytes that can be encoded: twice as many characters must fit in
/// a string on a 32-bit machine.
pub const MAX_ENCODED_BYTES: usize = 0x3fff_ffff;

#[verifier::external_type_specification]
#[verifier::external_body]
pub struct ExFromHexError(hex::FromHexError);

/// `hex::encode`: the crate walks over the bytes and emits, for each, the
/// entry of `0123456789abcdef` for its high and then for its low four bits.
#[verifier::external_body]
fn hex_encode(bytes: &[u8]) -> (text: String)
    requires
        bytes@.len() <= MAX_ENCODED_BYTES,
    ensures
        text@ == hex_encoding(bytes@),
{
    hex::encode(bytes)
}

/// `hex::decode`: the crate refuses a text with an odd number of bytes or
/// with a byte other than `0-9`, `a-f`, `A-F` (so any character outside
/// ASCII too), and else joins each pair of digits into one byte.
#[verifier::external_body]
fn hex_decode(text: &str) -> (res: Result<Vec<u8>, hex::FromHexError>)
    ensures
        res is Ok <==> is_hex_text(text@),
        res matches Ok(bytes) ==> bytes@ == hex_decoding(text@),
{
    hex::decode(text)
}

/// Writes a token's identifier as text for its holder.
pub fn encode_token(id: &[u8]) -> (text: String)
    requires
        id@.len() <= MAX_ENCODED_BYTES,
    ensures
        text@ == hex_encoding(id@),
{
    hex_encode(id)
}

/// Reads back the identifier from what a client sent. Anything that is not
/// the text of some bytes is refused as an invalid token, with no hint of
/// what was wrong with it.
pub fn decode_token(text: &str) -> (res: Result<Vec<u8>, ApiError>)
    ensures
        res is Ok <==> is_hex_text(text@),
        res matches Ok(id) ==> id@ == hex_decoding(text@),
        res matches Err(e) ==> e == ApiError::InvalidToken,
{
    match hex_decode(text) {
        Ok(id) => Ok(id),
        Err(_) => Err(ApiError::InvalidToken),
    }
}

/// Of each digit: reading it gives back the number it was written for.
pub proof fn lemma_hex_digit_value(n: int)
    requires
        0 <= n < 16,
    ensures
        hex_value(hex_digit(n)) == Some(n),
{
}

/// Decoding undoes encoding: the text of any bytes is accepted, and stands
/// for those bytes.
pub proof fn lemma_decode_encode(bytes: Seq<u8>)
    ensures
        is_hex_text(hex_encoding(bytes)),
        hex_decoding(hex_encoding(bytes)) == bytes,
{
    let text = hex_encoding(bytes);
    assert forall|i: int| 0 <= i < text.len() implies (#[trigger] hex_value(text[i])) is Some by {
        let b = bytes[i / 2] as int;
        lemma_hex_digit_value(b / 16);
        lemma_hex_digit_value(b % 16);
    }
    assert forall|i: int| 0 <= i < bytes.len() implies hex_decoding(text)[i] == bytes[i] by {
        let b = bytes[i] as int;
        lemma_hex_digit_value(b / 16);
        lemma_hex_digit_value(b % 16);
        assert((2 * i) / 2 == i && (2 * i) % 2 == 0);
        assert((2 * i + 1) / 2 == i && (2 * i + 1) % 2 == 1);
        assert(text[2 * i] == hex_digit(b / 16));
        assert(text[2 * i + 1] == hex_digit(b % 16));
        assert(16 * (b / 16) + b % 16 == b);
    }
    assert(hex_decoding(text) =~= bytes);
}

} // verus!
