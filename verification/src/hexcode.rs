//! Bytes as text, two hexadecimal digits per byte.

use vstd::prelude::*;

verus! {

/// The error of the `hex` crate.
#[verifier::external_type_specification]
#[verifier::external_body]
pub struct ExFromHexError(hex::FromHexError);

/// The value of a hexadecimal digit in either case; -1 for any other
/// character.
pub open spec fn hex_value(c: char) -> int {
    if '0' <= c <= '9' {
        c as int - '0' as int
    } else if 'a' <= c <= 'f' {
        c as int - 'a' as int + 10
    } else if 'A' <= c <= 'F' {
        c as int - 'A' as int + 10
    } else {
        -1
    }
}

/// The lower-case digit for a value from 0 to 15.
pub open spec fn hex_digit(v: int) -> char {
    if v < 10 {
        (v + '0' as int) as char
    } else {
        (v - 10 + 'a' as int) as char
    }
}

/// An even number of hexadecimal digits and nothing else.
pub open spec fn is_hex_text(text: Seq<char>) -> bool {
    &&& text.len() % 2 == 0
    &&& forall|i: int| 0 <= i < text.len() ==> hex_value(#[trigger] text[i]) >= 0
}

/// Hexadecimal text without a capital digit.
pub open spec fn is_lower_hex_text(text: Seq<char>) -> bool {
    &&& is_hex_text(text)
    &&& forall|i: int| 0 <= i < text.len() ==> !('A' <= #[trigger] text[i] <= 'F')
}

/// The bytes that hexadecimal text spells: each pair of digits is one byte,
/// the first digit counting sixteens.
pub open spec fn hex_decoded(text: Seq<char>) -> Seq<u8> {
    Seq::new(
        text.len() / 2,
        |i: int| (hex_value(text[2 * i]) * 16 + hex_value(text[2 * i + 1])) as u8,
    )
}

/// The text that spells `bytes`: two lower-case digits per byte.
pub open spec fn hex_encoded(bytes: Seq<u8>) -> Seq<char> {
    Seq::new(
        2 * bytes.len(),
        |i: int|
            if i % 2 == 0 {
                hex_digit(bytes[i / 2] as int / 16)
            } else {
                hex_digit(bytes[i / 2] as int % 16)
            },
    )
}

/// Calls `hex::decode`. By its source it fails on a text of odd length in
/// bytes and on any byte that is no hexadecimal digit, so on every text with
/// a character outside ASCII too; otherwise each pair of digits gives one
/// byte, the first digit shifted left by four bits.
#[verifier::external_body]
pub(crate) fn hex_decode(text: &str) -> (r: Result<Vec<u8>, hex::FromHexError>)
    ensures
        r is Ok <==> is_hex_text(text@),
        r matches Ok(bytes) ==> bytes@ == hex_decoded(text@),
{
    hex::decode(text)
}

/// Calls `hex::encode`, which writes each byte as two lower-case digits, the
/// upper four bits first.
#[verifier::external_body]
pub(crate) fn hex_encode(bytes: &[u8]) -> (text: String)
    ensures
        text@ == hex_encoded(bytes@),
{
    hex::encode(bytes)
}

/// The bytes that `text` spells, or `None` where `text` is not an even
/// number of hexadecimal digits.
pub fn parse_hex(text: &str) -> (r: Option<Vec<u8>>)
    ensures
        r is Some <==> is_hex_text(text@),
        r matches Some(bytes) ==> bytes@ == hex_decoded(text@),
{
    match hex_decode(text) {
        Ok(bytes) => Some(bytes),
        Err(_) => None,
    }
}

/// The lower-case hexadecimal text of `bytes`.
pub fn to_hex(bytes: &[u8]) -> (text: String)
    ensures
        text@ == hex_encoded(bytes@),
        text@.len() == 2 * bytes@.len(),
{
    hex_encode(bytes)
}

/// Text written for bytes spells those bytes.
pub proof fn lemma_hex_decode_encode(bytes: Seq<u8>)
    ensures
        is_lower_hex_text(hex_encoded(bytes)),
        hex_decoded(hex_encoded(bytes)) == bytes,
{
    let text = hex_encoded(bytes);
    assert forall|i: int| 0 <= i < text.len() implies hex_value(#[trigger] text[i]) >= 0 && !('A'
        <= text[i] <= 'F') by {
        lemma_digit_value(bytes[i / 2] as int / 16);
        lemma_digit_value(bytes[i / 2] as int % 16);
    }
    assert forall|i: int| 0 <= i < bytes.len() implies hex_decoded(text)[i] == bytes[i] by {
        lemma_digit_value(bytes[i] as int / 16);
        lemma_digit_value(bytes[i] as int % 16);
        assert(text[2 * i] == hex_digit(bytes[(2 * i) / 2] as int / 16));
        assert(text[2 * i + 1] == hex_digit(bytes[(2 * i + 1) / 2] as int % 16));
    }
    assert(hex_decoded(text) =~= bytes);
}

/// Bytes read from lower-case text are written as that text again.
pub proof fn lemma_hex_encode_decode(text: Seq<char>)
    requires
        is_lower_hex_text(text),
    ensures
        hex_encoded(hex_decoded(text)) == text,
{
    let bytes = hex_decoded(text);
    assert forall|i: int| 0 <= i < text.len() implies hex_encoded(bytes)[i] == text[i] by {
        let k = i / 2;
        let hi = text[2 * k];
        let lo = text[2 * k + 1];
        assert(hex_value(hi) >= 0 && hex_value(lo) >= 0);
        lemma_value_digit(hi);
        lemma_value_digit(lo);
        assert(bytes[k] == hex_value(hi) * 16 + hex_value(lo));
    }
    assert(hex_encoded(bytes) =~= text);
}

/// The digit for a value has that value, and is no capital.
proof fn lemma_digit_value(v: int)
    requires
        0 <= v < 16,
    ensures
        hex_value(hex_digit(v)) == v,
        !('A' <= hex_digit(v) <= 'F'),
{
}

/// A lower-case digit is the digit for its value.
proof fn lemma_value_digit(c: char)
    requires
        hex_value(c) >= 0,
        !('A' <= c <= 'F'),
    ensures
        0 <= hex_value(c) < 16,
        hex_digit(hex_value(c)) == c,
{
}

} // verus!
