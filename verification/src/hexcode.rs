//! Lowercase hexadecimal text for byte strings.
//!
//! The text form of a byte string has two digits per byte, high nibble first.
//! Producing and reading that text is left to the `hex` crate; this module
//! states what the two calls return and proves that reading undoes writing.

use vstd::prelude::*;

verus! {

/// The lowercase digit that stands for a nibble `0 <= n < 16`.
pub open spec fn hex_digit(n: int) -> char {
    if n < 10 {
        ((48 + n) as u8) as char
    } else {
        ((87 + n) as u8) as char
    }
}

/// The value of a hexadecimal digit of either case, or `-1` for any other
/// character.
pub open spec fn hex_value(c: char) -> int {
    let u = c as int;
    if 48 <= u <= 57 {
        u - 48
    } else if 97 <= u <= 102 {
        u - 87
    } else if 65 <= u <= 70 {
        u - 55
    } else {
        -1
    }
}

/// The text of `bytes`: twice as many characters, two lowercase digits for
/// each byte, the high nibble first.
pub open spec fn hex_encoding(bytes: Seq<u8>) -> Seq<char> {
    Seq::new(
        2 * bytes.len(),
        |i: int|
            if i % 2 == 0 {
                hex_digit(bytes[i / 2] as int / 16)
            } else {
                hex_digit(bytes[i / 2] as int % 16)
            },
    )
}

/// Whether `text` is the hexadecimal form of some byte string: an even number
/// of characters, each a digit of either case.
pub open spec fn is_hex(text: Seq<char>) -> bool {
    &&& text.len() % 2 == 0
    &&& forall|i: int| 0 <= i < text.len() ==> hex_value(#[trigger] text[i]) >= 0
}

/// The bytes that a hexadecimal `text` stands for.
pub open spec fn hex_decoding(text: Seq<char>) -> Seq<u8> {
    Seq::new(
        text.len() / 2,
        |i: int| (16 * hex_value(text[2 * i]) + hex_value(text[2 * i + 1])) as u8,
    )
}

/// Reading the digit of a nibble gives the nibble back.
pub proof fn lemma_digit_value(n: int)
    requires
        0 <= n < 16,
    ensures
        hex_value(hex_digit(n)) == n,
{
    if n < 10 {
        assert(((48 + n) as u8) as char as int == 48 + n);
    } else {
        assert(((87 + n) as u8) as char as int == 87 + n);
    }
}

/// The text of any byte string is well-formed hexadecimal, and reading it
/// gives the byte string back.
pub proof fn lemma_hex_round_trip(bytes: Seq<u8>)
    ensures
        is_hex(hex_encoding(bytes)),
        hex_decoding(hex_encoding(bytes)) == bytes,
{
    let text = hex_encoding(bytes);
    assert forall|i: int| 0 <= i < text.len() implies hex_value(#[trigger] text[i]) >= 0 by {
        let b = bytes[i / 2] as int;
        lemma_digit_value(b / 16);
        lemma_digit_value(b % 16);
    }
    assert forall|i: int| 0 <= i < bytes.len() implies hex_decoding(text)[i] == bytes[i] by {
        let b = bytes[i] as int;
        lemma_digit_value(b / 16);
        lemma_digit_value(b % 16);
        assert((2 * i) / 2 == i && (2 * i) % 2 == 0);
        assert((2 * i + 1) / 2 == i && (2 * i + 1) % 2 == 1);
        assert(text[2 * i] == hex_digit(b / 16));
        assert(text[2 * i + 1] == hex_digit(b % 16));
        assert(16 * (b / 16) + b % 16 == b);
    }
    assert(hex_decoding(text) =~= bytes);
}

/// The error of the `hex` crate's decoder.
#[verifier::external_type_specification]
#[verifier::external_body]
pub struct ExFromHexError(hex::FromHexError);

/// Calls `hex::encode`, which writes each byte as two lowercase digits, the
/// high nibble first, and nothing else.
#[verifier::external_body]
pub(crate) fn encode_bytes(data: &[u8]) -> (text: String)
    ensures
        text@ == hex_encoding(data@),
{
    hex::encode(data)
}

/// Calls `hex::decode`, which accepts exactly the texts of even length made
/// of digits of either case, and then returns one byte for each pair of
/// digits, the first digit being the high nibble.
#[verifier::external_body]
pub(crate) fn decode_text(text: &str) -> (r: Result<Vec<u8>, hex::FromHexError>)
    ensures
        r is Ok <==> is_hex(text@),
        r is Ok ==> r->Ok_0@ == hex_decoding(text@),
{
    hex::decode(text)
}

/// Calls the `Display` impl of `hex::FromHexError`, which words the error.
#[verifier::external_body]
pub(crate) fn decode_error_text(e: &hex::FromHexError) -> (text: String)
{
    e.to_string()
}

} // verus!
