//! Hexadecimal text: what it denotes, and the call that decodes it.

use vstd::prelude::*;
use crate::ascii::{DIGIT_0, DIGIT_9, LOWER_A, LOWER_F, UPPER_A, UPPER_F};

verus! {

/// `hex::FromHexError`, the error of `hex::decode`. Nothing is read from it:
/// a failed decoding is reported as such, whatever its cause.
#[verifier::external_type_specification]
#[verifier::external_body]
pub struct ExFromHexError(hex::FromHexError);

/// One of `0`..`9`, `a`..`f`, `A`..`F`.
pub open spec fn is_hex_digit(byte: u8) -> bool {
    DIGIT_0 <= byte <= DIGIT_9 || UPPER_A <= byte <= UPPER_F || LOWER_A <= byte <= LOWER_F
}

/// The number a hexadecimal digit stands for.
pub open spec fn hex_digit_value(byte: u8) -> int
    recommends
        is_hex_digit(byte),
{
    if DIGIT_0 <= byte <= DIGIT_9 {
        byte - DIGIT_0
    } else if UPPER_A <= byte <= UPPER_F {
        byte - UPPER_A + 10
    } else {
        byte - LOWER_A + 10
    }
}

/// Text that decodes: an even number of hexadecimal digits, of either case.
pub open spec fn is_hex_text(text: Seq<u8>) -> bool {
    &&& text.len() % 2 == 0
    &&& forall|i: int| 0 <= i < text.len() ==> is_hex_digit(#[trigger] text[i])
}

/// The byte that a pair of hexadecimal digits denotes, the first digit being
/// the more significant.
pub open spec fn hex_pair_value(high: u8, low: u8) -> u8
    recommends
        is_hex_digit(high),
        is_hex_digit(low),
{
    (16 * hex_digit_value(high) + hex_digit_value(low)) as u8
}

/// The bytes that hexadecimal text denotes: one for each pair of digits, in
/// the order of the text.
pub open spec fn hex_bytes(text: Seq<u8>) -> Seq<u8>
    recommends
        is_hex_text(text),
{
    Seq::new((text.len() / 2) as nat, |i: int| hex_pair_value(text[2 * i], text[2 * i + 1]))
}

/// The number that hexadecimal digits denote, read as one numeral.
pub open spec fn hex_number(text: Seq<u8>) -> nat
    recommends
        forall|i: int| 0 <= i < text.len() ==> is_hex_digit(text[i]),
    decreases text.len(),
{
    if text.len() == 0 {
        0
    } else {
        hex_number(text.drop_last()) * 16 + hex_digit_value(text.last()) as nat
    }
}

/// The digit for a number below 16: `0`..`9`, then `a`..`f`, or `A`..`F` if
/// `upper`.
pub open spec fn hex_digit_of(number: int, upper: bool) -> u8
    recommends
        0 <= number < 16,
{
    if number < 10 {
        (DIGIT_0 + number) as u8
    } else if upper {
        (UPPER_A + number - 10) as u8
    } else {
        (LOWER_A + number - 10) as u8
    }
}

/// The two digits that encode a byte, the more significant first.
pub open spec fn hex_pair_of(byte: u8, upper: bool) -> Seq<u8> {
    seq![hex_digit_of(byte as int / 16, upper), hex_digit_of(byte as int % 16, upper)]
}

/// Decodes hexadecimal text with `hex::decode`.
///
/// Trusted: the call succeeds exactly on an even number of hexadecimal
/// digits, and then returns the byte of each pair, in order. It fails on text
/// of odd length and on any other character, and never panics.
#[verifier::external_body]
pub(crate) fn decode(text: &[u8]) -> (decoded: Result<Vec<u8>, hex::FromHexError>)
    ensures
        decoded is Ok <==> is_hex_text(text@),
        decoded is Ok ==> decoded->Ok_0@ == hex_bytes(text@),
{
    hex::decode(text)
}

} // verus!
