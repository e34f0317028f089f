//! What holds of parsing and evaluation taken together.

use vstd::prelude::*;
use vstd::string::StringSliceAdditionalSpecFns;
use crate::ascii::{
    DIGIT_0, EQUALS, LOWER_A, LOWER_E, LOWER_F, LOWER_L, LOWER_R, LOWER_S, LOWER_T, LOWER_U,
    LOWER_X, SPACE, UPPER_A, UPPER_P, UPPER_S, UPPER_X, UPPER_Y,
};
use crate::builder::{big_endian, parsed, payload_of, register_named, ParseError};
use crate::condition::{BooleanExpression, OutOfBoundsMemoryAccess, Source8};
use crate::grammar::{
    blanks_end, digits_run, sentence, text_of, Pair, ParseTree, Rule, ADDRESS_PREFIX,
    VALUE_PREFIX,
};
use crate::hexadecimal::{
    hex_bytes, hex_digit_of, hex_digit_value, hex_number, hex_pair_of, hex_pair_value,
    is_hex_digit, is_hex_text,
};
use crate::layout::{lemma_parse_tree_lays_out, lemma_text_of};
use crate::machine::MachineState;

verus! {

/// The text ` = 0x` followed by two digits: an equality with a byte literal,
/// to be written after an operand.
pub open spec fn equals_literal(high: u8, low: u8) -> Seq<u8> {
    seq![SPACE, EQUALS, SPACE, DIGIT_0, LOWER_X, high, low]
}

/// Encoding a byte and decoding the two digits gives the byte back, in
/// either case of the letters.
pub proof fn lemma_hex_round_trip(byte: u8, upper: bool)
    ensures
        is_hex_text(hex_pair_of(byte, upper)),
        hex_bytes(hex_pair_of(byte, upper)) == seq![byte],
{
    let pair = hex_pair_of(byte, upper);
    let high = byte as int / 16;
    let low = byte as int % 16;
    assert(0 <= high < 16 && 0 <= low < 16 && 16 * high + low == byte);
    assert(pair.len() == 2 && pair[0] == hex_digit_of(high, upper) && pair[1] == hex_digit_of(
        low,
        upper,
    ));
    assert(is_hex_digit(pair[0]) && hex_digit_value(pair[0]) == high);
    assert(is_hex_digit(pair[1]) && hex_digit_value(pair[1]) == low);
    assert(hex_pair_value(pair[0], pair[1]) == byte);
    assert(hex_bytes(pair) =~= seq![byte]);
}

/// Every register name, followed by ` = 0x` and two hexadecimal digits,
/// parses to the equality of that register with the byte the digits denote.
pub proof fn lemma_register_equality_parses(name: Seq<u8>, high: u8, low: u8)
    requires
        register_named(name) is Some,
        is_hex_digit(high),
        is_hex_digit(low),
    ensures
        parsed(name + equals_literal(high, low)) == Ok::<BooleanExpression, ParseError>(
            BooleanExpression::Equal(register_named(name)->0, hex_pair_value(high, low)),
        ),
{
    let input = name + equals_literal(high, low);
    let n = name.len() as int;
    reveal_with_fuel(blanks_end, 3);
    reveal_with_fuel(digits_run, 3);
    assert(seq![UPPER_A].len() == 1 && seq![UPPER_A][0] == UPPER_A);
    assert(seq![UPPER_X].len() == 1 && seq![UPPER_X][0] == UPPER_X);
    assert(seq![UPPER_Y].len() == 1 && seq![UPPER_Y][0] == UPPER_Y);
    assert(seq![UPPER_S].len() == 1 && seq![UPPER_S][0] == UPPER_S);
    assert(seq![UPPER_S, UPPER_P].len() == 2 && seq![UPPER_S, UPPER_P][0] == UPPER_S && seq![
        UPPER_S,
        UPPER_P,
    ][1] == UPPER_P);
    assert(n == 1 || n == 2);
    assert(input.len() == n + 7);
    assert(forall|i: int| 0 <= i < n ==> input[i] == name[i]);
    assert(input[n] == SPACE && input[n + 1] == EQUALS && input[n + 2] == SPACE && input[n + 3]
        == DIGIT_0 && input[n + 4] == LOWER_X && input[n + 5] == high && input[n + 6] == low);
    let operand = Pair { rule: Rule::Register8, start: 0, end: n as usize };
    let comparator = Pair { rule: Rule::Comparator, start: (n + 1) as usize, end: (n + 2) as usize };
    let value = Pair { rule: Rule::Value8, start: (n + 3) as usize, end: (n + 7) as usize };
    assert(text_of(input, operand) =~= name);
    assert(text_of(input, comparator) =~= seq![EQUALS]);
    assert(payload_of(input, value, VALUE_PREFIX) =~= seq![high, low]);
    assert(hex_bytes(seq![high, low])[0] == hex_pair_value(high, low));
}

/// Every register name, followed by ` = 0x00`, parses to the equality of
/// that register with zero.
pub proof fn lemma_register_tokens_name_their_source(name: Seq<u8>)
    requires
        register_named(name) is Some,
    ensures
        parsed(name + equals_literal(DIGIT_0, DIGIT_0)) == Ok::<BooleanExpression, ParseError>(
            BooleanExpression::Equal(register_named(name)->0, 0),
        ),
{
    lemma_register_equality_parses(name, DIGIT_0, DIGIT_0);
}

/// `A = 0x` followed by the two digits that encode a byte parses to the
/// equality of the accumulator with that byte.
pub proof fn lemma_byte_literal_round_trip(byte: u8, upper: bool)
    ensures
        parsed(
            seq![UPPER_A, SPACE, EQUALS, SPACE, DIGIT_0, LOWER_X] + hex_pair_of(byte, upper),
        ) == Ok::<BooleanExpression, ParseError>(
            BooleanExpression::Equal(Source8::Accumulator, byte),
        ),
{
    let pair = hex_pair_of(byte, upper);
    lemma_hex_round_trip(byte, upper);
    assert(hex_bytes(pair)[0] == byte);
    assert(is_hex_digit(pair[0]) && is_hex_digit(pair[1]));
    lemma_register_equality_parses(seq![UPPER_A], pair[0], pair[1]);
    assert(seq![UPPER_A, SPACE, EQUALS, SPACE, DIGIT_0, LOWER_X] + pair =~= seq![UPPER_A]
        + equals_literal(pair[0], pair[1]));
}

/// `true` and `false` parse to the constants they spell, and a constant is
/// its own truth on every machine.
pub proof fn lemma_boolean_literals(state: MachineState)
    ensures
        parsed(seq![LOWER_T, LOWER_R, LOWER_U, LOWER_E]) == Ok::<BooleanExpression, ParseError>(
            BooleanExpression::Value(true),
        ),
        parsed(seq![LOWER_F, LOWER_A, LOWER_L, LOWER_S, LOWER_E]) == Ok::<
            BooleanExpression,
            ParseError,
        >(BooleanExpression::Value(false)),
        forall|truth: bool|
            #[trigger] BooleanExpression::Value(truth).evaluated(state) == Ok::<
                bool,
                OutOfBoundsMemoryAccess,
            >(truth),
{
    reveal_with_fuel(blanks_end, 2);
    let yes = seq![LOWER_T, LOWER_R, LOWER_U, LOWER_E];
    let no = seq![LOWER_F, LOWER_A, LOWER_L, LOWER_S, LOWER_E];
    assert(text_of(yes, Pair { rule: Rule::Boolean, start: 0, end: 4 }) =~= yes);
    assert(text_of(no, Pair { rule: Rule::Boolean, start: 0, end: 5 }) =~= no);
    assert(no.len() == 5 && yes.len() == 4);
}

/// A condition on an address at or beyond the length of the memory
/// evaluates to the fault that names that very address.
pub proof fn lemma_address_beyond_memory_faults(
    condition: BooleanExpression,
    address: usize,
    state: MachineState,
)
    requires
        condition.source() == Some(Source8::Memory(address)),
        address >= state.memory@.len(),
    ensures
        condition.evaluated(state) == Err::<bool, OutOfBoundsMemoryAccess>(
            OutOfBoundsMemoryAccess { address, memory_len: state.memory@.len() as usize },
        ),
        !condition.in_bounds(state.memory@.len()),
{
}

/// Whether the digits of every literal in the tree decode: they are
/// hexadecimal digits, in pairs.
pub open spec fn literals_decode(input: Seq<u8>, tree: ParseTree) -> bool {
    match tree {
        ParseTree::Boolean(_) => true,
        ParseTree::Operation { operand, comparator, value } => {
            &&& operand.rule == Rule::MemoryAddress ==> is_hex_text(
                payload_of(input, operand, ADDRESS_PREFIX),
            )
            &&& is_hex_text(payload_of(input, value, VALUE_PREFIX))
        },
    }
}

/// Which outcome parsing has. Text that is no sentence is a syntax error,
/// the parser's own. A sentence gives a condition if the digits of its
/// literals decode, and `MalformedHex` if they do not. Parsing never gives
/// `UnknownRegister` or `InternalError`.
pub proof fn lemma_outcomes_of_parsing(input: Seq<u8>)
    requires
        input.len() <= usize::MAX,
    ensures
        match sentence(input) {
            Err(error) => parsed(input) == Err::<BooleanExpression, ParseError>(
                ParseError::SyntaxError(error),
            ),
            Ok(tree) => if literals_decode(input, tree) {
                parsed(input) is Ok
            } else {
                parsed(input) is Err && parsed(input)->Err_0 is MalformedHex
            },
        },
{
    match sentence(input) {
        Err(_) => {},
        Ok(tree) => {
            lemma_parse_tree_lays_out(input, tree);
            match tree {
                ParseTree::Boolean(_) => {},
                ParseTree::Operation { operand, comparator, value } => {
                    lemma_text_of(input, operand);
                    lemma_text_of(input, comparator);
                    lemma_text_of(input, value);
                },
            }
        },
    }
}

/// The bytes that hexadecimal digits denote, folded most significant byte
/// first, are the number the digits spell as one numeral.
pub proof fn lemma_bytes_fold_to_the_numeral(text: Seq<u8>)
    requires
        is_hex_text(text),
    ensures
        big_endian(hex_bytes(text)) == hex_number(text),
    decreases text.len(),
{
    if text.len() > 0 {
        let n = text.len() as int;
        let shorter = text.take(n - 2);
        let (high, low) = (text[n - 2], text[n - 1]);
        lemma_bytes_fold_to_the_numeral(shorter);
        assert(is_hex_digit(high) && is_hex_digit(low));
        assert(hex_bytes(text).drop_last() =~= hex_bytes(shorter));
        assert(hex_bytes(text).last() == hex_pair_value(high, low));
        assert(big_endian(hex_bytes(text)) == hex_number(shorter) * 256 + 16 * hex_digit_value(
            high,
        ) + hex_digit_value(low));
        assert(text.drop_last().drop_last() =~= shorter);
        assert(text.drop_last().last() == high);
        assert(hex_number(text.drop_last()) == hex_number(shorter) * 16 + hex_digit_value(high));
        assert(hex_number(text) == hex_number(text.drop_last()) * 16 + hex_digit_value(low));
    } else {
        assert(hex_bytes(text).len() == 0);
    }
}

/// An address of at most eight digits fits in thirty-two bits: no address
/// is cut short when it is stored.
pub proof fn lemma_address_fits(digits: Seq<u8>)
    requires
        is_hex_text(digits),
        digits.len() <= 8,
    ensures
        big_endian(hex_bytes(digits)) <= 0xffff_ffff,
        big_endian(hex_bytes(digits)) as usize == big_endian(hex_bytes(digits)),
{
    reveal_with_fuel(big_endian, 5);
    let bytes = hex_bytes(digits);
    assert(bytes.len() <= 4);
    if bytes.len() >= 1 {
        assert(bytes.drop_last().len() == bytes.len() - 1);
        if bytes.len() >= 2 {
            assert(bytes.drop_last().drop_last().len() == bytes.len() - 2);
            if bytes.len() >= 3 {
                assert(bytes.drop_last().drop_last().drop_last().len() == bytes.len() - 3);
            }
        }
    }
}

/// Parsing depends on the text alone and keeps nothing from one call to the
/// next: whenever a text is parsed twice, or two texts of the same
/// characters are parsed, the outcomes are equal, be they the condition or
/// the error.
pub proof fn lemma_parsing_is_deterministic(
    first: &str,
    second: &str,
    first_outcome: Result<BooleanExpression, ParseError>,
    second_outcome: Result<BooleanExpression, ParseError>,
)
    requires
        first@ == second@,
        first_outcome == parsed(first.spec_bytes()),
        second_outcome == parsed(second.spec_bytes()),
    ensures
        first_outcome == second_outcome,
{
}

} // verus!
