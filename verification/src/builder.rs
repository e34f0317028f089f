//! From parse tree to condition.
//!
//! The grammar fixes the shape of a sentence. Two things it does not decide
//! are settled here: which source an operand names, and which number the
//! digits of a literal denote. A tree that no parse of the input can have
//! given is refused as well.

use vstd::prelude::*;
use vstd::slice::slice_subrange;
use vstd::string::StringSliceAdditionalSpecFns;
use crate::ascii::{
    BANG, EQUALS, GREATER, LESS, LOWER_E, LOWER_R, LOWER_T, LOWER_U, UPPER_A, UPPER_P, UPPER_S,
    UPPER_X, UPPER_Y,
};
use crate::condition::{BooleanExpression, Source8};
use crate::grammar::{
    parse_sentence, sentence, text_of, within, InputLocation, Pair, ParseTree, Rule, SyntaxError,
    ADDRESS_DIGITS, ADDRESS_PREFIX, VALUE_DIGITS, VALUE_PREFIX,
};
use crate::hexadecimal::{decode, hex_bytes, is_hex_text};

verus! {

/// Why a line of text gave no condition.
#[derive(Clone, Copy, Debug, PartialEq, Eq, Structural)]
pub enum ParseError {
    /// The text is no sentence of the grammar.
    SyntaxError(SyntaxError),
    /// The digits of a literal, found at `location`, do not decode: they
    /// are not hexadecimal digits in pairs, or not the one pair of a byte.
    MalformedHex { location: InputLocation },
    /// The register token at `location` names no register.
    UnknownRegister { location: InputLocation },
    /// The tree is none that the grammar gives for any text, or does not
    /// lie in this one.
    InternalError,
}

impl ParseError {
    /// Where in the text the error lies; a tree of the wrong shape lies
    /// nowhere in it.
    pub open spec fn place(self) -> Option<InputLocation> {
        match self {
            ParseError::SyntaxError(error) => Some(error.location),
            ParseError::MalformedHex { location } => Some(location),
            ParseError::UnknownRegister { location } => Some(location),
            ParseError::InternalError => None,
        }
    }

    /// Gives the place of the error in the text, if it has one.
    pub fn location(&self) -> (location: Option<InputLocation>)
        ensures
            location == self.place(),
    {
        match *self {
            ParseError::SyntaxError(error) => Some(error.location),
            ParseError::MalformedHex { location } => Some(location),
            ParseError::UnknownRegister { location } => Some(location),
            ParseError::InternalError => None,
        }
    }
}

/// The place of a token, less the first `prefix` bytes of it.
pub open spec fn payload_span(node: Pair, prefix: usize) -> InputLocation {
    InputLocation::Span((node.start + prefix) as usize, node.end)
}

/// The digits of a literal: the text of its token, less the first `prefix`
/// bytes.
pub open spec fn payload_of(input: Seq<u8>, node: Pair, prefix: usize) -> Seq<u8>
    recommends
        within(input, node),
        node.end - node.start >= prefix,
{
    input.subrange(node.start + prefix, node.end as int)
}

/// The register that `name` names: exactly `A`, `X`, `Y`, `S` (status) or
/// `SP` (stack pointer).
pub open spec fn register_named(name: Seq<u8>) -> Option<Source8> {
    if name == seq![UPPER_A] {
        Some(Source8::Accumulator)
    } else if name == seq![UPPER_X] {
        Some(Source8::RegisterX)
    } else if name == seq![UPPER_Y] {
        Some(Source8::RegisterY)
    } else if name == seq![UPPER_S] {
        Some(Source8::RegisterS)
    } else if name == seq![UPPER_S, UPPER_P] {
        Some(Source8::RegisterSP)
    } else {
        None
    }
}

/// The comparison that `sign` stands for, made between `source` and `value`.
pub open spec fn comparison_signed(sign: Seq<u8>, source: Source8, value: u8) -> Option<
    BooleanExpression,
> {
    if sign == seq![EQUALS] {
        Some(BooleanExpression::Equal(source, value))
    } else if sign == seq![GREATER, EQUALS] {
        Some(BooleanExpression::GreaterOrEqual(source, value))
    } else if sign == seq![GREATER] {
        Some(BooleanExpression::StrictlyGreater(source, value))
    } else if sign == seq![LESS, EQUALS] {
        Some(BooleanExpression::LesserOrEqual(source, value))
    } else if sign == seq![LESS] {
        Some(BooleanExpression::StrictlyLesser(source, value))
    } else if sign == seq![BANG, EQUALS] {
        Some(BooleanExpression::Different(source, value))
    } else {
        None
    }
}

/// The number that bytes denote, the first byte being the most significant.
pub open spec fn big_endian(bytes: Seq<u8>) -> nat
    decreases bytes.len(),
{
    if bytes.len() == 0 {
        0
    } else {
        big_endian(bytes.drop_last()) * 256 + bytes.last() as nat
    }
}

/// The source that a register token names.
pub open spec fn register_of(input: Seq<u8>, node: Pair) -> Result<Source8, ParseError> {
    if !within(input, node) {
        Err(ParseError::InternalError)
    } else {
        match register_named(text_of(input, node)) {
            Some(source) => Ok(source),
            None => Err(
                ParseError::UnknownRegister { location: InputLocation::Span(node.start, node.end) },
            ),
        }
    }
}

/// The source that an address token names: the byte of memory at the number
/// that the digits after its prefix denote. The digits must decode, and be
/// no more than an address may have.
pub open spec fn memory_of(input: Seq<u8>, node: Pair) -> Result<Source8, ParseError> {
    let digits = payload_of(input, node, ADDRESS_PREFIX);
    if !within(input, node) || node.end - node.start < ADDRESS_PREFIX {
        Err(ParseError::InternalError)
    } else if !is_hex_text(digits) {
        Err(ParseError::MalformedHex { location: payload_span(node, ADDRESS_PREFIX) })
    } else if digits.len() > ADDRESS_DIGITS {
        Err(ParseError::InternalError)
    } else {
        Ok(Source8::Memory(big_endian(hex_bytes(digits)) as usize))
    }
}

/// The byte that a literal token denotes: the one that the digits after its
/// prefix decode to. The digits must be two, and decode.
pub open spec fn value8_of(input: Seq<u8>, node: Pair) -> Result<u8, ParseError> {
    let digits = payload_of(input, node, VALUE_PREFIX);
    if !within(input, node) || node.end - node.start < VALUE_PREFIX {
        Err(ParseError::InternalError)
    } else if is_hex_text(digits) && digits.len() == VALUE_DIGITS {
        Ok(hex_bytes(digits)[0])
    } else {
        Err(ParseError::MalformedHex { location: payload_span(node, VALUE_PREFIX) })
    }
}

/// The comparison that a comparator token stands for, made between `source`
/// and `value`.
pub open spec fn comparison_of(input: Seq<u8>, node: Pair, source: Source8, value: u8) -> Result<
    BooleanExpression,
    ParseError,
> {
    if !within(input, node) {
        Err(ParseError::InternalError)
    } else {
        match comparison_signed(text_of(input, node), source, value) {
            Some(condition) => Ok(condition),
            None => Err(ParseError::InternalError),
        }
    }
}

/// The source that an operand token names.
pub open spec fn operand_of(input: Seq<u8>, node: Pair) -> Result<Source8, ParseError> {
    match node.rule {
        Rule::Register8 => register_of(input, node),
        Rule::MemoryAddress => memory_of(input, node),
        _ => Err(ParseError::InternalError),
    }
}

/// The condition that the three tokens of an operation denote. The operand
/// is resolved first, then the literal, then the comparator: the first that
/// fails gives the error.
pub open spec fn operation_of(input: Seq<u8>, operand: Pair, comparator: Pair, value: Pair) -> Result<
    BooleanExpression,
    ParseError,
> {
    match operand_of(input, operand) {
        Err(error) => Err(error),
        Ok(source) => match value8_of(input, value) {
            Err(error) => Err(error),
            Ok(byte) => comparison_of(input, comparator, source, byte),
        },
    }
}

/// The condition that a parse tree of `input` denotes.
pub open spec fn built(input: Seq<u8>, tree: ParseTree) -> Result<BooleanExpression, ParseError> {
    match tree {
        ParseTree::Boolean(leaf) => if leaf.rule == Rule::Boolean && within(input, leaf) {
            Ok(
                BooleanExpression::Value(
                    text_of(input, leaf) == seq![LOWER_T, LOWER_R, LOWER_U, LOWER_E],
                ),
            )
        } else {
            Err(ParseError::InternalError)
        },
        ParseTree::Operation { operand, comparator, value } => operation_of(
            input,
            operand,
            comparator,
            value,
        ),
    }
}

/// The condition that `input` denotes: what its parse tree denotes, where it
/// has one.
pub open spec fn parsed(input: Seq<u8>) -> Result<BooleanExpression, ParseError> {
    match sentence(input) {
        Ok(tree) => built(input, tree),
        Err(error) => Err(ParseError::SyntaxError(error)),
    }
}

/// Tells whether the token lies in the input.
fn lies_within(input: &[u8], node: &Pair) -> (yes: bool)
    ensures
        yes == within(input@, *node),
{
    node.start <= node.end && node.end <= input.len()
}

/// Resolves a register token.
fn parse_register(input: &[u8], node: &Pair) -> (outcome: Result<Source8, ParseError>)
    ensures
        outcome == register_of(input@, *node),
{
    if !lies_within(input, node) {
        return Err(ParseError::InternalError);
    }
    let name = slice_subrange(input, node.start, node.end);
    let found = if name.len() == 1 && name[0] == UPPER_A {
        assert(name@ =~= seq![UPPER_A]);
        Some(Source8::Accumulator)
    } else if name.len() == 1 && name[0] == UPPER_X {
        assert(name@ =~= seq![UPPER_X]);
        Some(Source8::RegisterX)
    } else if name.len() == 1 && name[0] == UPPER_Y {
        assert(name@ =~= seq![UPPER_Y]);
        Some(Source8::RegisterY)
    } else if name.len() == 1 && name[0] == UPPER_S {
        assert(name@ =~= seq![UPPER_S]);
        Some(Source8::RegisterS)
    } else if name.len() == 2 && name[0] == UPPER_S && name[1] == UPPER_P {
        assert(name@ =~= seq![UPPER_S, UPPER_P]);
        Some(Source8::RegisterSP)
    } else {
        None
    };
    assert(found == register_named(name@)) by {
        assert(seq![UPPER_A].len() == 1 && seq![UPPER_A][0] == UPPER_A);
        assert(seq![UPPER_X].len() == 1 && seq![UPPER_X][0] == UPPER_X);
        assert(seq![UPPER_Y].len() == 1 && seq![UPPER_Y][0] == UPPER_Y);
        assert(seq![UPPER_S].len() == 1 && seq![UPPER_S][0] == UPPER_S);
        assert(seq![UPPER_S, UPPER_P].len() == 2 && seq![UPPER_S, UPPER_P][0] == UPPER_S
            && seq![UPPER_S, UPPER_P][1] == UPPER_P);
    }
    match found {
        Some(source) => Ok(source),
        None => Err(
            ParseError::UnknownRegister { location: InputLocation::Span(node.start, node.end) },
        ),
    }
}

/// Folds bytes into the number they denote, most significant byte first.
/// Four bytes fill the thirty-two bits: no bit is shifted out.
fn fold_big_endian(bytes: &Vec<u8>) -> (number: u32)
    requires
        bytes@.len() <= 4,
    ensures
        number == big_endian(bytes@),
{
    let mut number: u32 = 0;
    let mut done: usize = 0;
    while done < bytes.len()
        invariant
            done <= bytes@.len() <= 4,
            number == big_endian(bytes@.take(done as int)),
            done == 0 ==> number == 0,
            done == 1 ==> number < 0x100,
            done == 2 ==> number < 0x1_0000,
            done == 3 ==> number < 0x100_0000,
        decreases bytes@.len() - done,
    {
        let byte = bytes[done];
        let ghost before = number;
        assert(bytes@.take(done + 1).drop_last() =~= bytes@.take(done as int));
        assert(bytes@.take(done + 1).last() == byte);
        assert(before < 0x100_0000 ==> (before << 8 | byte as u32) == before * 256 + byte as u32)
            by (bit_vector);
        number = number << 8 | byte as u32;
        done += 1;
    }
    assert(bytes@.take(done as int) =~= bytes@);
    number
}

/// Resolves an address token.
fn parse_memory(input: &[u8], node: &Pair) -> (outcome: Result<Source8, ParseError>)
    ensures
        outcome == memory_of(input@, *node),
{
    if !lies_within(input, node) || node.end - node.start < ADDRESS_PREFIX {
        return Err(ParseError::InternalError);
    }
    let start = node.start + ADDRESS_PREFIX;
    match decode(slice_subrange(input, start, node.end)) {
        Ok(bytes) => {
            if bytes.len() > ADDRESS_DIGITS / 2 {
                Err(ParseError::InternalError)
            } else {
                Ok(Source8::Memory(fold_big_endian(&bytes) as usize))
            }
        },
        Err(_) => Err(ParseError::MalformedHex { location: InputLocation::Span(start, node.end) }),
    }
}

/// Resolves a byte literal token.
fn parse_value8(input: &[u8], node: &Pair) -> (outcome: Result<u8, ParseError>)
    ensures
        outcome == value8_of(input@, *node),
{
    if !lies_within(input, node) || node.end - node.start < VALUE_PREFIX {
        return Err(ParseError::InternalError);
    }
    let start = node.start + VALUE_PREFIX;
    let malformed = ParseError::MalformedHex { location: InputLocation::Span(start, node.end) };
    match decode(slice_subrange(input, start, node.end)) {
        Ok(bytes) => {
            if bytes.len() == VALUE_DIGITS / 2 {
                Ok(bytes[0])
            } else {
                Err(malformed)
            }
        },
        Err(_) => Err(malformed),
    }
}

/// Resolves a comparator token and makes the comparison it stands for.
fn parse_comparison(input: &[u8], node: &Pair, source: Source8, value: u8) -> (outcome: Result<
    BooleanExpression,
    ParseError,
>)
    ensures
        outcome == comparison_of(input@, *node, source, value),
{
    if !lies_within(input, node) {
        return Err(ParseError::InternalError);
    }
    let sign = slice_subrange(input, node.start, node.end);
    let found = if sign.len() == 1 && sign[0] == EQUALS {
        assert(sign@ =~= seq![EQUALS]);
        Some(BooleanExpression::Equal(source, value))
    } else if sign.len() == 2 && sign[0] == GREATER && sign[1] == EQUALS {
        assert(sign@ =~= seq![GREATER, EQUALS]);
        Some(BooleanExpression::GreaterOrEqual(source, value))
    } else if sign.len() == 1 && sign[0] == GREATER {
        assert(sign@ =~= seq![GREATER]);
        Some(BooleanExpression::StrictlyGreater(source, value))
    } else if sign.len() == 2 && sign[0] == LESS && sign[1] == EQUALS {
        assert(sign@ =~= seq![LESS, EQUALS]);
        Some(BooleanExpression::LesserOrEqual(source, value))
    } else if sign.len() == 1 && sign[0] == LESS {
        assert(sign@ =~= seq![LESS]);
        Some(BooleanExpression::StrictlyLesser(source, value))
    } else if sign.len() == 2 && sign[0] == BANG && sign[1] == EQUALS {
        assert(sign@ =~= seq![BANG, EQUALS]);
        Some(BooleanExpression::Different(source, value))
    } else {
        None
    };
    assert(found == comparison_signed(sign@, source, value)) by {
        assert(seq![EQUALS].len() == 1 && seq![EQUALS][0] == EQUALS);
        assert(seq![GREATER].len() == 1 && seq![GREATER][0] == GREATER);
        assert(seq![LESS].len() == 1 && seq![LESS][0] == LESS);
        assert(seq![GREATER, EQUALS].len() == 2 && seq![GREATER, EQUALS][0] == GREATER
            && seq![GREATER, EQUALS][1] == EQUALS);
        assert(seq![LESS, EQUALS].len() == 2 && seq![LESS, EQUALS][0] == LESS && seq![
            LESS,
            EQUALS,
        ][1] == EQUALS);
        assert(seq![BANG, EQUALS].len() == 2 && seq![BANG, EQUALS][0] == BANG && seq![
            BANG,
            EQUALS,
        ][1] == EQUALS);
    }
    match found {
        Some(condition) => Ok(condition),
        None => Err(ParseError::InternalError),
    }
}

/// Builds the condition of an operation from its three tokens.
fn parse_operation(input: &[u8], operand: &Pair, comparator: &Pair, value: &Pair) -> (outcome:
    Result<BooleanExpression, ParseError>)
    ensures
        outcome == operation_of(input@, *operand, *comparator, *value),
{
    let lh = match operand.rule {
        Rule::Register8 => parse_register(input, operand),
        Rule::MemoryAddress => parse_memory(input, operand),
        _ => Err(ParseError::InternalError),
    };
    match lh {
        Err(error) => Err(error),
        Ok(source) => match parse_value8(input, value) {
            Err(error) => Err(error),
            Ok(rh) => parse_comparison(input, comparator, source, rh),
        },
    }
}

/// Tells whether the token spells `true`.
fn spells_true(input: &[u8], node: &Pair) -> (yes: bool)
    requires
        within(input@, *node),
    ensures
        yes == (text_of(input@, *node) == seq![LOWER_T, LOWER_R, LOWER_U, LOWER_E]),
{
    let word = slice_subrange(input, node.start, node.end);
    let yes = word.len() == 4 && word[0] == LOWER_T && word[1] == LOWER_R && word[2] == LOWER_U
        && word[3] == LOWER_E;
    proof {
        let spelling = seq![LOWER_T, LOWER_R, LOWER_U, LOWER_E];
        assert(spelling.len() == 4 && spelling[0] == LOWER_T && spelling[1] == LOWER_R
            && spelling[2] == LOWER_U && spelling[3] == LOWER_E);
        if yes {
            assert(word@ =~= spelling);
        }
    }
    yes
}

/// Builds the condition that a parse tree of `input` denotes.
fn build(input: &[u8], tree: &ParseTree) -> (outcome: Result<BooleanExpression, ParseError>)
    ensures
        outcome == built(input@, *tree),
{
    match tree {
        ParseTree::Boolean(leaf) => {
            if leaf.rule == Rule::Boolean && lies_within(input, leaf) {
                Ok(BooleanExpression::Value(spells_true(input, leaf)))
            } else {
                Err(ParseError::InternalError)
            }
        },
        ParseTree::Operation { operand, comparator, value } => parse_operation(
            input,
            operand,
            comparator,
            value,
        ),
    }
}

/// Builds the condition that a parse tree of `text` denotes.
///
/// A tree that `BEParser::parse` gave for the same text never yields
/// `UnknownRegister` or `InternalError`: they answer for trees made by hand.
pub fn parse_boolex(text: &str, tree: &ParseTree) -> (outcome: Result<
    BooleanExpression,
    ParseError,
>)
    ensures
        outcome == built(text.spec_bytes(), *tree),
{
    build(text.as_bytes(), tree)
}

/// Parses a line of text into the condition it denotes.
pub fn parse_condition(text: &str) -> (outcome: Result<BooleanExpression, ParseError>)
    ensures
        outcome == parsed(text.spec_bytes()),
{
    let input = text.as_bytes();
    match parse_sentence(input) {
        Ok(tree) => build(input, &tree),
        Err(error) => Err(ParseError::SyntaxError(error)),
    }
}

} // verus!
