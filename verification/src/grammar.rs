//! The grammar of conditions, and the parser that recognises it.
//!
//! ```text
//! sentence        := boolean_expression
//! boolean_expression := boolean | operation
//! boolean         := "true" | "false"
//! operation       := operand comparator value8
//! operand         := register8 | memory_address
//! register8       := "SP" | "A" | "X" | "Y" | "S"
//! memory_address  := "#0x" digit{1,8}
//! value8          := "0x" digit{2}
//! comparator      := ">=" | "<=" | "!=" | "=" | ">" | "<"
//! ```
//!
//! Blanks (spaces and tabs) may stand before and after every token and are
//! ignored; nothing else may follow the expression. A token is written
//! without blanks inside. Alternatives are tried in the order written, so the
//! longer of two tokens that start alike wins.
//!
//! A `digit` is here any letter or decimal digit: the grammar only delimits
//! the digits of a literal. Whether they are hexadecimal digits, and come in
//! pairs, is decided when the literal is decoded.

use vstd::prelude::*;
use vstd::string::StringSliceAdditionalSpecFns;
use crate::ascii::{
    alphanumeric, is_alphanumeric, BANG, DIGIT_0, EQUALS, GREATER, HASH, LESS, LOWER_A, LOWER_E,
    LOWER_F, LOWER_L, LOWER_R, LOWER_S, LOWER_T, LOWER_U, LOWER_X, SPACE, TAB, UPPER_A, UPPER_P,
    UPPER_S, UPPER_X, UPPER_Y,
};

verus! {

/// The symbols of the grammar that a token or an expectation can name.
#[derive(Clone, Copy, Debug, PartialEq, Eq, Structural)]
pub enum Rule {
    Boolean,
    Register8,
    MemoryAddress,
    Comparator,
    Value8,
    EndOfInput,
}

/// A token: the rule that matched and the bytes `start..end` of the input
/// that it matched.
#[derive(Clone, Copy, Debug, PartialEq, Eq, Structural)]
pub struct Pair {
    pub rule: Rule,
    pub start: usize,
    pub end: usize,
}

/// What a sentence holds: a boolean leaf, or an operation with its three
/// tokens in the order of the text.
#[derive(Clone, Copy, Debug, PartialEq, Eq, Structural)]
pub enum ParseTree {
    Boolean(Pair),
    Operation { operand: Pair, comparator: Pair, value: Pair },
}

/// A place in the input: one position, or the bytes `start..end`.
#[derive(Clone, Copy, Debug, PartialEq, Eq, Structural)]
pub enum InputLocation {
    Pos(usize),
    Span(usize, usize),
}

/// The set of symbols one of which had to start where the parser stopped.
#[derive(Clone, Copy, Debug, PartialEq, Eq, Structural)]
pub enum Expected {
    /// A boolean, a register or a memory address.
    BooleanExpression,
    /// A comparator.
    Comparator,
    /// A byte literal.
    Value8,
    /// Nothing more.
    EndOfInput,
}

impl Expected {
    /// Whether the set holds `rule`.
    pub open spec fn includes(self, rule: Rule) -> bool {
        match self {
            Expected::BooleanExpression => rule == Rule::Boolean || rule == Rule::Register8
                || rule == Rule::MemoryAddress,
            Expected::Comparator => rule == Rule::Comparator,
            Expected::Value8 => rule == Rule::Value8,
            Expected::EndOfInput => rule == Rule::EndOfInput,
        }
    }

    /// Tells whether the set holds `rule`.
    pub fn accepts(&self, rule: Rule) -> (yes: bool)
        ensures
            yes == self.includes(rule),
    {
        match *self {
            Expected::BooleanExpression => rule == Rule::Boolean || rule == Rule::Register8
                || rule == Rule::MemoryAddress,
            Expected::Comparator => rule == Rule::Comparator,
            Expected::Value8 => rule == Rule::Value8,
            Expected::EndOfInput => rule == Rule::EndOfInput,
        }
    }
}

/// Input that is no sentence: where the parser stopped, and what it would
/// have accepted there.
#[derive(Clone, Copy, Debug, PartialEq, Eq, Structural)]
pub struct SyntaxError {
    pub location: InputLocation,
    pub expected: Expected,
}

/// Length of the prefix `#0x` of a memory address.
pub const ADDRESS_PREFIX: usize = 3;

/// Most digits a memory address may have.
pub const ADDRESS_DIGITS: usize = 8;

/// Length of the prefix `0x` of a byte literal.
pub const VALUE_PREFIX: usize = 2;

/// Digits of a byte literal.
pub const VALUE_DIGITS: usize = 2;

/// Whether the token lies in the input.
pub open spec fn within(input: Seq<u8>, node: Pair) -> bool {
    node.start <= node.end <= input.len()
}

/// The text of a token.
pub open spec fn text_of(input: Seq<u8>, node: Pair) -> Seq<u8>
    recommends
        within(input, node),
{
    input.subrange(node.start as int, node.end as int)
}

/// A space or a tab.
pub open spec fn is_blank(byte: u8) -> bool {
    byte == SPACE || byte == TAB
}

/// Whether the input holds `byte` at `at`.
pub open spec fn byte_at(input: Seq<u8>, at: int, byte: u8) -> bool {
    0 <= at < input.len() && input[at] == byte
}

/// The first position from `from` on that holds no blank.
pub open spec fn blanks_end(input: Seq<u8>, from: int) -> int
    decreases input.len() - from,
{
    if 0 <= from < input.len() && is_blank(input[from]) {
        blanks_end(input, from + 1)
    } else {
        from
    }
}

/// How many letters and digits stand at `from` in a row, counted up to
/// `limit`.
pub open spec fn digits_run(input: Seq<u8>, from: int, limit: nat) -> nat
    decreases limit,
{
    if limit > 0 && 0 <= from < input.len() && is_alphanumeric(input[from]) {
        1 + digits_run(input, from + 1, (limit - 1) as nat)
    } else {
        0
    }
}

/// Length of the boolean that starts at `at`; 0 if none does.
pub open spec fn boolean_len(input: Seq<u8>, at: int) -> nat {
    if byte_at(input, at, LOWER_T) && byte_at(input, at + 1, LOWER_R) && byte_at(
        input,
        at + 2,
        LOWER_U,
    ) && byte_at(input, at + 3, LOWER_E) {
        4
    } else if byte_at(input, at, LOWER_F) && byte_at(input, at + 1, LOWER_A) && byte_at(
        input,
        at + 2,
        LOWER_L,
    ) && byte_at(input, at + 3, LOWER_S) && byte_at(input, at + 4, LOWER_E) {
        5
    } else {
        0
    }
}

/// Length of the register name that starts at `at`; 0 if none does.
pub open spec fn register_len(input: Seq<u8>, at: int) -> nat {
    if byte_at(input, at, UPPER_S) && byte_at(input, at + 1, UPPER_P) {
        2
    } else if byte_at(input, at, UPPER_A) || byte_at(input, at, UPPER_X) || byte_at(
        input,
        at,
        UPPER_Y,
    ) || byte_at(input, at, UPPER_S) {
        1
    } else {
        0
    }
}

/// Length of the memory address that starts at `at`; 0 if none does.
pub open spec fn address_len(input: Seq<u8>, at: int) -> nat {
    let digits = digits_run(input, at + ADDRESS_PREFIX, ADDRESS_DIGITS as nat);
    if byte_at(input, at, HASH) && byte_at(input, at + 1, DIGIT_0) && byte_at(
        input,
        at + 2,
        LOWER_X,
    ) && digits > 0 {
        ADDRESS_PREFIX as nat + digits
    } else {
        0
    }
}

/// Length of the comparator that starts at `at`; 0 if none does.
pub open spec fn comparator_len(input: Seq<u8>, at: int) -> nat {
    if (byte_at(input, at, GREATER) || byte_at(input, at, LESS) || byte_at(input, at, BANG))
        && byte_at(input, at + 1, EQUALS) {
        2
    } else if byte_at(input, at, EQUALS) || byte_at(input, at, GREATER) || byte_at(
        input,
        at,
        LESS,
    ) {
        1
    } else {
        0
    }
}

/// Length of the byte literal that starts at `at`; 0 if none does.
pub open spec fn value_len(input: Seq<u8>, at: int) -> nat {
    let digits = digits_run(input, at + VALUE_PREFIX, VALUE_DIGITS as nat);
    if byte_at(input, at, DIGIT_0) && byte_at(input, at + 1, LOWER_X) && digits == VALUE_DIGITS {
        (VALUE_PREFIX + VALUE_DIGITS) as nat
    } else {
        0
    }
}

/// The token of `len` bytes at `at`.
pub open spec fn token(rule: Rule, at: int, len: nat) -> Pair {
    Pair { rule, start: at as usize, end: (at + len) as usize }
}

/// The error of a parser that stopped at `at`.
pub open spec fn stopped(at: int, expected: Expected) -> SyntaxError {
    SyntaxError { location: InputLocation::Pos(at as usize), expected }
}

/// The operand that starts at `at`, if one does: a register name, else a
/// memory address.
pub open spec fn operand_at(input: Seq<u8>, at: int) -> Option<Pair> {
    if register_len(input, at) > 0 {
        Some(token(Rule::Register8, at, register_len(input, at)))
    } else if address_len(input, at) > 0 {
        Some(token(Rule::MemoryAddress, at, address_len(input, at)))
    } else {
        None
    }
}

/// What is left to check once the expression has been read up to `end`:
/// that only blanks follow.
pub open spec fn closed(input: Seq<u8>, end: int, tree: ParseTree) -> Result<
    ParseTree,
    SyntaxError,
> {
    let last = blanks_end(input, end);
    if last == input.len() {
        Ok(tree)
    } else {
        Err(stopped(last, Expected::EndOfInput))
    }
}

/// The operation whose operand has been read, `operand.end` being where it
/// ends.
pub open spec fn operation_after(input: Seq<u8>, operand: Pair) -> Result<
    ParseTree,
    SyntaxError,
> {
    let at = blanks_end(input, operand.end as int);
    let len = comparator_len(input, at);
    if len == 0 {
        Err(stopped(at, Expected::Comparator))
    } else {
        let comparator = token(Rule::Comparator, at, len);
        let at = blanks_end(input, comparator.end as int);
        let len = value_len(input, at);
        if len == 0 {
            Err(stopped(at, Expected::Value8))
        } else {
            let value = token(Rule::Value8, at, len);
            closed(input, value.end as int, ParseTree::Operation { operand, comparator, value })
        }
    }
}

/// The parse of the whole input: the tree of the sentence it is, or the first
/// position at which it stops being one.
pub open spec fn sentence(input: Seq<u8>) -> Result<ParseTree, SyntaxError> {
    let at = blanks_end(input, 0);
    if boolean_len(input, at) > 0 {
        let leaf = token(Rule::Boolean, at, boolean_len(input, at));
        closed(input, leaf.end as int, ParseTree::Boolean(leaf))
    } else {
        match operand_at(input, at) {
            Some(operand) => operation_after(input, operand),
            None => Err(stopped(at, Expected::BooleanExpression)),
        }
    }
}

/// Skips the blanks at `from`.
fn skip_blanks(input: &[u8], from: usize) -> (end: usize)
    requires
        from <= input@.len(),
    ensures
        end == blanks_end(input@, from as int),
        from <= end <= input@.len(),
{
    let mut at = from;
    while at < input.len() && (input[at] == SPACE || input[at] == TAB)
        invariant
            from <= at <= input@.len(),
            blanks_end(input@, from as int) == blanks_end(input@, at as int),
        decreases input@.len() - at,
    {
        at += 1;
    }
    at
}

/// Counts the letters and digits at `from`, up to `limit`.
fn count_digits(input: &[u8], from: usize, limit: usize) -> (count: usize)
    requires
        from <= input@.len(),
    ensures
        count == digits_run(input@, from as int, limit as nat),
        count <= limit,
        from + count <= input@.len(),
{
    let rest = input.len() - from;
    let mut count: usize = 0;
    while count < limit && count < rest && alphanumeric(input[from + count])
        invariant
            count <= limit,
            from + rest == input@.len() <= usize::MAX,
            count <= rest,
            digits_run(input@, from as int, limit as nat) == count + digits_run(
                input@,
                from + count,
                (limit - count) as nat,
            ),
        decreases limit - count,
    {
        count += 1;
    }
    count
}

/// Where the boolean at `at` ends; `at` itself if none starts there.
fn match_boolean(input: &[u8], at: usize) -> (end: usize)
    requires
        at <= input@.len(),
    ensures
        end == at + boolean_len(input@, at as int),
        end <= input@.len(),
{
    let rest = input.len() - at;
    if rest >= 4 && input[at] == LOWER_T && input[at + 1] == LOWER_R && input[at + 2] == LOWER_U
        && input[at + 3] == LOWER_E {
        at + 4
    } else if rest >= 5 && input[at] == LOWER_F && input[at + 1] == LOWER_A && input[at + 2]
        == LOWER_L && input[at + 3] == LOWER_S && input[at + 4] == LOWER_E {
        at + 5
    } else {
        at
    }
}

/// Where the register name at `at` ends; `at` itself if none starts there.
fn match_register(input: &[u8], at: usize) -> (end: usize)
    requires
        at <= input@.len(),
    ensures
        end == at + register_len(input@, at as int),
        end <= input@.len(),
{
    let rest = input.len() - at;
    if rest >= 2 && input[at] == UPPER_S && input[at + 1] == UPPER_P {
        at + 2
    } else if rest >= 1 && (input[at] == UPPER_A || input[at] == UPPER_X || input[at] == UPPER_Y
        || input[at] == UPPER_S) {
        at + 1
    } else {
        at
    }
}

/// Where the memory address at `at` ends; `at` itself if none starts there.
fn match_address(input: &[u8], at: usize) -> (end: usize)
    requires
        at <= input@.len(),
    ensures
        end == at + address_len(input@, at as int),
        end <= input@.len(),
{
    let rest = input.len() - at;
    if rest >= 3 && input[at] == HASH && input[at + 1] == DIGIT_0 && input[at + 2] == LOWER_X {
        let digits = count_digits(input, at + ADDRESS_PREFIX, ADDRESS_DIGITS);
        if digits > 0 {
            at + ADDRESS_PREFIX + digits
        } else {
            at
        }
    } else {
        at
    }
}

/// Where the comparator at `at` ends; `at` itself if none starts there.
fn match_comparator(input: &[u8], at: usize) -> (end: usize)
    requires
        at <= input@.len(),
    ensures
        end == at + comparator_len(input@, at as int),
        end <= input@.len(),
{
    let rest = input.len() - at;
    if rest >= 2 && (input[at] == GREATER || input[at] == LESS || input[at] == BANG) && input[at
        + 1] == EQUALS {
        at + 2
    } else if rest >= 1 && (input[at] == EQUALS || input[at] == GREATER || input[at] == LESS) {
        at + 1
    } else {
        at
    }
}

/// Where the byte literal at `at` ends; `at` itself if none starts there.
fn match_value(input: &[u8], at: usize) -> (end: usize)
    requires
        at <= input@.len(),
    ensures
        end == at + value_len(input@, at as int),
        end <= input@.len(),
{
    let rest = input.len() - at;
    if rest >= 2 && input[at] == DIGIT_0 && input[at + 1] == LOWER_X && count_digits(
        input,
        at + VALUE_PREFIX,
        VALUE_DIGITS,
    ) == VALUE_DIGITS {
        at + VALUE_PREFIX + VALUE_DIGITS
    } else {
        at
    }
}

/// Checks that only blanks follow `end`.
fn close(input: &[u8], end: usize, tree: ParseTree) -> (outcome: Result<ParseTree, SyntaxError>)
    requires
        end <= input@.len(),
    ensures
        outcome == closed(input@, end as int, tree),
{
    let last = skip_blanks(input, end);
    if last == input.len() {
        Ok(tree)
    } else {
        Err(SyntaxError { location: InputLocation::Pos(last), expected: Expected::EndOfInput })
    }
}

/// Reads the comparator and the byte literal that follow an operand.
fn parse_operation_after(input: &[u8], operand: Pair) -> (outcome: Result<
    ParseTree,
    SyntaxError,
>)
    requires
        operand.end <= input@.len(),
    ensures
        outcome == operation_after(input@, operand),
{
    let start = skip_blanks(input, operand.end);
    let end = match_comparator(input, start);
    if end == start {
        return Err(
            SyntaxError { location: InputLocation::Pos(start), expected: Expected::Comparator },
        );
    }
    let comparator = Pair { rule: Rule::Comparator, start, end };
    let start = skip_blanks(input, end);
    let end = match_value(input, start);
    if end == start {
        return Err(
            SyntaxError { location: InputLocation::Pos(start), expected: Expected::Value8 },
        );
    }
    let value = Pair { rule: Rule::Value8, start, end };
    close(input, end, ParseTree::Operation { operand, comparator, value })
}

/// Parses the bytes of a sentence.
pub(crate) fn parse_sentence(input: &[u8]) -> (outcome: Result<ParseTree, SyntaxError>)
    ensures
        outcome == sentence(input@),
{
    let start = skip_blanks(input, 0);
    let end = match_boolean(input, start);
    if end > start {
        return close(input, end, ParseTree::Boolean(Pair { rule: Rule::Boolean, start, end }));
    }
    let end = match_register(input, start);
    if end > start {
        return parse_operation_after(input, Pair { rule: Rule::Register8, start, end });
    }
    let end = match_address(input, start);
    if end > start {
        return parse_operation_after(input, Pair { rule: Rule::MemoryAddress, start, end });
    }
    Err(SyntaxError { location: InputLocation::Pos(start), expected: Expected::BooleanExpression })
}

/// The parser of conditions.
pub struct BEParser;

impl BEParser {
    /// Parses a line of text as a sentence. Positions in the outcome count
    /// bytes of `text` from 0.
    pub fn parse(text: &str) -> (outcome: Result<ParseTree, SyntaxError>)
        ensures
            outcome == sentence(text.spec_bytes()),
    {
        parse_sentence(text.as_bytes())
    }
}

} // verus!
