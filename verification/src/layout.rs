//! Sentences, stated without the parser: which texts are tokens, how the
//! tokens of a sentence lie in a line, and the proof that the parser accepts
//! exactly the lines so laid out.

use vstd::prelude::*;
use crate::ascii::{
    is_alphanumeric, BANG, DIGIT_0, EQUALS, GREATER, HASH, LESS, LOWER_A, LOWER_E, LOWER_F,
    LOWER_L, LOWER_R, LOWER_S, LOWER_T, LOWER_U, LOWER_X, UPPER_A, UPPER_P, UPPER_S, UPPER_X,
    UPPER_Y,
};
use crate::grammar::{
    address_len, blanks_end, boolean_len, comparator_len, digits_run, is_blank, register_len,
    sentence, text_of, value_len, within, Pair, ParseTree, Rule, SyntaxError, ADDRESS_DIGITS,
    ADDRESS_PREFIX, VALUE_DIGITS, VALUE_PREFIX,
};

verus! {

/// `true` or `false`.
pub open spec fn is_boolean(text: Seq<u8>) -> bool {
    text == seq![LOWER_T, LOWER_R, LOWER_U, LOWER_E] || text == seq![
        LOWER_F,
        LOWER_A,
        LOWER_L,
        LOWER_S,
        LOWER_E,
    ]
}

/// `A`, `X`, `Y`, `S` or `SP`.
pub open spec fn is_register8(text: Seq<u8>) -> bool {
    text == seq![UPPER_A] || text == seq![UPPER_X] || text == seq![UPPER_Y] || text == seq![UPPER_S]
        || text == seq![UPPER_S, UPPER_P]
}

/// `#0x` and one to eight letters or digits.
pub open spec fn is_memory_address(text: Seq<u8>) -> bool {
    &&& ADDRESS_PREFIX + 1 <= text.len() <= ADDRESS_PREFIX + ADDRESS_DIGITS
    &&& text[0] == HASH && text[1] == DIGIT_0 && text[2] == LOWER_X
    &&& forall|i: int| ADDRESS_PREFIX <= i < text.len() ==> is_alphanumeric(#[trigger] text[i])
}

/// `=`, `>=`, `>`, `<=`, `<` or `!=`.
pub open spec fn is_comparator(text: Seq<u8>) -> bool {
    text == seq![EQUALS] || text == seq![GREATER, EQUALS] || text == seq![GREATER] || text == seq![
        LESS,
        EQUALS,
    ] || text == seq![LESS] || text == seq![BANG, EQUALS]
}

/// `0x` and two letters or digits.
pub open spec fn is_value8(text: Seq<u8>) -> bool {
    &&& text.len() == VALUE_PREFIX + VALUE_DIGITS
    &&& text[0] == DIGIT_0 && text[1] == LOWER_X
    &&& is_alphanumeric(text[2]) && is_alphanumeric(text[3])
}

/// Whether `text` is a token of `rule`.
pub open spec fn is_token(rule: Rule, text: Seq<u8>) -> bool {
    match rule {
        Rule::Boolean => is_boolean(text),
        Rule::Register8 => is_register8(text),
        Rule::MemoryAddress => is_memory_address(text),
        Rule::Comparator => is_comparator(text),
        Rule::Value8 => is_value8(text),
        Rule::EndOfInput => text.len() == 0,
    }
}

/// Whether the input holds nothing but blanks from `from` up to `to`.
pub open spec fn blank_between(input: Seq<u8>, from: int, to: int) -> bool {
    forall|i: int| from <= i < to ==> is_blank(#[trigger] input[i])
}

/// Whether the tokens of `tree` are a sentence written in `input`: each is a
/// token of its rule, they follow each other in order, and all the rest of
/// the input is blank.
pub open spec fn lays_out(input: Seq<u8>, tree: ParseTree) -> bool {
    match tree {
        ParseTree::Boolean(leaf) => {
            &&& leaf.rule == Rule::Boolean
            &&& within(input, leaf)
            &&& is_boolean(text_of(input, leaf))
            &&& blank_between(input, 0, leaf.start as int)
            &&& blank_between(input, leaf.end as int, input.len() as int)
        },
        ParseTree::Operation { operand, comparator, value } => {
            &&& (operand.rule == Rule::Register8 || operand.rule == Rule::MemoryAddress)
            &&& comparator.rule == Rule::Comparator
            &&& value.rule == Rule::Value8
            &&& within(input, operand) && within(input, comparator) && within(input, value)
            &&& operand.end <= comparator.start && comparator.end <= value.start
            &&& is_token(operand.rule, text_of(input, operand))
            &&& is_comparator(text_of(input, comparator))
            &&& is_value8(text_of(input, value))
            &&& blank_between(input, 0, operand.start as int)
            &&& blank_between(input, operand.end as int, comparator.start as int)
            &&& blank_between(input, comparator.end as int, value.start as int)
            &&& blank_between(input, value.end as int, input.len() as int)
        },
    }
}

/// Whether a token of `rule` starts at `at`; for the end of the input,
/// whether the input ends there.
pub open spec fn starts_at(input: Seq<u8>, at: int, rule: Rule) -> bool {
    match rule {
        Rule::EndOfInput => at == input.len(),
        _ => exists|end: int|
            at <= end <= input.len() && is_token(rule, #[trigger] input.subrange(at, end)),
    }
}

/// Where blanks are skipped from `from`, blanks and nothing else were
/// passed, and what stands there is no blank.
pub proof fn lemma_blanks_end(input: Seq<u8>, from: int)
    requires
        0 <= from <= input.len(),
    ensures
        from <= blanks_end(input, from) <= input.len(),
        blank_between(input, from, blanks_end(input, from)),
        blanks_end(input, from) < input.len() ==> !is_blank(input[blanks_end(input, from)]),
    decreases input.len() - from,
{
    if from < input.len() && is_blank(input[from]) {
        lemma_blanks_end(input, from + 1);
    }
}

/// Blanks up to `end`, and none at `end`: skipping them from `from` stops
/// at `end`.
pub proof fn lemma_blanks_end_is(input: Seq<u8>, from: int, end: int)
    requires
        0 <= from <= end <= input.len(),
        blank_between(input, from, end),
        end < input.len() ==> !is_blank(input[end]),
    ensures
        blanks_end(input, from) == end,
    decreases end - from,
{
    if from < end {
        assert(is_blank(input[from]));
        lemma_blanks_end_is(input, from + 1, end);
    }
}

/// A run of digits lies in the input, is no longer than its limit, holds
/// letters and digits only, and stops short of the limit only before
/// something else.
pub proof fn lemma_digits_run(input: Seq<u8>, from: int, limit: nat)
    requires
        0 <= from <= input.len(),
    ensures
        digits_run(input, from, limit) <= limit,
        from + digits_run(input, from, limit) <= input.len(),
        forall|i: int|
            from <= i < from + digits_run(input, from, limit) ==> is_alphanumeric(
                #[trigger] input[i],
            ),
        digits_run(input, from, limit) < limit && from + digits_run(input, from, limit)
            < input.len() ==> !is_alphanumeric(input[from + digits_run(input, from, limit)]),
    decreases limit,
{
    if limit > 0 && from < input.len() && is_alphanumeric(input[from]) {
        lemma_digits_run(input, from + 1, (limit - 1) as nat);
    }
}

/// `count` letters and digits from `from`, at most `limit`: the run from
/// `from` is as long or longer, and just as long where the limit, the end of
/// the input or something else stops it there.
pub proof fn lemma_digits_run_is(input: Seq<u8>, from: int, limit: nat, count: nat)
    requires
        0 <= from,
        from + count <= input.len(),
        count <= limit,
        forall|i: int| from <= i < from + count ==> is_alphanumeric(#[trigger] input[i]),
    ensures
        digits_run(input, from, limit) >= count,
        count == limit || from + count == input.len() || !is_alphanumeric(input[from + count])
            ==> digits_run(input, from, limit) == count,
    decreases count,
{
    if count > 0 {
        assert(is_alphanumeric(input[from]));
        lemma_digits_run_is(input, from + 1, (limit - 1) as nat, (count - 1) as nat);
    }
}

/// The text of a token holds the bytes of the input at the token's place.
pub proof fn lemma_text_of(input: Seq<u8>, node: Pair)
    requires
        within(input, node),
    ensures
        text_of(input, node).len() == node.end - node.start,
        forall|i: int|
            0 <= i < node.end - node.start ==> #[trigger] text_of(input, node)[i] == input[node.start
                + i],
{
}

/// The boolean the parser finds at `at` is one.
pub proof fn lemma_boolean_found(input: Seq<u8>, at: int)
    requires
        boolean_len(input, at) > 0,
    ensures
        at + boolean_len(input, at) <= input.len(),
        is_boolean(input.subrange(at, at + boolean_len(input, at))),
{
    let word = input.subrange(at, at + boolean_len(input, at));
    if boolean_len(input, at) == 4 {
        assert(word =~= seq![LOWER_T, LOWER_R, LOWER_U, LOWER_E]);
    } else {
        assert(word =~= seq![LOWER_F, LOWER_A, LOWER_L, LOWER_S, LOWER_E]);
    }
}

/// A boolean at `at` is found by the parser, whole.
pub proof fn lemma_boolean_is_found(input: Seq<u8>, at: int, end: int)
    requires
        0 <= at <= end <= input.len(),
        is_boolean(input.subrange(at, end)),
    ensures
        boolean_len(input, at) == end - at,
{
    let word = input.subrange(at, end);
    let spelled_true = seq![LOWER_T, LOWER_R, LOWER_U, LOWER_E];
    let spelled_false = seq![LOWER_F, LOWER_A, LOWER_L, LOWER_S, LOWER_E];
    assert(spelled_true.len() == 4 && spelled_true[0] == LOWER_T && spelled_true[1] == LOWER_R
        && spelled_true[2] == LOWER_U && spelled_true[3] == LOWER_E);
    assert(spelled_false.len() == 5 && spelled_false[0] == LOWER_F && spelled_false[1] == LOWER_A
        && spelled_false[2] == LOWER_L && spelled_false[3] == LOWER_S && spelled_false[4]
        == LOWER_E);
    assert(word[0] == input[at] && word[1] == input[at + 1] && word[2] == input[at + 2] && word[3]
        == input[at + 3]);
    if word == spelled_false {
        assert(word[4] == input[at + 4]);
    }
}

/// The register name the parser finds at `at` is one.
pub proof fn lemma_register_found(input: Seq<u8>, at: int)
    requires
        register_len(input, at) > 0,
    ensures
        at + register_len(input, at) <= input.len(),
        is_register8(input.subrange(at, at + register_len(input, at))),
{
    let name = input.subrange(at, at + register_len(input, at));
    if register_len(input, at) == 2 {
        assert(name =~= seq![UPPER_S, UPPER_P]);
    } else if input[at] == UPPER_A {
        assert(name =~= seq![UPPER_A]);
    } else if input[at] == UPPER_X {
        assert(name =~= seq![UPPER_X]);
    } else if input[at] == UPPER_Y {
        assert(name =~= seq![UPPER_Y]);
    } else {
        assert(name =~= seq![UPPER_S]);
    }
}

/// A register name at `at` is found by the parser, and found whole unless
/// a `P` follows it; no boolean is found there.
pub proof fn lemma_register_is_found(input: Seq<u8>, at: int, end: int)
    requires
        0 <= at <= end <= input.len(),
        is_register8(input.subrange(at, end)),
    ensures
        boolean_len(input, at) == 0,
        register_len(input, at) >= end - at > 0,
        end == input.len() || input[end] != UPPER_P ==> register_len(input, at) == end - at,
{
    let name = input.subrange(at, end);
    assert(seq![UPPER_A].len() == 1 && seq![UPPER_A][0] == UPPER_A);
    assert(seq![UPPER_X].len() == 1 && seq![UPPER_X][0] == UPPER_X);
    assert(seq![UPPER_Y].len() == 1 && seq![UPPER_Y][0] == UPPER_Y);
    assert(seq![UPPER_S].len() == 1 && seq![UPPER_S][0] == UPPER_S);
    assert(seq![UPPER_S, UPPER_P].len() == 2 && seq![UPPER_S, UPPER_P][0] == UPPER_S && seq![
        UPPER_S,
        UPPER_P,
    ][1] == UPPER_P);
    assert(name[0] == input[at]);
    if name.len() == 2 {
        assert(name[1] == input[at + 1]);
    }
}

/// The memory address the parser finds at `at` is one.
pub proof fn lemma_address_found(input: Seq<u8>, at: int)
    requires
        address_len(input, at) > 0,
    ensures
        at + address_len(input, at) <= input.len(),
        is_memory_address(input.subrange(at, at + address_len(input, at))),
{
    lemma_digits_run(input, at + ADDRESS_PREFIX, ADDRESS_DIGITS as nat);
}

/// A memory address at `at` is found by the parser, and found whole unless
/// it has fewer digits than it may and a letter or digit follows it; neither
/// a boolean nor a register name is found there.
pub proof fn lemma_address_is_found(input: Seq<u8>, at: int, end: int)
    requires
        0 <= at <= end <= input.len(),
        is_memory_address(input.subrange(at, end)),
    ensures
        boolean_len(input, at) == 0,
        register_len(input, at) == 0,
        address_len(input, at) >= end - at > 0,
        end - at == ADDRESS_PREFIX + ADDRESS_DIGITS || end == input.len() || !is_alphanumeric(
            input[end],
        ) ==> address_len(input, at) == end - at,
{
    let text = input.subrange(at, end);
    assert(text[0] == input[at] && text[1] == input[at + 1] && text[2] == input[at + 2]);
    assert forall|i: int| at + ADDRESS_PREFIX <= i < end implies is_alphanumeric(
        #[trigger] input[i],
    ) by {
        assert(text[i - at] == input[i]);
    }
    lemma_digits_run_is(
        input,
        at + ADDRESS_PREFIX,
        ADDRESS_DIGITS as nat,
        (end - at - ADDRESS_PREFIX) as nat,
    );
}

/// The comparator the parser finds at `at` is one.
pub proof fn lemma_comparator_found(input: Seq<u8>, at: int)
    requires
        comparator_len(input, at) > 0,
    ensures
        at + comparator_len(input, at) <= input.len(),
        is_comparator(input.subrange(at, at + comparator_len(input, at))),
{
    let sign = input.subrange(at, at + comparator_len(input, at));
    if comparator_len(input, at) == 2 {
        if input[at] == GREATER {
            assert(sign =~= seq![GREATER, EQUALS]);
        } else if input[at] == LESS {
            assert(sign =~= seq![LESS, EQUALS]);
        } else {
            assert(sign =~= seq![BANG, EQUALS]);
        }
    } else {
        if input[at] == EQUALS {
            assert(sign =~= seq![EQUALS]);
        } else if input[at] == GREATER {
            assert(sign =~= seq![GREATER]);
        } else {
            assert(sign =~= seq![LESS]);
        }
    }
}

/// A comparator at `at` is found by the parser, and found whole unless a
/// `=` follows it.
pub proof fn lemma_comparator_is_found(input: Seq<u8>, at: int, end: int)
    requires
        0 <= at <= end <= input.len(),
        is_comparator(input.subrange(at, end)),
    ensures
        comparator_len(input, at) >= end - at > 0,
        end == input.len() || input[end] != EQUALS ==> comparator_len(input, at) == end - at,
{
    let sign = input.subrange(at, end);
    assert(seq![EQUALS].len() == 1 && seq![EQUALS][0] == EQUALS);
    assert(seq![GREATER].len() == 1 && seq![GREATER][0] == GREATER);
    assert(seq![LESS].len() == 1 && seq![LESS][0] == LESS);
    assert(seq![GREATER, EQUALS].len() == 2 && seq![GREATER, EQUALS][0] == GREATER && seq![
        GREATER,
        EQUALS,
    ][1] == EQUALS);
    assert(seq![LESS, EQUALS].len() == 2 && seq![LESS, EQUALS][0] == LESS && seq![
        LESS,
        EQUALS,
    ][1] == EQUALS);
    assert(seq![BANG, EQUALS].len() == 2 && seq![BANG, EQUALS][0] == BANG && seq![
        BANG,
        EQUALS,
    ][1] == EQUALS);
    assert(sign[0] == input[at]);
    if sign.len() == 2 {
        assert(sign[1] == input[at + 1]);
    }
}

/// The byte literal the parser finds at `at` is one.
pub proof fn lemma_value_found(input: Seq<u8>, at: int)
    requires
        value_len(input, at) > 0,
    ensures
        at + value_len(input, at) <= input.len(),
        is_value8(input.subrange(at, at + value_len(input, at))),
{
    lemma_digits_run(input, at + VALUE_PREFIX, VALUE_DIGITS as nat);
}

/// A byte literal at `at` is found by the parser.
pub proof fn lemma_value_is_found(input: Seq<u8>, at: int, end: int)
    requires
        0 <= at <= end <= input.len(),
        is_value8(input.subrange(at, end)),
    ensures
        value_len(input, at) == end - at,
{
    let text = input.subrange(at, end);
    assert(text[0] == input[at] && text[1] == input[at + 1] && text[2] == input[at + 2] && text[3]
        == input[at + 3]);
    lemma_digits_run_is(input, at + VALUE_PREFIX, VALUE_DIGITS as nat, VALUE_DIGITS as nat);
}

/// What the parser accepts is a sentence: the tree it gives lays out the
/// input.
pub proof fn lemma_parse_tree_lays_out(input: Seq<u8>, tree: ParseTree)
    requires
        input.len() <= usize::MAX,
        sentence(input) == Ok::<ParseTree, SyntaxError>(tree),
    ensures
        lays_out(input, tree),
{
    let at = blanks_end(input, 0);
    lemma_blanks_end(input, 0);
    match tree {
        ParseTree::Boolean(leaf) => {
            lemma_boolean_found(input, at);
            lemma_blanks_end(input, leaf.end as int);
        },
        ParseTree::Operation { operand, comparator, value } => {
            if operand.rule == Rule::Register8 {
                lemma_register_found(input, at);
            } else {
                lemma_address_found(input, at);
            }
            lemma_blanks_end(input, operand.end as int);
            lemma_comparator_found(input, blanks_end(input, operand.end as int));
            lemma_blanks_end(input, comparator.end as int);
            lemma_value_found(input, blanks_end(input, comparator.end as int));
            lemma_blanks_end(input, value.end as int);
        },
    }
}

/// The first byte of a comparator.
spec fn starts_comparator(byte: u8) -> bool {
    byte == EQUALS || byte == GREATER || byte == LESS || byte == BANG
}

/// A comparator starts with a byte that is no blank, letter or digit.
proof fn lemma_comparator_start(text: Seq<u8>)
    requires
        is_comparator(text),
    ensures
        text.len() > 0,
        starts_comparator(text[0]),
{
    assert(seq![EQUALS].len() == 1 && seq![EQUALS][0] == EQUALS);
    assert(seq![GREATER].len() == 1 && seq![GREATER][0] == GREATER);
    assert(seq![LESS].len() == 1 && seq![LESS][0] == LESS);
    assert(seq![GREATER, EQUALS].len() == 2 && seq![GREATER, EQUALS][0] == GREATER);
    assert(seq![LESS, EQUALS].len() == 2 && seq![LESS, EQUALS][0] == LESS);
    assert(seq![BANG, EQUALS].len() == 2 && seq![BANG, EQUALS][0] == BANG);
}

/// A boolean starts with a byte that is no blank.
proof fn lemma_boolean_start(text: Seq<u8>)
    requires
        is_boolean(text),
    ensures
        text.len() > 0,
        !is_blank(text[0]),
{
    let spelled_true = seq![LOWER_T, LOWER_R, LOWER_U, LOWER_E];
    let spelled_false = seq![LOWER_F, LOWER_A, LOWER_L, LOWER_S, LOWER_E];
    assert(spelled_true.len() == 4 && spelled_true[0] == LOWER_T);
    assert(spelled_false.len() == 5 && spelled_false[0] == LOWER_F);
}

/// A register name starts with a byte that is no blank.
proof fn lemma_register_start(text: Seq<u8>)
    requires
        is_register8(text),
    ensures
        text.len() > 0,
        !is_blank(text[0]),
{
    assert(seq![UPPER_A].len() == 1 && seq![UPPER_A][0] == UPPER_A);
    assert(seq![UPPER_X].len() == 1 && seq![UPPER_X][0] == UPPER_X);
    assert(seq![UPPER_Y].len() == 1 && seq![UPPER_Y][0] == UPPER_Y);
    assert(seq![UPPER_S].len() == 1 && seq![UPPER_S][0] == UPPER_S);
    assert(seq![UPPER_S, UPPER_P].len() == 2 && seq![UPPER_S, UPPER_P][0] == UPPER_S);
}

/// Every sentence is accepted, and its tokens found where they are: the
/// parser gives the tree that lays out the input, and so no input has two.
pub proof fn lemma_layout_is_parsed(input: Seq<u8>, tree: ParseTree)
    requires
        lays_out(input, tree),
    ensures
        sentence(input) == Ok::<ParseTree, SyntaxError>(tree),
{
    match tree {
        ParseTree::Boolean(leaf) => {
            lemma_boolean_start(text_of(input, leaf));
            assert(text_of(input, leaf)[0] == input[leaf.start as int]);
            lemma_blanks_end_is(input, 0, leaf.start as int);
            lemma_boolean_is_found(input, leaf.start as int, leaf.end as int);
            lemma_blanks_end_is(input, leaf.end as int, input.len() as int);
        },
        ParseTree::Operation { operand, comparator, value } => {
            let sign = text_of(input, comparator);
            let literal = text_of(input, value);
            lemma_comparator_start(sign);
            assert(sign[0] == input[comparator.start as int]);
            assert(literal[0] == input[value.start as int]);
            // What follows the operand is a blank or the comparator.
            let after = input[operand.end as int];
            assert(is_blank(after) || starts_comparator(after)) by {
                if operand.end < comparator.start {
                    assert(is_blank(input[operand.end as int]));
                }
            }
            if operand.rule == Rule::Register8 {
                lemma_register_start(text_of(input, operand));
                assert(text_of(input, operand)[0] == input[operand.start as int]);
                lemma_blanks_end_is(input, 0, operand.start as int);
                lemma_register_is_found(input, operand.start as int, operand.end as int);
            } else {
                assert(text_of(input, operand)[0] == input[operand.start as int]);
                lemma_blanks_end_is(input, 0, operand.start as int);
                lemma_address_is_found(input, operand.start as int, operand.end as int);
            }
            lemma_blanks_end_is(input, operand.end as int, comparator.start as int);
            // What follows the comparator is a blank or the literal.
            let after = input[comparator.end as int];
            assert(is_blank(after) || after == DIGIT_0) by {
                if comparator.end < value.start {
                    assert(is_blank(input[comparator.end as int]));
                }
            }
            lemma_comparator_is_found(input, comparator.start as int, comparator.end as int);
            lemma_blanks_end_is(input, comparator.end as int, value.start as int);
            lemma_value_is_found(input, value.start as int, value.end as int);
            lemma_blanks_end_is(input, value.end as int, input.len() as int);
        },
    }
}

/// A syntax error is found where the input goes wrong: the parser stops
/// within the input, not on a blank, and at a place where none of the
/// symbols it reports as expected starts.
pub proof fn lemma_error_is_where_nothing_fits(input: Seq<u8>, error: SyntaxError)
    requires
        input.len() <= usize::MAX,
        sentence(input) == Err::<ParseTree, SyntaxError>(error),
    ensures
        error.location is Pos,
        error.location->Pos_0 <= input.len(),
        error.location->Pos_0 < input.len() ==> !is_blank(input[error.location->Pos_0 as int]),
        forall|rule: Rule|
            error.expected.includes(rule) ==> !starts_at(
                input,
                error.location->Pos_0 as int,
                rule,
            ),
{
    let first = blanks_end(input, 0);
    lemma_blanks_end(input, 0);
    if boolean_len(input, first) > 0 {
        lemma_blanks_end(input, first + boolean_len(input, first));
    } else if register_len(input, first) == 0 && address_len(input, first) == 0 {
        assert forall|end: int| first <= end <= input.len() implies !is_token(
            Rule::Boolean,
            #[trigger] input.subrange(first, end),
        ) && !is_token(Rule::Register8, input.subrange(first, end)) && !is_token(
            Rule::MemoryAddress,
            input.subrange(first, end),
        ) by {
            if is_boolean(input.subrange(first, end)) {
                lemma_boolean_start(input.subrange(first, end));
                lemma_boolean_is_found(input, first, end);
            }
            if is_register8(input.subrange(first, end)) {
                lemma_register_is_found(input, first, end);
            }
            if is_memory_address(input.subrange(first, end)) {
                lemma_address_is_found(input, first, end);
            }
        }
    } else {
        let operand_end = if register_len(input, first) > 0 {
            first + register_len(input, first)
        } else {
            first + address_len(input, first)
        };
        if register_len(input, first) > 0 {
            lemma_register_found(input, first);
        } else {
            lemma_address_found(input, first);
        }
        let second = blanks_end(input, operand_end);
        lemma_blanks_end(input, operand_end);
        if comparator_len(input, second) == 0 {
            assert forall|end: int| second <= end <= input.len() implies !is_token(
                Rule::Comparator,
                #[trigger] input.subrange(second, end),
            ) by {
                if is_comparator(input.subrange(second, end)) {
                    lemma_comparator_is_found(input, second, end);
                }
            }
        } else {
            lemma_comparator_found(input, second);
            let comparator_end = second + comparator_len(input, second);
            let third = blanks_end(input, comparator_end);
            lemma_blanks_end(input, comparator_end);
            if value_len(input, third) == 0 {
                assert forall|end: int| third <= end <= input.len() implies !is_token(
                    Rule::Value8,
                    #[trigger] input.subrange(third, end),
                ) by {
                    if is_value8(input.subrange(third, end)) {
                        lemma_value_is_found(input, third, end);
                    }
                }
            } else {
                lemma_value_found(input, third);
                lemma_blanks_end(input, third + value_len(input, third));
            }
        }
    }
}

} // verus!
