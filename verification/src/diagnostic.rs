//! Words and marks for showing a reader where a line of text went wrong.
//!
//! Nothing here knows of the parser's errors but the place and the symbols
//! they carry, so that a front end may lay the parts out as it likes.

use vstd::prelude::*;
use vstd::string::StringExecFns;
use crate::grammar::{Expected, InputLocation};

verus! {

/// The mark drawn under a place of the line: an arrow that points up.
pub const MARK: char = '\u{2191}';

/// `count` spaces.
pub open spec fn spaces(count: nat) -> Seq<char> {
    Seq::new(count, |i: int| ' ')
}

/// The line of marks for a place, to be shown under the text it is a place
/// of: a mark under the position, or one under each end of the span. A span
/// whose end does not lie after its start is marked at its start alone.
pub open spec fn marks(location: InputLocation) -> Seq<char> {
    match location {
        InputLocation::Pos(at) => spaces(at as nat).push(MARK),
        InputLocation::Span(start, end) => if start < end {
            spaces(start as nat).push(MARK) + spaces((end - start - 1) as nat).push(MARK)
        } else {
            spaces(start as nat).push(MARK)
        },
    }
}

/// Appends `count` spaces and a mark.
fn push_mark(line: &mut String, count: usize)
    ensures
        final(line)@ == old(line)@ + spaces(count as nat).push(MARK),
{
    let mut done: usize = 0;
    while done < count
        invariant
            done <= count,
            line@ == old(line)@ + spaces(done as nat),
        decreases count - done,
    {
        proof {
            reveal_strlit(" ");
        }
        line.append(" ");
        done += 1;
        assert(line@ =~= old(line)@ + spaces(done as nat));
    }
    proof {
        reveal_strlit("\u{2191}");
    }
    line.append("\u{2191}");
    assert(line@ =~= old(line)@ + spaces(count as nat).push(MARK));
}

/// Draws the line of marks for a place.
pub fn marker_line(location: &InputLocation) -> (line: String)
    ensures
        line@ == marks(*location),
{
    let mut line = String::new();
    match *location {
        InputLocation::Pos(at) => {
            push_mark(&mut line, at);
        },
        InputLocation::Span(start, end) => {
            push_mark(&mut line, start);
            if start < end {
                push_mark(&mut line, end - start - 1);
            }
        },
    }
    line
}

/// The character of a decimal digit.
pub open spec fn digit_char(digit: nat) -> char
    recommends
        digit < 10,
{
    if digit == 0 {
        '0'
    } else if digit == 1 {
        '1'
    } else if digit == 2 {
        '2'
    } else if digit == 3 {
        '3'
    } else if digit == 4 {
        '4'
    } else if digit == 5 {
        '5'
    } else if digit == 6 {
        '6'
    } else if digit == 7 {
        '7'
    } else if digit == 8 {
        '8'
    } else {
        '9'
    }
}

/// A number written in decimal digits, without leading zeros.
pub open spec fn decimal(number: nat) -> Seq<char>
    decreases number,
{
    if number < 10 {
        seq![digit_char(number)]
    } else {
        decimal(number / 10).push(digit_char(number % 10))
    }
}

/// The words that name a place.
pub open spec fn place_words(location: InputLocation) -> Seq<char> {
    match location {
        InputLocation::Pos(at) => "at position "@ + decimal(at as nat),
        InputLocation::Span(start, end) => "somewhere between position "@ + decimal(start as nat)
            + " and "@ + decimal(end as nat),
    }
}

/// The names of the symbols of a set, in brackets.
pub open spec fn symbol_names(expected: Expected) -> Seq<char> {
    match expected {
        Expected::BooleanExpression => "[boolean, register8, memory_address]"@,
        Expected::Comparator => "[comparator]"@,
        Expected::Value8 => "[value8]"@,
        Expected::EndOfInput => "[end of input]"@,
    }
}

/// The words that tell which symbols would have been accepted.
pub open spec fn hint_words(expected: Expected) -> Seq<char> {
    "hint: expected "@ + symbol_names(expected)
}

/// The text of one decimal digit.
fn digit_text(digit: usize) -> (text: &'static str)
    requires
        digit < 10,
    ensures
        text@ == seq![digit_char(digit as nat)],
{
    proof {
        reveal_strlit("0");
        reveal_strlit("1");
        reveal_strlit("2");
        reveal_strlit("3");
        reveal_strlit("4");
        reveal_strlit("5");
        reveal_strlit("6");
        reveal_strlit("7");
        reveal_strlit("8");
        reveal_strlit("9");
    }
    let text = if digit == 0 {
        "0"
    } else if digit == 1 {
        "1"
    } else if digit == 2 {
        "2"
    } else if digit == 3 {
        "3"
    } else if digit == 4 {
        "4"
    } else if digit == 5 {
        "5"
    } else if digit == 6 {
        "6"
    } else if digit == 7 {
        "7"
    } else if digit == 8 {
        "8"
    } else {
        "9"
    };
    assert(text@ =~= seq![digit_char(digit as nat)]);
    text
}

/// Appends a number in decimal digits.
fn push_decimal(line: &mut String, number: usize)
    ensures
        final(line)@ == old(line)@ + decimal(number as nat),
    decreases number,
{
    if number >= 10 {
        push_decimal(line, number / 10);
    }
    line.append(digit_text(number % 10));
    assert(line@ =~= old(line)@ + decimal(number as nat));
}

/// Names a place in words: `at position 4`, or `somewhere between position
/// 2 and 6`.
pub fn location_message(location: &InputLocation) -> (message: String)
    ensures
        message@ == place_words(*location),
{
    match *location {
        InputLocation::Pos(at) => {
            let mut message = String::from_str("at position ");
            push_decimal(&mut message, at);
            message
        },
        InputLocation::Span(start, end) => {
            let mut message = String::from_str("somewhere between position ");
            push_decimal(&mut message, start);
            message.append(" and ");
            push_decimal(&mut message, end);
            message
        },
    }
}

/// Tells in words which symbols would have been accepted: `hint: expected
/// [comparator]`.
pub fn expected_hint(expected: &Expected) -> (hint: String)
    ensures
        hint@ == hint_words(*expected),
{
    let mut hint = String::from_str("hint: expected ");
    match *expected {
        Expected::BooleanExpression => hint.append("[boolean, register8, memory_address]"),
        Expected::Comparator => hint.append("[comparator]"),
        Expected::Value8 => hint.append("[value8]"),
        Expected::EndOfInput => hint.append("[end of input]"),
    }
    hint
}

} // verus!
