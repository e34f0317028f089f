use lepr::{
    expected_hint, location_message, marker_line, parse_condition, Expected, InputLocation,
    ParseError,
};

#[test]
fn a_position_is_marked_under_its_column() {
    assert_eq!(marker_line(&InputLocation::Pos(0)), "\u{2191}");
    assert_eq!(marker_line(&InputLocation::Pos(4)), "    \u{2191}");
}

#[test]
fn a_span_is_marked_under_both_ends() {
    assert_eq!(marker_line(&InputLocation::Span(2, 6)), "  \u{2191}   \u{2191}");
    assert_eq!(marker_line(&InputLocation::Span(0, 1)), "\u{2191}\u{2191}");
    assert_eq!(marker_line(&InputLocation::Span(3, 3)), "   \u{2191}");
    assert_eq!(marker_line(&InputLocation::Span(3, 1)), "   \u{2191}");
}

#[test]
fn marks_stand_in_the_columns_of_the_place() {
    let line = marker_line(&InputLocation::Span(6, 8));
    let columns: Vec<usize> =
        line.chars().enumerate().filter(|(_, c)| *c == '\u{2191}').map(|(i, _)| i).collect();
    assert_eq!(columns, vec![6, 8]);
}

#[test]
fn a_position_is_named_in_words() {
    assert_eq!(location_message(&InputLocation::Pos(0)), "at position 0");
    assert_eq!(location_message(&InputLocation::Pos(7)), "at position 7");
    assert_eq!(location_message(&InputLocation::Pos(10)), "at position 10");
    assert_eq!(location_message(&InputLocation::Pos(1234567890)), "at position 1234567890");
    assert_eq!(
        location_message(&InputLocation::Pos(usize::MAX)),
        format!("at position {}", usize::MAX)
    );
}

#[test]
fn a_span_is_named_in_words() {
    assert_eq!(
        location_message(&InputLocation::Span(2, 6)),
        "somewhere between position 2 and 6"
    );
    assert_eq!(
        location_message(&InputLocation::Span(99, 100)),
        "somewhere between position 99 and 100"
    );
}

#[test]
fn hints_name_the_expected_symbols() {
    assert_eq!(
        expected_hint(&Expected::BooleanExpression),
        "hint: expected [boolean, register8, memory_address]"
    );
    assert_eq!(expected_hint(&Expected::Comparator), "hint: expected [comparator]");
    assert_eq!(expected_hint(&Expected::Value8), "hint: expected [value8]");
    assert_eq!(expected_hint(&Expected::EndOfInput), "hint: expected [end of input]");
}

#[test]
fn a_syntax_error_is_shown_under_the_line() {
    let text = "A ~ 0x12";
    match parse_condition(text) {
        Err(ParseError::SyntaxError(error)) => {
            assert_eq!(marker_line(&error.location), "  \u{2191}");
            assert_eq!(location_message(&error.location), "at position 2");
            assert_eq!(expected_hint(&error.expected), "hint: expected [comparator]");
        },
        other => panic!("expected a syntax error, got {:?}", other),
    }
}

#[test]
fn every_error_but_the_internal_one_has_a_place() {
    assert_eq!(
        parse_condition("A = 0xZZ").unwrap_err().location(),
        Some(InputLocation::Span(6, 8))
    );
    assert_eq!(parse_condition("A =").unwrap_err().location(), Some(InputLocation::Pos(3)));
    assert_eq!(
        ParseError::UnknownRegister { location: InputLocation::Span(0, 1) }.location(),
        Some(InputLocation::Span(0, 1))
    );
    assert_eq!(ParseError::InternalError.location(), None);
}

#[test]
fn a_hex_error_is_marked_under_its_digits() {
    let error = parse_condition("A = 0xZZ").unwrap_err();
    let place = error.location().unwrap();
    assert_eq!(marker_line(&place), "      \u{2191} \u{2191}");
    assert_eq!(location_message(&place), "somewhere between position 6 and 8");
}
