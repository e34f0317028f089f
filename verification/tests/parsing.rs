use lepr::{
    parse_boolex, parse_condition, BEParser, BooleanExpression, Expected, InputLocation, Pair,
    ParseError, ParseTree, Rule, Source8, SyntaxError,
};

fn syntax_error(at: usize, expected: Expected) -> ParseError {
    ParseError::SyntaxError(SyntaxError { location: InputLocation::Pos(at), expected })
}

#[test]
fn every_register_token_names_its_source() {
    let cases = [
        ("A", Source8::Accumulator),
        ("X", Source8::RegisterX),
        ("Y", Source8::RegisterY),
        ("S", Source8::RegisterS),
        ("SP", Source8::RegisterSP),
    ];
    for (name, source) in cases {
        let text = format!("{} = 0x00", name);
        assert_eq!(parse_condition(&text), Ok(BooleanExpression::Equal(source, 0x00)));
    }
}

#[test]
fn every_byte_round_trips_through_its_lowercase_digits() {
    for byte in 0..=255u8 {
        let text = format!("A = 0x{}", hex::encode([byte]));
        assert_eq!(
            parse_condition(&text),
            Ok(BooleanExpression::Equal(Source8::Accumulator, byte))
        );
    }
}

#[test]
fn every_byte_round_trips_through_its_uppercase_digits() {
    for byte in 0..=255u8 {
        let text = format!("A = 0x{}", hex::encode_upper([byte]));
        assert_eq!(
            parse_condition(&text),
            Ok(BooleanExpression::Equal(Source8::Accumulator, byte))
        );
    }
}

#[test]
fn digits_of_mixed_case_are_decoded() {
    assert_eq!(
        parse_condition("X != 0xfA"),
        Ok(BooleanExpression::Different(Source8::RegisterX, 0xfa))
    );
    assert_eq!(
        parse_condition("X != 0xAf"),
        Ok(BooleanExpression::Different(Source8::RegisterX, 0xaf))
    );
}

#[test]
fn literal_digits_are_decoded_not_copied() {
    // The digits `4` and `1` are the bytes 0x34 and 0x31; the literal is 0x41.
    assert_eq!(
        parse_condition("A = 0x41"),
        Ok(BooleanExpression::Equal(Source8::Accumulator, 0x41))
    );
    assert_eq!(
        parse_condition("#0x3412 = 0x00"),
        Ok(BooleanExpression::Equal(Source8::Memory(0x3412), 0x00))
    );
}

#[test]
fn boolean_literals_parse_to_constants() {
    assert_eq!(parse_condition("true"), Ok(BooleanExpression::Value(true)));
    assert_eq!(parse_condition("false"), Ok(BooleanExpression::Value(false)));
}

#[test]
fn boolean_literals_are_lower_case_only() {
    assert_eq!(parse_condition("True"), Err(syntax_error(0, Expected::BooleanExpression)));
    assert_eq!(parse_condition("FALSE"), Err(syntax_error(0, Expected::BooleanExpression)));
    assert_eq!(parse_condition("tru"), Err(syntax_error(0, Expected::BooleanExpression)));
}

#[test]
fn non_hexadecimal_digits_are_a_hex_error() {
    assert_eq!(
        parse_condition("A = 0xZZ"),
        Err(ParseError::MalformedHex { location: InputLocation::Span(6, 8) })
    );
    assert_eq!(
        parse_condition("A = 0x1g"),
        Err(ParseError::MalformedHex { location: InputLocation::Span(6, 8) })
    );
    assert_eq!(
        parse_condition("#0x12G4 = 0x00"),
        Err(ParseError::MalformedHex { location: InputLocation::Span(3, 7) })
    );
}

#[test]
fn an_odd_number_of_address_digits_is_a_hex_error() {
    assert_eq!(
        parse_condition("#0x123 = 0x00"),
        Err(ParseError::MalformedHex { location: InputLocation::Span(3, 6) })
    );
    assert_eq!(
        parse_condition("#0x1 = 0x00"),
        Err(ParseError::MalformedHex { location: InputLocation::Span(3, 4) })
    );
}

#[test]
fn every_comparator_gives_its_variant() {
    let source = Source8::RegisterY;
    assert_eq!(parse_condition("Y = 0x7f"), Ok(BooleanExpression::Equal(source, 0x7f)));
    assert_eq!(parse_condition("Y >= 0x7f"), Ok(BooleanExpression::GreaterOrEqual(source, 0x7f)));
    assert_eq!(parse_condition("Y > 0x7f"), Ok(BooleanExpression::StrictlyGreater(source, 0x7f)));
    assert_eq!(parse_condition("Y <= 0x7f"), Ok(BooleanExpression::LesserOrEqual(source, 0x7f)));
    assert_eq!(parse_condition("Y < 0x7f"), Ok(BooleanExpression::StrictlyLesser(source, 0x7f)));
    assert_eq!(parse_condition("Y != 0x7f"), Ok(BooleanExpression::Different(source, 0x7f)));
}

#[test]
fn addresses_fold_their_bytes_big_endian() {
    assert_eq!(
        parse_condition("#0x1234 >= 0x10"),
        Ok(BooleanExpression::GreaterOrEqual(Source8::Memory(0x1234), 0x10))
    );
    assert_eq!(
        parse_condition("#0x00 = 0x00"),
        Ok(BooleanExpression::Equal(Source8::Memory(0), 0))
    );
    assert_eq!(
        parse_condition("#0xff = 0x00"),
        Ok(BooleanExpression::Equal(Source8::Memory(0xff), 0))
    );
    assert_eq!(
        parse_condition("#0x010203 = 0x00"),
        Ok(BooleanExpression::Equal(Source8::Memory(0x010203), 0))
    );
    assert_eq!(
        parse_condition("#0xFFFFFFFF = 0x00"),
        Ok(BooleanExpression::Equal(Source8::Memory(0xffff_ffff), 0))
    );
}

#[test]
fn an_address_has_at_most_eight_digits() {
    assert_eq!(
        parse_condition("#0x123456789 = 0x00"),
        Err(syntax_error(11, Expected::Comparator))
    );
    assert_eq!(parse_condition("#0x = 0x00"), Err(syntax_error(0, Expected::BooleanExpression)));
}

#[test]
fn a_byte_literal_has_two_digits() {
    assert_eq!(parse_condition("A = 0x1"), Err(syntax_error(4, Expected::Value8)));
    assert_eq!(parse_condition("A = 0x"), Err(syntax_error(4, Expected::Value8)));
    assert_eq!(parse_condition("A = 12"), Err(syntax_error(4, Expected::Value8)));
    assert_eq!(parse_condition("A = 0x123"), Err(syntax_error(8, Expected::EndOfInput)));
}

#[test]
fn blanks_between_tokens_are_ignored() {
    let expected = Ok(BooleanExpression::LesserOrEqual(Source8::RegisterSP, 0x0a));
    assert_eq!(parse_condition("SP<=0x0a"), expected);
    assert_eq!(parse_condition("SP <= 0x0a"), expected);
    assert_eq!(parse_condition("  SP\t<=   0x0a \t"), expected);
    assert_eq!(parse_condition("  true  "), Ok(BooleanExpression::Value(true)));
}

#[test]
fn blanks_inside_a_token_break_it() {
    assert_eq!(parse_condition("S P = 0x00"), Err(syntax_error(2, Expected::Comparator)));
    assert_eq!(parse_condition("A > = 0x00"), Err(syntax_error(4, Expected::Value8)));
    assert_eq!(parse_condition("A = 0x 00"), Err(syntax_error(4, Expected::Value8)));
    assert_eq!(parse_condition("#0x 1234 = 0x00"), Err(syntax_error(0, Expected::BooleanExpression)));
    assert_eq!(parse_condition("tr ue"), Err(syntax_error(0, Expected::BooleanExpression)));
}

#[test]
fn trailing_input_is_a_syntax_error() {
    assert_eq!(parse_condition("A = 0x12 X"), Err(syntax_error(9, Expected::EndOfInput)));
    assert_eq!(parse_condition("true false"), Err(syntax_error(5, Expected::EndOfInput)));
    assert_eq!(parse_condition("truely"), Err(syntax_error(4, Expected::EndOfInput)));
    assert_eq!(parse_condition("A = 0x12\n"), Err(syntax_error(8, Expected::EndOfInput)));
}

#[test]
fn unknown_operands_are_a_syntax_error() {
    assert_eq!(parse_condition("B = 0x00"), Err(syntax_error(0, Expected::BooleanExpression)));
    assert_eq!(parse_condition("a = 0x00"), Err(syntax_error(0, Expected::BooleanExpression)));
    assert_eq!(parse_condition("sp = 0x00"), Err(syntax_error(0, Expected::BooleanExpression)));
    assert_eq!(parse_condition("0x1234 = 0x00"), Err(syntax_error(0, Expected::BooleanExpression)));
    assert_eq!(parse_condition(""), Err(syntax_error(0, Expected::BooleanExpression)));
    assert_eq!(parse_condition("   "), Err(syntax_error(3, Expected::BooleanExpression)));
    assert_eq!(parse_condition("\u{e9} = 0x00"), Err(syntax_error(0, Expected::BooleanExpression)));
}

#[test]
fn a_missing_comparator_is_a_syntax_error() {
    assert_eq!(parse_condition("A"), Err(syntax_error(1, Expected::Comparator)));
    assert_eq!(parse_condition("A 0x12"), Err(syntax_error(2, Expected::Comparator)));
    assert_eq!(parse_condition("A == 0x12"), Err(syntax_error(3, Expected::Value8)));
    assert_eq!(parse_condition("A ! 0x12"), Err(syntax_error(2, Expected::Comparator)));
    assert_eq!(parse_condition("AX = 0x12"), Err(syntax_error(1, Expected::Comparator)));
    assert_eq!(parse_condition("A = X"), Err(syntax_error(4, Expected::Value8)));
}

#[test]
fn parsing_twice_gives_equal_outcomes() {
    for text in ["A = 0x12", "#0x1234 >= 0x50", "true", "A = 0xZZ", "nonsense", "#0x123 < 0x00"] {
        assert_eq!(parse_condition(text), parse_condition(text));
        let copy = text.to_string();
        assert_eq!(parse_condition(text), parse_condition(&copy));
    }
}

#[test]
fn the_parser_gives_the_tokens_of_an_operation() {
    assert_eq!(
        BEParser::parse(" #0x1234 >= 0x10"),
        Ok(ParseTree::Operation {
            operand: Pair { rule: Rule::MemoryAddress, start: 1, end: 8 },
            comparator: Pair { rule: Rule::Comparator, start: 9, end: 11 },
            value: Pair { rule: Rule::Value8, start: 12, end: 16 },
        })
    );
    assert_eq!(
        BEParser::parse("SP=0xZZ"),
        Ok(ParseTree::Operation {
            operand: Pair { rule: Rule::Register8, start: 0, end: 2 },
            comparator: Pair { rule: Rule::Comparator, start: 2, end: 3 },
            value: Pair { rule: Rule::Value8, start: 3, end: 7 },
        })
    );
}

#[test]
fn the_parser_gives_the_leaf_of_a_boolean() {
    assert_eq!(
        BEParser::parse("  false "),
        Ok(ParseTree::Boolean(Pair { rule: Rule::Boolean, start: 2, end: 7 }))
    );
    assert_eq!(
        BEParser::parse("true"),
        Ok(ParseTree::Boolean(Pair { rule: Rule::Boolean, start: 0, end: 4 }))
    );
}

#[test]
fn the_parser_reports_where_it_stopped() {
    assert_eq!(
        BEParser::parse("A ~ 0x12"),
        Err(SyntaxError { location: InputLocation::Pos(2), expected: Expected::Comparator })
    );
}

#[test]
fn expected_sets_hold_their_symbols() {
    assert!(Expected::BooleanExpression.accepts(Rule::Boolean));
    assert!(Expected::BooleanExpression.accepts(Rule::Register8));
    assert!(Expected::BooleanExpression.accepts(Rule::MemoryAddress));
    assert!(!Expected::BooleanExpression.accepts(Rule::Comparator));
    assert!(Expected::Comparator.accepts(Rule::Comparator));
    assert!(!Expected::Comparator.accepts(Rule::Value8));
    assert!(Expected::Value8.accepts(Rule::Value8));
    assert!(Expected::EndOfInput.accepts(Rule::EndOfInput));
    assert!(!Expected::EndOfInput.accepts(Rule::Boolean));
}

#[test]
fn building_follows_the_tree() {
    let text = "A = 0x12";
    let tree = BEParser::parse(text).unwrap();
    assert_eq!(
        parse_boolex(text, &tree),
        Ok(BooleanExpression::Equal(Source8::Accumulator, 0x12))
    );
    let leaf = ParseTree::Boolean(Pair { rule: Rule::Boolean, start: 0, end: 4 });
    assert_eq!(parse_boolex("true", &leaf), Ok(BooleanExpression::Value(true)));
    assert_eq!(parse_boolex("tree", &leaf), Ok(BooleanExpression::Value(false)));
}

#[test]
fn a_register_token_with_another_name_is_unknown() {
    let tree = ParseTree::Operation {
        operand: Pair { rule: Rule::Register8, start: 0, end: 1 },
        comparator: Pair { rule: Rule::Comparator, start: 2, end: 3 },
        value: Pair { rule: Rule::Value8, start: 4, end: 8 },
    };
    assert_eq!(
        parse_boolex("B = 0x12", &tree),
        Err(ParseError::UnknownRegister { location: InputLocation::Span(0, 1) })
    );
    let long = ParseTree::Operation {
        operand: Pair { rule: Rule::Register8, start: 0, end: 2 },
        comparator: Pair { rule: Rule::Comparator, start: 2, end: 3 },
        value: Pair { rule: Rule::Value8, start: 3, end: 7 },
    };
    assert_eq!(
        parse_boolex("PS=0x12", &long),
        Err(ParseError::UnknownRegister { location: InputLocation::Span(0, 2) })
    );
}

#[test]
fn a_tree_of_the_wrong_shape_is_an_internal_error() {
    let text = "A = 0x12";
    let operand = Pair { rule: Rule::Register8, start: 0, end: 1 };
    let comparator = Pair { rule: Rule::Comparator, start: 2, end: 3 };
    let value = Pair { rule: Rule::Value8, start: 4, end: 8 };
    // An operand that is neither register nor address.
    let tree = ParseTree::Operation {
        operand: Pair { rule: Rule::Value8, start: 0, end: 1 },
        comparator,
        value,
    };
    assert_eq!(parse_boolex(text, &tree), Err(ParseError::InternalError));
    // A token beyond the end of the text.
    let tree = ParseTree::Operation {
        operand,
        comparator,
        value: Pair { rule: Rule::Value8, start: 4, end: 9 },
    };
    assert_eq!(parse_boolex(text, &tree), Err(ParseError::InternalError));
    // A token that ends before it starts.
    let tree = ParseTree::Operation {
        operand: Pair { rule: Rule::Register8, start: 1, end: 0 },
        comparator,
        value,
    };
    assert_eq!(parse_boolex(text, &tree), Err(ParseError::InternalError));
    // A comparator that is none.
    let tree = ParseTree::Operation {
        operand,
        comparator: Pair { rule: Rule::Comparator, start: 1, end: 3 },
        value,
    };
    assert_eq!(parse_boolex(text, &tree), Err(ParseError::InternalError));
    // A literal too short to hold its prefix.
    let tree = ParseTree::Operation {
        operand,
        comparator,
        value: Pair { rule: Rule::Value8, start: 4, end: 5 },
    };
    assert_eq!(parse_boolex(text, &tree), Err(ParseError::InternalError));
    // An address too short to hold its prefix, and one with too many digits.
    let tree = ParseTree::Operation {
        operand: Pair { rule: Rule::MemoryAddress, start: 0, end: 2 },
        comparator: Pair { rule: Rule::Comparator, start: 4, end: 5 },
        value: Pair { rule: Rule::Value8, start: 6, end: 10 },
    };
    assert_eq!(parse_boolex("#0x = 0x12", &tree), Err(ParseError::InternalError));
    let tree = ParseTree::Operation {
        operand: Pair { rule: Rule::MemoryAddress, start: 0, end: 13 },
        comparator: Pair { rule: Rule::Comparator, start: 14, end: 15 },
        value: Pair { rule: Rule::Value8, start: 16, end: 20 },
    };
    assert_eq!(parse_boolex("#0x0102030405 = 0x12", &tree), Err(ParseError::InternalError));
    // A leaf that is no boolean.
    let tree = ParseTree::Boolean(Pair { rule: Rule::Comparator, start: 0, end: 1 });
    assert_eq!(parse_boolex(text, &tree), Err(ParseError::InternalError));
}

#[test]
fn the_operand_fails_before_the_literal() {
    let tree = ParseTree::Operation {
        operand: Pair { rule: Rule::Register8, start: 0, end: 1 },
        comparator: Pair { rule: Rule::Comparator, start: 2, end: 3 },
        value: Pair { rule: Rule::Value8, start: 4, end: 8 },
    };
    assert_eq!(
        parse_boolex("B = 0xZZ", &tree),
        Err(ParseError::UnknownRegister { location: InputLocation::Span(0, 1) })
    );
    assert_eq!(
        parse_boolex("A ~ 0xZZ", &tree),
        Err(ParseError::MalformedHex { location: InputLocation::Span(6, 8) })
    );
}

#[test]
fn every_pair_of_ascii_digits_is_sorted_rightly() {
    for high in 0..128u8 {
        for low in 0..128u8 {
            let digits = [high, low];
            let text = format!("A = 0x{}", std::str::from_utf8(&digits).unwrap());
            let outcome = parse_condition(&text);
            let both_letters_or_digits =
                high.is_ascii_alphanumeric() && low.is_ascii_alphanumeric();
            let both_hexadecimal = high.is_ascii_hexdigit() && low.is_ascii_hexdigit();
            if both_hexadecimal {
                let value = (high as char).to_digit(16).unwrap() * 16
                    + (low as char).to_digit(16).unwrap();
                assert_eq!(
                    outcome,
                    Ok(BooleanExpression::Equal(Source8::Accumulator, value as u8)),
                    "{:?}",
                    text
                );
            } else if both_letters_or_digits {
                assert_eq!(
                    outcome,
                    Err(ParseError::MalformedHex { location: InputLocation::Span(6, 8) }),
                    "{:?}",
                    text
                );
            } else {
                assert!(matches!(outcome, Err(ParseError::SyntaxError(_))), "{:?}", text);
            }
        }
    }
}

#[test]
fn addresses_are_the_numbers_their_digits_spell() {
    let digits = [
        "00", "01", "7f", "80", "ff", "0100", "1234", "ABCD", "abcd", "ffff", "010000", "c0ffee",
        "00000000", "00000001", "12345678", "89abcdef", "FFFFFFFF", "0000ff", "00ff00",
    ];
    for payload in digits {
        let text = format!("#0x{} < 0x10", payload);
        let address = usize::from_str_radix(payload, 16).unwrap();
        assert_eq!(
            parse_condition(&text),
            Ok(BooleanExpression::StrictlyLesser(Source8::Memory(address), 0x10)),
            "{:?}",
            text
        );
    }
}

#[test]
fn parsing_is_building_what_the_parser_gave() {
    let texts = [
        "A = 0x12",
        "  SP >= 0xff ",
        "#0x1234 != 0x00",
        "#0x123 = 0x00",
        "X < 0xZZ",
        "true",
        " false",
        "",
        "nonsense",
        "A = 0x12 and more",
        "Y <=",
    ];
    for text in texts {
        let by_steps = match BEParser::parse(text) {
            Ok(tree) => parse_boolex(text, &tree),
            Err(error) => Err(ParseError::SyntaxError(error)),
        };
        assert_eq!(parse_condition(text), by_steps, "{:?}", text);
    }
}

#[test]
fn a_literal_of_another_width_is_a_hex_error() {
    let operand = Pair { rule: Rule::Register8, start: 0, end: 1 };
    let comparator = Pair { rule: Rule::Comparator, start: 2, end: 3 };
    let wide = ParseTree::Operation {
        operand,
        comparator,
        value: Pair { rule: Rule::Value8, start: 4, end: 10 },
    };
    assert_eq!(
        parse_boolex("A = 0x1234", &wide),
        Err(ParseError::MalformedHex { location: InputLocation::Span(6, 10) })
    );
    let odd = ParseTree::Operation {
        operand,
        comparator,
        value: Pair { rule: Rule::Value8, start: 4, end: 9 },
    };
    assert_eq!(
        parse_boolex("A = 0x123", &odd),
        Err(ParseError::MalformedHex { location: InputLocation::Span(6, 9) })
    );
    let bare = ParseTree::Operation {
        operand,
        comparator,
        value: Pair { rule: Rule::Value8, start: 4, end: 6 },
    };
    assert_eq!(
        parse_boolex("A = 0x", &bare),
        Err(ParseError::MalformedHex { location: InputLocation::Span(6, 6) })
    );
}

#[test]
fn an_address_without_digits_folds_to_zero() {
    let tree = ParseTree::Operation {
        operand: Pair { rule: Rule::MemoryAddress, start: 0, end: 3 },
        comparator: Pair { rule: Rule::Comparator, start: 4, end: 5 },
        value: Pair { rule: Rule::Value8, start: 6, end: 10 },
    };
    assert_eq!(
        parse_boolex("#0x = 0x12", &tree),
        Ok(BooleanExpression::Equal(Source8::Memory(0), 0x12))
    );
}
