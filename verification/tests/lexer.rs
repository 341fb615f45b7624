use lotus::errors::{LexError, NumberParseErrorType};
use lotus::lexer::{ILToken, Lexer};

#[test]
fn lexer_empty_program() {
    let lexer = Lexer::new("");
    let empty: Vec<ILToken> = vec![];

    assert_eq!(empty, lexer.parse().unwrap());
}

#[test]
fn parse_u64() {
    let lexer = Lexer::new("123");
    let program = vec![ILToken::PushUnsignedInteger(123)];

    assert_eq!(program, lexer.parse().unwrap());
}

#[test]
fn parse_i64() {
    let lexer = Lexer::new("-123");
    let program = vec![ILToken::PushSignedInteger(-123)];

    assert_eq!(program, lexer.parse().unwrap());
}

#[test]
fn parse_f64() {
    let lexer = Lexer::new("-420.69");
    let program = vec![ILToken::PushFloat((-420.69f64).to_bits())];

    assert_eq!(program, lexer.parse().unwrap());
}

#[test]
fn parse_string() {
    let lexer = Lexer::new("\"Lotus\"");
    let program = vec![ILToken::PushString("Lotus".to_string())];

    assert_eq!(program, lexer.parse().unwrap());
}

#[test]
fn parse_symbol() {
    let lexer = Lexer::new("Lotus");
    let program = vec![ILToken::Symbol("Lotus".to_string())];

    assert_eq!(program, lexer.parse().unwrap());
}

#[test]
fn invalid_number() {
    let lexer = Lexer::new("6942O"); // Look at it closely
    match lexer.parse() {
        Err(LexError::Number(e)) => {
            assert_eq!(e.error_type, NumberParseErrorType::NonNumericChar);
            assert_eq!(e.literal, "6942O".to_string());
            assert_eq!(e.pos, 4);
        }
        other => panic!("expected a malformed-number error, got {:?}", other),
    }
}

#[test]
fn unterminated_string() {
    let lexer = Lexer::new("\"Lotus");
    match lexer.parse() {
        Err(LexError::UnterminatedString(_)) => {}
        other => panic!("expected an unterminated-string error, got {:?}", other),
    }
}

#[test]
fn non_numeric_char_offset() {
    // A character that belongs to no number is reported with its offset.
    let lexer = Lexer::new("12a3");
    match lexer.parse() {
        Err(LexError::Number(e)) => {
            assert_eq!(e.error_type, NumberParseErrorType::NonNumericChar);
            assert_eq!(e.pos, 2);
        }
        other => panic!("expected a malformed-number error, got {:?}", other),
    }
}

#[test]
fn second_decimal_point_offset() {
    // The second decimal point is the offending character.
    let lexer = Lexer::new("1.2.3");
    match lexer.parse() {
        Err(LexError::Number(e)) => {
            assert_eq!(e.error_type, NumberParseErrorType::WrongFloat);
            assert_eq!(e.pos, 3);
        }
        other => panic!("expected a malformed-float error, got {:?}", other),
    }
}

#[test]
fn negative_sign_is_a_symbol() {
    // A `-` not followed directly by a digit is the subtraction word.
    let lexer = Lexer::new("- -x -5");
    let program = vec![
        ILToken::Symbol("-".to_string()),
        ILToken::Symbol("-x".to_string()),
        ILToken::PushSignedInteger(-5),
    ];

    assert_eq!(program, lexer.parse().unwrap());
}

#[test]
fn reserved_symbols() {
    let lexer = Lexer::new("true false # note # fdef f fend end");
    match lexer.parse() {
        Err(LexError::Structure(_)) => {}
        other => panic!("expected a nesting violation for the bare end, got {:?}", other),
    }

    let lexer = Lexer::new("true false # note # fdef f fend");
    let program = vec![
        ILToken::PushBool(true),
        ILToken::PushBool(false),
        ILToken::CommentMarker,
        ILToken::Symbol("note".to_string()),
        ILToken::CommentMarker,
        ILToken::FuncDef("f".to_string()),
        ILToken::FuncEnd,
    ];
    assert_eq!(program, lexer.parse().unwrap());
}

#[test]
fn if_targets_are_resolved() {
    let lexer = Lexer::new("1 if 2 if 3 end end");
    let program = vec![
        ILToken::PushUnsignedInteger(1),
        ILToken::If(6),
        ILToken::PushUnsignedInteger(2),
        ILToken::If(5),
        ILToken::PushUnsignedInteger(3),
        ILToken::End,
        ILToken::End,
    ];
    assert_eq!(program, lexer.parse().unwrap());
}

#[test]
fn unclosed_if_is_refused() {
    let lexer = Lexer::new("1 if 2");
    match lexer.parse() {
        Err(LexError::Structure(_)) => {}
        other => panic!("expected a nesting violation, got {:?}", other),
    }
}

#[test]
fn integer_out_of_range() {
    let lexer = Lexer::new("99999999999999999999999");
    match lexer.parse() {
        Err(LexError::IntegerOutOfRange { literal }) => {
            assert_eq!(literal, "99999999999999999999999".to_string());
        }
        other => panic!("expected an out-of-range error, got {:?}", other),
    }
}

#[test]
fn missing_function_name() {
    let lexer = Lexer::new("fdef");
    match lexer.parse() {
        Err(LexError::MissingFunctionName) => {}
        other => panic!("expected a missing-name error, got {:?}", other),
    }
}

#[test]
fn quotes_of_both_kinds() {
    let lexer = Lexer::new("'single' \"double\"");
    let program = vec![
        ILToken::PushString("single".to_string()),
        ILToken::PushString("double".to_string()),
    ];
    assert_eq!(program, lexer.parse().unwrap());
}
