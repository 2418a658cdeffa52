use minilisp::error::ParseError;
use minilisp::object::Object;
use minilisp::parser::{parse, scan, Token};

fn sym(name: &str) -> Object {
    Object::Symbol(name.to_string())
}

#[test]
fn parses_simple_s_expression() {
    let input = "(+ 1 2)";
    let result = parse(input).unwrap();
    assert_eq!(
        result,
        Object::List(vec![
            Object::Symbol("+".to_string()),
            Object::Integer(1),
            Object::Integer(2),
        ])
    );
}

#[test]
fn parses_nested_s_expressions() {
    let input = "(+ 1 (* 2 3))";
    let result = parse(input).unwrap();
    assert_eq!(
        result,
        Object::List(vec![
            Object::Symbol("+".to_string()),
            Object::Integer(1),
            Object::List(vec![
                Object::Symbol("*".to_string()),
                Object::Integer(2),
                Object::Integer(3),
            ]),
        ])
    );
}

#[test]
fn parses_triply_nested_s_expressions() {
    let input = "(+ 1 (* 2 (+ 3 4)))";
    let result = parse(input).unwrap();
    assert_eq!(
        result,
        Object::List(vec![
            Object::Symbol("+".to_string()),
            Object::Integer(1),
            Object::List(vec![
                Object::Symbol("*".to_string()),
                Object::Integer(2),
                Object::List(vec![
                    Object::Symbol("+".to_string()),
                    Object::Integer(3),
                    Object::Integer(4),
                ]),
            ]),
        ])
    );
}

#[test]
fn scans_parentheses_and_words() {
    assert_eq!(
        scan("(ab(12)c)"),
        vec![
            Token::LParen,
            Token::Symbol("ab".to_string()),
            Token::LParen,
            Token::Integer(12),
            Token::RParen,
            Token::Symbol("c".to_string()),
            Token::RParen,
        ]
    );
    assert_eq!(scan(""), vec![]);
    assert_eq!(scan(" \t\n "), vec![]);
}

#[test]
fn scans_integers_and_symbols() {
    assert_eq!(scan("0"), vec![Token::Integer(0)]);
    assert_eq!(scan("-17"), vec![Token::Integer(-17)]);
    assert_eq!(scan("+17"), vec![Token::Integer(17)]);
    assert_eq!(scan("007"), vec![Token::Integer(7)]);
    assert_eq!(scan("-0"), vec![Token::Integer(0)]);
    assert_eq!(scan("9223372036854775807"), vec![Token::Integer(i64::MAX)]);
    assert_eq!(scan("-9223372036854775808"), vec![Token::Integer(i64::MIN)]);
    assert_eq!(
        scan("9223372036854775808"),
        vec![Token::Symbol("9223372036854775808".to_string())]
    );
    assert_eq!(
        scan("-9223372036854775809"),
        vec![Token::Symbol("-9223372036854775809".to_string())]
    );
    assert_eq!(
        scan("99999999999999999999999"),
        vec![Token::Symbol("99999999999999999999999".to_string())]
    );
    assert_eq!(scan("-"), vec![Token::Symbol("-".to_string())]);
    assert_eq!(scan("+"), vec![Token::Symbol("+".to_string())]);
    assert_eq!(scan("--1"), vec![Token::Symbol("--1".to_string())]);
    assert_eq!(scan("1a"), vec![Token::Symbol("1a".to_string())]);
    assert_eq!(scan("1-"), vec![Token::Symbol("1-".to_string())]);
    assert_eq!(scan("#true"), vec![Token::Symbol("#true".to_string())]);
}

#[test]
fn scans_across_any_white_space() {
    let expected = vec![Token::Symbol("a".to_string()), Token::Symbol("b".to_string())];
    assert_eq!(scan("a b"), expected);
    assert_eq!(scan("a\tb"), expected);
    assert_eq!(scan("a\r\nb"), expected);
    assert_eq!(scan("a\u{b}b"), expected);
    assert_eq!(scan("a\u{c}b"), expected);
    assert_eq!(scan("a\u{85}b"), expected);
    assert_eq!(scan("a\u{a0}b"), expected);
    assert_eq!(scan("a\u{1680}b"), expected);
    assert_eq!(scan("a\u{2000}b"), expected);
    assert_eq!(scan("a\u{200a}b"), expected);
    assert_eq!(scan("a\u{2028}b"), expected);
    assert_eq!(scan("a\u{2029}b"), expected);
    assert_eq!(scan("a\u{202f}b"), expected);
    assert_eq!(scan("a\u{205f}b"), expected);
    assert_eq!(scan("a\u{3000}b"), expected);
    assert_eq!(scan("a\u{200b}b"), vec![Token::Symbol("a\u{200b}b".to_string())]);
    assert_eq!(scan("a\u{1f}b"), vec![Token::Symbol("a\u{1f}b".to_string())]);
}

#[test]
fn scan_agrees_with_the_standard_library_on_white_space() {
    let mut code: u32 = 0;
    while code < 0x11000 {
        if let Some(c) = char::from_u32(code) {
            let text = format!("a{}b", c);
            let pieces = scan(&text).len();
            if c == '(' || c == ')' {
                assert_eq!(pieces, 3);
            } else if c.is_whitespace() {
                assert_eq!(pieces, 2);
            } else {
                assert_eq!(pieces, 1);
            }
        }
        code += 1;
    }
}

#[test]
fn scan_agrees_with_the_standard_library_on_integers() {
    let words = [
        "0", "-0", "+0", "12", "-12", "+12", "0012", "1_000", "12.5", "0x10", "１２", "٣", "", "-",
        "+", "+-1", "9223372036854775807", "9223372036854775808", "-9223372036854775808",
        "-9223372036854775809", "18446744073709551616", "000000000000000000000000001",
    ];
    for word in words {
        let expected = match word.parse::<i64>() {
            Ok(i) => vec![Token::Integer(i)],
            Err(_) if word.is_empty() => vec![],
            Err(_) => vec![Token::Symbol(word.to_string())],
        };
        assert_eq!(scan(word), expected);
    }
}

#[test]
fn a_program_begins_with_a_parenthesis() {
    assert_eq!(parse(""), Err(ParseError::ExpectedOpenParen));
    assert_eq!(parse("   "), Err(ParseError::ExpectedOpenParen));
    assert_eq!(parse("1"), Err(ParseError::ExpectedOpenParen));
    assert_eq!(parse("a (b)"), Err(ParseError::ExpectedOpenParen));
    assert_eq!(parse(") ("), Err(ParseError::ExpectedOpenParen));
    assert_eq!(ParseError::ExpectedOpenParen.message(), "Expected (");
}

#[test]
fn parses_the_empty_list() {
    assert_eq!(parse("()"), Ok(Object::List(vec![])));
    assert_eq!(parse("  ( )  "), Ok(Object::List(vec![])));
    assert_eq!(
        parse("(())"),
        Ok(Object::List(vec![Object::List(vec![])]))
    );
}

#[test]
fn an_unclosed_list_ends_with_the_text() {
    assert_eq!(
        parse("(1 (2"),
        Ok(Object::List(vec![
            Object::Integer(1),
            Object::List(vec![Object::Integer(2)])
        ]))
    );
    assert_eq!(parse("("), Ok(Object::List(vec![])));
}

#[test]
fn text_after_the_program_is_not_read() {
    assert_eq!(parse("(1) 2"), Ok(Object::List(vec![Object::Integer(1)])));
    assert_eq!(parse("(a))) (b"), Ok(Object::List(vec![sym("a")])));
}

#[test]
fn parses_lists_side_by_side() {
    assert_eq!(
        parse("((a) (b c) 3)"),
        Ok(Object::List(vec![
            Object::List(vec![sym("a")]),
            Object::List(vec![sym("b"), sym("c")]),
            Object::Integer(3),
        ]))
    );
}

#[test]
fn rendering_and_parsing_again_gives_the_same_list() {
    let list = Object::List(vec![
        sym("+"),
        Object::Integer(-5),
        Object::Integer(i64::MIN),
        Object::Integer(i64::MAX),
        Object::Integer(0),
        Object::List(vec![sym("a-1"), Object::List(vec![]), Object::Integer(10)]),
        sym("#true"),
    ]);
    assert_eq!(
        list.to_string(),
        "(+ -5 -9223372036854775808 9223372036854775807 0 (a-1 () 10) #true)"
    );
    assert_eq!(parse(&list.to_string()), Ok(list));
}

#[test]
fn rendering_does_not_round_trip_symbols_that_are_no_words() {
    let spaced = Object::List(vec![sym("a b")]);
    assert_eq!(parse(&spaced.to_string()), Ok(Object::List(vec![sym("a"), sym("b")])));
    let numeral = Object::List(vec![sym("12")]);
    assert_eq!(parse(&numeral.to_string()), Ok(Object::List(vec![Object::Integer(12)])));
    let empty = Object::List(vec![sym("")]);
    assert_eq!(parse(&empty.to_string()), Ok(Object::List(vec![])));
}
