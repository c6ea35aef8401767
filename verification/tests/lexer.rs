use tinybuf_script::{lex, unescape, Token};

fn ident(s: &str) -> Token {
    Token::Ident(s.to_string())
}

#[test]
fn lexes_a_let_line() {
    assert_eq!(
        lex("let x = 42;"),
        Ok(vec![
            (0, Token::Let, 3),
            (4, ident("x"), 5),
            (6, Token::Eq, 7),
            (8, Token::Number(42), 10),
            (10, Token::Semi, 11),
        ])
    );
}

#[test]
fn keyword_is_the_whole_word_only() {
    assert_eq!(lex("letx"), Ok(vec![(0, ident("letx"), 4)]));
    assert_eq!(lex("types"), Ok(vec![(0, Token::Types, 5)]));
    assert_eq!(lex("type"), Ok(vec![(0, Token::Type, 4)]));
    assert_eq!(lex("typ"), Ok(vec![(0, ident("typ"), 3)]));
    assert_eq!(
        lex("list types"),
        Ok(vec![(0, Token::List, 4), (5, Token::Types, 10)])
    );
    assert_eq!(lex("print _a1"), Ok(vec![(0, Token::Print, 5), (6, ident("_a1"), 9)]));
}

#[test]
fn minus_before_a_digit_belongs_to_the_number() {
    assert_eq!(lex("-5"), Ok(vec![(0, Token::Number(-5), 2)]));
    assert_eq!(lex("a-5"), Ok(vec![(0, ident("a"), 1), (1, Token::Number(-5), 3)]));
    assert_eq!(lex("a - 5"), Ok(vec![
        (0, ident("a"), 1),
        (2, Token::Minus, 3),
        (4, Token::Number(5), 5),
    ]));
    assert_eq!(lex("-x"), Ok(vec![(0, Token::Minus, 1), (1, ident("x"), 2)]));
}

#[test]
fn operators_and_brackets() {
    assert_eq!(
        lex("(1+2)*3/4"),
        Ok(vec![
            (0, Token::LParen, 1),
            (1, Token::Number(1), 2),
            (2, Token::Plus, 3),
            (3, Token::Number(2), 4),
            (4, Token::RParen, 5),
            (5, Token::Star, 6),
            (6, Token::Number(3), 7),
            (7, Token::Slash, 8),
            (8, Token::Number(4), 9),
        ])
    );
}

#[test]
fn comments_and_blanks_are_passed_over() {
    assert_eq!(
        lex("a // rest of line\nb"),
        Ok(vec![(0, ident("a"), 1), (17, Token::Newline, 18), (18, ident("b"), 19)])
    );
    assert_eq!(lex(" \t\r\u{c}"), Ok(vec![]));
    assert_eq!(lex(""), Ok(vec![]));
    assert_eq!(lex("// only a comment"), Ok(vec![]));
}

#[test]
fn string_literal_is_unescaped() {
    assert_eq!(
        lex(r#""a\nb""#),
        Ok(vec![(0, Token::StringLit("a\nb".to_string()), 6)])
    );
    assert_eq!(lex(r#""""#), Ok(vec![(0, Token::StringLit(String::new()), 2)]));
    assert_eq!(
        lex(r#"x "q\"q" y"#),
        Ok(vec![
            (0, ident("x"), 1),
            (2, Token::StringLit("q\"q".to_string()), 8),
            (9, ident("y"), 10),
        ])
    );
}

#[test]
fn string_literal_may_hold_any_character() {
    assert_eq!(
        lex("\"h\u{e9}\u{4e16}\" z"),
        Ok(vec![
            (0, Token::StringLit("h\u{e9}\u{4e16}".to_string()), 8),
            (9, ident("z"), 10),
        ])
    );
    assert_eq!(
        lex("\"a\nb\""),
        Ok(vec![(0, Token::StringLit("a\nb".to_string()), 5)])
    );
}

#[test]
fn what_is_no_token_fails_at_its_place() {
    assert_eq!(lex("a ?"), Err(2));
    assert_eq!(lex("x \"open"), Err(2));
    assert_eq!(lex("\"\\"), Err(0));
    assert_eq!(lex("\"a\\\nb\""), Err(0));
    assert_eq!(lex("\u{e9}"), Err(0));
}

#[test]
fn numbers_at_the_bounds() {
    assert_eq!(
        lex("9223372036854775807"),
        Ok(vec![(0, Token::Number(i64::MAX), 19)])
    );
    assert_eq!(
        lex("-9223372036854775808"),
        Ok(vec![(0, Token::Number(i64::MIN), 20)])
    );
    assert_eq!(lex("9223372036854775808"), Err(0));
    assert_eq!(lex("1 -9223372036854775809"), Err(2));
    assert_eq!(lex("99999999999999999999999999"), Err(0));
    assert_eq!(lex("007"), Ok(vec![(0, Token::Number(7), 3)]));
}

#[test]
fn unescape_replaces_the_known_escapes() {
    assert_eq!(unescape(r#"a\nb\tc\rd\"e\\f"#), "a\nb\tc\rd\"e\\f");
    assert_eq!(unescape(r"a\qb"), "a\\qb");
    assert_eq!(unescape("end\\"), "end\\");
    assert_eq!(unescape(""), "");
    assert_eq!(unescape("plain"), "plain");
}
