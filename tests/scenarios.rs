use c1_parser::grammar::{Expected, ParseError};
use c1_parser::parser::C1Parser;
use c1_parser::token::{C1Token, Token};

use C1Token::{
    And, Assign, Asterisk, ConstBoolean, ConstFloat, ConstInt, Equal, Identifier, KwBoolean, KwFloat, KwIf, KwInt,
    KwPrintf, KwReturn, KwVoid, LeftBrace, LeftParenthesis, Less, Minus, Or, Plus, RightBrace, RightParenthesis,
    Semicolon, Slash,
};

fn on_line(kinds: &[C1Token], line: usize) -> Vec<Token> {
    kinds.iter().map(|k| Token::new(*k, line)).collect()
}

fn on_lines(lines: &[&[C1Token]]) -> Vec<Token> {
    let mut out = Vec::new();
    for (i, kinds) in lines.iter().enumerate() {
        out.extend(on_line(kinds, i + 1));
    }
    out
}

#[test]
fn return_constant_succeeds() {
    let toks = on_line(&[KwInt, Identifier, LeftParenthesis, RightParenthesis, LeftBrace, KwReturn, ConstInt, Semicolon, RightBrace], 1);
    assert_eq!(C1Parser::parse(toks), Ok(()));
}

#[test]
fn missing_semicolon_after_return() {
    let toks = on_lines(&[
        &[KwInt, Identifier, LeftParenthesis, RightParenthesis, LeftBrace],
        &[KwReturn, ConstInt],
        &[RightBrace],
    ]);
    let err = C1Parser::parse(toks).unwrap_err();
    assert_eq!(err, ParseError { expected: Expected::Token(Semicolon), line: 3, actual: Some(RightBrace) });
}

#[test]
fn printf_of_sum_succeeds() {
    let toks = on_line(&[KwVoid, Identifier, LeftParenthesis, RightParenthesis, LeftBrace, KwPrintf, LeftParenthesis, ConstInt, Plus, ConstInt, RightParenthesis, Semicolon, RightBrace], 1);
    assert_eq!(C1Parser::parse(toks), Ok(()));
}

#[test]
fn if_with_assignment_block_succeeds() {
    let toks = on_line(&[
        KwBoolean, Identifier, LeftParenthesis, RightParenthesis, LeftBrace,
        KwIf, LeftParenthesis, Identifier, Equal, ConstInt, RightParenthesis,
        LeftBrace, Identifier, Assign, ConstInt, Semicolon, RightBrace,
        RightBrace,
    ], 1);
    assert_eq!(C1Parser::parse(toks), Ok(()));
}

#[test]
fn empty_input_succeeds() {
    assert_eq!(C1Parser::parse(Vec::new()), Ok(()));
}

#[test]
fn call_without_semicolon_fails_at_closing_brace() {
    let toks = on_lines(&[
        &[KwInt, Identifier, LeftParenthesis, RightParenthesis, LeftBrace, Identifier, LeftParenthesis, RightParenthesis],
        &[RightBrace],
    ]);
    let err = C1Parser::parse(toks).unwrap_err();
    assert_eq!(err, ParseError { expected: Expected::Token(Semicolon), line: 2, actual: Some(RightBrace) });
}

#[test]
fn missing_closing_brace_fails_at_end_of_input() {
    let toks = on_lines(&[
        &[KwInt, Identifier, LeftParenthesis, RightParenthesis, LeftBrace],
        &[KwReturn, Semicolon],
    ]);
    let err = C1Parser::parse(toks).unwrap_err();
    assert_eq!(err, ParseError { expected: Expected::Token(RightBrace), line: 2, actual: None });
}

#[test]
fn missing_type_is_reported() {
    let toks = on_line(&[Identifier, LeftParenthesis, RightParenthesis, LeftBrace, RightBrace], 4);
    let err = C1Parser::parse(toks).unwrap_err();
    assert_eq!(err, ParseError { expected: Expected::Type, line: 4, actual: Some(Identifier) });
}

#[test]
fn missing_identifier_after_type() {
    let toks = on_line(&[KwFloat, LeftParenthesis, RightParenthesis, LeftBrace, RightBrace], 1);
    let err = C1Parser::parse(toks).unwrap_err();
    assert_eq!(err, ParseError { expected: Expected::Token(Identifier), line: 1, actual: Some(LeftParenthesis) });
}

#[test]
fn several_functions_succeed() {
    let toks = on_lines(&[
        &[KwVoid, Identifier, LeftParenthesis, RightParenthesis, LeftBrace, RightBrace],
        &[KwInt, Identifier, LeftParenthesis, RightParenthesis, LeftBrace, KwReturn, Semicolon, RightBrace],
        &[KwFloat, Identifier, LeftParenthesis, RightParenthesis, LeftBrace, KwReturn, ConstFloat, Semicolon, RightBrace],
    ]);
    assert_eq!(C1Parser::parse(toks), Ok(()));
}

#[test]
fn chained_assignment_and_operators_succeed() {
    // a = b = -x * 2 / (y && true) || f() < 3 ;
    let toks = on_line(&[
        KwInt, Identifier, LeftParenthesis, RightParenthesis, LeftBrace,
        Identifier, Assign, Identifier, Assign, Minus, Identifier, Asterisk, ConstInt, Slash,
        LeftParenthesis, Identifier, And, ConstBoolean, RightParenthesis, Or,
        Identifier, LeftParenthesis, RightParenthesis, Less, ConstInt, Semicolon,
        RightBrace,
    ], 1);
    assert_eq!(C1Parser::parse(toks), Ok(()));
}

#[test]
fn identifier_followed_by_assign_is_an_assignment_statement() {
    let toks = on_line(&[KwInt, Identifier, LeftParenthesis, RightParenthesis, LeftBrace, Identifier, Assign, Identifier, Semicolon, RightBrace], 1);
    assert_eq!(C1Parser::parse(toks), Ok(()));
}

#[test]
fn identifier_followed_by_neither_call_nor_assign_is_rejected() {
    let toks = on_lines(&[
        &[KwInt, Identifier, LeftParenthesis, RightParenthesis, LeftBrace, Identifier],
        &[RightBrace],
    ]);
    let err = C1Parser::parse(toks).unwrap_err();
    assert_eq!(err, ParseError { expected: Expected::Token(Assign), line: 2, actual: Some(RightBrace) });
}

#[test]
fn missing_factor_is_reported() {
    let toks = on_line(&[KwInt, Identifier, LeftParenthesis, RightParenthesis, LeftBrace, Identifier, Assign, Semicolon, RightBrace], 5);
    let err = C1Parser::parse(toks).unwrap_err();
    assert_eq!(err, ParseError { expected: Expected::Factor, line: 5, actual: Some(Semicolon) });
}

#[test]
fn if_without_body_is_reported() {
    let toks = on_line(&[KwInt, Identifier, LeftParenthesis, RightParenthesis, LeftBrace, KwIf, LeftParenthesis, ConstBoolean, RightParenthesis, Semicolon, RightBrace], 2);
    let err = C1Parser::parse(toks).unwrap_err();
    assert_eq!(err, ParseError { expected: Expected::Statement, line: 2, actual: Some(Semicolon) });
}

#[test]
fn nested_blocks_and_if_without_braces_succeed() {
    let toks = on_line(&[
        KwVoid, Identifier, LeftParenthesis, RightParenthesis, LeftBrace,
        LeftBrace, LeftBrace, KwIf, LeftParenthesis, Identifier, RightParenthesis, KwReturn, Semicolon, RightBrace, RightBrace,
        RightBrace,
    ], 1);
    assert_eq!(C1Parser::parse(toks), Ok(()));
}

#[test]
fn same_input_gives_same_failure() {
    let toks = on_lines(&[
        &[KwInt, Identifier, LeftParenthesis, RightParenthesis, LeftBrace],
        &[KwPrintf, LeftParenthesis, ConstInt, Plus, RightParenthesis, Semicolon, RightBrace],
    ]);
    let first = C1Parser::parse(toks.clone());
    let second = C1Parser::parse(toks);
    assert_eq!(first, second);
    assert_eq!(first, Err(ParseError { expected: Expected::Factor, line: 2, actual: Some(RightParenthesis) }));
}

#[test]
fn deeply_nested_parentheses_succeed() {
    let depth = 1000;
    let mut kinds = vec![KwInt, Identifier, LeftParenthesis, RightParenthesis, LeftBrace, KwReturn];
    for _ in 0..depth {
        kinds.push(LeftParenthesis);
    }
    kinds.push(ConstInt);
    for _ in 0..depth {
        kinds.push(RightParenthesis);
    }
    kinds.extend([Semicolon, RightBrace]);
    assert_eq!(C1Parser::parse(on_line(&kinds, 1)), Ok(()));
}

#[test]
fn unbalanced_parentheses_fail() {
    let toks = on_line(&[KwInt, Identifier, LeftParenthesis, RightParenthesis, LeftBrace, KwReturn, LeftParenthesis, ConstInt, Semicolon, RightBrace], 1);
    let err = C1Parser::parse(toks).unwrap_err();
    assert_eq!(err, ParseError { expected: Expected::Token(RightParenthesis), line: 1, actual: Some(Semicolon) });
}

#[test]
fn token_new_keeps_kind_and_line() {
    let t = Token::new(KwInt, 7);
    assert_eq!(t.kind, KwInt);
    assert_eq!(t.line, 7);
}
