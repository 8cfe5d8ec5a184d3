use lang::ast::{DeclOrExpr, Destructure, Expr};
use lang::parse::{parse_file, ParseErrorKind, TokenIter};
use lang::scan::scan;
use lang::token::TokenType;
use lang::value::LangValue;
use lang::{parse_source, LangError};

fn lines(src: &str) -> Vec<DeclOrExpr> {
    parse_source(src).unwrap()
}

fn only_expr(src: &str) -> Expr {
    let mut ls = lines(src);
    assert_eq!(ls.len(), 1);
    match ls.pop().unwrap() {
        DeclOrExpr::Expression(e) => e,
        other => panic!("{:?}", other),
    }
}

fn ident(e: &Expr) -> &str {
    match e {
        Expr::Ident(id) => id.name.as_str(),
        other => panic!("not an identifier: {:?}", other),
    }
}

#[test]
fn parse_var_declaration() {
    let ls = lines("x = 1;");
    assert_eq!(ls.len(), 1);
    match &ls[0] {
        DeclOrExpr::Declaration(d) => {
            let Destructure::Name(id) = &d.left;
            assert_eq!(id.name, "x");
            match &*d.right {
                Expr::Value(LangValue::LangNumber(b)) => assert_eq!(f64::from_bits(*b), 1.0),
                other => panic!("{:?}", other),
            }
        }
        other => panic!("{:?}", other),
    }
}

#[test]
fn parse_function_declaration_keeps_parameters() {
    let ls = lines("f a b = a;");
    match &ls[0] {
        DeclOrExpr::Declaration(d) => match &*d.right {
            Expr::Func(f) => {
                let names: Vec<&str> = f
                    .args
                    .iter()
                    .map(|p| match p {
                        Destructure::Name(id) => id.name.as_str(),
                    })
                    .collect();
                assert_eq!(names, vec!["a", "b"]);
                assert_eq!(ident(&f.body), "a");
            }
            other => panic!("{:?}", other),
        },
        other => panic!("{:?}", other),
    }
}

#[test]
fn parse_precedence_tree() {
    match only_expr("a + b * c") {
        Expr::Binary(top) => {
            assert_eq!(top.oper, TokenType::Plus);
            assert_eq!(ident(&top.left), "a");
            match &*top.right {
                Expr::Binary(inner) => {
                    assert_eq!(inner.oper, TokenType::Star);
                    assert_eq!(ident(&inner.left), "b");
                    assert_eq!(ident(&inner.right), "c");
                }
                other => panic!("{:?}", other),
            }
        }
        other => panic!("{:?}", other),
    }
}

#[test]
fn parse_subtraction_is_left_associative() {
    match only_expr("a - b - c") {
        Expr::Binary(top) => {
            assert_eq!(top.oper, TokenType::Minus);
            assert_eq!(ident(&top.right), "c");
            assert!(matches!(&*top.left, Expr::Binary(_)));
        }
        other => panic!("{:?}", other),
    }
}

#[test]
fn parse_application_is_left_associative() {
    match only_expr("f x y") {
        Expr::Call(outer) => {
            assert_eq!(ident(&outer.arg), "y");
            match &*outer.func {
                Expr::Call(inner) => {
                    assert_eq!(ident(&inner.func), "f");
                    assert_eq!(ident(&inner.arg), "x");
                }
                other => panic!("{:?}", other),
            }
        }
        other => panic!("{:?}", other),
    }
}

#[test]
fn parse_block_juxtaposition_is_two_lines() {
    match only_expr("{ f 2 }") {
        Expr::Block(b) => assert_eq!(b.lines.len(), 2),
        other => panic!("{:?}", other),
    }
}

#[test]
fn parse_list_missing_bracket() {
    match parse_source("[1, 2") {
        Err(LangError::Parse(e)) => {
            assert_eq!(e.kind, ParseErrorKind::ExpectedCommaOrBracket);
            assert_eq!(e.at, 4);
        }
        other => panic!("{:?}", other),
    }
}

#[test]
fn parse_unclosed_paren() {
    match parse_source("(1 + 2") {
        Err(LangError::Parse(e)) => {
            assert_eq!(e.kind, ParseErrorKind::Expected(TokenType::RightParen));
            assert_eq!(e.at, 4);
        }
        other => panic!("{:?}", other),
    }
}

#[test]
fn parse_reserved_word_cannot_be_bound() {
    assert!(matches!(parse_source("let = 1;"), Err(LangError::Parse(_))));
}

#[test]
fn parse_missing_semicolon_fails() {
    assert!(matches!(parse_source("x = 1"), Err(LangError::Parse(_))));
}

#[test]
fn parse_empty_program() {
    assert_eq!(lines("").len(), 0);
}

#[test]
fn parse_string_without_quotes() {
    match only_expr("\"hi there\"") {
        Expr::Value(LangValue::LangString(s)) => assert_eq!(s, "hi there"),
        other => panic!("{:?}", other),
    }
}

#[test]
fn parse_twice_gives_same_tree() {
    let src = "add a b = a + b ; { x = [1, 2]; add 2 3 }";
    let a = format!("{:?}", lines(src));
    let b = format!("{:?}", lines(src));
    assert_eq!(a, b);
}

#[test]
fn token_iter_cursor() {
    let tokens = scan("a = 1;").unwrap();
    let mut it = TokenIter::from(tokens);
    assert!(it.prev().is_none());
    assert_eq!(it.peek().unwrap().literal, "a");
    assert_eq!(it.kind(), TokenType::LiteralIdentifier);
    assert!(it.matches(TokenType::LiteralIdentifier));
    let mark = it.bookmark();
    let first = it.next().unwrap();
    assert_eq!(first.literal, "a");
    assert_eq!(it.prev().unwrap().literal, "a");
    assert!(it.expect(TokenType::Equal).is_ok());
    let err = it.expect(TokenType::Semicolon).unwrap_err();
    assert_eq!(err.kind, ParseErrorKind::Expected(TokenType::Semicolon));
    assert_eq!(err.at, 2);
    assert_eq!(it.bookmark(), 2);
    it.revert(mark);
    assert_eq!(it.kind(), TokenType::LiteralIdentifier);
    assert!(!it.at_end());
    let parsed = parse_file(&mut it).unwrap();
    assert_eq!(parsed.len(), 1);
    assert_eq!(it.kind(), TokenType::Eof);
    assert!(it.expect(TokenType::Eof).is_ok());
    assert!(it.at_end());
    let end = it.peek().unwrap_err();
    assert_eq!(end.kind, ParseErrorKind::UnexpectedEof);
    assert_eq!(end.at, 5);
    assert_eq!(it.expect(TokenType::Eof).unwrap_err().kind, ParseErrorKind::UnexpectedEof);
    assert_eq!(it.bookmark(), 5);
}

#[test]
fn parse_invalid_number_token() {
    let tokens = vec![
        lang::token::Token { kind: TokenType::LiteralNumber, line: 0, literal: "1x".to_string() },
        lang::token::Token { kind: TokenType::Eof, line: 0, literal: String::new() },
    ];
    let mut it = TokenIter::from(tokens);
    let err = parse_file(&mut it).unwrap_err();
    assert_eq!(err.kind, ParseErrorKind::InvalidNumber);
    assert_eq!(err.at, 0);
}
