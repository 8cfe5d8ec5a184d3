use lang::scan::{scan, LexErrorKind};
use lang::token::{Token, TokenType};

fn kinds(src: &str) -> Vec<TokenType> {
    scan(src).unwrap().iter().map(|t| t.kind).collect()
}

fn lexemes(tokens: &[Token]) -> Vec<String> {
    tokens.iter().map(|t| t.literal.clone()).collect()
}

#[test]
fn scan_punctuation_and_operators() {
    assert_eq!(
        kinds("( ) [ ] { } : + * / ; , \\ _ - -> == = != < <= > >= | || |>"),
        vec![
            TokenType::LeftParen, TokenType::RightParen, TokenType::LeftSquareBrace, TokenType::RightSquareBrace, TokenType::LeftCurlyBrace,
            TokenType::RightCurlyBrace, TokenType::Colon, TokenType::Plus, TokenType::Star, TokenType::Slash, TokenType::Semicolon, TokenType::Comma, TokenType::Backslash, TokenType::Underscore,
            TokenType::Minus, TokenType::Arrow, TokenType::EqualEqual, TokenType::Equal, TokenType::NotEqual, TokenType::Less, TokenType::LessEq, TokenType::Greater, TokenType::GreaterEq, TokenType::Pipe, TokenType::Or,
            TokenType::PipeForwards, TokenType::Eof
        ]
    );
}

#[test]
fn scan_numbers() {
    let tokens = scan("12.5 7 0.25").unwrap();
    assert_eq!(lexemes(&tokens), vec!["12.5", "7", "0.25", ""]);
    assert!(tokens[..3].iter().all(|t| t.kind == TokenType::LiteralNumber));
}

#[test]
fn scan_number_needs_digit_after_point() {
    let err = scan("1.").unwrap_err();
    assert_eq!(err.kind, LexErrorKind::Unrecognized);
    assert_eq!(err.lexeme, ".");
}

#[test]
fn scan_identifier_characters() {
    let tokens = scan("$a-b_c' x9").unwrap();
    assert_eq!(lexemes(&tokens), vec!["$a-b_c'", "x9", ""]);
    assert_eq!(tokens[0].kind, TokenType::LiteralIdentifier);
    assert_eq!(tokens[1].kind, TokenType::LiteralIdentifier);
}

#[test]
fn scan_reserved_words() {
    assert_eq!(
        kinds("if then else let in yield true false iff"),
        vec![TokenType::If, TokenType::Then, TokenType::Else, TokenType::Let, TokenType::In, TokenType::Yield, TokenType::True, TokenType::False, TokenType::LiteralIdentifier, TokenType::Eof]
    );
}

#[test]
fn scan_skips_comments_and_counts_lines() {
    let tokens = scan("1 -- a note\n2\n").unwrap();
    assert_eq!(lexemes(&tokens), vec!["1", "2", ""]);
    assert_eq!(tokens[0].line, 0);
    assert_eq!(tokens[1].line, 1);
    assert_eq!(tokens[2].line, 2);
}

#[test]
fn scan_string_keeps_quotes_and_escapes() {
    let tokens = scan("\"a\\\"b\" \"\"").unwrap();
    assert_eq!(lexemes(&tokens), vec!["\"a\\\"b\"", "\"\"", ""]);
    assert_eq!(tokens[0].kind, TokenType::LiteralString);
}

#[test]
fn scan_char_literals() {
    let tokens = scan("'a' '\\n'").unwrap();
    assert_eq!(lexemes(&tokens), vec!["'a'", "'\\n'", ""]);
    assert_eq!(tokens[0].kind, TokenType::LiteralChar);
    assert_eq!(scan("'ab'").unwrap_err().kind, LexErrorKind::MalformedChar);
    assert_eq!(scan("'a").unwrap_err().kind, LexErrorKind::MalformedChar);
}

#[test]
fn scan_unrecognized_character() {
    let err = scan("1 # 2").unwrap_err();
    assert_eq!(err.kind, LexErrorKind::Unrecognized);
    assert_eq!(err.lexeme, "#");
    assert_eq!(scan("!").unwrap_err().kind, LexErrorKind::Unrecognized);
}

#[test]
fn scan_unterminated_string_line() {
    let err = scan("x\n\"ab\ncd").unwrap_err();
    assert_eq!(err.kind, LexErrorKind::UnterminatedString);
    assert_eq!(err.lexeme, "\"ab\ncd");
    assert_eq!(err.line, 2);
}

#[test]
fn scan_empty_source() {
    assert_eq!(kinds(""), vec![TokenType::Eof]);
    assert_eq!(kinds("  \n\t"), vec![TokenType::Eof]);
}

#[test]
fn scan_lexemes_and_gaps_restore_source() {
    let src = "add a b = a + b ; -- sum\n  add 2 3.5 \"s t\"\n";
    let tokens = scan(src).unwrap();
    let mut rebuilt = String::new();
    let mut pos = 0;
    for t in &tokens {
        let at = pos + src[pos..].find(t.literal.as_str()).unwrap();
        let gap = &src[pos..at];
        let without_comments: String = gap
            .split('\n')
            .map(|l| match l.find("--") {
                Some(i) => &l[..i],
                None => l,
            })
            .collect();
        assert!(without_comments.chars().all(|c| c.is_whitespace()), "gap {:?}", gap);
        rebuilt.push_str(gap);
        rebuilt.push_str(&t.literal);
        pos = at + t.literal.len();
    }
    rebuilt.push_str(&src[pos..]);
    assert_eq!(rebuilt, src);
    assert_eq!(pos, src.len() - 1);
}
