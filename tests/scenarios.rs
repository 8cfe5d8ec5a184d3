use lang::eval::EvalError;
use lang::interpret;
use lang::value::LangValue;
use lang::LangError;

fn number(v: &LangValue) -> f64 {
    match v {
        LangValue::LangNumber(b) => f64::from_bits(*b),
        other => panic!("not a number: {:?}", other),
    }
}

fn run(src: &str) -> LangValue {
    match interpret(src) {
        Ok(v) => v,
        Err(e) => panic!("{:?}", e),
    }
}

fn pair_parts(v: &LangValue) -> (&LangValue, &LangValue) {
    match v {
        LangValue::LangPair { left, right } => (left, right),
        other => panic!("not a pair: {:?}", other),
    }
}

#[test]
fn multiplication_binds_tighter() {
    assert_eq!(number(&run("1 + 2 * 3")), 7.0);
}

#[test]
fn parentheses_group() {
    assert_eq!(number(&run("(1 + 2) * 3")), 9.0);
}

#[test]
fn list_literal_is_pair_chain() {
    let v = run("[1, 2, 3]");
    let (a, rest) = pair_parts(&v);
    assert_eq!(number(a), 1.0);
    let (b, rest) = pair_parts(rest);
    assert_eq!(number(b), 2.0);
    let (c, rest) = pair_parts(rest);
    assert_eq!(number(c), 3.0);
    assert!(matches!(rest, LangValue::LangNone));
}

#[test]
fn string_literal_loses_quotes() {
    match run("\"hello\"") {
        LangValue::LangString(s) => assert_eq!(s, "hello"),
        other => panic!("{:?}", other),
    }
}

#[test]
fn block_declarations() {
    assert_eq!(number(&run("{ x = 2; y = 3; x + y }")), 5.0);
}

#[test]
fn curried_function() {
    assert_eq!(number(&run("add a b = a + b ; add 2 3")), 5.0);
}

#[test]
fn empty_block_is_none() {
    assert!(matches!(run("{}"), LangValue::LangNone));
}

#[test]
fn single_element_list() {
    let v = run("[7]");
    let (a, rest) = pair_parts(&v);
    assert_eq!(number(a), 7.0);
    assert!(matches!(rest, LangValue::LangNone));
}

#[test]
fn unbound_identifier_fails() {
    match interpret("foo") {
        Err(LangError::Eval(EvalError::UnboundIdentifier(n))) => assert_eq!(n, "foo"),
        other => panic!("{:?}", other),
    }
}

#[test]
fn arithmetic_on_string_fails() {
    match interpret("1 + \"x\"") {
        Err(LangError::Eval(EvalError::NotANumber(LangValue::LangString(s)))) => {
            assert_eq!(s, "x")
        }
        other => panic!("{:?}", other),
    }
}

#[test]
fn unterminated_string_is_lex_error() {
    match interpret("\"abc") {
        Err(LangError::Lex(e)) => {
            assert_eq!(e.kind, lang::scan::LexErrorKind::UnterminatedString);
            assert_eq!(e.lexeme, "\"abc");
        }
        other => panic!("{:?}", other),
    }
}
