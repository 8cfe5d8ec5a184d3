use lang::interpret;

fn failure(src: &str) -> String {
    match interpret(src) {
        Err(e) => e.message(),
        Ok(v) => panic!("unexpected value {:?}", v),
    }
}

#[test]
fn message_names_unbound_identifier() {
    assert_eq!(failure("foo"), "unbound identifier: foo");
}

#[test]
fn message_names_non_numeric_operand() {
    assert_eq!(failure("1 + \"x\""), "NaN \"x\"");
}

#[test]
fn message_for_lex_errors() {
    assert_eq!(failure("\"abc"), "unterminated string: \"abc on line 0");
    assert_eq!(failure("\n\n1 # 2"), "unrecognized token: # on line 2");
    assert_eq!(failure("'ab'"), "malformed character literal: 'ab on line 0");
}

#[test]
fn message_for_parse_errors() {
    assert_eq!(failure("(1 + 2"), "expected ) at token 4");
    assert_eq!(failure("[1, 2"), "expected , or ] at token 4");
    assert_eq!(failure("x = 1"), "expected an identifier, number or string at token 1");
}

#[test]
fn message_for_other_eval_errors() {
    assert_eq!(failure("(\"f\" 1)"), "cannot call \"f\"");
    assert_eq!(failure("w x = (x x); (w w)"), "function calls nested too deeply");
}

#[test]
fn message_line_numbers_above_nine() {
    let src = format!("{}#", "\n".repeat(123));
    assert_eq!(failure(&src), "unrecognized token: # on line 123");
}
