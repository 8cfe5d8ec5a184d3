use lang::ast::{BinaryExpr, Expr, FuncDef};
use lang::eval::{evaluate, EvalError, Scope};
use lang::token::TokenType;
use lang::value::{Environment, LangValue};
use lang::{format_value, interpret, parse_source, LangError};

fn number(v: &LangValue) -> f64 {
    match v {
        LangValue::LangNumber(b) => f64::from_bits(*b),
        other => panic!("not a number: {:?}", other),
    }
}

fn run(src: &str) -> f64 {
    number(&interpret(src).unwrap())
}

fn lit(x: f64) -> Box<Expr> {
    Box::new(Expr::Value(LangValue::LangNumber(x.to_bits())))
}

#[test]
fn eval_each_operator() {
    assert_eq!(run("7 - 2"), 5.0);
    assert_eq!(run("6 / 4"), 1.5);
    assert_eq!(run("2.5 * 4"), 10.0);
    assert_eq!(run("12.75 + 0"), 12.75);
}

#[test]
fn eval_float_rounding_matches_hardware() {
    assert_eq!(run("0.1 + 0.2"), 0.1f64 + 0.2f64);
    assert_eq!(run("1 / 3"), 1.0f64 / 3.0f64);
}

#[test]
fn eval_commutativity_of_sum_and_product() {
    assert_eq!(run("0.1 + 0.7"), run("0.7 + 0.1"));
    assert_eq!(run("1.1 * 3.3"), run("3.3 * 1.1"));
    assert_ne!(run("2 - 1"), run("1 - 2"));
    assert_ne!(run("1 / 2"), run("2 / 1"));
}

#[test]
fn eval_division_by_zero() {
    assert_eq!(run("1 / 0"), f64::INFINITY);
    assert!(run("0 / 0").is_nan());
}

#[test]
fn eval_not_callable() {
    match interpret("(1 2)") {
        Err(LangError::Eval(EvalError::NotCallable(v))) => assert_eq!(number(&v), 1.0),
        other => panic!("{:?}", other),
    }
}

#[test]
fn eval_no_parameters() {
    let e = Expr::Func(FuncDef { args: Vec::new(), body: lit(1.0) });
    assert!(matches!(evaluate(&e, &Environment::new()), Err(EvalError::NoParameters)));
}

#[test]
fn eval_unknown_operator() {
    let e = Expr::Binary(BinaryExpr { oper: TokenType::Comma, left: lit(1.0), right: lit(2.0) });
    match evaluate(&e, &Environment::new()) {
        Err(EvalError::UnknownOperator(op)) => assert_eq!(op, TokenType::Comma),
        other => panic!("{:?}", other),
    }
}

#[test]
fn eval_left_operand_checked_first() {
    match interpret("\"a\" * \"b\"") {
        Err(LangError::Eval(EvalError::NotANumber(LangValue::LangString(s)))) => {
            assert_eq!(s, "a")
        }
        other => panic!("{:?}", other),
    }
}

#[test]
fn eval_self_application_hits_depth_limit() {
    assert!(matches!(
        interpret("w x = (x x); (w w)"),
        Err(LangError::Eval(EvalError::DepthExceeded))
    ));
}

#[test]
fn eval_closure_captures_by_value() {
    assert_eq!(run("{ y = 1; f x = x + y; y = 100; (f 1) }"), 2.0);
}

#[test]
fn eval_partial_application() {
    assert_eq!(run("add a b = a + b; inc = (add 1); inc 41"), 42.0);
}

#[test]
fn eval_block_scope_does_not_leak() {
    assert_eq!(run("x = 1; y = { x = 2; x }; x + y"), 3.0);
}

#[test]
fn eval_block_ending_in_declaration_is_none() {
    assert!(matches!(interpret("{ x = 1; }"), Ok(LangValue::LangNone)));
}

#[test]
fn eval_rebinding_replaces() {
    assert_eq!(run("x = 1; x = 2; x"), 2.0);
}

#[test]
fn eval_empty_program_is_none() {
    assert!(matches!(interpret(""), Ok(LangValue::LangNone)));
}

#[test]
fn eval_twice_gives_same_value() {
    let src = "f a b = [a, b, a * b]; f 3 4";
    assert_eq!(format!("{:?}", interpret(src)), format!("{:?}", interpret(src)));
}

#[test]
fn eval_long_list_chain() {
    let v = interpret("[1, 2, 3, 4, 5]").unwrap();
    let mut cur = &v;
    for k in 1..=5 {
        match cur {
            LangValue::LangPair { left, right } => {
                assert_eq!(number(left), k as f64);
                cur = right;
            }
            other => panic!("{:?}", other),
        }
    }
    assert!(matches!(cur, LangValue::LangNone));
}

#[test]
fn environment_insert_and_get() {
    let mut env = Environment::new();
    assert!(env.get(&"x".to_string()).is_none());
    env.insert("x".to_string(), LangValue::LangNumber(1.0f64.to_bits()));
    env.insert("y".to_string(), LangValue::LangString("s".to_string()));
    env.insert("x".to_string(), LangValue::LangNumber(2.0f64.to_bits()));
    assert_eq!(number(env.get(&"x".to_string()).unwrap()), 2.0);
    assert!(matches!(env.get(&"y".to_string()), Some(LangValue::LangString(s)) if s == "s"));
    assert_eq!(env.bindings.len(), 2);
}

#[test]
fn scope_runs_lines_in_its_environment() {
    let mut env = Environment::new();
    env.insert("k".to_string(), LangValue::LangNumber(10.0f64.to_bits()));
    let lines = parse_source("z = k * 2; z + 1").unwrap();
    let scope = Scope { env, lines };
    assert_eq!(number(&scope.eval().unwrap()), 21.0);
    assert!(scope.env.get(&"z".to_string()).is_none());
}

#[test]
fn format_values() {
    assert_eq!(format_value(&interpret("\"hey\"").unwrap()), "hey");
    let text = format_value(&interpret("1.5 * 2").unwrap());
    assert_eq!(text.parse::<f64>().unwrap(), 3.0);
    assert_eq!(format_value(&interpret("[1]").unwrap()), "<unknown val>");
    assert_eq!(format_value(&LangValue::LangNone), "<unknown val>");
}

#[test]
fn environment_clone_is_independent() {
    let mut a = Environment::new();
    a.insert("x".to_string(), LangValue::LangNumber(1.0f64.to_bits()));
    let b = a.clone();
    a.insert("x".to_string(), LangValue::LangNumber(2.0f64.to_bits()));
    assert_eq!(number(b.get(&"x".to_string()).unwrap()), 1.0);
    assert_eq!(number(a.get(&"x".to_string()).unwrap()), 2.0);
}

#[test]
fn eval_closure_does_not_see_later_bindings() {
    match interpret("g y = z; z = 5; (g 1)") {
        Err(LangError::Eval(EvalError::UnboundIdentifier(n))) => assert_eq!(n, "z"),
        other => panic!("{:?}", other),
    }
}

#[test]
fn eval_returned_closure_takes_call_environment() {
    assert_eq!(run("g y = z; { z = 5; k q = g; ((k 0) 1) }"), 5.0);
}
