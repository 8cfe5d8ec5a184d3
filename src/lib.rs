//! An interpreter for a small functional expression language: source text is
//! scanned into tokens, parsed into a syntax tree and evaluated against a
//! lexical environment.
use vstd::prelude::*;

pub mod ast;
pub mod eval;
pub mod laws;
pub mod message;
pub mod number;
pub mod parse;
pub mod render;
pub mod scan;
mod text;
pub mod token;
pub mod value;

use crate::ast::{lines_view, DeclOrExpr};
use crate::eval::{eval_lines_spec, EvalError, EvalErrorV, Scope, MAX_CALL_DEPTH};
use crate::number::{decimal_of_bits, float_text};
use crate::parse::{parse_file, parse_spec, ParseError, TokenIter};
use crate::scan::{scan, scan_spec, LexError, LexErrorView};
use crate::value::{Environment, LangValue, ValueV};

verus! {

/// Why a source text does not run: it does not scan, does not parse, or
/// fails to evaluate.
#[derive(Debug)]
pub enum LangError {
    Lex(LexError),
    Parse(ParseError),
    Eval(EvalError),
}

/// The view of a failure of the whole pipeline.
pub enum LangErrorV {
    Lex(LexErrorView),
    Parse(ParseError),
    Eval(EvalErrorV),
}

impl LangError {
    pub open spec fn view(&self) -> LangErrorV {
        match self {
            LangError::Lex(e) => LangErrorV::Lex(e@),
            LangError::Parse(e) => LangErrorV::Parse(*e),
            LangError::Eval(e) => LangErrorV::Eval(e@),
        }
    }
}

/// The lines of a source text, or why it does not scan or parse.
pub open spec fn source_lines_spec(s: Seq<char>) -> Result<Seq<crate::ast::LineV>, LangErrorV> {
    match scan_spec(s) {
        Err(e) => Err(LangErrorV::Lex(e)),
        Ok(ts) => match parse_spec(ts) {
            Err(e) => Err(LangErrorV::Parse(e)),
            Ok(ls) => Ok(ls),
        },
    }
}

/// The value of a source text run as a block in the empty environment, or
/// why it fails: lexing comes first, then parsing, then evaluation.
pub open spec fn interpret_spec(s: Seq<char>) -> Result<ValueV, LangErrorV> {
    match source_lines_spec(s) {
        Err(e) => Err(e),
        Ok(ls) => match eval_lines_spec(ls, Map::empty(), MAX_CALL_DEPTH as nat) {
            Ok(v) => Ok(v),
            Err(e) => Err(LangErrorV::Eval(e)),
        },
    }
}

/// Scans and parses a source text into the lines of a program.
pub fn parse_source(source: &str) -> (r: Result<Vec<DeclOrExpr>, LangError>)
    ensures
        match source_lines_spec(source@) {
            Ok(ls) => r matches Ok(v) && lines_view(v@) == ls,
            Err(e) => r matches Err(x) && x@ == e,
        },
{
    let tokens = match scan(source) {
        Ok(t) => t,
        Err(e) => {
            return Err(LangError::Lex(e));
        },
    };
    let mut iter = TokenIter::from(tokens);
    match parse_file(&mut iter) {
        Ok(lines) => Ok(lines),
        Err(e) => Err(LangError::Parse(e)),
    }
}

/// Runs a source text: scans it, parses it and evaluates its lines as a
/// block in the empty environment.
pub fn interpret(source: &str) -> (r: Result<LangValue, LangError>)
    ensures
        match interpret_spec(source@) {
            Ok(v) => r matches Ok(x) && x@ == v,
            Err(e) => r matches Err(x) && x@ == e,
        },
{
    let lines = match parse_source(source) {
        Ok(l) => l,
        Err(e) => {
            return Err(e);
        },
    };
    let scope = Scope { env: Environment::new(), lines };
    match scope.eval() {
        Ok(v) => Ok(v),
        Err(e) => Err(LangError::Eval(e)),
    }
}

/// The text of a value: the decimal form of a number, the characters of a
/// string, and a placeholder for anything else.
pub open spec fn format_spec(v: ValueV) -> Seq<char> {
    match v {
        ValueV::Number(b) => float_text(b),
        ValueV::Str(s) => s,
        _ => "<unknown val>"@,
    }
}

/// Renders a value as text.
pub fn format_value(v: &LangValue) -> (r: String)
    ensures
        r@ == format_spec(v@),
{
    match v {
        LangValue::LangNumber(b) => decimal_of_bits(*b),
        LangValue::LangString(s) => s.clone(),
        _ => String::from_str("<unknown val>"),
    }
}

} // verus!
