//! Error messages: one human-readable line per failure.
use crate::eval::{EvalError, EvalErrorV};
use crate::parse::{ParseError, ParseErrorKind};
use crate::render::render_value;
use crate::scan::{LexError, LexErrorKind, LexErrorView};
use crate::text::push_char;
use crate::token::TokenType;
use crate::{LangError, LangErrorV};
use vstd::prelude::*;

verus! {

/// How a token kind is named in messages.
pub open spec fn kind_name(k: TokenType) -> Seq<char> {
    match k {
        TokenType::Unrecognized => "unrecognized token"@,
        TokenType::LeftParen => "("@,
        TokenType::RightParen => ")"@,
        TokenType::LeftSquareBrace => "["@,
        TokenType::RightSquareBrace => "]"@,
        TokenType::LeftCurlyBrace => "{"@,
        TokenType::RightCurlyBrace => "}"@,
        TokenType::Colon => ":"@,
        TokenType::Pipe => "|"@,
        TokenType::Backslash => "\\"@,
        TokenType::Plus => "+"@,
        TokenType::Minus => "-"@,
        TokenType::Star => "*"@,
        TokenType::Slash => "/"@,
        TokenType::Dollar => "$"@,
        TokenType::Semicolon => ";"@,
        TokenType::Comma => ","@,
        TokenType::Underscore => "_"@,
        TokenType::Equal => "="@,
        TokenType::EqualEqual => "=="@,
        TokenType::NotEqual => "!="@,
        TokenType::And => "&&"@,
        TokenType::Or => "||"@,
        TokenType::Greater => ">"@,
        TokenType::GreaterEq => ">="@,
        TokenType::Less => "<"@,
        TokenType::LessEq => "<="@,
        TokenType::Arrow => "->"@,
        TokenType::PipeForwards => "|>"@,
        TokenType::LiteralIdentifier => "identifier"@,
        TokenType::LiteralString => "string"@,
        TokenType::LiteralChar => "character"@,
        TokenType::LiteralNumber => "number"@,
        TokenType::True => "true"@,
        TokenType::False => "false"@,
        TokenType::If => "if"@,
        TokenType::Then => "then"@,
        TokenType::Else => "else"@,
        TokenType::Let => "let"@,
        TokenType::In => "in"@,
        TokenType::Yield => "yield"@,
        TokenType::Comment => "comment"@,
        TokenType::Ignore => "whitespace"@,
        TokenType::Eof => "end of file"@,
    }
}

fn kind_name_exec(k: TokenType) -> (r: &'static str)
    ensures
        r@ == kind_name(k),
{
    match k {
        TokenType::Unrecognized => "unrecognized token",
        TokenType::LeftParen => "(",
        TokenType::RightParen => ")",
        TokenType::LeftSquareBrace => "[",
        TokenType::RightSquareBrace => "]",
        TokenType::LeftCurlyBrace => "{",
        TokenType::RightCurlyBrace => "}",
        TokenType::Colon => ":",
        TokenType::Pipe => "|",
        TokenType::Backslash => "\\",
        TokenType::Plus => "+",
        TokenType::Minus => "-",
        TokenType::Star => "*",
        TokenType::Slash => "/",
        TokenType::Dollar => "$",
        TokenType::Semicolon => ";",
        TokenType::Comma => ",",
        TokenType::Underscore => "_",
        TokenType::Equal => "=",
        TokenType::EqualEqual => "==",
        TokenType::NotEqual => "!=",
        TokenType::And => "&&",
        TokenType::Or => "||",
        TokenType::Greater => ">",
        TokenType::GreaterEq => ">=",
        TokenType::Less => "<",
        TokenType::LessEq => "<=",
        TokenType::Arrow => "->",
        TokenType::PipeForwards => "|>",
        TokenType::LiteralIdentifier => "identifier",
        TokenType::LiteralString => "string",
        TokenType::LiteralChar => "character",
        TokenType::LiteralNumber => "number",
        TokenType::True => "true",
        TokenType::False => "false",
        TokenType::If => "if",
        TokenType::Then => "then",
        TokenType::Else => "else",
        TokenType::Let => "let",
        TokenType::In => "in",
        TokenType::Yield => "yield",
        TokenType::Comment => "comment",
        TokenType::Ignore => "whitespace",
        TokenType::Eof => "end of file",
    }
}

/// The decimal digit for a number below ten.
pub open spec fn digit_char(d: nat) -> char {
    if d == 0 { '0' } else if d == 1 { '1' } else if d == 2 { '2' } else if d == 3 { '3' } else if d
        == 4 { '4' } else if d == 5 { '5' } else if d == 6 { '6' } else if d == 7 { '7' } else if d
        == 8 { '8' } else { '9' }
}

/// The decimal digits of a natural number.
pub open spec fn decimal_text(n: nat) -> Seq<char>
    decreases n,
{
    if n < 10 {
        seq![digit_char(n)]
    } else {
        decimal_text(n / 10) + seq![digit_char(n % 10)]
    }
}

fn digit_char_exec(d: usize) -> (r: char)
    requires
        d < 10,
    ensures
        r == digit_char(d as nat),
{
    if d == 0 { '0' } else if d == 1 { '1' } else if d == 2 { '2' } else if d == 3 { '3' } else if d
        == 4 { '4' } else if d == 5 { '5' } else if d == 6 { '6' } else if d == 7 { '7' } else if d
        == 8 { '8' } else { '9' }
}

/// Appends the decimal digits of `n`.
fn append_decimal(out: &mut String, n: usize)
    ensures
        final(out)@ == old(out)@ + decimal_text(n as nat),
{
    let mut digits: Vec<char> = Vec::new();
    let mut m = n;
    while m >= 10
        invariant
            decimal_text(n as nat) == decimal_text(m as nat) + digits@,
        decreases m,
    {
        let d = digit_char_exec(m % 10);
        let ghost before = digits@;
        digits.insert(0, d);
        assert(decimal_text(m as nat) == decimal_text((m / 10) as nat) + seq![d]);
        assert(decimal_text(n as nat) =~= decimal_text((m / 10) as nat) + digits@) by {
            assert(digits@ =~= seq![d] + before);
        }
        m = m / 10;
    }
    let first = digit_char_exec(m);
    let ghost base = old(out)@;
    push_char(out, first);
    let mut i: usize = 0;
    while i < digits.len()
        invariant
            i <= digits.len(),
            decimal_text(n as nat) == seq![first] + digits@,
            out@ == base + seq![first] + digits@.take(i as int),
        decreases digits.len() - i,
    {
        push_char(out, digits[i]);
        assert(digits@.take(i + 1) =~= digits@.take(i as int).push(digits@[i as int]));
        i = i + 1;
    }
    assert(digits@.take(i as int) =~= digits@);
    assert(out@ =~= base + decimal_text(n as nat));
}

/// The message of a scanner failure.
pub open spec fn lex_message(e: LexErrorView) -> Seq<char> {
    (match e.kind {
        LexErrorKind::Unrecognized => "unrecognized token: "@,
        LexErrorKind::UnterminatedString => "unterminated string: "@,
        LexErrorKind::MalformedChar => "malformed character literal: "@,
    }) + e.lexeme + " on line "@ + decimal_text(e.line)
}

/// The message of a parse failure.
pub open spec fn parse_message(e: ParseError) -> Seq<char> {
    (match e.kind {
        ParseErrorKind::Expected(k) => "expected "@ + kind_name(k),
        ParseErrorKind::ExpectedIdentifier => "expected an identifier"@,
        ParseErrorKind::ExpectedSingleToken => "expected an identifier, number or string"@,
        ParseErrorKind::ExpectedCommaOrBracket => "expected , or ]"@,
        ParseErrorKind::NoArguments => "function definition without parameters"@,
        ParseErrorKind::InvalidNumber => "invalid number"@,
        ParseErrorKind::NoProgress => "nothing parsed"@,
        ParseErrorKind::UnexpectedEof => "unexpected end of file"@,
    }) + " at token "@ + decimal_text(e.at as nat)
}

/// The message of an evaluation failure.
pub open spec fn eval_message(e: EvalErrorV) -> Seq<char> {
    match e {
        EvalErrorV::Unbound(n) => "unbound identifier: "@ + n,
        EvalErrorV::NotANumber(v) => "NaN "@ + render_value(v),
        EvalErrorV::NotCallable(v) => "cannot call "@ + render_value(v),
        EvalErrorV::NoParameters => "function definition without parameters"@,
        EvalErrorV::UnknownOperator(op) => "cannot evaluate operator "@ + kind_name(op),
        EvalErrorV::DepthExceeded => "function calls nested too deeply"@,
    }
}

impl LexError {
    /// The failure as one line of text, naming the offending lexeme.
    pub fn message(&self) -> (r: String)
        ensures
            r@ == lex_message(self@),
    {
        let mut out = String::from_str(
            match self.kind {
                LexErrorKind::Unrecognized => "unrecognized token: ",
                LexErrorKind::UnterminatedString => "unterminated string: ",
                LexErrorKind::MalformedChar => "malformed character literal: ",
            },
        );
        out.append(self.lexeme.as_str());
        out.append(" on line ");
        append_decimal(&mut out, self.line);
        out
    }
}

impl ParseError {
    /// The failure as one line of text.
    pub fn message(&self) -> (r: String)
        ensures
            r@ == parse_message(*self),
    {
        let mut out = match self.kind {
            ParseErrorKind::Expected(k) => {
                let mut s = String::from_str("expected ");
                s.append(kind_name_exec(k));
                s
            },
            ParseErrorKind::ExpectedIdentifier => String::from_str("expected an identifier"),
            ParseErrorKind::ExpectedSingleToken => String::from_str(
                "expected an identifier, number or string",
            ),
            ParseErrorKind::ExpectedCommaOrBracket => String::from_str("expected , or ]"),
            ParseErrorKind::NoArguments => String::from_str("function definition without parameters"),
            ParseErrorKind::InvalidNumber => String::from_str("invalid number"),
            ParseErrorKind::NoProgress => String::from_str("nothing parsed"),
            ParseErrorKind::UnexpectedEof => String::from_str("unexpected end of file"),
        };
        out.append(" at token ");
        append_decimal(&mut out, self.at);
        out
    }
}

impl EvalError {
    /// The failure as one line of text, naming the offending name or value.
    pub fn message(&self) -> (r: String)
        ensures
            r@ == eval_message(self@),
    {
        match self {
            EvalError::UnboundIdentifier(n) => {
                let mut s = String::from_str("unbound identifier: ");
                s.append(n.as_str());
                s
            },
            EvalError::NotANumber(v) => {
                let t = v.render();
                let mut s = String::from_str("NaN ");
                s.append(t.as_str());
                s
            },
            EvalError::NotCallable(v) => {
                let t = v.render();
                let mut s = String::from_str("cannot call ");
                s.append(t.as_str());
                s
            },
            EvalError::NoParameters => String::from_str("function definition without parameters"),
            EvalError::UnknownOperator(op) => {
                let mut s = String::from_str("cannot evaluate operator ");
                s.append(kind_name_exec(*op));
                s
            },
            EvalError::DepthExceeded => String::from_str("function calls nested too deeply"),
        }
    }
}

impl LangError {
    /// The failure as one line of text.
    pub fn message(&self) -> (r: String)
        ensures
            r@ == match self@ {
                LangErrorV::Lex(e) => lex_message(e),
                LangErrorV::Parse(e) => parse_message(e),
                LangErrorV::Eval(e) => eval_message(e),
            },
    {
        match self {
            LangError::Lex(e) => e.message(),
            LangError::Parse(e) => e.message(),
            LangError::Eval(e) => e.message(),
        }
    }
}

} // verus!
