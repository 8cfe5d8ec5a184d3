//! The parser: a backtracking recursive-descent parser from tokens to the
//! syntax tree, over a cursor on the token sequence.
//!
//! Where a production has alternatives, the parser takes a mark of the
//! cursor with `bookmark`, tries the alternatives in order, and on a failure
//! goes back to the mark with `revert` before trying the next one. Each
//! production is stated as a spec function over the token views and an
//! index; each parsing function is proved to give exactly its outcome.
use crate::ast::{
    lines_view, patterns_view, Block, Decl, DeclOrExpr, Destructure, Expr, ExprV, FuncCall,
    FuncDef, Identifier, LineV, List, BinaryExpr,
};
use crate::number::{bits_from_decimal, float_from_decimal, is_decimal_literal};
use crate::token::{token_views, Token, TokenType, TokenView};
use crate::value::{LangValue, ValueV};
use vstd::prelude::*;

verus! {

/// Why parsing fails.
#[derive(Debug, Clone, Copy, PartialEq, Eq, Structural)]
pub enum ParseErrorKind {
    /// A token of the given kind was required.
    Expected(TokenType),
    /// An identifier was required.
    ExpectedIdentifier,
    /// An identifier, number or string was required.
    ExpectedSingleToken,
    /// A `,` or `]` was required inside a list literal.
    ExpectedCommaOrBracket,
    /// A function definition without parameters.
    NoArguments,
    /// A number literal that does not read as a number.
    InvalidNumber,
    /// A sub-parser that succeeded without consuming a token.
    NoProgress,
    /// The tokens ended where one more was required.
    UnexpectedEof,
}

/// A parse failure and the index of the token where it was detected.
#[derive(Debug, Clone, Copy, PartialEq, Eq, Structural)]
pub struct ParseError {
    pub kind: ParseErrorKind,
    pub at: usize,
}

/// What a production yields: a result and the index after it, or a failure.
pub type PRes<T> = Result<(T, int), ParseError>;

pub open spec fn fail<T>(kind: ParseErrorKind, i: int) -> PRes<T> {
    Err(ParseError { kind, at: i as usize })
}

/// The kind of the token at `i`, end-of-file past the end.
pub open spec fn kind_at(ts: Seq<TokenView>, i: int) -> TokenType {
    if 0 <= i < ts.len() {
        ts[i].kind
    } else {
        TokenType::Eof
    }
}

/// Consuming a token of kind `k` at `i`: the index after it, or why not.
pub open spec fn expect_spec(ts: Seq<TokenView>, i: int, k: TokenType) -> Result<int, ParseError> {
    if i < 0 || i >= ts.len() {
        Err(ParseError { kind: ParseErrorKind::UnexpectedEof, at: i as usize })
    } else if ts[i].kind == k {
        Ok(i + 1)
    } else {
        Err(ParseError { kind: ParseErrorKind::Expected(k), at: i as usize })
    }
}

/// A string lexeme without its surrounding quotes.
pub open spec fn strip_quotes(t: Seq<char>) -> Seq<char> {
    if t.len() >= 2 {
        t.subrange(1, t.len() - 1)
    } else {
        Seq::empty()
    }
}

/// The right-nested chain of pairs holding `items`, ending in none.
pub open spec fn pair_chain(items: Seq<ExprV>) -> ExprV
    decreases items.len(),
{
    if items.len() == 0 {
        ExprV::Value(ValueV::Nothing)
    } else {
        ExprV::Pair(Box::new(items[0]), Box::new(pair_chain(items.subrange(1, items.len() as int))))
    }
}

pub open spec fn advanced(i: int, j: int, n: int) -> bool {
    i < j <= n
}

/// The operators of an arithmetic level: 2 for `+ -`, 1 for `* /`.
pub open spec fn level_has(lvl: nat, k: TokenType) -> bool {
    if lvl == 2 {
        k == TokenType::Plus || k == TokenType::Minus
    } else {
        k == TokenType::Star || k == TokenType::Slash
    }
}

/// single-token: identifier | number | string.
pub open spec fn p_single(ts: Seq<TokenView>, i: int) -> PRes<ExprV> {
    let k = kind_at(ts, i);
    if k == TokenType::LiteralIdentifier {
        Ok((ExprV::Ident(ts[i].text), i + 1))
    } else if k == TokenType::LiteralNumber {
        match float_from_decimal(ts[i].text) {
            Some(b) => Ok((ExprV::Value(ValueV::Number(b)), i + 1)),
            None => fail(ParseErrorKind::InvalidNumber, i),
        }
    } else if k == TokenType::LiteralString {
        Ok((ExprV::Value(ValueV::Str(strip_quotes(ts[i].text))), i + 1))
    } else {
        fail(ParseErrorKind::ExpectedSingleToken, i)
    }
}

/// One or more parameter names up to (not including) the `=`.
pub open spec fn p_params(ts: Seq<TokenView>, i: int) -> PRes<Seq<Seq<char>>>
    decreases ts.len() - i,
{
    if kind_at(ts, i) == TokenType::Equal {
        fail(ParseErrorKind::NoArguments, i)
    } else if kind_at(ts, i) != TokenType::LiteralIdentifier {
        fail(ParseErrorKind::ExpectedIdentifier, i)
    } else if kind_at(ts, i + 1) == TokenType::Equal {
        Ok((seq![ts[i].text], i + 1))
    } else {
        match p_params(ts, i + 1) {
            Ok((ps, j)) => Ok((seq![ts[i].text] + ps, j)),
            Err(e) => Err(e),
        }
    }
}

pub proof fn lemma_p_params(ts: Seq<TokenView>, i: int)
    requires
        0 <= i,
    ensures
        p_params(ts, i) matches Ok((ps, j)) ==> i < j < ts.len() && kind_at(ts, j)
            == TokenType::Equal,
    decreases ts.len() - i,
{
    if kind_at(ts, i) == TokenType::LiteralIdentifier && kind_at(ts, i + 1) != TokenType::Equal {
        lemma_p_params(ts, i + 1);
    }
}

/// lines: (declaration | expression)* up to a `}`.
pub open spec fn p_lines(ts: Seq<TokenView>, i: int) -> PRes<Seq<LineV>>
    decreases ts.len() - i, 16nat,
{
    if kind_at(ts, i) == TokenType::RightCurlyBrace {
        Ok((Seq::empty(), i))
    } else {
        match p_line(ts, i) {
            Err(e) => Err(e),
            Ok((l, j)) => if !advanced(i, j, ts.len() as int) {
                fail(ParseErrorKind::NoProgress, i)
            } else {
                match p_lines(ts, j) {
                    Err(e) => Err(e),
                    Ok((ls, k)) => Ok((seq![l] + ls, k)),
                }
            },
        }
    }
}

/// A line of a block: a declaration, else an expression.
pub open spec fn p_line(ts: Seq<TokenView>, i: int) -> PRes<LineV>
    decreases ts.len() - i, 15nat,
{
    match p_decl(ts, i) {
        Ok(r) => Ok(r),
        Err(_) => match p_expr(ts, i) {
            Ok((e, j)) => Ok((LineV::Expr(e), j)),
            Err(e) => Err(e),
        },
    }
}

/// declaration: var-assign, else function-assign.
pub open spec fn p_decl(ts: Seq<TokenView>, i: int) -> PRes<LineV>
    decreases ts.len() - i, 14nat,
{
    match p_var_assign(ts, i) {
        Ok(r) => Ok(r),
        Err(_) => p_fn_assign(ts, i),
    }
}

/// var-assign: pattern `=` value `;`.
pub open spec fn p_var_assign(ts: Seq<TokenView>, i: int) -> PRes<LineV>
    decreases ts.len() - i, 13nat,
{
    if kind_at(ts, i) != TokenType::LiteralIdentifier {
        fail(ParseErrorKind::ExpectedIdentifier, i)
    } else {
        match expect_spec(ts, i + 1, TokenType::Equal) {
            Err(e) => Err(e),
            Ok(m) => match p_value(ts, m) {
                Err(e) => Err(e),
                Ok((v, j)) => match expect_spec(ts, j, TokenType::Semicolon) {
                    Ok(k) => Ok((LineV::Decl(ts[i].text, v), k)),
                    Err(e) => Err(e),
                },
            },
        }
    }
}

/// function-assign: identifier pattern+ `=` value `;`, a declaration of the
/// name bound to a function definition.
pub open spec fn p_fn_assign(ts: Seq<TokenView>, i: int) -> PRes<LineV>
    decreases ts.len() - i, 13nat,
{
    if kind_at(ts, i) != TokenType::LiteralIdentifier {
        fail(ParseErrorKind::ExpectedIdentifier, i)
    } else {
        proof {
            lemma_p_params(ts, i + 1);
        }
        match p_params(ts, i + 1) {
            Err(e) => Err(e),
            Ok((ps, j)) => match p_value(ts, j + 1) {
                Err(e) => Err(e),
                Ok((v, k)) => match expect_spec(ts, k, TokenType::Semicolon) {
                    Ok(m) => Ok((LineV::Decl(ts[i].text, ExprV::Func(ps, Box::new(v))), m)),
                    Err(e) => Err(e),
                },
            },
        }
    }
}

/// assign-value: function-call, else expression.
pub open spec fn p_value(ts: Seq<TokenView>, i: int) -> PRes<ExprV>
    decreases ts.len() - i, 12nat,
{
    match p_call(ts, i) {
        Ok(r) => Ok(r),
        Err(_) => p_expr(ts, i),
    }
}

/// function-call: expression expression+, applied from the left.
pub open spec fn p_call(ts: Seq<TokenView>, i: int) -> PRes<ExprV>
    decreases ts.len() - i, 11nat,
{
    match p_expr(ts, i) {
        Err(e) => Err(e),
        Ok((f, j)) => if !advanced(i, j, ts.len() as int) {
            fail(ParseErrorKind::NoProgress, i)
        } else {
            match p_expr(ts, j) {
                Err(e) => Err(e),
                Ok((a, k)) => if !advanced(j, k, ts.len() as int) {
                    fail(ParseErrorKind::NoProgress, j)
                } else {
                    p_more_args(ts, k, ExprV::Call(Box::new(f), Box::new(a)))
                },
            }
        },
    }
}

/// Further arguments while an expression parses at `i`.
pub open spec fn p_more_args(ts: Seq<TokenView>, i: int, acc: ExprV) -> PRes<ExprV>
    decreases ts.len() - i, 10nat,
{
    match p_expr(ts, i) {
        Err(_) => Ok((acc, i)),
        Ok((a, j)) => if !advanced(i, j, ts.len() as int) {
            Ok((acc, i))
        } else {
            p_more_args(ts, j, ExprV::Call(Box::new(acc), Box::new(a)))
        },
    }
}

/// expression: infix arithmetic over non-binary expressions.
pub open spec fn p_expr(ts: Seq<TokenView>, i: int) -> PRes<ExprV>
    decreases ts.len() - i, 9nat,
{
    p_binary(ts, i, 2)
}

/// One arithmetic level: a left-associative fold of its operands.
pub open spec fn p_binary(ts: Seq<TokenView>, i: int, lvl: nat) -> PRes<ExprV>
    decreases ts.len() - i, 2 + 2 * lvl,
{
    match p_operand(ts, i, lvl) {
        Err(e) => Err(e),
        Ok((l, j)) => if !advanced(i, j, ts.len() as int) {
            fail(ParseErrorKind::NoProgress, i)
        } else {
            p_binary_rest(ts, j, lvl, l)
        },
    }
}

/// An operand of a level: the next level up, or a non-binary expression.
pub open spec fn p_operand(ts: Seq<TokenView>, i: int, lvl: nat) -> PRes<ExprV>
    decreases ts.len() - i, 1 + 2 * lvl,
{
    if lvl >= 2 {
        p_binary(ts, i, 1)
    } else {
        p_atom(ts, i)
    }
}

/// `(op operand)*` after a first operand `acc` of the level.
pub open spec fn p_binary_rest(ts: Seq<TokenView>, i: int, lvl: nat, acc: ExprV) -> PRes<ExprV>
    decreases ts.len() - i, 1 + 2 * lvl,
{
    let k = kind_at(ts, i);
    if level_has(lvl, k) {
        match p_operand(ts, i + 1, lvl) {
            Err(e) => Err(e),
            Ok((r, j)) => if !advanced(i, j, ts.len() as int) {
                fail(ParseErrorKind::NoProgress, i)
            } else {
                p_binary_rest(ts, j, lvl, ExprV::Binary(k, Box::new(acc), Box::new(r)))
            },
        }
    } else {
        Ok((acc, i))
    }
}

/// expression-nonbinary: parens | block | list | single-token, told apart
/// by their first token.
pub open spec fn p_atom(ts: Seq<TokenView>, i: int) -> PRes<ExprV>
    decreases ts.len() - i, 0nat,
{
    let k = kind_at(ts, i);
    if k == TokenType::LeftParen {
        match p_value(ts, i + 1) {
            Err(e) => Err(e),
            Ok((e, j)) => match expect_spec(ts, j, TokenType::RightParen) {
                Ok(m) => Ok((e, m)),
                Err(x) => Err(x),
            },
        }
    } else if k == TokenType::LeftCurlyBrace {
        match p_lines(ts, i + 1) {
            Err(e) => Err(e),
            Ok((ls, j)) => match expect_spec(ts, j, TokenType::RightCurlyBrace) {
                Ok(m) => Ok((ExprV::Block(ls), m)),
                Err(x) => Err(x),
            },
        }
    } else if k == TokenType::LeftSquareBrace {
        match p_expr(ts, i + 1) {
            Err(e) => Err(e),
            Ok((e, j)) => if !advanced(i, j, ts.len() as int) {
                fail(ParseErrorKind::NoProgress, i)
            } else {
                p_list_rest(ts, j, seq![e])
            },
        }
    } else {
        p_single(ts, i)
    }
}

/// `(, expression)* ]` after the first items of a list literal.
pub open spec fn p_list_rest(ts: Seq<TokenView>, i: int, items: Seq<ExprV>) -> PRes<ExprV>
    decreases ts.len() - i, 10nat,
{
    let k = kind_at(ts, i);
    if k == TokenType::Comma {
        match p_expr(ts, i + 1) {
            Err(e) => Err(e),
            Ok((e, j)) => if !advanced(i, j, ts.len() as int) {
                fail(ParseErrorKind::NoProgress, i)
            } else {
                p_list_rest(ts, j, items.push(e))
            },
        }
    } else if k == TokenType::RightSquareBrace {
        Ok((pair_chain(items), i + 1))
    } else {
        fail(ParseErrorKind::ExpectedCommaOrBracket, i)
    }
}

/// A line of a program: a declaration, else a value (a call or an
/// expression).
pub open spec fn p_top_line(ts: Seq<TokenView>, i: int) -> PRes<LineV> {
    match p_decl(ts, i) {
        Ok(r) => Ok(r),
        Err(_) => match p_value(ts, i) {
            Ok((v, j)) => Ok((LineV::Expr(v), j)),
            Err(e) => Err(e),
        },
    }
}

/// The lines of a program from `i` up to the end-of-file token.
pub open spec fn p_top_lines(ts: Seq<TokenView>, i: int) -> PRes<Seq<LineV>>
    decreases ts.len() - i,
{
    if kind_at(ts, i) == TokenType::Eof {
        Ok((Seq::empty(), i))
    } else {
        match p_top_line(ts, i) {
            Err(e) => Err(e),
            Ok((l, j)) => if !advanced(i, j, ts.len() as int) {
                fail(ParseErrorKind::NoProgress, i)
            } else {
                match p_top_lines(ts, j) {
                    Err(e) => Err(e),
                    Ok((ls, k)) => Ok((seq![l] + ls, k)),
                }
            },
        }
    }
}

/// A program: its lines, read as the lines of a block.
pub open spec fn parse_spec(ts: Seq<TokenView>) -> Result<Seq<LineV>, ParseError> {
    match p_top_lines(ts, 0) {
        Ok((ls, _)) => Ok(ls),
        Err(e) => Err(e),
    }
}

/// A parse of an expression met its production's outcome `s`, ending at `idx`.
pub open spec fn expr_out(r: Result<Expr, ParseError>, s: PRes<ExprV>, idx: int) -> bool {
    match s {
        Ok((v, j)) => r matches Ok(x) && x@ == v && idx == j,
        Err(e) => r == Err::<Expr, ParseError>(e),
    }
}

/// A parse of a line met its production's outcome `s`, ending at `idx`.
pub open spec fn line_out(r: Result<DeclOrExpr, ParseError>, s: PRes<LineV>, idx: int) -> bool {
    match s {
        Ok((v, j)) => r matches Ok(x) && x@ == v && idx == j,
        Err(e) => r == Err::<DeclOrExpr, ParseError>(e),
    }
}

/// A parse of lines met its production's outcome `s`, ending at `idx`.
pub open spec fn lines_out(r: Result<Vec<DeclOrExpr>, ParseError>, s: PRes<Seq<LineV>>, idx: int) -> bool {
    match s {
        Ok((v, j)) => r matches Ok(x) && lines_view(x@) == v && idx == j,
        Err(e) => r == Err::<Vec<DeclOrExpr>, ParseError>(e),
    }
}

/// The outcome `rest`, with `done` in front of its lines.
pub open spec fn prepend_lines(done: Seq<LineV>, rest: PRes<Seq<LineV>>) -> PRes<Seq<LineV>> {
    match rest {
        Ok((ls, k)) => Ok((done + ls, k)),
        Err(e) => Err(e),
    }
}

/// A cursor over a token sequence.
pub struct TokenIter {
    tokens: Vec<Token>,
    index: usize,
}

impl TokenIter {
    /// The tokens the cursor runs over.
    pub closed spec fn toks(&self) -> Seq<TokenView> {
        token_views(self.tokens@)
    }

    /// The index of the current token.
    pub closed spec fn pos(&self) -> int {
        self.index as int
    }

    pub closed spec fn wf(&self) -> bool {
        self.index <= self.tokens.len()
    }

    /// A cursor at the first of the tokens.
    pub fn from(vec: Vec<Token>) -> (r: TokenIter)
        ensures
            r.wf(),
            r.toks() == token_views(vec@),
            r.pos() == 0,
    {
        TokenIter { tokens: vec, index: 0 }
    }

    /// The current token, without advancing; past the end, an
    /// unexpected-end-of-file failure.
    pub fn peek(&self) -> (r: Result<Token, ParseError>)
        requires
            self.wf(),
        ensures
            self.pos() < self.toks().len() ==> (r matches Ok(t) && t@ == self.toks()[self.pos()]),
            self.pos() >= self.toks().len() ==> r == Err::<Token, ParseError>(
                ParseError { kind: ParseErrorKind::UnexpectedEof, at: self.pos() as usize },
            ),
    {
        if self.index < self.tokens.len() {
            Ok(self.tokens[self.index].clone())
        } else {
            Err(ParseError { kind: ParseErrorKind::UnexpectedEof, at: self.index })
        }
    }

    /// The kind of the current token; end-of-file past the end.
    pub fn kind(&self) -> (r: TokenType)
        requires
            self.wf(),
        ensures
            r == kind_at(self.toks(), self.pos()),
    {
        if self.index < self.tokens.len() {
            self.tokens[self.index].kind
        } else {
            TokenType::Eof
        }
    }

    /// The lexeme of the current token.
    fn text(&self) -> (r: String)
        requires
            self.wf(),
            self.pos() < self.toks().len(),
        ensures
            r@ == self.toks()[self.pos()].text,
    {
        self.tokens[self.index].literal.clone()
    }

    /// The current token, then advances past it.
    pub fn next(&mut self) -> (r: Option<Token>)
        requires
            old(self).wf(),
        ensures
            final(self).wf(),
            final(self).toks() == old(self).toks(),
            old(self).pos() < old(self).toks().len() ==> (r matches Some(t) && t@ == old(
                self,
            ).toks()[old(self).pos()] && final(self).pos() == old(self).pos() + 1),
            old(self).pos() >= old(self).toks().len() ==> r is None && final(self).pos() == old(
                self,
            ).pos(),
    {
        if self.index < self.tokens.len() {
            let t = self.tokens[self.index].clone();
            self.index = self.index + 1;
            Some(t)
        } else {
            None
        }
    }

    /// The current position, to come back to with `revert`.
    pub fn bookmark(&self) -> (r: usize)
        requires
            self.wf(),
        ensures
            r == self.pos(),
            r <= self.toks().len(),
    {
        self.index
    }

    /// Goes back to a position taken by `bookmark`.
    pub fn revert(&mut self, mark: usize)
        requires
            mark <= old(self).toks().len(),
        ensures
            final(self).wf(),
            final(self).toks() == old(self).toks(),
            final(self).pos() == mark,
    {
        self.index = mark;
    }

    /// Whether the current token has the given kind.
    pub fn matches(&self, kind: TokenType) -> (r: bool)
        requires
            self.wf(),
        ensures
            r == (kind_at(self.toks(), self.pos()) == kind),
    {
        self.kind() == kind
    }

    /// Consumes the current token if it has the given kind; else fails and
    /// stays where it is.
    pub fn expect(&mut self, kind: TokenType) -> (r: Result<(), ParseError>)
        requires
            old(self).wf(),
        ensures
            final(self).wf(),
            final(self).toks() == old(self).toks(),
            match expect_spec(old(self).toks(), old(self).pos(), kind) {
                Ok(j) => r is Ok && final(self).pos() == j,
                Err(e) => r == Err::<(), ParseError>(e) && final(self).pos() == old(self).pos(),
            },
    {
        if self.index >= self.tokens.len() {
            Err(ParseError { kind: ParseErrorKind::UnexpectedEof, at: self.index })
        } else if self.tokens[self.index].kind == kind {
            self.index = self.index + 1;
            Ok(())
        } else {
            Err(ParseError { kind: ParseErrorKind::Expected(kind), at: self.index })
        }
    }

    /// Whether every token has been consumed.
    pub fn at_end(&self) -> (r: bool)
        ensures
            r == (self.pos() >= self.toks().len()),
    {
        self.index >= self.tokens.len()
    }

    /// The last token consumed, if any.
    pub fn prev(&self) -> (r: Option<Token>)
        requires
            self.wf(),
        ensures
            self.pos() > 0 ==> (r matches Some(t) && t@ == self.toks()[self.pos() - 1]),
            self.pos() == 0 ==> r is None,
    {
        if self.index > 0 {
            Some(self.tokens[self.index - 1].clone())
        } else {
            None
        }
    }
}

fn strip_quotes_exec(t: &String) -> (r: String)
    ensures
        r@ == strip_quotes(t@),
{
    let n = t.as_str().unicode_len();
    if n >= 2 {
        String::from_str(t.as_str().substring_char(1, n - 1))
    } else {
        String::new()
    }
}

fn parse_single_token(tokens: &mut TokenIter) -> (r: Result<Expr, ParseError>)
    requires
        old(tokens).wf(),
    ensures
        final(tokens).wf(),
        final(tokens).toks() == old(tokens).toks(),
        expr_out(r, p_single(old(tokens).toks(), old(tokens).pos()), final(tokens).pos()),
        r is Err ==> final(tokens).pos() == old(tokens).pos(),
        kind_at(old(tokens).toks(), old(tokens).pos()) == TokenType::LiteralNumber
            && is_decimal_literal(old(tokens).toks()[old(tokens).pos()].text) ==> r is Ok,
{
    let k = tokens.kind();
    if k == TokenType::LiteralIdentifier {
        let name = tokens.text();
        tokens.next();
        Ok(Expr::Ident(Identifier { name }))
    } else if k == TokenType::LiteralNumber {
        let text = tokens.text();
        match bits_from_decimal(text.as_str()) {
            Some(b) => {
                tokens.next();
                assert(LangValue::LangNumber(b)@ == ValueV::Number(b));
                Ok(Expr::Value(LangValue::LangNumber(b)))
            },
            None => Err(ParseError { kind: ParseErrorKind::InvalidNumber, at: tokens.bookmark() }),
        }
    } else if k == TokenType::LiteralString {
        let text = tokens.text();
        let body = strip_quotes_exec(&text);
        tokens.next();
        assert(LangValue::LangString(body)@ == ValueV::Str(body@));
        Ok(Expr::Value(LangValue::LangString(body)))
    } else {
        Err(ParseError { kind: ParseErrorKind::ExpectedSingleToken, at: tokens.bookmark() })
    }
}

/// identifier: the current token, if it is one.
fn parse_identifier(tokens: &mut TokenIter) -> (r: Result<Identifier, ParseError>)
    requires
        old(tokens).wf(),
    ensures
        final(tokens).wf(),
        final(tokens).toks() == old(tokens).toks(),
        kind_at(old(tokens).toks(), old(tokens).pos()) == TokenType::LiteralIdentifier ==> (r matches Ok(id)
            && id@ == old(tokens).toks()[old(tokens).pos()].text && final(tokens).pos() == old(
            tokens,
        ).pos() + 1),
        kind_at(old(tokens).toks(), old(tokens).pos()) != TokenType::LiteralIdentifier ==> r
            == Err::<Identifier, ParseError>(
            ParseError { kind: ParseErrorKind::ExpectedIdentifier, at: old(tokens).pos() as usize },
        ),
{
    if !tokens.matches(TokenType::LiteralIdentifier) {
        return Err(ParseError { kind: ParseErrorKind::ExpectedIdentifier, at: tokens.bookmark() });
    }
    let name = tokens.text();
    tokens.next();
    Ok(Identifier { name })
}

/// destructure: a pattern, so far a single identifier.
fn parse_destructure(tokens: &mut TokenIter) -> (r: Result<Destructure, ParseError>)
    requires
        old(tokens).wf(),
    ensures
        final(tokens).wf(),
        final(tokens).toks() == old(tokens).toks(),
        kind_at(old(tokens).toks(), old(tokens).pos()) == TokenType::LiteralIdentifier ==> (r matches Ok(d)
            && d@ == old(tokens).toks()[old(tokens).pos()].text && final(tokens).pos() == old(
            tokens,
        ).pos() + 1),
        kind_at(old(tokens).toks(), old(tokens).pos()) != TokenType::LiteralIdentifier ==> r
            == Err::<Destructure, ParseError>(
            ParseError { kind: ParseErrorKind::ExpectedIdentifier, at: old(tokens).pos() as usize },
        ),
{
    match parse_identifier(tokens) {
        Ok(id) => Ok(Destructure::Name(id)),
        Err(e) => Err(e),
    }
}

/// One or more parameter names up to the `=`.
fn parse_params(tokens: &mut TokenIter) -> (r: Result<Vec<Destructure>, ParseError>)
    requires
        old(tokens).wf(),
    ensures
        final(tokens).wf(),
        final(tokens).toks() == old(tokens).toks(),
        match p_params(old(tokens).toks(), old(tokens).pos()) {
            Ok((ps, j)) => r matches Ok(v) && patterns_view(v@) == ps && final(tokens).pos() == j,
            Err(e) => r == Err::<Vec<Destructure>, ParseError>(e),
        },
    decreases old(tokens).toks().len() - old(tokens).pos(),
{
    if tokens.matches(TokenType::Equal) {
        return Err(ParseError { kind: ParseErrorKind::NoArguments, at: tokens.bookmark() });
    }
    let d = match parse_destructure(tokens) {
        Ok(d) => d,
        Err(e) => {
            return Err(e);
        },
    };
    if tokens.matches(TokenType::Equal) {
        let mut v: Vec<Destructure> = Vec::new();
        v.push(d);
        assert(patterns_view(v@) =~= seq![d@]);
        return Ok(v);
    }
    match parse_params(tokens) {
        Ok(mut rest) => {
            let ghost before = rest@;
            rest.insert(0, d);
            assert(patterns_view(rest@) =~= seq![d@] + patterns_view(before));
            Ok(rest)
        },
        Err(e) => Err(e),
    }
}

/// lines: (declaration | expression)* up to a `}`.
fn parse_block_lines(tokens: &mut TokenIter) -> (r: Result<Vec<DeclOrExpr>, ParseError>)
    requires
        old(tokens).wf(),
    ensures
        final(tokens).wf(),
        final(tokens).toks() == old(tokens).toks(),
        lines_out(r, p_lines(old(tokens).toks(), old(tokens).pos()), final(tokens).pos()),
    decreases old(tokens).toks().len() - old(tokens).pos(), 16nat,
{
    let ghost ts = tokens.toks();
    let ghost i0 = tokens.pos();
    let mut lines: Vec<DeclOrExpr> = Vec::new();
    assert(prepend_lines(lines_view(lines@), p_lines(ts, i0)) == p_lines(ts, i0)) by {
        match p_lines(ts, i0) {
            Ok((ls, k)) => {
                assert(Seq::<LineV>::empty() + ls =~= ls);
            },
            Err(_) => {},
        }
    }
    loop
        invariant
            tokens.wf(),
            tokens.toks() == ts,
            ts == old(tokens).toks(),
            i0 == old(tokens).pos(),
            i0 <= tokens.pos(),
            ts.len() == tokens.tokens.len(),
            p_lines(ts, i0) == prepend_lines(lines_view(lines@), p_lines(ts, tokens.pos())),
        decreases ts.len() - tokens.pos(),
    {
        if tokens.matches(TokenType::RightCurlyBrace) {
            assert(lines_view(lines@) + Seq::<LineV>::empty() =~= lines_view(lines@));
            return Ok(lines);
        }
        let i = tokens.bookmark();
        let line = match parse_decl_or_expr(tokens) {
            Ok(l) => l,
            Err(e) => {
                return Err(e);
            },
        };
        if !(i < tokens.bookmark() && tokens.bookmark() <= tokens.tokens.len()) {
            return Err(ParseError { kind: ParseErrorKind::NoProgress, at: i });
        }
        proof {
            assert(lines@.push(line).drop_last() =~= lines@);
            match p_lines(ts, tokens.pos()) {
                Ok((ls, k)) => {
                    assert(lines_view(lines@) + (seq![line@] + ls) =~= lines_view(lines@).push(
                        line@,
                    ) + ls);
                },
                Err(_) => {},
            }
        }
        lines.push(line);
    }
}

/// A line of a block: a declaration, else an expression.
fn parse_decl_or_expr(tokens: &mut TokenIter) -> (r: Result<DeclOrExpr, ParseError>)
    requires
        old(tokens).wf(),
    ensures
        final(tokens).wf(),
        final(tokens).toks() == old(tokens).toks(),
        line_out(r, p_line(old(tokens).toks(), old(tokens).pos()), final(tokens).pos()),
        r is Err ==> final(tokens).pos() == old(tokens).pos(),
    decreases old(tokens).toks().len() - old(tokens).pos(), 15nat,
{
    let mark = tokens.bookmark();
    match parse_declaration(tokens) {
        Ok(d) => Ok(d),
        Err(_) => {
            tokens.revert(mark);
            match parse_expression(tokens) {
                Ok(e) => Ok(DeclOrExpr::Expression(e)),
                Err(e) => {
                    tokens.revert(mark);
                    Err(e)
                },
            }
        },
    }
}

/// declaration: var-assign, else function-assign.
fn parse_declaration(tokens: &mut TokenIter) -> (r: Result<DeclOrExpr, ParseError>)
    requires
        old(tokens).wf(),
    ensures
        final(tokens).wf(),
        final(tokens).toks() == old(tokens).toks(),
        line_out(r, p_decl(old(tokens).toks(), old(tokens).pos()), final(tokens).pos()),
        r is Err ==> final(tokens).pos() == old(tokens).pos(),
    decreases old(tokens).toks().len() - old(tokens).pos(), 14nat,
{
    let mark = tokens.bookmark();
    match parse_var_assign(tokens) {
        Ok(d) => Ok(d),
        Err(_) => {
            tokens.revert(mark);
            match parse_fn_assign(tokens) {
                Ok(d) => Ok(d),
                Err(e) => {
                    tokens.revert(mark);
                    Err(e)
                },
            }
        },
    }
}

/// var-assign: pattern `=` value `;`.
fn parse_var_assign(tokens: &mut TokenIter) -> (r: Result<DeclOrExpr, ParseError>)
    requires
        old(tokens).wf(),
    ensures
        final(tokens).wf(),
        final(tokens).toks() == old(tokens).toks(),
        line_out(r, p_var_assign(old(tokens).toks(), old(tokens).pos()), final(tokens).pos()),
    decreases old(tokens).toks().len() - old(tokens).pos(), 13nat,
{
    let left = match parse_destructure(tokens) {
        Ok(d) => d,
        Err(e) => {
            return Err(e);
        },
    };
    match tokens.expect(TokenType::Equal) {
        Ok(()) => {},
        Err(e) => {
            return Err(e);
        },
    }
    let right = match parse_assign_value(tokens) {
        Ok(v) => v,
        Err(e) => {
            return Err(e);
        },
    };
    match tokens.expect(TokenType::Semicolon) {
        Ok(()) => {},
        Err(e) => {
            return Err(e);
        },
    }
    Ok(DeclOrExpr::Declaration(Decl { left, right: Box::new(right) }))
}

/// function-assign: identifier pattern+ `=` value `;`.
fn parse_fn_assign(tokens: &mut TokenIter) -> (r: Result<DeclOrExpr, ParseError>)
    requires
        old(tokens).wf(),
    ensures
        final(tokens).wf(),
        final(tokens).toks() == old(tokens).toks(),
        line_out(r, p_fn_assign(old(tokens).toks(), old(tokens).pos()), final(tokens).pos()),
    decreases old(tokens).toks().len() - old(tokens).pos(), 13nat,
{
    let name = match parse_identifier(tokens) {
        Ok(id) => id,
        Err(e) => {
            return Err(e);
        },
    };
    proof {
        lemma_p_params(tokens.toks(), tokens.pos());
    }
    let args = match parse_params(tokens) {
        Ok(a) => a,
        Err(e) => {
            return Err(e);
        },
    };
    tokens.next();
    let body = match parse_assign_value(tokens) {
        Ok(v) => v,
        Err(e) => {
            return Err(e);
        },
    };
    match tokens.expect(TokenType::Semicolon) {
        Ok(()) => {},
        Err(e) => {
            return Err(e);
        },
    }
    Ok(
        DeclOrExpr::Declaration(
            Decl {
                left: Destructure::Name(name),
                right: Box::new(Expr::Func(FuncDef { args, body: Box::new(body) })),
            },
        ),
    )
}

/// assign-value: function-call, else expression.
fn parse_assign_value(tokens: &mut TokenIter) -> (r: Result<Expr, ParseError>)
    requires
        old(tokens).wf(),
    ensures
        final(tokens).wf(),
        final(tokens).toks() == old(tokens).toks(),
        expr_out(r, p_value(old(tokens).toks(), old(tokens).pos()), final(tokens).pos()),
        r is Err ==> final(tokens).pos() == old(tokens).pos(),
    decreases old(tokens).toks().len() - old(tokens).pos(), 12nat,
{
    let mark = tokens.bookmark();
    match parse_fn_call(tokens) {
        Ok(e) => Ok(e),
        Err(_) => {
            tokens.revert(mark);
            match parse_expression(tokens) {
                Ok(e) => Ok(e),
                Err(e) => {
                    tokens.revert(mark);
                    Err(e)
                },
            }
        },
    }
}

/// function-call: expression expression+, applied from the left.
fn parse_fn_call(tokens: &mut TokenIter) -> (r: Result<Expr, ParseError>)
    requires
        old(tokens).wf(),
    ensures
        final(tokens).wf(),
        final(tokens).toks() == old(tokens).toks(),
        expr_out(r, p_call(old(tokens).toks(), old(tokens).pos()), final(tokens).pos()),
    decreases old(tokens).toks().len() - old(tokens).pos(), 11nat,
{
    let ghost ts = tokens.toks();
    let i = tokens.bookmark();
    let func = match parse_expression(tokens) {
        Ok(e) => e,
        Err(e) => {
            return Err(e);
        },
    };
    if !(i < tokens.bookmark() && tokens.bookmark() <= tokens.tokens.len()) {
        return Err(ParseError { kind: ParseErrorKind::NoProgress, at: i });
    }
    let j = tokens.bookmark();
    let arg = match parse_expression(tokens) {
        Ok(e) => e,
        Err(e) => {
            return Err(e);
        },
    };
    if !(j < tokens.bookmark() && tokens.bookmark() <= tokens.tokens.len()) {
        return Err(ParseError { kind: ParseErrorKind::NoProgress, at: j });
    }
    let mut acc = Expr::Call(FuncCall { func: Box::new(func), arg: Box::new(arg) });
    let ghost k0 = tokens.pos();
    let ghost acc0 = acc@;
    loop
        invariant
            tokens.wf(),
            tokens.toks() == ts,
            ts == old(tokens).toks(),
            ts.len() == tokens.tokens.len(),
            i == old(tokens).pos(),
            i < tokens.pos(),
            p_call(ts, i as int) == p_more_args(ts, tokens.pos(), acc@),
        decreases ts.len() - tokens.pos(),
    {
        let mark = tokens.bookmark();
        match parse_expression(tokens) {
            Err(_) => {
                tokens.revert(mark);
                return Ok(acc);
            },
            Ok(a) => {
                if !(mark < tokens.bookmark() && tokens.bookmark() <= tokens.tokens.len()) {
                    tokens.revert(mark);
                    return Ok(acc);
                }
                acc = Expr::Call(FuncCall { func: Box::new(acc), arg: Box::new(a) });
            },
        }
    }
}

/// expression: infix arithmetic.
fn parse_expression(tokens: &mut TokenIter) -> (r: Result<Expr, ParseError>)
    requires
        old(tokens).wf(),
    ensures
        final(tokens).wf(),
        final(tokens).toks() == old(tokens).toks(),
        expr_out(r, p_expr(old(tokens).toks(), old(tokens).pos()), final(tokens).pos()),
    decreases old(tokens).toks().len() - old(tokens).pos(), 9nat,
{
    parse_infix_arithmetic(tokens)
}

/// infix-arithmetic: `+ -` over `* /` over non-binary expressions.
fn parse_infix_arithmetic(tokens: &mut TokenIter) -> (r: Result<Expr, ParseError>)
    requires
        old(tokens).wf(),
    ensures
        final(tokens).wf(),
        final(tokens).toks() == old(tokens).toks(),
        expr_out(r, p_binary(old(tokens).toks(), old(tokens).pos(), 2), final(tokens).pos()),
    decreases old(tokens).toks().len() - old(tokens).pos(), 8nat,
{
    binary_parser(tokens, 2)
}

/// An operand of an arithmetic level.
fn parse_operand(tokens: &mut TokenIter, lvl: u8) -> (r: Result<Expr, ParseError>)
    requires
        old(tokens).wf(),
        1 <= lvl <= 2,
    ensures
        final(tokens).wf(),
        final(tokens).toks() == old(tokens).toks(),
        expr_out(r, p_operand(old(tokens).toks(), old(tokens).pos(), lvl as nat), final(tokens).pos()),
    decreases old(tokens).toks().len() - old(tokens).pos(), 1 + 2 * lvl,
{
    if lvl >= 2 {
        binary_parser(tokens, 1)
    } else {
        parse_expression_nonbinary(tokens)
    }
}

fn level_has_exec(lvl: u8, k: TokenType) -> (r: bool)
    ensures
        r == level_has(lvl as nat, k),
{
    if lvl == 2 {
        k == TokenType::Plus || k == TokenType::Minus
    } else {
        k == TokenType::Star || k == TokenType::Slash
    }
}

/// One arithmetic level: its operands folded from the left.
fn binary_parser(tokens: &mut TokenIter, lvl: u8) -> (r: Result<Expr, ParseError>)
    requires
        old(tokens).wf(),
        1 <= lvl <= 2,
    ensures
        final(tokens).wf(),
        final(tokens).toks() == old(tokens).toks(),
        expr_out(r, p_binary(old(tokens).toks(), old(tokens).pos(), lvl as nat), final(tokens).pos()),
    decreases old(tokens).toks().len() - old(tokens).pos(), 2 + 2 * lvl,
{
    let ghost ts = tokens.toks();
    let i = tokens.bookmark();
    let mut expr = match parse_operand(tokens, lvl) {
        Ok(e) => e,
        Err(e) => {
            return Err(e);
        },
    };
    if !(i < tokens.bookmark() && tokens.bookmark() <= tokens.tokens.len()) {
        return Err(ParseError { kind: ParseErrorKind::NoProgress, at: i });
    }
    loop
        invariant
            tokens.wf(),
            tokens.toks() == ts,
            ts == old(tokens).toks(),
            ts.len() == tokens.tokens.len(),
            i == old(tokens).pos(),
            i < tokens.pos(),
            1 <= lvl <= 2,
            p_binary(ts, i as int, lvl as nat) == p_binary_rest(ts, tokens.pos(), lvl as nat, expr@),
        decreases ts.len() - tokens.pos(),
    {
        let k = tokens.kind();
        if !level_has_exec(lvl, k) {
            return Ok(expr);
        }
        let at = tokens.bookmark();
        tokens.next();
        let right = match parse_operand(tokens, lvl) {
            Ok(e) => e,
            Err(e) => {
                return Err(e);
            },
        };
        if !(at < tokens.bookmark() && tokens.bookmark() <= tokens.tokens.len()) {
            return Err(ParseError { kind: ParseErrorKind::NoProgress, at });
        }
        expr = Expr::Binary(BinaryExpr { oper: k, left: Box::new(expr), right: Box::new(right) });
    }
}

/// expression-nonbinary: parens | block | list | single-token.
fn parse_expression_nonbinary(tokens: &mut TokenIter) -> (r: Result<Expr, ParseError>)
    requires
        old(tokens).wf(),
    ensures
        final(tokens).wf(),
        final(tokens).toks() == old(tokens).toks(),
        expr_out(r, p_atom(old(tokens).toks(), old(tokens).pos()), final(tokens).pos()),
    decreases old(tokens).toks().len() - old(tokens).pos(), 1nat,
{
    let k = tokens.kind();
    if k == TokenType::LeftParen {
        parse_parens(tokens)
    } else if k == TokenType::LeftCurlyBrace {
        parse_block(tokens)
    } else if k == TokenType::LeftSquareBrace {
        parse_list(tokens)
    } else {
        parse_single_token(tokens)
    }
}

/// parens: `(` (function-call | expression) `)`.
fn parse_parens(tokens: &mut TokenIter) -> (r: Result<Expr, ParseError>)
    requires
        old(tokens).wf(),
        kind_at(old(tokens).toks(), old(tokens).pos()) == TokenType::LeftParen,
    ensures
        final(tokens).wf(),
        final(tokens).toks() == old(tokens).toks(),
        expr_out(r, p_atom(old(tokens).toks(), old(tokens).pos()), final(tokens).pos()),
    decreases old(tokens).toks().len() - old(tokens).pos(), 0nat,
{
    tokens.next();
    let e = match parse_assign_value(tokens) {
        Ok(e) => e,
        Err(e) => {
            return Err(e);
        },
    };
    match tokens.expect(TokenType::RightParen) {
        Ok(()) => Ok(e),
        Err(e) => Err(e),
    }
}

/// block: `{` (declaration | expression)* `}`.
fn parse_block(tokens: &mut TokenIter) -> (r: Result<Expr, ParseError>)
    requires
        old(tokens).wf(),
        kind_at(old(tokens).toks(), old(tokens).pos()) == TokenType::LeftCurlyBrace,
    ensures
        final(tokens).wf(),
        final(tokens).toks() == old(tokens).toks(),
        expr_out(r, p_atom(old(tokens).toks(), old(tokens).pos()), final(tokens).pos()),
    decreases old(tokens).toks().len() - old(tokens).pos(), 0nat,
{
    tokens.next();
    let lines = match parse_block_lines(tokens) {
        Ok(ls) => ls,
        Err(e) => {
            return Err(e);
        },
    };
    match tokens.expect(TokenType::RightCurlyBrace) {
        Ok(()) => Ok(Expr::Block(Block { lines })),
        Err(e) => Err(e),
    }
}

/// list-literal: `[` expression (`,` expression)* `]`, as a chain of pairs.
fn parse_list(tokens: &mut TokenIter) -> (r: Result<Expr, ParseError>)
    requires
        old(tokens).wf(),
        kind_at(old(tokens).toks(), old(tokens).pos()) == TokenType::LeftSquareBrace,
    ensures
        final(tokens).wf(),
        final(tokens).toks() == old(tokens).toks(),
        expr_out(r, p_atom(old(tokens).toks(), old(tokens).pos()), final(tokens).pos()),
    decreases old(tokens).toks().len() - old(tokens).pos(), 0nat,
{
    let ghost ts = tokens.toks();
    let i = tokens.bookmark();
    tokens.next();
    let first = match parse_expression(tokens) {
        Ok(e) => e,
        Err(e) => {
            return Err(e);
        },
    };
    if !(i < tokens.bookmark() && tokens.bookmark() <= tokens.tokens.len()) {
        return Err(ParseError { kind: ParseErrorKind::NoProgress, at: i });
    }
    let ghost sv: Seq<ExprV> = seq![first@];
    let mut items: Vec<Expr> = Vec::new();
    items.push(first);
    loop
        invariant
            tokens.wf(),
            tokens.toks() == ts,
            ts == old(tokens).toks(),
            ts.len() == tokens.tokens.len(),
            i == old(tokens).pos(),
            i < tokens.pos(),
            items@.len() == sv.len(),
            forall|j: int| 0 <= j < sv.len() ==> #[trigger] items@[j]@ == sv[j],
            p_atom(ts, i as int) == p_list_rest(ts, tokens.pos(), sv),
        decreases ts.len() - tokens.pos(),
    {
        let k = tokens.kind();
        if k == TokenType::Comma {
            let at = tokens.bookmark();
            tokens.next();
            let e = match parse_expression(tokens) {
                Ok(e) => e,
                Err(e) => {
                    return Err(e);
                },
            };
            if !(at < tokens.bookmark() && tokens.bookmark() <= tokens.tokens.len()) {
                return Err(ParseError { kind: ParseErrorKind::NoProgress, at });
            }
            proof {
                sv = sv.push(e@);
            }
            items.push(e);
        } else if k == TokenType::RightSquareBrace {
            tokens.next();
            let mut out = Expr::Value(LangValue::LangNone);
            let ghost n = sv.len() as int;
            assert(sv.subrange(n, n) =~= Seq::<ExprV>::empty());
            assert(LangValue::LangNone@ == ValueV::Nothing);
            assert(out@ == pair_chain(sv.subrange(n, n)));
            while items.len() > 0
                invariant
                    items@.len() <= sv.len(),
                    n == sv.len(),
                    forall|j: int| 0 <= j < items@.len() ==> #[trigger] items@[j]@ == sv[j],
                    out@ == pair_chain(sv.subrange(items@.len() as int, n)),
                decreases items.len(),
            {
                let ghost m = items@.len() as int;
                assert(items@[m - 1]@ == sv[m - 1]);
                let item = items.pop().unwrap();
                assert(item@ == sv[m - 1]);
                assert(sv.subrange(m - 1, n).subrange(1, n - m + 1) =~= sv.subrange(m, n));
                out = Expr::Pair(List { left: Box::new(item), right: Box::new(out) });
            }
            assert(sv.subrange(0, n) =~= sv);
            return Ok(out);
        } else {
            return Err(ParseError { kind: ParseErrorKind::ExpectedCommaOrBracket, at: tokens.bookmark() });
        }
    }
}

/// A line of a program: a declaration, else a value.
fn parse_top_line(tokens: &mut TokenIter) -> (r: Result<DeclOrExpr, ParseError>)
    requires
        old(tokens).wf(),
    ensures
        final(tokens).wf(),
        final(tokens).toks() == old(tokens).toks(),
        line_out(r, p_top_line(old(tokens).toks(), old(tokens).pos()), final(tokens).pos()),
        r is Err ==> final(tokens).pos() == old(tokens).pos(),
{
    let mark = tokens.bookmark();
    match parse_declaration(tokens) {
        Ok(d) => Ok(d),
        Err(_) => {
            tokens.revert(mark);
            match parse_assign_value(tokens) {
                Ok(e) => Ok(DeclOrExpr::Expression(e)),
                Err(e) => {
                    tokens.revert(mark);
                    Err(e)
                },
            }
        },
    }
}

/// Parses a program from the cursor's position: its lines up to the
/// end-of-file token.
#[verifier::rlimit(60)]
pub fn parse_file(tokens: &mut TokenIter) -> (r: Result<Vec<DeclOrExpr>, ParseError>)
    requires
        old(tokens).wf(),
    ensures
        final(tokens).wf(),
        final(tokens).toks() == old(tokens).toks(),
        lines_out(r, p_top_lines(old(tokens).toks(), old(tokens).pos()), final(tokens).pos()),
{
    let ghost ts = tokens.toks();
    let ghost i0 = tokens.pos();
    let mut lines: Vec<DeclOrExpr> = Vec::new();
    assert(prepend_lines(lines_view(lines@), p_top_lines(ts, i0)) == p_top_lines(ts, i0)) by {
        match p_top_lines(ts, i0) {
            Ok((ls, k)) => {
                assert(Seq::<LineV>::empty() + ls =~= ls);
            },
            Err(_) => {},
        }
    }
    loop
        invariant
            tokens.wf(),
            tokens.toks() == ts,
            ts == old(tokens).toks(),
            i0 == old(tokens).pos(),
            ts.len() == tokens.tokens.len(),
            p_top_lines(ts, i0) == prepend_lines(lines_view(lines@), p_top_lines(ts, tokens.pos())),
        decreases ts.len() - tokens.pos(),
    {
        if tokens.matches(TokenType::Eof) {
            assert(lines_view(lines@) + Seq::<LineV>::empty() =~= lines_view(lines@));
            return Ok(lines);
        }
        let i = tokens.bookmark();
        let line = match parse_top_line(tokens) {
            Ok(l) => l,
            Err(e) => {
                return Err(e);
            },
        };
        if !(i < tokens.bookmark() && tokens.bookmark() <= tokens.tokens.len()) {
            return Err(ParseError { kind: ParseErrorKind::NoProgress, at: i });
        }
        proof {
            assert(lines@.push(line).drop_last() =~= lines@);
            match p_top_lines(ts, tokens.pos()) {
                Ok((ls, k)) => {
                    assert(lines_view(lines@) + (seq![line@] + ls) =~= lines_view(lines@).push(
                        line@,
                    ) + ls);
                },
                Err(_) => {},
            }
        }
        lines.push(line);
    }
}

} // verus!
