//! The scanner: source text to tokens.
use crate::text::{chars_of, push_char};
use crate::token::{token_views, Token, TokenType, TokenView};
use vstd::prelude::*;

verus! {

// ---------------------------------------------------------------------------
// Character classes.
pub open spec fn is_space(c: char) -> bool {
    c == ' ' || c == '\t' || c == '\r' || c == '\n'
}

pub open spec fn is_digit(c: char) -> bool {
    '0' <= c && c <= '9'
}

pub open spec fn is_alpha(c: char) -> bool {
    ('a' <= c && c <= 'z') || ('A' <= c && c <= 'Z')
}

pub open spec fn is_ident_start(c: char) -> bool {
    is_alpha(c) || c == '$'
}

pub open spec fn is_ident_char(c: char) -> bool {
    is_alpha(c) || is_digit(c) || c == '-' || c == '_' || c == '\''
}

/// The kind of a token that is one character and never starts a longer one.
pub open spec fn single_kind(c: char) -> Option<TokenType> {
    if c == '(' {
        Some(TokenType::LeftParen)
    } else if c == ')' {
        Some(TokenType::RightParen)
    } else if c == '[' {
        Some(TokenType::LeftSquareBrace)
    } else if c == ']' {
        Some(TokenType::RightSquareBrace)
    } else if c == '{' {
        Some(TokenType::LeftCurlyBrace)
    } else if c == '}' {
        Some(TokenType::RightCurlyBrace)
    } else if c == ':' {
        Some(TokenType::Colon)
    } else if c == '+' {
        Some(TokenType::Plus)
    } else if c == '*' {
        Some(TokenType::Star)
    } else if c == '/' {
        Some(TokenType::Slash)
    } else if c == ';' {
        Some(TokenType::Semicolon)
    } else if c == ',' {
        Some(TokenType::Comma)
    } else if c == '\\' {
        Some(TokenType::Backslash)
    } else if c == '_' {
        Some(TokenType::Underscore)
    } else {
        None
    }
}

/// The kind of an identifier-shaped lexeme: a reserved word or an identifier.
pub open spec fn word_kind(w: Seq<char>) -> TokenType {
    if w == "true"@ {
        TokenType::True
    } else if w == "false"@ {
        TokenType::False
    } else if w == "if"@ {
        TokenType::If
    } else if w == "then"@ {
        TokenType::Then
    } else if w == "else"@ {
        TokenType::Else
    } else if w == "let"@ {
        TokenType::Let
    } else if w == "in"@ {
        TokenType::In
    } else if w == "yield"@ {
        TokenType::Yield
    } else {
        TokenType::LiteralIdentifier
    }
}

// ---------------------------------------------------------------------------
// Where multi-character lexemes end.
/// The first index at or after `i` that does not hold a digit.
pub open spec fn digits_end(s: Seq<char>, i: int) -> int
    decreases s.len() - i,
{
    if 0 <= i < s.len() && is_digit(s[i]) {
        digits_end(s, i + 1)
    } else {
        i
    }
}

/// The first index at or after `i` that does not hold an identifier character.
pub open spec fn ident_end(s: Seq<char>, i: int) -> int
    decreases s.len() - i,
{
    if 0 <= i < s.len() && is_ident_char(s[i]) {
        ident_end(s, i + 1)
    } else {
        i
    }
}

/// The end of a number whose first digit is at `i`: digits, then optionally
/// a point followed by at least one digit.
pub open spec fn number_end(s: Seq<char>, i: int) -> int {
    let j = digits_end(s, i + 1);
    if j + 1 < s.len() && s[j] == '.' && is_digit(s[j + 1]) {
        digits_end(s, j + 2)
    } else {
        j
    }
}

/// The end of a string literal whose body starts at `i` (just after the
/// opening quote), or `None` if the source ends first. A backslash takes
/// the character after it verbatim.
pub open spec fn string_end(s: Seq<char>, i: int) -> Option<int>
    decreases s.len() - i,
{
    if i < 0 || i >= s.len() {
        None
    } else if s[i] == '"' {
        Some(i + 1)
    } else if s[i] == '\\' {
        if i + 1 < s.len() {
            string_end(s, i + 2)
        } else {
            None
        }
    } else {
        string_end(s, i + 1)
    }
}

/// The end of a line comment whose text starts at `i`: just past the next
/// newline, or the end of the source.
pub open spec fn comment_end(s: Seq<char>, i: int) -> int
    decreases s.len() - i,
{
    if i < 0 || i >= s.len() {
        s.len() as int
    } else if s[i] == '\n' {
        i + 1
    } else {
        comment_end(s, i + 1)
    }
}

/// The number of newlines in a text.
pub open spec fn newlines(t: Seq<char>) -> nat
    decreases t.len(),
{
    if t.len() == 0 {
        0
    } else {
        newlines(t.drop_last()) + if t.last() == '\n' {
            1nat
        } else {
            0nat
        }
    }
}

/// Why the scanner fails.
#[derive(Debug, Clone, Copy, PartialEq, Eq, Structural)]
pub enum LexErrorKind {
    /// A character that starts no token.
    Unrecognized,
    /// A string literal that the source ends inside.
    UnterminatedString,
    /// A character literal without its closing quote.
    MalformedChar,
}

/// One step of the scanner from a position: text to skip, a token, or a
/// failure, each with the position where it ends.
pub enum LexStep {
    Skip(int),
    Tok(TokenType, int),
    Fail(LexErrorKind, int),
}

/// The end of the two-character token `c` `d` if `d` follows at `i + 1`,
/// else the one-character token.
pub open spec fn pair_or(s: Seq<char>, i: int, d: char, two: TokenType, one: TokenType) -> LexStep {
    if i + 1 < s.len() && s[i + 1] == d {
        LexStep::Tok(two, i + 2)
    } else {
        LexStep::Tok(one, i + 1)
    }
}

/// A character literal opened at `i`.
pub open spec fn char_step(s: Seq<char>, i: int) -> LexStep {
    if i + 1 >= s.len() {
        LexStep::Fail(LexErrorKind::MalformedChar, s.len() as int)
    } else {
        let k = if s[i + 1] == '\\' {
            i + 3
        } else {
            i + 2
        };
        if k >= s.len() {
            LexStep::Fail(LexErrorKind::MalformedChar, s.len() as int)
        } else if s[k] != '\'' {
            LexStep::Fail(LexErrorKind::MalformedChar, k + 1)
        } else {
            LexStep::Tok(TokenType::LiteralChar, k + 1)
        }
    }
}

/// The scanner's step at position `i` of `s` (where `i < s.len()`).
pub open spec fn lex(s: Seq<char>, i: int) -> LexStep {
    let c = s[i];
    if is_space(c) {
        LexStep::Skip(i + 1)
    } else if c == '-' {
        if i + 1 < s.len() && s[i + 1] == '-' {
            LexStep::Skip(comment_end(s, i + 2))
        } else {
            pair_or(s, i, '>', TokenType::Arrow, TokenType::Minus)
        }
    } else if single_kind(c) is Some {
        LexStep::Tok(single_kind(c)->0, i + 1)
    } else if c == '"' {
        match string_end(s, i + 1) {
            Some(j) => LexStep::Tok(TokenType::LiteralString, j),
            None => LexStep::Fail(LexErrorKind::UnterminatedString, s.len() as int),
        }
    } else if c == '\'' {
        char_step(s, i)
    } else if c == '!' {
        if i + 1 < s.len() && s[i + 1] == '=' {
            LexStep::Tok(TokenType::NotEqual, i + 2)
        } else {
            LexStep::Fail(LexErrorKind::Unrecognized, i + 1)
        }
    } else if c == '=' {
        pair_or(s, i, '=', TokenType::EqualEqual, TokenType::Equal)
    } else if c == '<' {
        pair_or(s, i, '=', TokenType::LessEq, TokenType::Less)
    } else if c == '>' {
        pair_or(s, i, '=', TokenType::GreaterEq, TokenType::Greater)
    } else if c == '|' {
        if i + 1 < s.len() && s[i + 1] == '|' {
            LexStep::Tok(TokenType::Or, i + 2)
        } else {
            pair_or(s, i, '>', TokenType::PipeForwards, TokenType::Pipe)
        }
    } else if is_digit(c) {
        LexStep::Tok(TokenType::LiteralNumber, number_end(s, i))
    } else if is_ident_start(c) {
        let j = ident_end(s, i + 1);
        LexStep::Tok(word_kind(s.subrange(i, j)), j)
    } else {
        LexStep::Fail(LexErrorKind::Unrecognized, i + 1)
    }
}

/// Where a step ends.
pub open spec fn step_end(st: LexStep) -> int {
    match st {
        LexStep::Skip(j) => j,
        LexStep::Tok(_, j) => j,
        LexStep::Fail(_, j) => j,
    }
}

pub proof fn lemma_digits_end(s: Seq<char>, i: int)
    requires
        0 <= i <= s.len(),
    ensures
        i <= digits_end(s, i) <= s.len(),
        digits_end(s, i) < s.len() ==> !is_digit(s[digits_end(s, i)]),
    decreases s.len() - i,
{
    if i < s.len() && is_digit(s[i]) {
        lemma_digits_end(s, i + 1);
    }
}

pub proof fn lemma_ident_end(s: Seq<char>, i: int)
    requires
        0 <= i <= s.len(),
    ensures
        i <= ident_end(s, i) <= s.len(),
        ident_end(s, i) < s.len() ==> !is_ident_char(s[ident_end(s, i)]),
    decreases s.len() - i,
{
    if i < s.len() && is_ident_char(s[i]) {
        lemma_ident_end(s, i + 1);
    }
}

pub proof fn lemma_string_end(s: Seq<char>, i: int)
    requires
        0 <= i,
    ensures
        string_end(s, i) matches Some(j) ==> i < j <= s.len(),
    decreases s.len() - i,
{
    if 0 <= i < s.len() && s[i] != '"' {
        if s[i] == '\\' {
            if i + 1 < s.len() {
                lemma_string_end(s, i + 2);
            }
        } else {
            lemma_string_end(s, i + 1);
        }
    }
}

pub proof fn lemma_comment_end(s: Seq<char>, i: int)
    requires
        0 <= i <= s.len(),
    ensures
        i <= comment_end(s, i) <= s.len(),
    decreases s.len() - i,
{
    if i < s.len() && s[i] != '\n' {
        lemma_comment_end(s, i + 1);
    }
}

/// Every step makes progress and stays within the source.
pub proof fn lemma_lex_progress(s: Seq<char>, i: int)
    requires
        0 <= i < s.len(),
    ensures
        i < step_end(lex(s, i)) <= s.len(),
{
    lemma_digits_end(s, i + 1);
    let j = digits_end(s, i + 1);
    if j + 1 < s.len() {
        lemma_digits_end(s, j + 2);
    }
    lemma_ident_end(s, i + 1);
    lemma_string_end(s, i + 1);
    if i + 2 <= s.len() {
        lemma_comment_end(s, i + 2);
    }
}

/// The view of a scanner failure.
pub struct LexErrorView {
    pub kind: LexErrorKind,
    pub line: nat,
    pub lexeme: Seq<char>,
}

/// The tokens of `s` from position `i` on, ending with the end-of-file
/// token; whitespace and comments are skipped.
pub open spec fn scan_from(s: Seq<char>, i: int) -> Result<Seq<TokenView>, LexErrorView>
    decreases s.len() - i,
{
    if i < 0 || i >= s.len() {
        Ok(seq![TokenView { kind: TokenType::Eof, line: newlines(s), text: seq![] }])
    } else {
        proof {
            lemma_lex_progress(s, i);
        }
        match lex(s, i) {
            LexStep::Skip(j) => scan_from(s, j),
            LexStep::Tok(kind, j) => match scan_from(s, j) {
                Ok(rest) => Ok(
                    seq![TokenView { kind, line: newlines(s.take(j)), text: s.subrange(i, j) }]
                        + rest,
                ),
                Err(e) => Err(e),
            },
            LexStep::Fail(kind, j) => Err(
                LexErrorView { kind, line: newlines(s.take(j)), lexeme: s.subrange(i, j) },
            ),
        }
    }
}

/// The tokens of a source text, or why it does not scan.
pub open spec fn scan_spec(s: Seq<char>) -> Result<Seq<TokenView>, LexErrorView> {
    scan_from(s, 0)
}


/// The tokens of `done`, followed by those of `rest` if it scans.
pub open spec fn prepend(done: Seq<TokenView>, rest: Result<Seq<TokenView>, LexErrorView>) -> Result<
    Seq<TokenView>,
    LexErrorView,
> {
    match rest {
        Ok(ts) => Ok(done + ts),
        Err(e) => Err(e),
    }
}

pub proof fn lemma_newlines_len(t: Seq<char>)
    ensures
        newlines(t) <= t.len(),
    decreases t.len(),
{
    if t.len() > 0 {
        lemma_newlines_len(t.drop_last());
    }
}

/// A scanner failure: its kind, the line where it was detected and the
/// text consumed for the failing lexeme.
#[derive(Debug)]
pub struct LexError {
    pub kind: LexErrorKind,
    pub line: usize,
    pub lexeme: String,
}

impl View for LexError {
    type V = LexErrorView;

    open spec fn view(&self) -> LexErrorView {
        LexErrorView { kind: self.kind, line: self.line as nat, lexeme: self.lexeme@ }
    }
}

fn is_space_exec(c: char) -> (r: bool)
    ensures
        r == is_space(c),
{
    c == ' ' || c == '\t' || c == '\r' || c == '\n'
}

fn is_digit_exec(c: char) -> (r: bool)
    ensures
        r == is_digit(c),
{
    '0' <= c && c <= '9'
}

fn is_ident_start_exec(c: char) -> (r: bool)
    ensures
        r == is_ident_start(c),
{
    ('a' <= c && c <= 'z') || ('A' <= c && c <= 'Z') || c == '$'
}

fn is_ident_char_exec(c: char) -> (r: bool)
    ensures
        r == is_ident_char(c),
{
    ('a' <= c && c <= 'z') || ('A' <= c && c <= 'Z') || ('0' <= c && c <= '9') || c == '-' || c
        == '_' || c == '\''
}

fn single_kind_exec(c: char) -> (r: Option<TokenType>)
    ensures
        r == single_kind(c),
{
    match c {
        '(' => Some(TokenType::LeftParen),
        ')' => Some(TokenType::RightParen),
        '[' => Some(TokenType::LeftSquareBrace),
        ']' => Some(TokenType::RightSquareBrace),
        '{' => Some(TokenType::LeftCurlyBrace),
        '}' => Some(TokenType::RightCurlyBrace),
        ':' => Some(TokenType::Colon),
        '+' => Some(TokenType::Plus),
        '*' => Some(TokenType::Star),
        '/' => Some(TokenType::Slash),
        ';' => Some(TokenType::Semicolon),
        ',' => Some(TokenType::Comma),
        '\\' => Some(TokenType::Backslash),
        '_' => Some(TokenType::Underscore),
        _ => None,
    }
}

fn word_kind_exec(w: &String) -> (r: TokenType)
    ensures
        r == word_kind(w@),
{
    if *w == String::from_str("true") {
        TokenType::True
    } else if *w == String::from_str("false") {
        TokenType::False
    } else if *w == String::from_str("if") {
        TokenType::If
    } else if *w == String::from_str("then") {
        TokenType::Then
    } else if *w == String::from_str("else") {
        TokenType::Else
    } else if *w == String::from_str("let") {
        TokenType::Let
    } else if *w == String::from_str("in") {
        TokenType::In
    } else if *w == String::from_str("yield") {
        TokenType::Yield
    } else {
        TokenType::LiteralIdentifier
    }
}

/// The scanner's state: the source characters, the position of the
/// one-character lookahead, the lexeme consumed so far and the current line.
struct ScannerIter {
    chars: Vec<char>,
    pos: usize,
    buffer: String,
    line: usize,
}

impl ScannerIter {
    spec fn wf(&self) -> bool {
        &&& self.pos <= self.chars.len()
        &&& self.line == newlines(self.chars@.take(self.pos as int))
    }

    fn init(source: &str) -> (r: ScannerIter)
        ensures
            r.wf(),
            r.chars@ == source@,
            r.pos == 0,
            r.buffer@ == Seq::<char>::empty(),
    {
        let chars = chars_of(source);
        let r = ScannerIter { chars, pos: 0, buffer: String::new(), line: 0 };
        assert(r.chars@.take(0) =~= Seq::<char>::empty());
        r
    }

    /// The lookahead character.
    fn peek(&self) -> (r: Option<char>)
        ensures
            r == (if self.pos < self.chars.len() {
                Some(self.chars@[self.pos as int])
            } else {
                None
            }),
    {
        if self.pos < self.chars.len() {
            Some(self.chars[self.pos])
        } else {
            None
        }
    }

    /// The character after the lookahead.
    fn peek_second(&self) -> (r: Option<char>)
        requires
            self.pos <= self.chars.len(),
        ensures
            r == (if self.pos + 1 < self.chars.len() {
                Some(self.chars@[self.pos + 1])
            } else {
                None
            }),
    {
        if self.pos < self.chars.len() && self.pos + 1 < self.chars.len() {
            Some(self.chars[self.pos + 1])
        } else {
            None
        }
    }

    /// Consumes the lookahead character, if any, into the lexeme.
    fn next(&mut self) -> (r: Option<char>)
        requires
            old(self).wf(),
        ensures
            final(self).wf(),
            final(self).chars@ == old(self).chars@,
            old(self).pos < old(self).chars.len() ==> {
                &&& r == Some(old(self).chars@[old(self).pos as int])
                &&& final(self).pos == old(self).pos + 1
                &&& final(self).buffer@ == old(self).buffer@.push(old(self).chars@[old(
                    self,
                ).pos as int])
            },
            old(self).pos >= old(self).chars.len() ==> {
                &&& r is None
                &&& final(self).pos == old(self).pos
                &&& final(self).buffer@ == old(self).buffer@
            },
    {
        if self.pos < self.chars.len() {
            let c = self.chars[self.pos];
            push_char(&mut self.buffer, c);
            proof {
                let s = self.chars@;
                let t = s.take(self.pos + 1);
                assert(t.drop_last() =~= s.take(self.pos as int));
                lemma_newlines_len(t);
            }
            if c == '\n' {
                self.line = self.line + 1;
            }
            self.pos = self.pos + 1;
            Some(c)
        } else {
            None
        }
    }

    /// Consumes the lookahead character, if any.
    fn advance(&mut self)
        requires
            old(self).wf(),
        ensures
            final(self).wf(),
            final(self).chars@ == old(self).chars@,
            old(self).pos < old(self).chars.len() ==> {
                &&& final(self).pos == old(self).pos + 1
                &&& final(self).buffer@ == old(self).buffer@.push(old(self).chars@[old(
                    self,
                ).pos as int])
            },
            old(self).pos >= old(self).chars.len() ==> {
                &&& final(self).pos == old(self).pos
                &&& final(self).buffer@ == old(self).buffer@
            },
    {
        self.next();
    }

    /// Emits the lexeme consumed so far as a token of the given kind.
    fn add_token(&mut self, tokens: &mut Vec<Token>, kind: TokenType)
        ensures
            final(tokens)@ == old(tokens)@.push(
                Token { kind, line: old(self).line, literal: old(self).buffer },
            ),
            final(self).buffer@ == Seq::<char>::empty(),
            final(self).chars@ == old(self).chars@,
            final(self).pos == old(self).pos,
            final(self).line == old(self).line,
    {
        let literal = self.buffer.clone();
        tokens.push(Token { kind, line: self.line, literal });
        self.buffer = String::new();
    }
    /// Consumes the lookahead character when it is `d`.
    fn advance_if(&mut self, d: char) -> (r: bool)
        requires
            old(self).wf(),
        ensures
            final(self).wf(),
            final(self).chars@ == old(self).chars@,
            r == (old(self).pos < old(self).chars.len() && old(self).chars@[old(self).pos as int]
                == d),
            r ==> final(self).pos == old(self).pos + 1 && final(self).buffer@ == old(
                self,
            ).buffer@.push(d),
            !r ==> final(self).pos == old(self).pos && final(self).buffer@ == old(self).buffer@,
    {
        match self.peek() {
            Some(c) => {
                if c == d {
                    self.advance();
                    true
                } else {
                    false
                }
            },
            None => false,
        }
    }

    /// Consumes digits while the lookahead is one.
    fn skip_digits(&mut self)
        requires
            old(self).wf(),
        ensures
            final(self).wf(),
            final(self).chars@ == old(self).chars@,
            final(self).pos == digits_end(old(self).chars@, old(self).pos as int),
            final(self).buffer@ == old(self).buffer@ + old(self).chars@.subrange(
                old(self).pos as int,
                final(self).pos as int,
            ),
    {
        let ghost s = self.chars@;
        let ghost p0 = self.pos as int;
        let ghost b0 = self.buffer@;
        loop
            invariant
                self.wf(),
                self.chars@ == s,
                s == old(self).chars@,
                p0 == old(self).pos,
                b0 == old(self).buffer@,
                p0 <= self.pos,
                digits_end(s, p0) == digits_end(s, self.pos as int),
                self.buffer@ == b0 + s.subrange(p0, self.pos as int),
            decreases s.len() - self.pos,
        {
            match self.peek() {
                Some(c) => {
                    if is_digit_exec(c) {
                        self.advance();
                        assert(self.buffer@ =~= b0 + s.subrange(p0, self.pos as int));
                    } else {
                        return;
                    }
                },
                None => {
                    return;
                },
            }
        }
    }

    /// Consumes identifier characters while the lookahead is one.
    fn skip_ident_chars(&mut self)
        requires
            old(self).wf(),
        ensures
            final(self).wf(),
            final(self).chars@ == old(self).chars@,
            final(self).pos == ident_end(old(self).chars@, old(self).pos as int),
            final(self).buffer@ == old(self).buffer@ + old(self).chars@.subrange(
                old(self).pos as int,
                final(self).pos as int,
            ),
    {
        let ghost s = self.chars@;
        let ghost p0 = self.pos as int;
        let ghost b0 = self.buffer@;
        loop
            invariant
                self.wf(),
                self.chars@ == s,
                s == old(self).chars@,
                p0 == old(self).pos,
                b0 == old(self).buffer@,
                p0 <= self.pos,
                ident_end(s, p0) == ident_end(s, self.pos as int),
                self.buffer@ == b0 + s.subrange(p0, self.pos as int),
            decreases s.len() - self.pos,
        {
            match self.peek() {
                Some(c) => {
                    if is_ident_char_exec(c) {
                        self.advance();
                        assert(self.buffer@ =~= b0 + s.subrange(p0, self.pos as int));
                    } else {
                        return;
                    }
                },
                None => {
                    return;
                },
            }
        }
    }

    /// Consumes the body of a string literal and its closing quote.
    fn skip_string_body(&mut self) -> (r: bool)
        requires
            old(self).wf(),
        ensures
            final(self).wf(),
            final(self).chars@ == old(self).chars@,
            match string_end(old(self).chars@, old(self).pos as int) {
                Some(j) => r && final(self).pos == j,
                None => !r && final(self).pos == old(self).chars.len(),
            },
            final(self).buffer@ == old(self).buffer@ + old(self).chars@.subrange(
                old(self).pos as int,
                final(self).pos as int,
            ),
    {
        let ghost s = self.chars@;
        let ghost p0 = self.pos as int;
        let ghost b0 = self.buffer@;
        loop
            invariant
                self.wf(),
                self.chars@ == s,
                s == old(self).chars@,
                p0 == old(self).pos,
                b0 == old(self).buffer@,
                p0 <= self.pos,
                string_end(s, p0) == string_end(s, self.pos as int),
                self.buffer@ == b0 + s.subrange(p0, self.pos as int),
            decreases s.len() - self.pos,
        {
            match self.next() {
                Some(c) => {
                    if c == '\\' {
                        self.advance();
                    }
                    assert(self.buffer@ =~= b0 + s.subrange(p0, self.pos as int));
                    if c == '"' {
                        return true;
                    }
                },
                None => {
                    return false;
                },
            }
        }
    }

    /// Consumes the rest of a line comment, through its newline.
    fn skip_comment(&mut self)
        requires
            old(self).wf(),
        ensures
            final(self).wf(),
            final(self).chars@ == old(self).chars@,
            final(self).pos == comment_end(old(self).chars@, old(self).pos as int),
    {
        let ghost s = self.chars@;
        let ghost p0 = self.pos as int;
        loop
            invariant
                self.wf(),
                self.chars@ == s,
                s == old(self).chars@,
                p0 == old(self).pos,
                comment_end(s, p0) == comment_end(s, self.pos as int),
            decreases s.len() - self.pos,
        {
            match self.next() {
                Some(c) => {
                    if c == '\n' {
                        return;
                    }
                },
                None => {
                    return;
                },
            }
        }
    }

    /// Recognises one lexeme at the lookahead: `Ok(None)` for whitespace
    /// or a comment, `Ok(Some(kind))` for a token, `Err` for a failure.
    #[verifier::rlimit(40)]
    fn scan_token(&mut self) -> (r: Result<Option<TokenType>, LexErrorKind>)
        requires
            old(self).wf(),
            old(self).pos < old(self).chars.len(),
            old(self).buffer@ == Seq::<char>::empty(),
        ensures
            final(self).wf(),
            final(self).chars@ == old(self).chars@,
            final(self).pos == step_end(lex(old(self).chars@, old(self).pos as int)),
            final(self).buffer@ == old(self).chars@.subrange(
                old(self).pos as int,
                final(self).pos as int,
            ) || lex(old(self).chars@, old(self).pos as int) is Skip,
            match lex(old(self).chars@, old(self).pos as int) {
                LexStep::Skip(_) => r == Ok::<Option<TokenType>, LexErrorKind>(None),
                LexStep::Tok(k, _) => r == Ok::<Option<TokenType>, LexErrorKind>(Some(k)),
                LexStep::Fail(k, _) => r == Err::<Option<TokenType>, LexErrorKind>(k),
            },
    {
        let ghost s = self.chars@;
        let ghost i = self.pos as int;
        proof {
            lemma_lex_progress(s, i);
        }
        let c = self.chars[self.pos];
        self.advance();
        assert(self.buffer@ =~= s.subrange(i, i + 1));
        if is_space_exec(c) {
            return Ok(None);
        }
        if c == '-' {
            if self.advance_if('-') {
                self.skip_comment();
                return Ok(None);
            }
            if self.advance_if('>') {
                assert(self.buffer@ =~= s.subrange(i, i + 2));
                return Ok(Some(TokenType::Arrow));
            }
            return Ok(Some(TokenType::Minus));
        }
        match single_kind_exec(c) {
            Some(k) => {
                return Ok(Some(k));
            },
            None => {},
        }
        if c == '"' {
            proof {
                lemma_string_end(s, i + 1);
            }
            if self.skip_string_body() {
                return Ok(Some(TokenType::LiteralString));
            } else {
                return Err(LexErrorKind::UnterminatedString);
            }
        }
        if c == '\'' {
            match self.next() {
                None => {
                    return Err(LexErrorKind::MalformedChar);
                },
                Some(content) => {
                    if content == '\\' {
                        self.advance();
                    }
                    match self.next() {
                        None => {
                            return Err(LexErrorKind::MalformedChar);
                        },
                        Some(closing) => {
                            assert(self.buffer@ =~= s.subrange(i, self.pos as int));
                            if closing != '\'' {
                                return Err(LexErrorKind::MalformedChar);
                            }
                            return Ok(Some(TokenType::LiteralChar));
                        },
                    }
                },
            }
        }
        if c == '!' {
            if self.advance_if('=') {
                assert(self.buffer@ =~= s.subrange(i, i + 2));
                return Ok(Some(TokenType::NotEqual));
            }
            return Err(LexErrorKind::Unrecognized);
        }
        if c == '=' || c == '<' || c == '>' {
            if self.advance_if('=') {
                assert(self.buffer@ =~= s.subrange(i, i + 2));
                return Ok(
                    Some(
                        if c == '=' {
                            TokenType::EqualEqual
                        } else if c == '<' {
                            TokenType::LessEq
                        } else {
                            TokenType::GreaterEq
                        },
                    ),
                );
            }
            return Ok(
                Some(
                    if c == '=' {
                        TokenType::Equal
                    } else if c == '<' {
                        TokenType::Less
                    } else {
                        TokenType::Greater
                    },
                ),
            );
        }
        if c == '|' {
            if self.advance_if('|') {
                assert(self.buffer@ =~= s.subrange(i, i + 2));
                return Ok(Some(TokenType::Or));
            }
            if self.advance_if('>') {
                assert(self.buffer@ =~= s.subrange(i, i + 2));
                return Ok(Some(TokenType::PipeForwards));
            }
            return Ok(Some(TokenType::Pipe));
        }
        if is_digit_exec(c) {
            proof {
                lemma_digits_end(s, i + 1);
            }
            self.skip_digits();
            let ghost j = self.pos as int;
            match self.peek_second() {
                Some(d) => {
                    if self.chars[self.pos] == '.' && is_digit_exec(d) {
                        self.advance();
                        proof {
                            lemma_digits_end(s, j + 1);
                        }
                        self.skip_digits();
                    }
                },
                None => {},
            }
            assert(self.buffer@ =~= s.subrange(i, self.pos as int));
            return Ok(Some(TokenType::LiteralNumber));
        }
        if is_ident_start_exec(c) {
            proof {
                lemma_ident_end(s, i + 1);
            }
            self.skip_ident_chars();
            assert(self.buffer@ =~= s.subrange(i, self.pos as int));
            let kind = word_kind_exec(&self.buffer);
            return Ok(Some(kind));
        }
        Err(LexErrorKind::Unrecognized)
    }

    /// Scans the whole source, appending its tokens and a final end-of-file
    /// token, or stops at the first failure.
    fn scan(&mut self, tokens: &mut Vec<Token>) -> (r: Result<(), LexError>)
        requires
            old(self).wf(),
            old(self).pos == 0,
            old(self).buffer@ == Seq::<char>::empty(),
            old(tokens)@ == Seq::<Token>::empty(),
        ensures
            match scan_spec(old(self).chars@) {
                Ok(ts) => r is Ok && token_views(final(tokens)@) == ts,
                Err(e) => r matches Err(err) && err@ == e,
            },
    {
        let ghost s = self.chars@;
        assert(token_views(tokens@) =~= Seq::<TokenView>::empty());
        assert(prepend(Seq::<TokenView>::empty(), scan_from(s, 0)) == scan_from(s, 0)) by {
            match scan_from(s, 0) {
                Ok(ts) => {
                    assert(Seq::<TokenView>::empty() + ts =~= ts);
                },
                Err(_) => {},
            }
        }
        loop
            invariant
                self.wf(),
                self.chars@ == s,
                s == old(self).chars@,
                self.buffer@ == Seq::<char>::empty(),
                scan_spec(s) == prepend(token_views(tokens@), scan_from(s, self.pos as int)),
            decreases s.len() - self.pos,
        {
            if self.pos >= self.chars.len() {
                proof {
                    assert(s.take(s.len() as int) =~= s);
                }
                let ghost done = token_views(tokens@);
                self.add_token(tokens, TokenType::Eof);
                proof {
                    assert(token_views(tokens@) =~= done + seq![
                        TokenView { kind: TokenType::Eof, line: newlines(s), text: seq![] },
                    ]);
                }
                return Ok(());
            }
            let ghost i = self.pos as int;
            let ghost done = token_views(tokens@);
            let step = self.scan_token();
            proof {
                lemma_lex_progress(s, i);
            }
            match step {
                Ok(None) => {
                    self.buffer = String::new();
                },
                Ok(Some(kind)) => {
                    let ghost tv = TokenView {
                        kind,
                        line: self.line as nat,
                        text: s.subrange(i, self.pos as int),
                    };
                    self.add_token(tokens, kind);
                    proof {
                        assert(token_views(tokens@) =~= done.push(tv));
                        match scan_from(s, self.pos as int) {
                            Ok(rest) => {
                                assert(done + (seq![tv] + rest) =~= done.push(tv) + rest);
                            },
                            Err(_) => {},
                        }
                    }
                },
                Err(kind) => {
                    let lexeme = self.buffer.clone();
                    return Err(LexError { kind, line: self.line, lexeme });
                },
            }
        }
    }
}

/// Scans a source text into its tokens, the last of which is the
/// end-of-file token; whitespace and comments are dropped.
pub fn scan(source: &str) -> (r: Result<Vec<Token>, LexError>)
    ensures
        match scan_spec(source@) {
            Ok(ts) => r matches Ok(v) && token_views(v@) == ts,
            Err(e) => r matches Err(err) && err@ == e,
        },
{
    let mut scanner = ScannerIter::init(source);
    let mut tokens: Vec<Token> = Vec::new();
    match scanner.scan(&mut tokens) {
        Ok(()) => Ok(tokens),
        Err(e) => Err(e),
    }
}

} // verus!
