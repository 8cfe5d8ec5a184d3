//! Pretty-printing: a deterministic textual rendering of syntax trees and
//! values, for diagnostics.
use crate::ast::{
    lines_view, BinaryExpr, Block, DeclOrExpr, Expr, ExprV, FuncDef, LineV, patterns_view,
};
use crate::eval::Scope;
use crate::number::{decimal_of_bits, float_text};
use crate::text::{chars_of, push_char};
use crate::token::TokenType;
use crate::value::{LangValue, ValueV};
use vstd::prelude::*;

verus! {

/// The text of an arithmetic operator.
pub open spec fn op_text(op: TokenType) -> Seq<char> {
    if op == TokenType::Slash {
        "/"@
    } else if op == TokenType::Star {
        "*"@
    } else if op == TokenType::Plus {
        "+"@
    } else if op == TokenType::Minus {
        "-"@
    } else {
        "?"@
    }
}

/// The index of the first newline at or after `i`, or the length of `s`.
pub open spec fn newline_at(s: Seq<char>, i: int) -> int
    decreases s.len() - i,
{
    if i < 0 || i >= s.len() {
        s.len() as int
    } else if s[i] == '\n' {
        i
    } else {
        newline_at(s, i + 1)
    }
}

pub proof fn lemma_newline_at(s: Seq<char>, i: int)
    requires
        0 <= i <= s.len(),
    ensures
        i <= newline_at(s, i) <= s.len(),
        newline_at(s, i) < s.len() ==> s[newline_at(s, i)] == '\n',
    decreases s.len() - i,
{
    if i < s.len() && s[i] != '\n' {
        lemma_newline_at(s, i + 1);
    }
}

/// The line that starts at `i` and ends at `j`, a newline or the end of
/// the text; a carriage return just before the newline is not part of it.
pub open spec fn line_at(s: Seq<char>, i: int, j: int) -> Seq<char> {
    if i < j < s.len() && s[j - 1] == '\r' {
        s.subrange(i, j - 1)
    } else {
        s.subrange(i, j)
    }
}

/// The lines of `s` from `i` on, split as `str::lines` splits them: at each
/// newline, with a final newline ending no further line and a carriage
/// return before a newline dropped.
pub open spec fn lines_from(s: Seq<char>, i: int) -> Seq<Seq<char>>
    decreases s.len() - i,
{
    if i < 0 || i >= s.len() {
        Seq::empty()
    } else {
        proof {
            lemma_newline_at(s, i);
        }
        let j = newline_at(s, i);
        if j < s.len() {
            seq![line_at(s, i, j)] + lines_from(s, j + 1)
        } else {
            seq![line_at(s, i, j)]
        }
    }
}

/// Lines, each after two spaces, joined by newlines.
pub open spec fn join_indented(ls: Seq<Seq<char>>) -> Seq<char>
    decreases ls.len(),
{
    if ls.len() == 0 {
        Seq::empty()
    } else if ls.len() == 1 {
        "  "@ + ls[0]
    } else {
        join_indented(ls.drop_last()) + "\n  "@ + ls.last()
    }
}

/// A text with two spaces put before each of its lines.
pub open spec fn indent_spec(s: Seq<char>) -> Seq<char> {
    join_indented(lines_from(s, 0))
}

/// The rendering of a value.
pub open spec fn render_value(v: ValueV) -> Seq<char>
    decreases v,
{
    match v {
        ValueV::Number(b) => float_text(b),
        ValueV::Str(s) => "\""@ + s + "\""@,
        ValueV::Func(_, p, _) => "<fn "@ + p + ">"@,
        ValueV::Pair(l, r) => "["@ + render_value(*l) + " "@ + render_value(*r) + "]"@,
        ValueV::Nothing => "none"@,
    }
}

/// Names separated by single spaces.
pub open spec fn join_words(ws: Seq<Seq<char>>) -> Seq<char>
    decreases ws.len(),
{
    if ws.len() == 0 {
        Seq::empty()
    } else if ws.len() == 1 {
        ws[0]
    } else {
        join_words(ws.drop_last()) + " "@ + ws.last()
    }
}

/// The rendering of an expression: operators and calls in parentheses,
/// pairs in brackets, blocks with one indented line per item.
pub open spec fn render_expr(e: ExprV) -> Seq<char>
    decreases e,
{
    match e {
        ExprV::Value(v) => render_value(v),
        ExprV::Ident(n) => n,
        ExprV::Binary(op, l, r) => "("@ + render_expr(*l) + " "@ + op_text(op) + " "@
            + render_expr(*r) + ")"@,
        ExprV::Pair(l, r) => "["@ + render_expr(*l) + " "@ + render_expr(*r) + "]"@,
        ExprV::Call(f, a) => "("@ + render_expr(*f) + " "@ + render_expr(*a) + ")"@,
        ExprV::Func(ps, b) => "(\\("@ + join_words(ps) + ") ->\n"@ + indent_spec(render_expr(*b))
            + ")"@,
        ExprV::Block(ls) => "{\n"@ + render_lines(ls) + "}"@,
    }
}

/// Each line rendered, indented and followed by a newline.
pub open spec fn render_lines(ls: Seq<LineV>) -> Seq<char>
    decreases ls,
{
    if ls.len() == 0 {
        Seq::empty()
    } else {
        render_lines(ls.drop_last()) + indent_spec(render_line(ls.last())) + "\n"@
    }
}

/// The rendering of a line: `name =` and the indented value, then `;`.
pub open spec fn render_line(l: LineV) -> Seq<char>
    decreases l,
{
    match l {
        LineV::Decl(n, e) => n + " =\n"@ + indent_spec(render_expr(e)) + ";"@,
        LineV::Expr(e) => render_expr(e),
    }
}

/// Puts two spaces before each line of a text and joins the lines with
/// newlines.
#[verifier::loop_isolation(false)]
pub fn indent(s: &String) -> (r: String)
    ensures
        r@ == indent_spec(s@),
{
    let chars = chars_of(s.as_str());
    let n = chars.len();
    let ghost t = chars@;
    let mut out = String::new();
    let ghost mut done: Seq<Seq<char>> = Seq::empty();
    let mut first = true;
    let mut i: usize = 0;
    assert(Seq::<Seq<char>>::empty() + lines_from(t, 0) =~= lines_from(t, 0));
    while i < n
        invariant
            i <= n,
            lines_from(t, 0) == done + lines_from(t, i as int),
            out@ == join_indented(done),
            first <==> done.len() == 0,
        decreases n - i,
    {
        proof {
            lemma_newline_at(t, i as int);
        }
        let mut j = i;
        while j < n && chars[j] != '\n'
            invariant
                i <= j <= n,
                newline_at(t, j as int) == newline_at(t, i as int),
            decreases n - j,
        {
            j = j + 1;
        }
        let end = if j < n && j > i && chars[j - 1] == '\r' {
            j - 1
        } else {
            j
        };
        let ghost base = out@;
        if first {
            out.append("  ");
        } else {
            out.append("\n  ");
        }
        let ghost start = out@;
        let mut k = i;
        while k < end
            invariant
                i <= k <= end,
                end <= n,
                out@ == start + t.subrange(i as int, k as int),
            decreases end - k,
        {
            push_char(&mut out, chars[k]);
            k = k + 1;
            assert(out@ =~= start + t.subrange(i as int, k as int));
        }
        let ghost line = line_at(t, i as int, j as int);
        assert(line =~= t.subrange(i as int, end as int));
        proof {
            let rest = if j < n {
                lines_from(t, j + 1)
            } else {
                Seq::<Seq<char>>::empty()
            };
            assert(lines_from(t, i as int) =~= seq![line] + rest);
            assert(done + (seq![line] + rest) =~= done.push(line) + rest);
            assert(done.push(line).drop_last() =~= done);
            done = done.push(line);
        }
        first = false;
        if j < n {
            i = j + 1;
        } else {
            i = n;
        }
    }
    assert(done + Seq::<Seq<char>>::empty() =~= done);
    out
}

impl LangValue {
    /// Renders the value for diagnostics.
    pub fn render(&self) -> (r: String)
        ensures
            r@ == render_value(self@),
        decreases self,
    {
        match self {
            LangValue::LangNumber(b) => decimal_of_bits(*b),
            LangValue::LangString(s) => {
                let mut out = String::from_str("\"");
                out.append(s.as_str());
                out.append("\"");
                out
            },
            LangValue::LangFunc(fe) => {
                let mut out = String::from_str("<fn ");
                match &fe.func.arg_destructure {
                    crate::ast::Destructure::Name(id) => out.append(id.name.as_str()),
                }
                out.append(">");
                out
            },
            LangValue::LangPair { left, right } => {
                let l = left.render();
                let r = right.render();
                let mut out = String::from_str("[");
                out.append(l.as_str());
                out.append(" ");
                out.append(r.as_str());
                out.append("]");
                out
            },
            LangValue::LangNone => String::from_str("none"),
        }
    }
}

/// Renders the names of patterns separated by single spaces.
fn render_patterns(ps: &Vec<crate::ast::Destructure>) -> (r: String)
    ensures
        r@ == join_words(patterns_view(ps@)),
{
    let ghost ws = patterns_view(ps@);
    let mut out = String::new();
    let mut i: usize = 0;
    assert(ws.take(0) =~= Seq::<Seq<char>>::empty());
    while i < ps.len()
        invariant
            ws == patterns_view(ps@),
            i <= ps.len(),
            out@ == join_words(ws.take(i as int)),
        decreases ps.len() - i,
    {
        if i > 0 {
            out.append(" ");
        }
        match &ps[i] {
            crate::ast::Destructure::Name(id) => out.append(id.name.as_str()),
        }
        proof {
            assert(ws.take(i + 1).drop_last() =~= ws.take(i as int));
            if i == 0 {
                assert(out@ =~= ws.take(1)[0]);
            }
        }
        i = i + 1;
    }
    assert(ws.take(i as int) =~= ws);
    out
}

/// Renders lines, each indented and followed by a newline.
fn render_line_seq(lines: &Vec<DeclOrExpr>) -> (r: String)
    ensures
        r@ == render_lines(lines_view(lines@)),
    decreases lines,
{
    let ghost lv = lines_view(lines@);
    proof {
        crate::ast::lemma_lines_view(lines@);
    }
    let mut out = String::new();
    let mut i: usize = 0;
    assert(lv.take(0) =~= Seq::<LineV>::empty());
    while i < lines.len()
        invariant
            lv == lines_view(lines@),
            lv.len() == lines.len(),
            forall|k: int| 0 <= k < lines.len() ==> #[trigger] lv[k] == lines@[k]@,
            i <= lines.len(),
            out@ == render_lines(lv.take(i as int)),
        decreases lines.len() - i,
    {
        proof {
            assert(decreases_to!(lines => lines@));
            assert(decreases_to!(lines@ => lines@[i as int]));
        }
        let line = lines[i].render();
        let ind = indent(&line);
        out.append(ind.as_str());
        out.append("\n");
        proof {
            assert(lv.take(i + 1).drop_last() =~= lv.take(i as int));
        }
        i = i + 1;
    }
    assert(lv.take(i as int) =~= lv);
    out
}

impl BinaryExpr {
    /// Renders `(left op right)`.
    pub fn render(&self) -> (r: String)
        ensures
            r@ == "("@ + render_expr((*self.left)@) + " "@ + op_text(self.oper) + " "@
                + render_expr((*self.right)@) + ")"@,
        decreases self,
    {
        let l = self.left.render();
        let r = self.right.render();
        let mut out = String::from_str("(");
        out.append(l.as_str());
        out.append(" ");
        let op = if self.oper == TokenType::Slash {
            "/"
        } else if self.oper == TokenType::Star {
            "*"
        } else if self.oper == TokenType::Plus {
            "+"
        } else if self.oper == TokenType::Minus {
            "-"
        } else {
            "?"
        };
        out.append(op);
        out.append(" ");
        out.append(r.as_str());
        out.append(")");
        out
    }
}

impl FuncDef {
    /// Renders `(\(params) ->` and the indented body, then `)`.
    pub fn render(&self) -> (r: String)
        ensures
            r@ == "(\\("@ + join_words(patterns_view(self.args@)) + ") ->\n"@ + indent_spec(
                render_expr((*self.body)@),
            ) + ")"@,
        decreases self,
    {
        let ps = render_patterns(&self.args);
        let body = self.body.render();
        let ind = indent(&body);
        let mut out = String::from_str("(\\(");
        out.append(ps.as_str());
        out.append(") ->\n");
        out.append(ind.as_str());
        out.append(")");
        out
    }
}

impl Block {
    /// Renders `{`, one indented line per item, then `}`.
    pub fn render(&self) -> (r: String)
        ensures
            r@ == "{\n"@ + render_lines(lines_view(self.lines@)) + "}"@,
        decreases self,
    {
        let body = render_line_seq(&self.lines);
        let mut out = String::from_str("{\n");
        out.append(body.as_str());
        out.append("}");
        out
    }
}

impl Scope {
    /// Renders the program's lines, marked as running in an environment.
    pub fn render(&self) -> (r: String)
        ensures
            r@ == "{<env>\n"@ + render_lines(lines_view(self.lines@)) + "}"@,
    {
        let body = render_line_seq(&self.lines);
        let mut out = String::from_str("{<env>\n");
        out.append(body.as_str());
        out.append("}");
        out
    }
}

impl Expr {
    /// Renders the expression for diagnostics.
    pub fn render(&self) -> (r: String)
        ensures
            r@ == render_expr(self@),
        decreases self,
    {
        match self {
            Expr::Value(v) => v.render(),
            Expr::Ident(id) => id.name.clone(),
            Expr::Binary(b) => b.render(),
            Expr::Pair(p) => {
                let l = p.left.render();
                let r = p.right.render();
                let mut out = String::from_str("[");
                out.append(l.as_str());
                out.append(" ");
                out.append(r.as_str());
                out.append("]");
                out
            },
            Expr::Call(c) => {
                let f = c.func.render();
                let a = c.arg.render();
                let mut out = String::from_str("(");
                out.append(f.as_str());
                out.append(" ");
                out.append(a.as_str());
                out.append(")");
                out
            },
            Expr::Func(f) => f.render(),
            Expr::Block(b) => b.render(),
        }
    }
}

impl DeclOrExpr {
    /// Renders a declaration as `name =`, the indented value and `;`, and an
    /// expression as itself.
    pub fn render(&self) -> (r: String)
        ensures
            r@ == render_line(self@),
        decreases self,
    {
        match self {
            DeclOrExpr::Declaration(d) => {
                let e = d.right.render();
                let ind = indent(&e);
                let mut out = String::new();
                match &d.left {
                    crate::ast::Destructure::Name(id) => out.append(id.name.as_str()),
                }
                out.append(" =\n");
                out.append(ind.as_str());
                out.append(";");
                out
            },
            DeclOrExpr::Expression(e) => e.render(),
        }
    }
}

} // verus!
