//! The syntax tree, and its mathematical view.
use crate::token::TokenType;
use crate::value::{Environment, LangValue, ValueV};
use vstd::prelude::*;

verus! {

/// An identifier: a name to be resolved in the environment, or bound by a
/// pattern.
#[derive(Debug)]
pub struct Identifier {
    pub name: String,
}

/// A destructuring pattern on the binding side of a declaration or a
/// function parameter. A single name is the only pattern so far.
#[derive(Debug)]
pub enum Destructure {
    Name(Identifier),
}

/// An expression of the language.
#[derive(Debug)]
pub enum Expr {
    /// A literal value: a number, a string or none.
    Value(LangValue),
    /// A name to look up.
    Ident(Identifier),
    /// Arithmetic on two operands.
    Binary(BinaryExpr),
    /// A pair cell; lists are right-nested chains of pairs ending in none.
    Pair(List),
    /// Application of a callee to one argument.
    Call(FuncCall),
    /// A function definition.
    Func(FuncDef),
    /// A braced sequence of declarations and expressions.
    Block(Block),
}

/// `left oper right`, where `oper` is one of `+ - * /`.
#[derive(Debug)]
pub struct BinaryExpr {
    pub oper: TokenType,
    pub left: Box<Expr>,
    pub right: Box<Expr>,
}

/// A pair cell of two expressions.
#[derive(Debug)]
pub struct List {
    pub left: Box<Expr>,
    pub right: Box<Expr>,
}

/// `func arg`.
#[derive(Debug)]
pub struct FuncCall {
    pub func: Box<Expr>,
    pub arg: Box<Expr>,
}

/// A function definition: its parameters, in order, and its body.
#[derive(Debug)]
pub struct FuncDef {
    pub args: Vec<Destructure>,
    pub body: Box<Expr>,
}

/// `{ line* }`.
#[derive(Debug)]
pub struct Block {
    pub lines: Vec<DeclOrExpr>,
}

/// One line of a block or of a program.
#[derive(Debug)]
pub enum DeclOrExpr {
    Declaration(Decl),
    Expression(Expr),
}

/// `left = right;`
#[derive(Debug)]
pub struct Decl {
    pub left: Destructure,
    pub right: Box<Expr>,
}

/// The mathematical view of an expression: names and texts as character
/// sequences.
pub enum ExprV {
    Value(ValueV),
    Ident(Seq<char>),
    Binary(TokenType, Box<ExprV>, Box<ExprV>),
    Pair(Box<ExprV>, Box<ExprV>),
    Call(Box<ExprV>, Box<ExprV>),
    Func(Seq<Seq<char>>, Box<ExprV>),
    Block(Seq<LineV>),
}

/// The view of a line: a declaration binding a name, or an expression.
pub enum LineV {
    Decl(Seq<char>, ExprV),
    Expr(ExprV),
}

impl Identifier {
    pub open spec fn view(&self) -> Seq<char> {
        self.name@
    }
}

impl Destructure {
    /// The name the pattern binds.
    pub open spec fn view(&self) -> Seq<char> {
        match self {
            Destructure::Name(id) => id.name@,
        }
    }

    pub fn copy(&self) -> (r: Destructure)
        ensures
            r@ == self@,
    {
        match self {
            Destructure::Name(id) => Destructure::Name(Identifier { name: id.name.clone() }),
        }
    }
}

/// The names bound by a sequence of patterns.
pub open spec fn patterns_view(ps: Seq<Destructure>) -> Seq<Seq<char>> {
    ps.map_values(|p: Destructure| p@)
}

impl Expr {
    pub open spec fn view(&self) -> ExprV
        decreases self,
    {
        match self {
            Expr::Value(v) => ExprV::Value(v.view()),
            Expr::Ident(id) => ExprV::Ident(id.name@),
            Expr::Binary(b) => ExprV::Binary(
                b.oper,
                Box::new((*b.left).view()),
                Box::new((*b.right).view()),
            ),
            Expr::Pair(p) => ExprV::Pair(Box::new((*p.left).view()), Box::new((*p.right).view())),
            Expr::Call(c) => ExprV::Call(Box::new((*c.func).view()), Box::new((*c.arg).view())),
            Expr::Func(f) => ExprV::Func(patterns_view(f.args@), Box::new((*f.body).view())),
            Expr::Block(b) => ExprV::Block(lines_view(b.lines@)),
        }
    }
}

impl DeclOrExpr {
    pub open spec fn view(&self) -> LineV
        decreases self,
    {
        match self {
            DeclOrExpr::Declaration(d) => LineV::Decl(d.left@, (*d.right).view()),
            DeclOrExpr::Expression(e) => LineV::Expr(e.view()),
        }
    }
}

/// The views of a sequence of lines.
pub open spec fn lines_view(s: Seq<DeclOrExpr>) -> Seq<LineV>
    decreases s,
{
    if s.len() == 0 {
        Seq::empty()
    } else {
        lines_view(s.drop_last()).push(s.last().view())
    }
}

impl Expr {
    /// A copy of the expression.
    pub fn copy(&self) -> (r: Expr)
        ensures
            r@ == self@,
        decreases self,
    {
        match self {
            Expr::Value(v) => Expr::Value(v.copy()),
            Expr::Ident(id) => Expr::Ident(Identifier { name: id.name.clone() }),
            Expr::Binary(b) => Expr::Binary(
                BinaryExpr {
                    oper: b.oper,
                    left: Box::new(b.left.copy()),
                    right: Box::new(b.right.copy()),
                },
            ),
            Expr::Pair(p) => Expr::Pair(
                List { left: Box::new(p.left.copy()), right: Box::new(p.right.copy()) },
            ),
            Expr::Call(c) => Expr::Call(
                FuncCall { func: Box::new(c.func.copy()), arg: Box::new(c.arg.copy()) },
            ),
            Expr::Func(f) => Expr::Func(
                FuncDef { args: copy_patterns(&f.args), body: Box::new(f.body.copy()) },
            ),
            Expr::Block(b) => {
                let mut out: Vec<DeclOrExpr> = Vec::new();
                let mut i: usize = 0;
                while i < b.lines.len()
                    invariant
                        *self == Expr::Block(*b),
                        i <= b.lines.len(),
                        lines_view(out@) == lines_view(b.lines@.take(i as int)),
                    decreases b.lines.len() - i,
                {
                    proof {
                        assert(decreases_to!(*self => (*self)->Block_0));
                        assert(decreases_to!((*self)->Block_0 => (*self)->Block_0.lines));
                        assert(decreases_to!(b.lines => b.lines@));
                        assert(decreases_to!(b.lines@ => b.lines@[i as int]));
                    }
                    let line = b.lines[i].copy();
                    proof {
                        assert(out@.push(line).drop_last() =~= out@);
                        assert(b.lines@.take(i + 1).drop_last() =~= b.lines@.take(i as int));
                    }
                    out.push(line);
                    i = i + 1;
                }
                assert(b.lines@.take(i as int) =~= b.lines@);
                Expr::Block(Block { lines: out })
            },
        }
    }
}

impl DeclOrExpr {
    /// A copy of the line.
    pub fn copy(&self) -> (r: DeclOrExpr)
        ensures
            r@ == self@,
        decreases self,
    {
        match self {
            DeclOrExpr::Declaration(d) => DeclOrExpr::Declaration(
                Decl { left: d.left.copy(), right: Box::new(d.right.copy()) },
            ),
            DeclOrExpr::Expression(e) => DeclOrExpr::Expression(e.copy()),
        }
    }
}

/// A copy of a sequence of patterns.
pub fn copy_patterns(ps: &Vec<Destructure>) -> (r: Vec<Destructure>)
    ensures
        patterns_view(r@) == patterns_view(ps@),
{
    let mut out: Vec<Destructure> = Vec::new();
    let mut i: usize = 0;
    while i < ps.len()
        invariant
            i <= ps.len(),
            out@.len() == i,
            forall|k: int| 0 <= k < i ==> out@[k]@ == ps@[k]@,
        decreases ps.len() - i,
    {
        out.push(ps[i].copy());
        i = i + 1;
    }
    assert(patterns_view(out@) =~= patterns_view(ps@));
    out
}

/// The views of lines are taken one by one.
pub proof fn lemma_lines_view(s: Seq<DeclOrExpr>)
    ensures
        lines_view(s).len() == s.len(),
        forall|k: int| 0 <= k < s.len() ==> #[trigger] lines_view(s)[k] == s[k]@,
    decreases s.len(),
{
    if s.len() > 0 {
        lemma_lines_view(s.drop_last());
    }
}

impl Destructure {
    /// Binds the value to the pattern's name in `env`.
    pub fn destruct(&self, env: &mut Environment, val: LangValue)
        ensures
            final(env)@ == old(env)@.insert(self@, val@),
    {
        match self {
            Destructure::Name(id) => env.insert(id.name.clone(), val),
        }
    }
}

impl Clone for Expr {
    fn clone(&self) -> (r: Self)
        ensures
            r@ == self@,
    {
        self.copy()
    }
}

impl Clone for DeclOrExpr {
    fn clone(&self) -> (r: Self)
        ensures
            r@ == self@,
    {
        self.copy()
    }
}

} // verus!
