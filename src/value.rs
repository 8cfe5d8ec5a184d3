//! Runtime values and the environment that binds names to them.
use crate::ast::{Destructure, Expr, ExprV};
use vstd::prelude::*;

verus! {

/// A runtime value.
#[derive(Debug)]
pub enum LangValue {
    /// A binary64 number, held as its IEEE-754 bit pattern.
    LangNumber(u64),
    LangString(String),
    LangFunc(FuncEnv),
    LangPair { left: Box<LangValue>, right: Box<LangValue> },
    LangNone,
}

/// A closure: a one-parameter function and the environment it captured.
#[derive(Debug)]
pub struct FuncEnv {
    pub env: Environment,
    pub func: Lambda,
}

/// A one-parameter function: the pattern its argument is bound to, and
/// its body.
#[derive(Debug)]
pub struct Lambda {
    pub arg_destructure: Destructure,
    pub ret: Box<Expr>,
}

/// A mapping from names to values. Inserting a name that is bound replaces
/// its value.
#[derive(Debug)]
pub struct Environment {
    /// The bindings in order of first insertion; where a name occurs more
    /// than once, the last occurrence is the one in force.
    pub bindings: Vec<(String, LangValue)>,
}

/// The mathematical view of a value.
pub enum ValueV {
    Number(u64),
    Str(Seq<char>),
    /// A closure: captured environment, parameter name and body.
    Func(Map<Seq<char>, ValueV>, Seq<char>, Box<ExprV>),
    Pair(Box<ValueV>, Box<ValueV>),
    Nothing,
}

impl LangValue {
    pub open spec fn view(&self) -> ValueV
        decreases self,
    {
        match self {
            LangValue::LangNumber(b) => ValueV::Number(*b),
            LangValue::LangString(s) => ValueV::Str(s@),
            LangValue::LangFunc(fe) => ValueV::Func(
                bindings_view(fe.env.bindings@),
                fe.func.arg_destructure@,
                Box::new((*fe.func.ret).view()),
            ),
            LangValue::LangPair { left, right } => ValueV::Pair(
                Box::new((**left).view()),
                Box::new((**right).view()),
            ),
            LangValue::LangNone => ValueV::Nothing,
        }
    }
}

/// The mapping that a sequence of bindings makes, later bindings replacing
/// earlier ones.
pub open spec fn bindings_view(s: Seq<(String, LangValue)>) -> Map<Seq<char>, ValueV>
    decreases s,
{
    if s.len() == 0 {
        Map::empty()
    } else {
        bindings_view(s.drop_last()).insert(s.last().0@, s.last().1.view())
    }
}

impl Environment {
    pub open spec fn view(&self) -> Map<Seq<char>, ValueV> {
        bindings_view(self.bindings@)
    }
}

/// A binding found at `k` and at no later position gives the name's value.
pub proof fn lemma_bindings_lookup(s: Seq<(String, LangValue)>, k: int, name: Seq<char>)
    requires
        0 <= k < s.len(),
        s[k].0@ == name,
        forall|j: int| k < j < s.len() ==> s[j].0@ != name,
    ensures
        bindings_view(s).contains_key(name),
        bindings_view(s)[name] == s[k].1@,
    decreases s.len(),
{
    if k < s.len() - 1 {
        lemma_bindings_lookup(s.drop_last(), k, name);
    }
}

/// A name that no binding has is unbound.
pub proof fn lemma_bindings_absent(s: Seq<(String, LangValue)>, name: Seq<char>)
    requires
        forall|j: int| 0 <= j < s.len() ==> s[j].0@ != name,
    ensures
        !bindings_view(s).contains_key(name),
    decreases s.len(),
{
    if s.len() > 0 {
        lemma_bindings_absent(s.drop_last(), name);
    }
}

/// Replacing the last binding of a name is inserting it.
pub proof fn lemma_bindings_update(s: Seq<(String, LangValue)>, k: int, b: (String, LangValue))
    requires
        0 <= k < s.len(),
        s[k].0@ == b.0@,
        forall|j: int| k < j < s.len() ==> s[j].0@ != b.0@,
    ensures
        bindings_view(s.update(k, b)) == bindings_view(s).insert(b.0@, b.1@),
    decreases s.len(),
{
    let u = s.update(k, b);
    if k == s.len() - 1 {
        assert(u.drop_last() =~= s.drop_last());
        assert(bindings_view(u) =~= bindings_view(s).insert(b.0@, b.1@));
    } else {
        assert(u.drop_last() =~= s.drop_last().update(k, b));
        lemma_bindings_update(s.drop_last(), k, b);
        assert(bindings_view(u) =~= bindings_view(s).insert(b.0@, b.1@));
    }
}

/// Appending a binding is inserting it.
pub proof fn lemma_bindings_push(s: Seq<(String, LangValue)>, b: (String, LangValue))
    ensures
        bindings_view(s.push(b)) == bindings_view(s).insert(b.0@, b.1@),
{
    assert(s.push(b).drop_last() =~= s);
}

impl Environment {
    /// The empty environment.
    pub fn new() -> (r: Environment)
        ensures
            r@ == Map::<Seq<char>, ValueV>::empty(),
    {
        Environment { bindings: Vec::new() }
    }

    /// The value bound to `name`, if any.
    pub fn get(&self, name: &String) -> (r: Option<&LangValue>)
        ensures
            match r {
                Some(v) => self@.contains_key(name@) && v@ == self@[name@],
                None => !self@.contains_key(name@),
            },
    {
        let mut i = self.bindings.len();
        while i > 0
            invariant
                i <= self.bindings.len(),
                forall|j: int| i <= j < self.bindings.len() ==> self.bindings@[j].0@ != name@,
            decreases i,
        {
            i = i - 1;
            if self.bindings[i].0 == *name {
                proof {
                    lemma_bindings_lookup(self.bindings@, i as int, name@);
                }
                return Some(&self.bindings[i].1);
            }
        }
        proof {
            lemma_bindings_absent(self.bindings@, name@);
        }
        None
    }

    /// Binds `name` to `value`, replacing a binding of the same name.
    pub fn insert(&mut self, name: String, value: LangValue)
        ensures
            final(self)@ == old(self)@.insert(name@, value@),
    {
        let mut i = self.bindings.len();
        while i > 0
            invariant
                i <= self.bindings.len(),
                self.bindings@ == old(self).bindings@,
                forall|j: int| i <= j < self.bindings.len() ==> self.bindings@[j].0@ != name@,
            decreases i,
        {
            i = i - 1;
            if self.bindings[i].0 == name {
                proof {
                    lemma_bindings_update(self.bindings@, i as int, (name, value));
                }
                self.bindings.set(i, (name, value));
                return;
            }
        }
        proof {
            lemma_bindings_push(self.bindings@, (name, value));
        }
        self.bindings.push((name, value));
    }

    /// A copy of the environment.
    pub fn copy(&self) -> (r: Environment)
        ensures
            r@ == self@,
        decreases self,
    {
        let mut out: Vec<(String, LangValue)> = Vec::new();
        let mut i: usize = 0;
        while i < self.bindings.len()
            invariant
                i <= self.bindings.len(),
                bindings_view(out@) == bindings_view(self.bindings@.take(i as int)),
            decreases self.bindings.len() - i,
        {
            let name = self.bindings[i].0.clone();
            proof {
                assert(decreases_to!(self => self.bindings@[i as int].1));
            }
            let value = self.bindings[i].1.copy();
            proof {
                lemma_bindings_push(out@, (name, value));
                assert(self.bindings@.take(i + 1).drop_last() =~= self.bindings@.take(i as int));
            }
            out.push((name, value));
            i = i + 1;
        }
        assert(self.bindings@.take(i as int) =~= self.bindings@);
        Environment { bindings: out }
    }
}

impl LangValue {
    /// A copy of the value.
    pub fn copy(&self) -> (r: LangValue)
        ensures
            r@ == self@,
        decreases self,
    {
        match self {
            LangValue::LangNumber(b) => LangValue::LangNumber(*b),
            LangValue::LangString(s) => LangValue::LangString(s.clone()),
            LangValue::LangFunc(fe) => LangValue::LangFunc(
                FuncEnv {
                    env: fe.env.copy(),
                    func: Lambda {
                        arg_destructure: fe.func.arg_destructure.copy(),
                        ret: Box::new(fe.func.ret.copy()),
                    },
                },
            ),
            LangValue::LangPair { left, right } => LangValue::LangPair {
                left: Box::new(left.copy()),
                right: Box::new(right.copy()),
            },
            LangValue::LangNone => LangValue::LangNone,
        }
    }
}

impl Clone for LangValue {
    fn clone(&self) -> (r: Self)
        ensures
            r@ == self@,
    {
        self.copy()
    }
}

impl Clone for Environment {
    fn clone(&self) -> (r: Self)
        ensures
            r@ == self@,
    {
        self.copy()
    }
}

} // verus!
