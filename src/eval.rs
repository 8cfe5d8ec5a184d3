//! The evaluator: a syntax tree and an environment to a value.
use crate::ast::{lines_view, DeclOrExpr, Destructure, Expr, ExprV, LineV};
use crate::number::{add_bits, div_bits, float_add, float_div, float_mul, float_sub, mul_bits, sub_bits};
use crate::token::TokenType;
use crate::value::{Environment, FuncEnv, LangValue, ValueV};
use vstd::prelude::*;

verus! {

/// How deep function applications may nest before evaluation gives up.
pub const MAX_CALL_DEPTH: u32 = 256;

/// Why evaluation fails.
#[derive(Debug)]
pub enum EvalError {
    /// A name that the environment does not bind.
    UnboundIdentifier(String),
    /// An arithmetic operand that is not a number.
    NotANumber(LangValue),
    /// A callee that is not a function.
    NotCallable(LangValue),
    /// A function definition without parameters.
    NoParameters,
    /// A binary node whose operator is not one of `+ - * /`.
    UnknownOperator(TokenType),
    /// Function applications nested deeper than the limit.
    DepthExceeded,
}

/// The view of an evaluation failure.
pub enum EvalErrorV {
    Unbound(Seq<char>),
    NotANumber(ValueV),
    NotCallable(ValueV),
    NoParameters,
    UnknownOperator(TokenType),
    DepthExceeded,
}

impl EvalError {
    pub open spec fn view(&self) -> EvalErrorV {
        match self {
            EvalError::UnboundIdentifier(n) => EvalErrorV::Unbound(n@),
            EvalError::NotANumber(v) => EvalErrorV::NotANumber(v@),
            EvalError::NotCallable(v) => EvalErrorV::NotCallable(v@),
            EvalError::NoParameters => EvalErrorV::NoParameters,
            EvalError::UnknownOperator(t) => EvalErrorV::UnknownOperator(*t),
            EvalError::DepthExceeded => EvalErrorV::DepthExceeded,
        }
    }
}

/// The view of an evaluation outcome.
pub open spec fn result_view(r: Result<LangValue, EvalError>) -> Result<ValueV, EvalErrorV> {
    match r {
        Ok(v) => Ok(v@),
        Err(e) => Err(e@),
    }
}

pub open spec fn is_arith_op(op: TokenType) -> bool {
    op == TokenType::Plus || op == TokenType::Minus || op == TokenType::Star || op
        == TokenType::Slash
}

/// An arithmetic operator applied to two evaluated operands: both must be
/// numbers, the left one is checked first.
pub open spec fn arith_spec(op: TokenType, l: ValueV, r: ValueV) -> Result<ValueV, EvalErrorV> {
    match l {
        ValueV::Number(a) => match r {
            ValueV::Number(b) => Ok(
                ValueV::Number(
                    if op == TokenType::Plus {
                        float_add(a, b)
                    } else if op == TokenType::Minus {
                        float_sub(a, b)
                    } else if op == TokenType::Star {
                        float_mul(a, b)
                    } else {
                        float_div(a, b)
                    },
                ),
            ),
            _ => Err(EvalErrorV::NotANumber(r)),
        },
        _ => Err(EvalErrorV::NotANumber(l)),
    }
}

/// The closure that a definition with parameters `ps` evaluates to in `env`:
/// it binds the first parameter; with more parameters its body is the
/// definition of the rest.
pub open spec fn closure_of(env: Map<Seq<char>, ValueV>, ps: Seq<Seq<char>>, body: ExprV) -> ValueV {
    ValueV::Func(
        env,
        ps[0],
        if ps.len() == 1 {
            Box::new(body)
        } else {
            Box::new(ExprV::Func(ps.subrange(1, ps.len() as int), Box::new(body)))
        },
    )
}

/// What a body's value becomes as the result of a call: a closure takes
/// the call's environment.
pub open spec fn call_result(call_env: Map<Seq<char>, ValueV>, v: ValueV) -> ValueV {
    match v {
        ValueV::Func(_, p, b) => ValueV::Func(call_env, p, b),
        _ => v,
    }
}

/// The value of `e` in `env`, with at most `fuel` nested applications.
pub open spec fn eval_spec(e: ExprV, env: Map<Seq<char>, ValueV>, fuel: nat) -> Result<
    ValueV,
    EvalErrorV,
>
    decreases fuel, e,
{
    match e {
        ExprV::Value(v) => Ok(v),
        ExprV::Ident(n) => if env.contains_key(n) {
            Ok(env[n])
        } else {
            Err(EvalErrorV::Unbound(n))
        },
        ExprV::Binary(op, l, r) => if !is_arith_op(op) {
            Err(EvalErrorV::UnknownOperator(op))
        } else {
            match eval_spec(*l, env, fuel) {
                Err(x) => Err(x),
                Ok(lv) => match eval_spec(*r, env, fuel) {
                    Err(x) => Err(x),
                    Ok(rv) => arith_spec(op, lv, rv),
                },
            }
        },
        ExprV::Pair(l, r) => match eval_spec(*l, env, fuel) {
            Err(x) => Err(x),
            Ok(lv) => match eval_spec(*r, env, fuel) {
                Err(x) => Err(x),
                Ok(rv) => Ok(ValueV::Pair(Box::new(lv), Box::new(rv))),
            },
        },
        ExprV::Call(f, a) => match eval_spec(*f, env, fuel) {
            Err(x) => Err(x),
            Ok(fv) => match fv {
                ValueV::Func(cenv, p, body) => match eval_spec(*a, env, fuel) {
                    Err(x) => Err(x),
                    Ok(av) => if fuel == 0 {
                        Err(EvalErrorV::DepthExceeded)
                    } else {
                        let call_env = cenv.insert(p, av);
                        match eval_spec(*body, call_env, (fuel - 1) as nat) {
                            Err(x) => Err(x),
                            Ok(v) => Ok(call_result(call_env, v)),
                        }
                    },
                },
                _ => Err(EvalErrorV::NotCallable(fv)),
            },
        },
        ExprV::Func(ps, body) => if ps.len() == 0 {
            Err(EvalErrorV::NoParameters)
        } else {
            Ok(closure_of(env, ps, *body))
        },
        ExprV::Block(lines) => eval_lines_spec(lines, env, fuel),
    }
}

/// The value of a sequence of lines run in order in `env`: declarations
/// bind, and the value is that of the last line (none if it is a
/// declaration, or if there are no lines).
pub open spec fn eval_lines_spec(lines: Seq<LineV>, env: Map<Seq<char>, ValueV>, fuel: nat) -> Result<
    ValueV,
    EvalErrorV,
>
    decreases fuel, lines,
{
    if lines.len() == 0 {
        Ok(ValueV::Nothing)
    } else {
        let rest = lines.subrange(1, lines.len() as int);
        match lines[0] {
            LineV::Decl(name, rhs) => match eval_spec(rhs, env, fuel) {
                Err(x) => Err(x),
                Ok(v) => if rest.len() == 0 {
                    Ok(ValueV::Nothing)
                } else {
                    eval_lines_spec(rest, env.insert(name, v), fuel)
                },
            },
            LineV::Expr(x) => match eval_spec(x, env, fuel) {
                Err(err) => Err(err),
                Ok(v) => if rest.len() == 0 {
                    Ok(v)
                } else {
                    eval_lines_spec(rest, env, fuel)
                },
            },
        }
    }
}

/// Applies an arithmetic operator to two evaluated operands.
fn arith(op: TokenType, l: LangValue, r: LangValue) -> (res: Result<LangValue, EvalError>)
    requires
        is_arith_op(op),
    ensures
        result_view(res) == arith_spec(op, l@, r@),
{
    match l {
        LangValue::LangNumber(a) => match r {
            LangValue::LangNumber(b) => {
                let n = match op {
                    TokenType::Plus => add_bits(a, b),
                    TokenType::Minus => sub_bits(a, b),
                    TokenType::Star => mul_bits(a, b),
                    _ => div_bits(a, b),
                };
                Ok(LangValue::LangNumber(n))
            },
            _ => Err(EvalError::NotANumber(r)),
        },
        _ => Err(EvalError::NotANumber(l)),
    }
}

/// Evaluates `e` in `env`, with at most `fuel` nested function applications.
pub fn eval(e: &Expr, env: &Environment, fuel: u32) -> (r: Result<LangValue, EvalError>)
    ensures
        result_view(r) == eval_spec(e@, env@, fuel as nat),
    decreases fuel, e,
{
    match e {
        Expr::Value(v) => Ok(v.copy()),
        Expr::Ident(id) => match env.get(&id.name) {
            Some(v) => Ok(v.copy()),
            None => Err(EvalError::UnboundIdentifier(id.name.clone())),
        },
        Expr::Binary(b) => {
            let op = b.oper;
            if !(op == TokenType::Plus || op == TokenType::Minus || op == TokenType::Star || op
                == TokenType::Slash) {
                return Err(EvalError::UnknownOperator(op));
            }
            let lv = match eval(&b.left, env, fuel) {
                Ok(v) => v,
                Err(x) => {
                    return Err(x);
                },
            };
            let rv = match eval(&b.right, env, fuel) {
                Ok(v) => v,
                Err(x) => {
                    return Err(x);
                },
            };
            arith(op, lv, rv)
        },
        Expr::Pair(p) => {
            let lv = match eval(&p.left, env, fuel) {
                Ok(v) => v,
                Err(x) => {
                    return Err(x);
                },
            };
            let rv = match eval(&p.right, env, fuel) {
                Ok(v) => v,
                Err(x) => {
                    return Err(x);
                },
            };
            Ok(LangValue::LangPair { left: Box::new(lv), right: Box::new(rv) })
        },
        Expr::Call(c) => {
            let fv = match eval(&c.func, env, fuel) {
                Ok(v) => v,
                Err(x) => {
                    return Err(x);
                },
            };
            match fv {
                LangValue::LangFunc(fe) => {
                    let av = match eval(&c.arg, env, fuel) {
                        Ok(v) => v,
                        Err(x) => {
                            return Err(x);
                        },
                    };
                    if fuel == 0 {
                        return Err(EvalError::DepthExceeded);
                    }
                    let FuncEnv { env: captured, func } = fe;
                    let mut call_env = captured;
                    func.arg_destructure.destruct(&mut call_env, av);
                    match eval(&func.ret, &call_env, fuel - 1) {
                        Ok(LangValue::LangFunc(inner)) => Ok(
                            LangValue::LangFunc(FuncEnv { env: call_env, func: inner.func }),
                        ),
                        Ok(v) => Ok(v),
                        Err(x) => Err(x),
                    }
                },
                _ => Err(EvalError::NotCallable(fv)),
            }
        },
        Expr::Func(f) => {
            if f.args.len() == 0 {
                return Err(EvalError::NoParameters);
            }
            let ghost ps = crate::ast::patterns_view(f.args@);
            let ret = if f.args.len() == 1 {
                f.body.copy()
            } else {
                let mut rest: Vec<Destructure> = Vec::new();
                let mut i: usize = 1;
                while i < f.args.len()
                    invariant
                        1 <= i <= f.args.len(),
                        rest@.len() == i - 1,
                        forall|k: int| 0 <= k < i - 1 ==> rest@[k]@ == f.args@[k + 1]@,
                    decreases f.args.len() - i,
                {
                    rest.push(f.args[i].copy());
                    i = i + 1;
                }
                assert(crate::ast::patterns_view(rest@) =~= ps.subrange(1, ps.len() as int));
                Expr::Func(crate::ast::FuncDef { args: rest, body: Box::new(f.body.copy()) })
            };
            Ok(
                LangValue::LangFunc(
                    FuncEnv {
                        env: env.copy(),
                        func: crate::value::Lambda {
                            arg_destructure: f.args[0].copy(),
                            ret: Box::new(ret),
                        },
                    },
                ),
            )
        },
        Expr::Block(b) => {
            proof {
                assert(decreases_to!(*e => (*e)->Block_0));
                assert(decreases_to!((*e)->Block_0 => (*e)->Block_0.lines));
            }
            eval_lines(&b.lines, env, fuel)
        },
    }
}

/// Runs lines in order in a copy of `env`; the value is that of the last
/// line.
pub fn eval_lines(lines: &Vec<DeclOrExpr>, env: &Environment, fuel: u32) -> (r: Result<
    LangValue,
    EvalError,
>)
    ensures
        result_view(r) == eval_lines_spec(lines_view(lines@), env@, fuel as nat),
    decreases fuel, lines,
{
    let ghost lv = lines_view(lines@);
    proof {
        crate::ast::lemma_lines_view(lines@);
    }
    if lines.len() == 0 {
        return Ok(LangValue::LangNone);
    }
    let mut tmp_env = env.copy();
    let mut i: usize = 0;
    assert(lv.subrange(0, lv.len() as int) =~= lv);
    loop
        invariant
            i < lines.len(),
            lv == lines_view(lines@),
            lv.len() == lines.len(),
            forall|k: int| 0 <= k < lines.len() ==> #[trigger] lv[k] == lines@[k]@,
            eval_lines_spec(lv, env@, fuel as nat) == eval_lines_spec(
                lv.subrange(i as int, lv.len() as int),
                tmp_env@,
                fuel as nat,
            ),
        decreases lines.len() - i,
    {
        let ghost cur = lv.subrange(i as int, lv.len() as int);
        assert(cur.subrange(1, cur.len() as int) =~= lv.subrange(i + 1, lv.len() as int));
        assert(cur[0] == lines@[i as int]@);
        let last = i + 1 == lines.len();
        proof {
            assert(decreases_to!(lines => lines@));
            assert(decreases_to!(lines@ => lines@[i as int]));
        }
        match &lines[i] {
            DeclOrExpr::Declaration(d) => {
                proof {
                    assert(decreases_to!(lines@[i as int] => lines@[i as int]->Declaration_0));
                    assert(decreases_to!(lines@[i as int]->Declaration_0 => lines@[
                        i as int
                    ]->Declaration_0.right));
                }
                let v = match eval(&d.right, &tmp_env, fuel) {
                    Ok(v) => v,
                    Err(x) => {
                        return Err(x);
                    },
                };
                if last {
                    return Ok(LangValue::LangNone);
                }
                d.left.destruct(&mut tmp_env, v);
            },
            DeclOrExpr::Expression(x) => {
                proof {
                    assert(decreases_to!(lines@[i as int] => lines@[i as int]->Expression_0));
                }
                let v = match eval(x, &tmp_env, fuel) {
                    Ok(v) => v,
                    Err(err) => {
                        return Err(err);
                    },
                };
                if last {
                    return Ok(v);
                }
            },
        }
        i = i + 1;
    }
}

/// Evaluates `e` in `env` under the nesting limit of function applications.
pub fn evaluate(e: &Expr, env: &Environment) -> (r: Result<LangValue, EvalError>)
    ensures
        result_view(r) == eval_spec(e@, env@, MAX_CALL_DEPTH as nat),
{
    eval(e, env, MAX_CALL_DEPTH)
}

/// A program ready to run: its lines and the environment they start in.
#[derive(Debug)]
pub struct Scope {
    pub env: Environment,
    pub lines: Vec<DeclOrExpr>,
}

impl Scope {
    /// Runs the lines in order in a copy of the environment, under the
    /// nesting limit of function applications; the value is that of the
    /// last line.
    pub fn eval(&self) -> (r: Result<LangValue, EvalError>)
        ensures
            result_view(r) == eval_lines_spec(lines_view(self.lines@), self.env@, MAX_CALL_DEPTH as nat),
    {
        eval_lines(&self.lines, &self.env, MAX_CALL_DEPTH)
    }
}

} // verus!
