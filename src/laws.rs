//! Laws that hold of the scanner, the parser and the evaluator.
use crate::ast::{ExprV, LineV};
use crate::eval::{eval_lines_spec, eval_spec, EvalErrorV};
use crate::parse::{kind_at, p_atom, p_expr, p_list_rest, pair_chain, parse_spec};
use crate::number::{all_digits, is_decimal_literal};
use crate::scan::{
    comment_end, digits_end, is_digit, is_space, lemma_comment_end, lemma_digits_end,
    lemma_lex_progress, lex, number_end, scan_from, scan_spec, LexStep,
};
use crate::token::{TokenType, TokenView};
use crate::value::ValueV;
use vstd::prelude::*;

verus! {

/// The expression reached from `e` by following the right field of pair
/// cells `k` times.
pub open spec fn right_descent(e: ExprV, k: nat) -> ExprV
    decreases k,
{
    if k == 0 {
        e
    } else {
        match e {
            ExprV::Pair(_, r) => right_descent(*r, (k - 1) as nat),
            _ => e,
        }
    }
}

/// The value reached from `v` by following the right field of pairs `k`
/// times.
pub open spec fn value_descent(v: ValueV, k: nat) -> ValueV
    decreases k,
{
    if k == 0 {
        v
    } else {
        match v {
            ValueV::Pair(_, r) => value_descent(*r, (k - 1) as nat),
            _ => v,
        }
    }
}

/// A list literal of `n` expressions is a chain of `n` pair cells holding
/// them in order, whose right field after exactly `n` descents is none.
pub proof fn law_list_chain_shape(items: Seq<ExprV>)
    ensures
        forall|k: nat|
            k < items.len() ==> (#[trigger] right_descent(pair_chain(items), k)) is Pair && *right_descent(
                pair_chain(items),
                k,
            )->Pair_0 == items[k as int],
        right_descent(pair_chain(items), items.len()) == ExprV::Value(ValueV::Nothing),
    decreases items.len(),
{
    if items.len() > 0 {
        let rest = items.subrange(1, items.len() as int);
        law_list_chain_shape(rest);
        assert forall|k: nat| k < items.len() implies (#[trigger] right_descent(
            pair_chain(items),
            k,
        )) is Pair && *right_descent(pair_chain(items), k)->Pair_0 == items[k as int] by {
            if k > 0 {
                assert(right_descent(pair_chain(items), k) == right_descent(
                    pair_chain(rest),
                    (k - 1) as nat,
                ));
                assert(rest[k - 1] == items[k as int]);
            }
        }
        assert(right_descent(pair_chain(items), items.len()) == right_descent(
            pair_chain(rest),
            rest.len(),
        ));
    }
}

/// Evaluating a list literal of `n` expressions, when it succeeds, gives a
/// chain of `n` pairs whose `k`-th left value is the value of the `k`-th
/// expression, and which ends in none after exactly `n` descents.
pub proof fn law_list_value_shape(items: Seq<ExprV>, env: Map<Seq<char>, ValueV>, fuel: nat)
    requires
        eval_spec(pair_chain(items), env, fuel) is Ok,
    ensures
        forall|k: nat|
            k < items.len() ==> {
                &&& (#[trigger] value_descent(eval_spec(pair_chain(items), env, fuel)->Ok_0, k)) is Pair
                &&& eval_spec(items[k as int], env, fuel) is Ok
                &&& *value_descent(eval_spec(pair_chain(items), env, fuel)->Ok_0, k)->Pair_0
                    == eval_spec(items[k as int], env, fuel)->Ok_0
            },
        value_descent(eval_spec(pair_chain(items), env, fuel)->Ok_0, items.len())
            == ValueV::Nothing,
    decreases items.len(),
{
    let v = eval_spec(pair_chain(items), env, fuel)->Ok_0;
    if items.len() > 0 {
        let rest = items.subrange(1, items.len() as int);
        law_list_value_shape(rest, env, fuel);
        let rv = eval_spec(pair_chain(rest), env, fuel)->Ok_0;
        assert(v matches ValueV::Pair(_, r) && *r == rv);
        assert(eval_spec(items[0], env, fuel) is Ok);
        assert(*v->Pair_0 == eval_spec(items[0], env, fuel)->Ok_0);
        assert forall|k: nat| k < items.len() implies {
            &&& (#[trigger] value_descent(v, k)) is Pair
            &&& eval_spec(items[k as int], env, fuel) is Ok
            &&& *value_descent(v, k)->Pair_0 == eval_spec(items[k as int], env, fuel)->Ok_0
        } by {
            if k > 0 {
                assert(value_descent(v, k) == value_descent(rv, (k - 1) as nat));
                assert(rest[k - 1] == items[k as int]);
            }
        }
        assert(value_descent(v, items.len()) == value_descent(rv, rest.len()));
    }
}

/// Parsing is a function of the tokens: two parses of the same token
/// sequence give the same lines, or fail the same way.
pub proof fn law_parse_is_pure(t1: Seq<TokenView>, t2: Seq<TokenView>)
    requires
        t1 == t2,
    ensures
        parse_spec(t1) == parse_spec(t2),
{
}

/// Evaluation is a function of the tree: two evaluations of the same lines
/// in the empty environment give the same value, or fail the same way.
pub proof fn law_eval_is_deterministic(l1: Seq<LineV>, l2: Seq<LineV>, fuel: nat)
    requires
        l1 == l2,
    ensures
        eval_lines_spec(l1, Map::empty(), fuel) == eval_lines_spec(l2, Map::empty(), fuel),
{
}

/// Closures capture by value: once `f` is bound to a closure, binding
/// another name `x` in the same scope does not change what calling `f`
/// gives.
pub proof fn law_closure_capture(
    env: Map<Seq<char>, ValueV>,
    f: Seq<char>,
    closure: ValueV,
    x: Seq<char>,
    v: ValueV,
    arg: ValueV,
    fuel: nat,
)
    requires
        x != f,
    ensures
        eval_spec(
            ExprV::Call(Box::new(ExprV::Ident(f)), Box::new(ExprV::Value(arg))),
            env.insert(f, closure).insert(x, v),
            fuel,
        ) == eval_spec(
            ExprV::Call(Box::new(ExprV::Ident(f)), Box::new(ExprV::Value(arg))),
            env.insert(f, closure),
            fuel,
        ),
{
    let e1 = env.insert(f, closure).insert(x, v);
    let e2 = env.insert(f, closure);
    assert(e1.contains_key(f) && e1[f] == closure);
    assert(e2.contains_key(f) && e2[f] == closure);
    assert(eval_spec(ExprV::Ident(f), e1, fuel) == eval_spec(ExprV::Ident(f), e2, fuel));
    assert(eval_spec(ExprV::Value(arg), e1, fuel) == eval_spec(ExprV::Value(arg), e2, fuel));
}

/// A function definition evaluates to a closure over the environment it
/// is evaluated in: a snapshot of the scope at that point.
pub proof fn law_definition_captures_scope(
    env: Map<Seq<char>, ValueV>,
    ps: Seq<Seq<char>>,
    body: ExprV,
    fuel: nat,
)
    requires
        ps.len() > 0,
    ensures
        eval_spec(ExprV::Func(ps, Box::new(body)), env, fuel) == Ok::<ValueV, EvalErrorV>(
            crate::eval::closure_of(env, ps, body),
        ),
        crate::eval::closure_of(env, ps, body) matches ValueV::Func(c, p, _) && c == env && p
            == ps[0],
{
}

/// Text that the scanner skips: whitespace characters and line comments.
pub open spec fn is_filler(g: Seq<char>) -> bool
    decreases g.len(),
{
    if g.len() == 0 {
        true
    } else if is_space(g[0]) {
        is_filler(g.subrange(1, g.len() as int))
    } else if g.len() >= 2 && g[0] == '-' && g[1] == '-' {
        proof {
            lemma_comment_end(g, 2);
        }
        is_filler(g.subrange(comment_end(g, 2), g.len() as int))
    } else {
        false
    }
}

/// The text made of each filler followed by the lexeme of the token with
/// the same index.
pub open spec fn interleave(gaps: Seq<Seq<char>>, ts: Seq<TokenView>) -> Seq<char>
    decreases ts.len(),
{
    if ts.len() == 0 || gaps.len() == 0 {
        Seq::empty()
    } else {
        gaps[0] + ts[0].text + interleave(gaps.subrange(1, gaps.len() as int), ts.subrange(1, ts.len() as int))
    }
}

/// The text skipped before each token that the scanner emits from `i` on.
pub open spec fn gaps_from(s: Seq<char>, i: int) -> Seq<Seq<char>>
    decreases s.len() - i,
{
    if i < 0 || i >= s.len() {
        seq![Seq::empty()]
    } else {
        proof {
            lemma_lex_progress(s, i);
        }
        match lex(s, i) {
            LexStep::Skip(j) => {
                let g = gaps_from(s, j);
                if g.len() > 0 {
                    g.update(0, s.subrange(i, j) + g[0])
                } else {
                    g
                }
            },
            LexStep::Tok(_, j) => seq![Seq::empty()] + gaps_from(s, j),
            LexStep::Fail(_, _) => Seq::empty(),
        }
    }
}

/// A comment's end read inside a window of the source that contains it.
proof fn lemma_comment_end_window(s: Seq<char>, i: int, k: int, m: int)
    requires
        0 <= i <= k <= m <= s.len(),
        comment_end(s, k) <= m,
    ensures
        comment_end(s.subrange(i, m), k - i) == comment_end(s, k) - i,
    decreases m - k,
{
    lemma_comment_end(s, k);
    if k < m && s[k] != '\n' {
        lemma_comment_end_window(s, i, k + 1, m);
    }
}

/// The gaps before the tokens that the scanner emits from `i` on are
/// filler, and with the lexemes they make up the rest of the source.
proof fn lemma_gaps_from(s: Seq<char>, i: int)
    requires
        0 <= i <= s.len(),
        scan_from(s, i) is Ok,
    ensures
        gaps_from(s, i).len() == scan_from(s, i)->Ok_0.len(),
        forall|k: int| 0 <= k < gaps_from(s, i).len() ==> is_filler(#[trigger] gaps_from(s, i)[k]),
        interleave(gaps_from(s, i), scan_from(s, i)->Ok_0) == s.subrange(i, s.len() as int),
        scan_from(s, i)->Ok_0.len() >= 1,
        i + gaps_from(s, i)[0].len() <= s.len(),
        gaps_from(s, i)[0] == s.subrange(i, i + gaps_from(s, i)[0].len()),
    decreases s.len() - i,
{
    let ts = scan_from(s, i)->Ok_0;
    let g = gaps_from(s, i);
    if i >= s.len() {
        let e = Seq::<char>::empty();
        assert(interleave(g, ts) == e + e + interleave(
            g.subrange(1, 1),
            ts.subrange(1, 1),
        ));
        assert(interleave(g, ts) =~= s.subrange(i, s.len() as int));
        assert(g[0] =~= s.subrange(i, i));
    } else {
        lemma_lex_progress(s, i);
        match lex(s, i) {
            LexStep::Skip(j) => {
                lemma_gaps_from(s, j);
                let g2 = gaps_from(s, j);
                let a = s.subrange(i, j);
                let b = g2[0];
                let m = j + b.len();
                assert(a + b =~= s.subrange(i, m));
                assert(is_filler(a + b)) by {
                    let ab = a + b;
                    if is_space(s[i]) {
                        assert(ab.subrange(1, ab.len() as int) =~= b);
                    } else {
                        lemma_comment_end(s, i + 2);
                        lemma_comment_end_window(s, i, i + 2, m);
                        assert(ab.subrange(j - i, ab.len() as int) =~= b);
                    }
                }
                assert forall|k: int| 0 <= k < g.len() implies is_filler(#[trigger] g[k]) by {
                    if k > 0 {
                        assert(g[k] == g2[k]);
                    }
                }
                let rest2 = interleave(g2.subrange(1, g2.len() as int), ts.subrange(1, ts.len() as int));
                assert(g.subrange(1, g.len() as int) =~= g2.subrange(1, g2.len() as int));
                assert(interleave(g2, ts) == b + ts[0].text + rest2);
                assert(interleave(g, ts) == (a + b) + ts[0].text + rest2);
                assert(s.subrange(i, s.len() as int) =~= a + s.subrange(j, s.len() as int));
                assert(interleave(g, ts) =~= s.subrange(i, s.len() as int));
            },
            LexStep::Tok(kind, j) => {
                lemma_gaps_from(s, j);
                let g2 = gaps_from(s, j);
                let rest = scan_from(s, j)->Ok_0;
                assert(g.subrange(1, g.len() as int) =~= g2);
                assert(ts.subrange(1, ts.len() as int) =~= rest);
                assert forall|k: int| 0 <= k < g.len() implies is_filler(#[trigger] g[k]) by {
                    if k > 0 {
                        assert(g[k] == g2[k - 1]);
                    }
                }
                assert(s.subrange(i, s.len() as int) =~= s.subrange(i, j) + s.subrange(j, s.len() as int));
                assert(interleave(g, ts) =~= s.subrange(i, s.len() as int));
                assert(g[0] =~= s.subrange(i, i));
            },
            LexStep::Fail(_, _) => {},
        }
    }
}

/// Scanning loses no text: between and before the lexemes of the tokens
/// there is only whitespace and comments, and putting it back in front of
/// each lexeme gives the source again.
pub proof fn law_scan_restores_source(s: Seq<char>)
    requires
        scan_spec(s) is Ok,
    ensures
        exists|gaps: Seq<Seq<char>>|
            {
                &&& gaps.len() == scan_spec(s)->Ok_0.len()
                &&& forall|k: int| 0 <= k < gaps.len() ==> is_filler(#[trigger] gaps[k])
                &&& interleave(gaps, scan_spec(s)->Ok_0) == s
            },
{
    lemma_gaps_from(s, 0);
    assert(s.subrange(0, s.len() as int) =~= s);
    let gaps = gaps_from(s, 0);
    assert(gaps.len() == scan_spec(s)->Ok_0.len());
}

/// Every character of a text is whitespace.
pub open spec fn all_spaces(g: Seq<char>) -> bool {
    forall|c: int| 0 <= c < g.len() ==> is_space(#[trigger] g[c])
}

/// No two adjacent characters of a text are `-`, so no comment starts in it.
pub open spec fn no_comment_start(s: Seq<char>) -> bool {
    forall|i: int| 0 <= i < s.len() - 1 ==> !(#[trigger] s[i] == '-' && s[i + 1] == '-')
}

/// Without comments, what the scanner skips is whitespace alone.
proof fn lemma_gaps_spaces(s: Seq<char>, i: int)
    requires
        0 <= i <= s.len(),
        scan_from(s, i) is Ok,
        no_comment_start(s),
    ensures
        forall|k: int| 0 <= k < gaps_from(s, i).len() ==> all_spaces(#[trigger] gaps_from(s, i)[k]),
    decreases s.len() - i,
{
    let g = gaps_from(s, i);
    if i < s.len() {
        lemma_lex_progress(s, i);
        match lex(s, i) {
            LexStep::Skip(j) => {
                lemma_gaps_spaces(s, j);
                let g2 = gaps_from(s, j);
                if g2.len() > 0 {
                    assert(is_space(s[i])) by {
                        if i + 1 < s.len() {
                            assert(!(s[i] == '-' && s[i + 1] == '-'));
                        }
                    }
                    assert(j == i + 1);
                    assert(all_spaces(g[0])) by {
                        assert(all_spaces(g2[0]));
                        let h = s.subrange(i, j) + g2[0];
                        assert forall|c: int| 0 <= c < h.len() implies is_space(#[trigger] h[c]) by {
                            if c > 0 {
                                assert(h[c] == g2[0][c - 1]);
                            }
                        }
                    }
                    assert forall|k: int| 0 <= k < g.len() implies all_spaces(#[trigger] g[k]) by {
                        if k > 0 {
                            assert(g[k] == g2[k]);
                        }
                    }
                }
            },
            LexStep::Tok(_, j) => {
                lemma_gaps_spaces(s, j);
                let g2 = gaps_from(s, j);
                assert forall|k: int| 0 <= k < g.len() implies all_spaces(#[trigger] g[k]) by {
                    if k > 0 {
                        assert(g[k] == g2[k - 1]);
                    }
                }
            },
            LexStep::Fail(_, _) => {},
        }
    }
}

/// Scanning a source without comments loses no text: between and before
/// the lexemes there is only whitespace, and putting it back in front of
/// each lexeme gives the source again.
pub proof fn law_scan_restores_source_without_comments(s: Seq<char>)
    requires
        scan_spec(s) is Ok,
        no_comment_start(s),
    ensures
        exists|gaps: Seq<Seq<char>>|
            {
                &&& gaps.len() == scan_spec(s)->Ok_0.len()
                &&& forall|k: int| 0 <= k < gaps.len() ==> all_spaces(#[trigger] gaps[k])
                &&& interleave(gaps, scan_spec(s)->Ok_0) == s
            },
{
    lemma_gaps_from(s, 0);
    lemma_gaps_spaces(s, 0);
    assert(s.subrange(0, s.len() as int) =~= s);
    let gaps = gaps_from(s, 0);
    assert(gaps.len() == scan_spec(s)->Ok_0.len());
}

/// The text of a number that starts at `i` is a decimal literal.
proof fn lemma_number_text(s: Seq<char>, i: int)
    requires
        0 <= i < s.len(),
        is_digit(s[i]),
    ensures
        is_decimal_literal(s.subrange(i, number_end(s, i))),
{
    lemma_digits_end(s, i + 1);
    lemma_digits_all(s, i + 1);
    let j = digits_end(s, i + 1);
    let t = s.subrange(i, number_end(s, i));
    if j + 1 < s.len() && s[j] == '.' && is_digit(s[j + 1]) {
        lemma_digits_end(s, j + 2);
        lemma_digits_all(s, j + 2);
        let p = j - i;
        assert(t.subrange(0, p) =~= s.subrange(i, j));
        assert(t.subrange(p + 1, t.len() as int) =~= s.subrange(j + 1, digits_end(s, j + 2)));
        assert(all_digits(t.subrange(0, p)));
        assert(all_digits(t.subrange(p + 1, t.len() as int)));
    } else {
        assert(all_digits(t));
    }
}

/// The characters before where a run of digits ends are digits.
proof fn lemma_digits_all(s: Seq<char>, i: int)
    requires
        0 <= i <= s.len(),
    ensures
        forall|k: int| i <= k < digits_end(s, i) ==> is_digit(#[trigger] s[k]),
    decreases s.len() - i,
{
    if i < s.len() && is_digit(s[i]) {
        lemma_digits_all(s, i + 1);
    }
}

proof fn lemma_scanned_numbers(s: Seq<char>, i: int)
    requires
        0 <= i <= s.len(),
        scan_from(s, i) is Ok,
    ensures
        forall|k: int|
            0 <= k < scan_from(s, i)->Ok_0.len() && (#[trigger] scan_from(s, i)->Ok_0[k]).kind
                == TokenType::LiteralNumber ==> is_decimal_literal(scan_from(s, i)->Ok_0[k].text),
    decreases s.len() - i,
{
    if i < s.len() {
        lemma_lex_progress(s, i);
        match lex(s, i) {
            LexStep::Skip(j) => {
                lemma_scanned_numbers(s, j);
            },
            LexStep::Tok(kind, j) => {
                lemma_scanned_numbers(s, j);
                let ts = scan_from(s, i)->Ok_0;
                let rest = scan_from(s, j)->Ok_0;
                if kind == TokenType::LiteralNumber {
                    lemma_number_text(s, i);
                }
                assert forall|k: int|
                    0 <= k < ts.len() && (#[trigger] ts[k]).kind
                        == TokenType::LiteralNumber implies is_decimal_literal(ts[k].text) by {
                    if k > 0 {
                        assert(ts[k] == rest[k - 1]);
                    }
                }
            },
            LexStep::Fail(_, _) => {},
        }
    }
}

/// Every number token the scanner emits is a decimal literal, so it reads
/// as a number when parsed.
pub proof fn law_scanned_numbers_are_decimal(s: Seq<char>)
    requires
        scan_spec(s) is Ok,
    ensures
        forall|k: int|
            0 <= k < scan_spec(s)->Ok_0.len() && (#[trigger] scan_spec(s)->Ok_0[k]).kind
                == TokenType::LiteralNumber ==> is_decimal_literal(scan_spec(s)->Ok_0[k].text),
{
    lemma_scanned_numbers(s, 0);
}

proof fn lemma_list_rest_chain(ts: Seq<TokenView>, i: int, items: Seq<ExprV>)
    requires
        p_list_rest(ts, i, items) is Ok,
    ensures
        exists|all: Seq<ExprV>|
            all.len() >= items.len() && all.subrange(0, items.len() as int) == items
                && p_list_rest(ts, i, items)->Ok_0.0 == pair_chain(all),
    decreases ts.len() - i,
{
    let k = kind_at(ts, i);
    if k == TokenType::Comma {
        let (e, j) = p_expr(ts, i + 1)->Ok_0;
        lemma_list_rest_chain(ts, j, items.push(e));
        let all = choose|all: Seq<ExprV>|
            all.len() >= items.push(e).len() && all.subrange(0, items.push(e).len() as int)
                == items.push(e) && p_list_rest(ts, j, items.push(e))->Ok_0.0 == pair_chain(all);
        assert(all.subrange(0, items.len() as int) =~= items) by {
            assert forall|q: int| 0 <= q < items.len() implies all[q] == items[q] by {
                assert(all.subrange(0, items.push(e).len() as int)[q] == items.push(e)[q]);
            }
        }
    } else {
        assert(items.subrange(0, items.len() as int) =~= items);
    }
}

/// A list literal parses to a chain of pairs over one or more expressions,
/// so the laws on chains above apply to it.
pub proof fn law_list_literal_parses_to_chain(ts: Seq<TokenView>, i: int)
    requires
        kind_at(ts, i) == TokenType::LeftSquareBrace,
        p_atom(ts, i) is Ok,
    ensures
        exists|items: Seq<ExprV>| items.len() >= 1 && p_atom(ts, i)->Ok_0.0 == pair_chain(items),
{
    let (first, j) = p_expr(ts, i + 1)->Ok_0;
    lemma_list_rest_chain(ts, j, seq![first]);
}

} // verus!
