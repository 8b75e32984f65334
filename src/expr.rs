use vstd::prelude::*;
use crate::ast::{
    AggregationModifierV, BinaryExpr, Duration, Expr, ExprV, FunCall, NumberLiteral, StringLiteral, SubqueryExpr,
    aggregation_opt_view, exprs_view,
};
use crate::error::{SStep, Step, step_matches, step_within};
use crate::lexer::{
    CharClass, Source, duration_at, duration_token, metric_name_at, metric_name_end, number_at,
    number_end, run_end, skip_class, skip_ws, string_lit, string_lit_at, ws_end,
};
use crate::modifier::{aggregation_modifier, aggregation_modifier_at, binary_op, binary_op_at};
use crate::selector::{vector_selector, vector_selector_at};

verus! {

/// The selector that stands for "nothing here": no name and no label matchers.
pub open spec fn is_empty_selector(e: ExprV) -> bool {
    match e {
        ExprV::Vector(v) => v.name.len() == 0 && v.label_matchers.len() == 0,
        _ => false,
    }
}

/// `acc` with the argument `a` appended, unless `a` is the empty selector.
pub open spec fn push_arg(acc: Seq<ExprV>, a: ExprV) -> Seq<ExprV> {
    if is_empty_selector(a) {
        acc
    } else {
        acc.push(a)
    }
}

pub open spec fn call_v(
    name: Seq<char>,
    args: Seq<ExprV>,
    aggregation: Option<AggregationModifierV>,
) -> ExprV {
    ExprV::Call { name, args, aggregation }
}

pub open spec fn funcall_view(c: FunCall) -> ExprV {
    call_v(c.name@, exprs_view(c.args@), aggregation_opt_view(c.aggregation))
}

/// A subquery suffix at `p`: `[` range `:` optional resolution `]`, with whitespace around the
/// brackets and the colon. An empty resolution token means there is none.
pub open spec fn subquery_suffix(s: Seq<char>, p: int) -> SStep<(Duration, Option<Duration>)> {
    let q = ws_end(s, p);
    if 0 <= q < s.len() && s[q] == '[' {
        match duration_at(s, ws_end(s, q + 1)) {
            SStep::Done(e, range) => {
                let c = ws_end(s, e);
                if 0 <= c < s.len() && s[c] == ':' {
                    let r0 = ws_end(s, c + 1);
                    let res = if run_end(s, r0, CharClass::Alnum) == r0 {
                        SStep::Done(r0, None)
                    } else {
                        match duration_at(s, r0) {
                            SStep::Done(e2, d) => SStep::Done(e2, Some(d)),
                            SStep::NoMatch => SStep::NoMatch,
                            SStep::Fatal => SStep::Fatal,
                        }
                    };
                    match res {
                        SStep::Done(e2, resolution) => {
                            let b = ws_end(s, e2);
                            if 0 <= b < s.len() && s[b] == ']' {
                                SStep::Done(ws_end(s, b + 1), (range, resolution))
                            } else {
                                SStep::NoMatch
                            }
                        },
                        SStep::NoMatch => SStep::NoMatch,
                        SStep::Fatal => SStep::Fatal,
                    }
                } else {
                    SStep::NoMatch
                }
            },
            SStep::NoMatch => SStep::NoMatch,
            SStep::Fatal => SStep::Fatal,
        }
    } else {
        SStep::NoMatch
    }
}

/// A whole expression at `p`: the loosest precedence level, then an optional subquery suffix
/// that wraps it.
pub open spec fn expr(s: Seq<char>, p: int) -> SStep<ExprV>
    decreases s.len() - p, 15nat,
{
    if !(0 <= p <= s.len()) {
        SStep::NoMatch
    } else {
        match level(s, p, 5) {
            SStep::Done(q, e) => match subquery_suffix(s, q) {
                SStep::Done(q2, (range, resolution)) => SStep::Done(
                    q2,
                    ExprV::Subquery { expr: Box::new(e), range: Some(range), resolution },
                ),
                SStep::NoMatch => SStep::Done(q, e),
                SStep::Fatal => SStep::Fatal,
            },
            r => r,
        }
    }
}

/// Precedence level `k` at `p`, from tightest to loosest: `^` (0), `*` `/` `%` (1), `+` `-`
/// (2), comparisons (3), `and` `unless` (4), `or` (5). Level 0 is right-associative: its
/// right operand is level 0 again. The other levels fold a run of operands to the left.
pub open spec fn level(s: Seq<char>, p: int, k: nat) -> SStep<ExprV>
    decreases s.len() - p, 2 * k + 4,
{
    if !(0 <= p <= s.len()) {
        SStep::NoMatch
    } else if k == 0 {
        match atom(s, p) {
            SStep::Done(q, a) => if p <= q <= s.len() {
                match binary_op(s, q, 0) {
                    Some((q2, op)) => if q < q2 <= s.len() {
                        match level(s, q2, 0) {
                            SStep::Done(q3, b) => SStep::Done(
                                q3,
                                ExprV::Binary { op, lhs: Box::new(a), rhs: Box::new(b) },
                            ),
                            SStep::NoMatch => SStep::Done(q, a),
                            SStep::Fatal => SStep::Fatal,
                        }
                    } else {
                        SStep::Done(q, a)
                    },
                    None => SStep::Done(q, a),
                }
            } else {
                SStep::Done(q, a)
            },
            r => r,
        }
    } else {
        match level(s, p, (k - 1) as nat) {
            SStep::Done(q, a) => if p <= q <= s.len() {
                level_rest(s, q, k, a)
            } else {
                SStep::Done(q, a)
            },
            r => r,
        }
    }
}

/// The rest of level `k >= 1` from `i`, where `acc` is what stands to the left: each operator
/// and operand that follow make `acc` the left operand of a new node.
pub open spec fn level_rest(s: Seq<char>, i: int, k: nat, acc: ExprV) -> SStep<ExprV>
    decreases s.len() - i, 2 * k + 3,
{
    match binary_op(s, i, k as int) {
        Some((q, op)) => if 0 <= i < q <= s.len() && k >= 1 {
            match level(s, q, (k - 1) as nat) {
                SStep::Done(q2, b) => if q <= q2 <= s.len() {
                    level_rest(
                        s,
                        q2,
                        k,
                        ExprV::Binary { op, lhs: Box::new(acc), rhs: Box::new(b) },
                    )
                } else {
                    SStep::Done(i, acc)
                },
                SStep::NoMatch => SStep::Done(i, acc),
                SStep::Fatal => SStep::Fatal,
            }
        } else {
            SStep::Done(i, acc)
        },
        None => SStep::Done(i, acc),
    }
}

/// An operand at `p`, trying in order: a parenthesised expression, a number literal, a unary
/// `+` (which leaves its operand as it is), a unary `-` (which wraps its operand in a
/// negation), a function call, a vector selector.
pub open spec fn atom(s: Seq<char>, p: int) -> SStep<ExprV>
    decreases s.len() - p, 2nat,
{
    if !(0 <= p <= s.len()) {
        SStep::NoMatch
    } else {
        let paren = if p < s.len() && s[p] == '(' {
            match expr(s, p + 1) {
                SStep::Done(q, e) => if p + 1 <= q < s.len() && s[q] == ')' {
                    SStep::Done(q + 1, e)
                } else {
                    SStep::NoMatch
                },
                SStep::NoMatch => SStep::NoMatch,
                SStep::Fatal => SStep::Fatal,
            }
        } else {
            SStep::NoMatch
        };
        match paren {
            SStep::NoMatch => {
                let q = ws_end(s, p);
                match number_end(s, q) {
                    Some(e) => SStep::Done(ws_end(s, e), ExprV::Number(s.subrange(q, e))),
                    None => {
                        let plus = if p < s.len() && s[p] == '+' {
                            atom(s, p + 1)
                        } else {
                            SStep::NoMatch
                        };
                        match plus {
                            SStep::NoMatch => {
                                let minus = if p < s.len() && s[p] == '-' {
                                    match atom(s, p + 1) {
                                        SStep::Done(q, e) => SStep::Done(
                                            q,
                                            ExprV::Negation(Box::new(e)),
                                        ),
                                        SStep::NoMatch => SStep::NoMatch,
                                        SStep::Fatal => SStep::Fatal,
                                    }
                                } else {
                                    SStep::NoMatch
                                };
                                match minus {
                                    SStep::NoMatch => match funcall(s, p) {
                                        SStep::NoMatch => match vector_selector(s, p) {
                                            SStep::Done(q, v) => SStep::Done(q, ExprV::Vector(v)),
                                            SStep::NoMatch => SStep::NoMatch,
                                            SStep::Fatal => SStep::Fatal,
                                        },
                                        r => r,
                                    },
                                    r => r,
                                }
                            },
                            r => r,
                        }
                    },
                }
            },
            r => r,
        }
    }
}

/// A function call at `p`: a name, then either the argument list and an optional
/// aggregation modifier, or the modifier and then the argument list.
pub open spec fn funcall(s: Seq<char>, p: int) -> SStep<ExprV>
    decreases s.len() - p, 1nat,
{
    match metric_name_end(s, p) {
        Some(q) => if 0 <= p < q <= s.len() {
            let name = s.subrange(p, q);
            match body(s, q) {
                SStep::Done(q2, args) => match aggregation_modifier(s, q2) {
                    Some((q3, a)) => SStep::Done(q3, call_v(name, args, Some(a))),
                    None => SStep::Done(q2, call_v(name, args, None)),
                },
                SStep::Fatal => SStep::Fatal,
                SStep::NoMatch => match aggregation_modifier(s, q) {
                    Some((q3, a)) => if q <= q3 <= s.len() {
                        match body(s, q3) {
                            SStep::Done(q4, args) => SStep::Done(q4, call_v(name, args, Some(a))),
                            SStep::NoMatch => SStep::NoMatch,
                            SStep::Fatal => SStep::Fatal,
                        }
                    } else {
                        SStep::NoMatch
                    },
                    None => SStep::NoMatch,
                },
            }
        } else {
            SStep::NoMatch
        },
        None => SStep::NoMatch,
    }
}

/// A parenthesised argument list at `p`, with the whitespace around the parentheses.
pub open spec fn body(s: Seq<char>, p: int) -> SStep<Seq<ExprV>>
    decreases s.len() - p, 0nat,
{
    let q = ws_end(s, p);
    if 0 <= p <= q < s.len() && s[q] == '(' {
        match args(s, q + 1) {
            SStep::Done(e, list) => {
                let c = ws_end(s, e);
                if 0 <= c < s.len() && s[c] == ')' {
                    SStep::Done(ws_end(s, c + 1), list)
                } else {
                    SStep::NoMatch
                }
            },
            SStep::NoMatch => SStep::NoMatch,
            SStep::Fatal => SStep::Fatal,
        }
    } else {
        SStep::NoMatch
    }
}

/// One argument at `p`: a string literal if one stands there, else an expression.
pub open spec fn arg(s: Seq<char>, p: int) -> SStep<ExprV>
    decreases s.len() - p, 16nat,
{
    match string_lit(s, p) {
        Some((a, b, e)) => SStep::Done(e, ExprV::Str(s.subrange(a, b))),
        None => expr(s, p),
    }
}

/// A comma-separated argument list at `p`, possibly empty. Arguments that are the empty
/// selector are dropped, so that `f()` has no arguments.
pub open spec fn args(s: Seq<char>, p: int) -> SStep<Seq<ExprV>>
    decreases s.len() - p, 18nat,
{
    match arg(s, p) {
        SStep::Done(q, a) => if p <= q <= s.len() {
            args_rest(s, q, push_arg(seq![], a))
        } else {
            SStep::Done(p, seq![])
        },
        SStep::NoMatch => SStep::Done(p, seq![]),
        SStep::Fatal => SStep::Fatal,
    }
}

/// The rest of an argument list from `i`, after the arguments `acc`.
pub open spec fn args_rest(s: Seq<char>, i: int, acc: Seq<ExprV>) -> SStep<Seq<ExprV>>
    decreases s.len() - i, 17nat,
{
    if 0 <= i < s.len() && s[i] == ',' {
        match arg(s, i + 1) {
            SStep::Done(q, a) => if i < q <= s.len() {
                args_rest(s, q, push_arg(acc, a))
            } else {
                SStep::Done(i, acc)
            },
            SStep::NoMatch => SStep::Done(i, acc),
            SStep::Fatal => SStep::Fatal,
        }
    } else {
        SStep::Done(i, acc)
    }
}

} // verus!

verus! {

fn subquery_suffix_at(src: &Source, p: usize) -> (r: Step<(Duration, Option<Duration>)>)
    requires
        src.wf(),
        p <= src@.len(),
    ensures
        step_matches(r, subquery_suffix(src@, p as int), |x: (Duration, Option<Duration>)| x),
        step_within(&r, p as int, src@.len() as int),
{
    let q = skip_ws(src, p);
    if !src.is(q, '[') {
        return Step::NoMatch;
    }
    let q1 = skip_ws(src, q + 1);
    let (e, range) = match duration_token(src, q1) {
        Step::Done(e, d) => (e, d),
        Step::NoMatch => return Step::NoMatch,
        Step::Fatal(err) => return Step::Fatal(err),
    };
    let c = skip_ws(src, e);
    if !src.is(c, ':') {
        return Step::NoMatch;
    }
    let r0 = skip_ws(src, c + 1);
    let (e2, resolution) = if skip_class(src, r0, CharClass::Alnum) == r0 {
        (r0, None)
    } else {
        match duration_token(src, r0) {
            Step::Done(e2, d) => (e2, Some(d)),
            Step::NoMatch => return Step::NoMatch,
            Step::Fatal(err) => return Step::Fatal(err),
        }
    };
    let b = skip_ws(src, e2);
    if src.is(b, ']') {
        Step::Done(skip_ws(src, b + 1), (range, resolution))
    } else {
        Step::NoMatch
    }
}

pub fn expr_at(src: &Source, p: usize) -> (r: Step<Expr>)
    requires
        src.wf(),
        p <= src@.len(),
    ensures
        step_matches(r, expr(src@, p as int), |e: Expr| e@),
        step_within(&r, p as int, src@.len() as int),
    decreases src@.len() - p, 15nat,
{
    match level_at(src, p, 5) {
        Step::Done(q, e) => match subquery_suffix_at(src, q) {
            Step::Done(q2, (range, resolution)) => Step::Done(
                q2,
                Expr::SubQueryExpr(Box::new(SubqueryExpr { expr: e, range: Some(range), resolution })),
            ),
            Step::NoMatch => Step::Done(q, e),
            Step::Fatal(err) => Step::Fatal(err),
        },
        Step::NoMatch => Step::NoMatch,
        Step::Fatal(err) => Step::Fatal(err),
    }
}

pub fn level_at(src: &Source, p: usize, k: usize) -> (r: Step<Expr>)
    requires
        src.wf(),
        p <= src@.len(),
        k <= 5,
    ensures
        step_matches(r, level(src@, p as int, k as nat), |e: Expr| e@),
        step_within(&r, p as int, src@.len() as int),
    decreases src@.len() - p, 2 * k + 4,
{
    if k == 0 {
        let (q, a) = match atom_at(src, p) {
            Step::Done(q, a) => (q, a),
            Step::NoMatch => return Step::NoMatch,
            Step::Fatal(err) => return Step::Fatal(err),
        };
        match binary_op_at(src, q, 0) {
            Some((q2, op)) => match level_at(src, q2, 0) {
                Step::Done(q3, b) => Step::Done(
                    q3,
                    Expr::BinaryExpr(Box::new(BinaryExpr { op, lhs: a, rhs: b })),
                ),
                Step::NoMatch => Step::Done(q, a),
                Step::Fatal(err) => Step::Fatal(err),
            },
            None => Step::Done(q, a),
        }
    } else {
        let (mut i, mut acc) = match level_at(src, p, k - 1) {
            Step::Done(q, a) => (q, a),
            Step::NoMatch => return Step::NoMatch,
            Step::Fatal(err) => return Step::Fatal(err),
        };
        let n = src.len();
        loop
            invariant
                src.wf(),
                n == src@.len(),
                1 <= k <= 5,
                p <= i <= n,
                level(src@, p as int, k as nat) == level_rest(src@, i as int, k as nat, acc@),
            decreases n - i,
        {
            match binary_op_at(src, i, k) {
                Some((q, op)) => match level_at(src, q, k - 1) {
                    Step::Done(q2, b) => {
                        acc = Expr::BinaryExpr(Box::new(BinaryExpr { op, lhs: acc, rhs: b }));
                        i = q2;
                    },
                    Step::NoMatch => return Step::Done(i, acc),
                    Step::Fatal(err) => return Step::Fatal(err),
                },
                None => return Step::Done(i, acc),
            }
        }
    }
}

pub fn atom_at(src: &Source, p: usize) -> (r: Step<Expr>)
    requires
        src.wf(),
        p <= src@.len(),
    ensures
        step_matches(r, atom(src@, p as int), |e: Expr| e@),
        step_within(&r, p as int, src@.len() as int),
    decreases src@.len() - p, 2nat,
{
    if src.is(p, '(') {
        match expr_at(src, p + 1) {
            Step::Done(q, e) => {
                if src.is(q, ')') {
                    return Step::Done(q + 1, e);
                }
            },
            Step::NoMatch => {},
            Step::Fatal(err) => return Step::Fatal(err),
        }
    }
    let q = skip_ws(src, p);
    if let Some(e) = number_at(src, q) {
        let text = src.slice(q, e);
        return Step::Done(skip_ws(src, e), Expr::NumberLiteralExpr(Box::new(NumberLiteral { text })));
    }
    if src.is(p, '+') {
        match atom_at(src, p + 1) {
            Step::NoMatch => {},
            r => return r,
        }
    }
    if src.is(p, '-') {
        match atom_at(src, p + 1) {
            Step::Done(q, e) => return Step::Done(q, Expr::NegationExpr(Box::new(e))),
            Step::NoMatch => {},
            Step::Fatal(err) => return Step::Fatal(err),
        }
    }
    match funcall_at(src, p) {
        Step::Done(q, c) => return Step::Done(q, Expr::FunCallExpr(Box::new(c))),
        Step::NoMatch => {},
        Step::Fatal(err) => return Step::Fatal(err),
    }
    match vector_selector_at(src, p) {
        Step::Done(q, v) => Step::Done(q, Expr::VectorExpr(Box::new(v))),
        Step::NoMatch => Step::NoMatch,
        Step::Fatal(err) => Step::Fatal(err),
    }
}

pub fn funcall_at(src: &Source, p: usize) -> (r: Step<FunCall>)
    requires
        src.wf(),
        p <= src@.len(),
    ensures
        step_matches(r, funcall(src@, p as int), |c: FunCall| funcall_view(c)),
        step_within(&r, p as int, src@.len() as int),
    decreases src@.len() - p, 1nat,
{
    let q = match metric_name_at(src, p) {
        Some(q) => q,
        None => return Step::NoMatch,
    };
    match body_at(src, q) {
        Step::Done(q2, args) => {
            return match aggregation_modifier_at(src, q2) {
                Some((q3, a)) => Step::Done(
                    q3,
                    FunCall { name: src.slice(p, q), args, aggregation: Some(a) },
                ),
                None => Step::Done(q2, FunCall { name: src.slice(p, q), args, aggregation: None }),
            };
        },
        Step::NoMatch => {},
        Step::Fatal(err) => return Step::Fatal(err),
    }
    match aggregation_modifier_at(src, q) {
        Some((q3, a)) => match body_at(src, q3) {
            Step::Done(q4, args) => Step::Done(
                q4,
                FunCall { name: src.slice(p, q), args, aggregation: Some(a) },
            ),
            Step::NoMatch => Step::NoMatch,
            Step::Fatal(err) => Step::Fatal(err),
        },
        None => Step::NoMatch,
    }
}

pub fn body_at(src: &Source, p: usize) -> (r: Step<Vec<Expr>>)
    requires
        src.wf(),
        p <= src@.len(),
    ensures
        step_matches(r, body(src@, p as int), |v: Vec<Expr>| exprs_view(v@)),
        step_within(&r, p as int, src@.len() as int),
    decreases src@.len() - p, 0nat,
{
    let q = skip_ws(src, p);
    if !src.is(q, '(') {
        return Step::NoMatch;
    }
    match args_at(src, q + 1) {
        Step::Done(e, list) => {
            let c = skip_ws(src, e);
            if src.is(c, ')') {
                Step::Done(skip_ws(src, c + 1), list)
            } else {
                Step::NoMatch
            }
        },
        Step::NoMatch => Step::NoMatch,
        Step::Fatal(err) => Step::Fatal(err),
    }
}

pub fn arg_at(src: &Source, p: usize) -> (r: Step<Expr>)
    requires
        src.wf(),
        p <= src@.len(),
    ensures
        step_matches(r, arg(src@, p as int), |e: Expr| e@),
        step_within(&r, p as int, src@.len() as int),
    decreases src@.len() - p, 16nat,
{
    match string_lit_at(src, p) {
        Some((a, b, e)) => Step::Done(
            e,
            Expr::StringLiteralExpr(Box::new(StringLiteral { value: src.slice(a, b) })),
        ),
        None => expr_at(src, p),
    }
}

/// Appends `a` to `acc` unless it is the empty selector.
fn push_arg_exec(acc: &mut Vec<Expr>, a: Expr)
    ensures
        exprs_view(final(acc)@) == push_arg(exprs_view(old(acc)@), a@),
{
    let skip = match &a {
        Expr::VectorExpr(v) => v.name.as_str().is_empty() && v.label_matchers.len() == 0,
        _ => false,
    };
    if !skip {
        let ghost before = acc@;
        acc.push(a);
        assert(exprs_view(acc@) =~= exprs_view(before).push(a@));
    }
}

pub fn args_at(src: &Source, p: usize) -> (r: Step<Vec<Expr>>)
    requires
        src.wf(),
        p <= src@.len(),
    ensures
        step_matches(r, args(src@, p as int), |v: Vec<Expr>| exprs_view(v@)),
        step_within(&r, p as int, src@.len() as int),
    decreases src@.len() - p, 18nat,
{
    let mut acc: Vec<Expr> = Vec::new();
    assert(exprs_view(acc@) =~= seq![]);
    let mut i = match arg_at(src, p) {
        Step::Done(q, a) => {
            push_arg_exec(&mut acc, a);
            q
        },
        Step::NoMatch => return Step::Done(p, acc),
        Step::Fatal(err) => return Step::Fatal(err),
    };
    let n = src.len();
    loop
        invariant
            src.wf(),
            n == src@.len(),
            p <= i <= n,
            args(src@, p as int) == args_rest(src@, i as int, exprs_view(acc@)),
        decreases n - i,
    {
        if !src.is(i, ',') {
            return Step::Done(i, acc);
        }
        match arg_at(src, i + 1) {
            Step::Done(q, a) => {
                push_arg_exec(&mut acc, a);
                i = q;
            },
            Step::NoMatch => return Step::Done(i, acc),
            Step::Fatal(err) => return Step::Fatal(err),
        }
    }
}

} // verus!
