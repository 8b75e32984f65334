//! Properties of the grammar, proved over its definition.
use vstd::prelude::*;
use crate::ast::{
    BinaryModifierV, BinaryOpV, Duration, ExprV, LabelMatcherOp, LabelMatcherV, OpKind, VectorV,
    is_comparison,
};
use crate::error::SStep;
use crate::expr::{
    arg, args, args_rest, atom, body, expr, funcall, is_empty_selector, level, level_rest,
    push_arg,
};
use crate::lexer::{
    CharClass, has_tag, has_tag_no_case, in_class, metric_name_end, number_end, parsed_duration,
    run_end, string_body_end, string_lit, ws_end,
};
use crate::modifier::{
    aggregation_modifier, binary_modifier, binary_op, grouping_labels, op_token, spaced_label,
    vector_matching,
};
use crate::selector::{
    instant_vector, label_matcher, label_matchers, offset_suffix, range_suffix, vector_selector,
};

verus! {

/// A run that starts inside the text ends inside it, not before its start.
pub proof fn lemma_run_end_bounds(s: Seq<char>, p: int, k: CharClass)
    requires
        0 <= p <= s.len(),
    ensures
        p <= run_end(s, p, k) <= s.len(),
    decreases s.len() - p,
{
    if p < s.len() && in_class(s[p], k) {
        lemma_run_end_bounds(s, p + 1, k);
    }
}

/// An operand always matches: at worst it is the empty selector. Only a fatal failure stops it.
pub proof fn lemma_atom_matches(s: Seq<char>, p: int)
    requires
        0 <= p <= s.len(),
    ensures
        !(atom(s, p) is NoMatch),
    decreases s.len() - p,
{
    if p < s.len() && (s[p] == '+' || s[p] == '-') {
        lemma_atom_matches(s, p + 1);
    }
}

/// The outcome `r` with its value wrapped in a negation.
pub open spec fn negated(r: SStep<ExprV>) -> SStep<ExprV> {
    match r {
        SStep::Done(q, e) => SStep::Done(q, ExprV::Negation(Box::new(e))),
        SStep::NoMatch => SStep::NoMatch,
        SStep::Fatal => SStep::Fatal,
    }
}

/// A unary `+` leaves its operand as it is: where a `+` does not begin a number literal, the
/// operand at the `+` is the operand after it.
pub proof fn unary_plus_is_identity(s: Seq<char>, p: int)
    requires
        0 <= p < s.len(),
        s[p] == '+',
        number_end(s, p) is None,
    ensures
        atom(s, p) == atom(s, p + 1),
{
    lemma_atom_matches(s, p + 1);
    assert(ws_end(s, p) == p);
}

/// A unary `-` wraps its operand in a negation: where a `-` does not begin a number literal,
/// the operand at the `-` is the negation of the operand after it.
pub proof fn unary_minus_negates(s: Seq<char>, p: int)
    requires
        0 <= p < s.len(),
        s[p] == '-',
        number_end(s, p) is None,
    ensures
        atom(s, p) == negated(atom(s, p + 1)),
{
    lemma_atom_matches(s, p + 1);
    assert(ws_end(s, p) == p);
}

/// Negations nest: two `-` that begin no number literal give a negation of a negation of the
/// operand after them.
pub proof fn repeated_minus_nests(s: Seq<char>, p: int)
    requires
        0 <= p,
        p + 1 < s.len(),
        s[p] == '-',
        s[p + 1] == '-',
        number_end(s, p) is None,
        number_end(s, p + 1) is None,
    ensures
        atom(s, p) == negated(negated(atom(s, p + 2))),
{
    unary_minus_negates(s, p);
    unary_minus_negates(s, p + 1);
}

/// `^` groups to the right. What level 0 yields at `p` is either the operand at `p` alone, or
/// a power node whose left side is that operand and whose right side is a whole level-0
/// expression ending where the node ends.
pub proof fn power_groups_right(s: Seq<char>, p: int)
    requires
        0 <= p <= s.len(),
    ensures
        match level(s, p, 0) {
            SStep::Done(q, e) => atom(s, p) == SStep::Done(q, e) || match e {
                ExprV::Binary { op, lhs, rhs } => {
                    &&& op.kind == OpKind::Power
                    &&& atom(s, p) matches SStep::Done(_, a) && a == *lhs
                    &&& exists|j: int| level(s, j, 0) == SStep::Done(q, *rhs)
                },
                _ => false,
            },
            _ => true,
        },
{
    if let SStep::Done(q, e) = level(s, p, 0) {
        if let SStep::Done(q1, a) = atom(s, p) {
            if p <= q1 <= s.len() {
                if let Some((q2, op)) = binary_op(s, q1, 0) {
                    if q1 < q2 <= s.len() {
                        if let SStep::Done(q3, b) = level(s, q2, 0) {
                            assert(level(s, q2, 0) == SStep::Done(q, b));
                        }
                    }
                }
            }
        }
    }
}

/// The precedence level of an operator kind, from 0 (`^`) to 5 (`or`).
pub open spec fn level_of(k: OpKind) -> int {
    match k {
        OpKind::Power => 0,
        OpKind::Mul | OpKind::Div | OpKind::Mod => 1,
        OpKind::Add | OpKind::Sub => 2,
        OpKind::Equal | OpKind::NotEqual | OpKind::GreaterThan | OpKind::LessThan
        | OpKind::GreaterEqual | OpKind::LessEqual => 3,
        OpKind::And | OpKind::Unless => 4,
        OpKind::Or => 5,
    }
}

/// The `=~` operator of a label matcher is read whole, as a regular-expression match, never as
/// `=` followed by a stray `~`: after a label name and `=~`, a string literal makes the matcher
/// a regular-expression match on that literal's content.
pub proof fn regexp_operator_is_read_whole(s: Seq<char>, p: int)
    requires
        spaced_label(s, p) matches Some((e, _)) && has_tag(s, ws_end(s, e), seq!['=', '~'])
            && string_lit(s, ws_end(s, ws_end(s, e) + 2)) is Some,
    ensures
        ({
            let (e, name) = spaced_label(s, p)->0;
            let (a, b, end) = string_lit(s, ws_end(s, ws_end(s, e) + 2))->0;
            label_matcher(s, p) == Some(
                (end, LabelMatcherV { op: LabelMatcherOp::Regexp, name, value: s.subrange(a, b) }),
            )
        }),
{
    let (e, name) = spaced_label(s, p)->0;
    let q = ws_end(s, e);
    assert(s[q + 0] == '=');
}

/// `e` is a node of an operator of level `k` whose right side is a whole expression of the
/// next tighter level, ending at `q`.
pub open spec fn folded_at(s: Seq<char>, q: int, k: nat, e: ExprV) -> bool {
    match e {
        ExprV::Binary { op, lhs, rhs } => level_of(op.kind) == k && exists|j: int|
            #[trigger] level(s, j, (k - 1) as nat) == SStep::Done(q, *rhs),
        _ => false,
    }
}

/// An operator read at level `k` is of that level.
pub proof fn lemma_operator_level(s: Seq<char>, i: int, k: int)
    requires
        0 <= k <= 5,
    ensures
        binary_op(s, i, k) matches Some((_, op)) ==> level_of(op.kind) == k,
{
}

proof fn lemma_level_rest_shape(s: Seq<char>, i: int, k: nat, acc: ExprV)
    requires
        1 <= k <= 5,
    ensures
        match level_rest(s, i, k, acc) {
            SStep::Done(q, e) => (q == i && e == acc) || folded_at(s, q, k, e),
            _ => true,
        },
    decreases s.len() - i,
{
    lemma_operator_level(s, i, k as int);
    if let Some((q, op)) = binary_op(s, i, k as int) {
        if 0 <= i < q <= s.len() {
            if let SStep::Done(q2, b) = level(s, q, (k - 1) as nat) {
                if q <= q2 <= s.len() {
                    let node = ExprV::Binary { op, lhs: Box::new(acc), rhs: Box::new(b) };
                    lemma_level_rest_shape(s, q2, k, node);
                    assert(folded_at(s, q2, k, node)) by {
                        assert(level(s, q, (k - 1) as nat) == SStep::Done(q2, b));
                    }
                }
            }
        }
    }
}

/// Levels 1 to 5 group to the left. What level `k` yields at `p` is either what the next
/// tighter level yields there, or a node of an operator of level `k` whose right side is a
/// whole tighter-level expression ending where the node ends: `a > b > c` is read as
/// `(a > b) > c`, and `a + b * c` as `a + (b * c)`.
pub proof fn binary_levels_group_left(s: Seq<char>, p: int, k: nat)
    requires
        1 <= k <= 5,
        0 <= p <= s.len(),
    ensures
        match level(s, p, k) {
            SStep::Done(q, e) => level(s, p, (k - 1) as nat) == SStep::Done(q, e) || folded_at(
                s,
                q,
                k,
                e,
            ),
            _ => true,
        },
{
    if let SStep::Done(q, a) = level(s, p, (k - 1) as nat) {
        if p <= q <= s.len() {
            lemma_level_rest_shape(s, q, k, a);
        }
    }
}

/// The selector with no name and no matchers: what an operand is where nothing matches.
pub open spec fn empty_selector() -> ExprV {
    ExprV::Vector(VectorV { name: seq![], label_matchers: seq![], offset: None, range: None })
}

/// A run of class `k` that goes past `p` holds the character at `p`.
proof fn lemma_run_end_first(s: Seq<char>, p: int, k: CharClass)
    requires
        0 <= p <= s.len(),
        run_end(s, p, k) > p,
    ensures
        p < s.len() && in_class(s[p], k),
{
}

/// Where only whitespace stands before a `)` at `c`, the operand is the empty selector.
proof fn lemma_atom_before_close(s: Seq<char>, p: int, c: int)
    requires
        0 <= p <= c < s.len(),
        ws_end(s, p) == c,
        s[c] == ')',
        p == c || in_class(s[p], CharClass::Space),
    ensures
        atom(s, p) == SStep::Done(p, empty_selector()),
{
    assert(s[c + 0] == ')');
    assert(run_end(s, c, CharClass::Digit) == c);
    assert(number_end(s, c) is None);
    assert(metric_name_end(s, p) is None);
    assert(metric_name_end(s, c) is None);
    assert(funcall(s, p) == SStep::<ExprV>::NoMatch);
    assert(label_matchers(s, p) is None);
    assert(instant_vector(s, p) == (p, VectorV { name: seq![], label_matchers: seq![], offset: None, range: None }));
    assert(range_suffix(s, p) == SStep::<Duration>::NoMatch);
    assert(!has_tag_no_case(s, c, seq!['o', 'f', 'f', 's', 'e', 't']));
    assert(offset_suffix(s, p) == SStep::<Duration>::NoMatch);
    assert(vector_selector(s, p) == SStep::Done(p, VectorV { name: seq![], label_matchers: seq![], offset: None, range: None }));
}

/// Where only whitespace stands before a `)` at `c`, each level yields the empty selector and
/// reads nothing.
proof fn lemma_levels_before_close(s: Seq<char>, p: int, c: int, k: nat)
    requires
        0 <= p <= c < s.len(),
        ws_end(s, p) == c,
        s[c] == ')',
        p == c || in_class(s[p], CharClass::Space),
        k <= 5,
    ensures
        level(s, p, k) == SStep::Done(p, empty_selector()),
    decreases k,
{
    assert(s[c + 0] == ')');
    assert(op_token(s, p, k as int) is None);
    assert(binary_op(s, p, k as int) is None);
    if k == 0 {
        lemma_atom_before_close(s, p, c);
        assert(binary_op(s, p, 0) is None);
        assert(level(s, p, 0) == SStep::Done(p, empty_selector()));
    } else {
        lemma_levels_before_close(s, p, c, (k - 1) as nat);
        assert(level_rest(s, p, k, empty_selector()) == SStep::Done(p, empty_selector()));
    }
}

/// Where only whitespace stands before a `)`, an argument list is empty and reads nothing.
proof fn lemma_args_before_close(s: Seq<char>, p: int, c: int)
    requires
        0 <= p <= c < s.len(),
        ws_end(s, p) == c,
        s[c] == ')',
        p == c || in_class(s[p], CharClass::Space),
    ensures
        args(s, p) == SStep::Done(p, Seq::<ExprV>::empty()),
{
    lemma_levels_before_close(s, p, c, 5);
    assert(expr(s, p) == SStep::Done(p, empty_selector()));
    assert(arg(s, p) == SStep::Done(p, empty_selector()));
}

/// A call whose parentheses hold nothing but whitespace has no arguments: `foo()` is a call of
/// `foo` with an empty argument list, not one that holds an empty selector.
pub proof fn empty_call_has_no_arguments(s: Seq<char>, p: int)
    requires
        metric_name_end(s, p) matches Some(q) && 0 <= ws_end(s, q) < s.len() && s[ws_end(s, q)]
            == '(' && 0 <= ws_end(s, ws_end(s, q) + 1) < s.len() && s[ws_end(s, ws_end(s, q) + 1)]
            == ')',
    ensures
        funcall(s, p) matches SStep::Done(_, ExprV::Call { name, args, .. }) && name
            == s.subrange(p, metric_name_end(s, p)->0) && args.len() == 0,
{
    let q = metric_name_end(s, p)->0;
    lemma_run_end_bounds(s, p + 1, CharClass::MetricChar);
    lemma_run_end_bounds(s, q, CharClass::Space);
    let b = ws_end(s, q);
    let c = ws_end(s, b + 1);
    lemma_run_end_bounds(s, b + 1, CharClass::Space);
    if b + 1 < c {
        lemma_run_end_first(s, b + 1, CharClass::Space);
    }
    lemma_args_before_close(s, b + 1, c);
    assert(body(s, q) == SStep::Done(ws_end(s, c + 1), Seq::<ExprV>::empty()));
}

/// An operand that fails fatally makes every level, and the whole expression, fail fatally.
proof fn lemma_fatal_rises(s: Seq<char>, p: int, k: nat)
    requires
        0 <= p <= s.len(),
        atom(s, p) is Fatal,
        k <= 5,
    ensures
        level(s, p, k) == atom(s, p),
    decreases k,
{
    if k > 0 {
        lemma_fatal_rises(s, p, (k - 1) as nat);
    }
}

/// A refused duration inside a selector's brackets ends the whole parse. Where a metric name at
/// `p` is followed at once by `[` and a duration token that the duration grammar refuses, the
/// expression at `p` is a fatal failure: no other production is tried in its place.
pub proof fn refused_range_is_fatal(s: Seq<char>, p: int)
    requires
        metric_name_end(s, p) matches Some(q) && q < s.len() && s[q] == '[' && parsed_duration(
            s.subrange(q + 1, run_end(s, q + 1, CharClass::Alnum)),
        ) is None,
    ensures
        expr(s, p) == SStep::<ExprV>::Fatal,
{
    let q = metric_name_end(s, p)->0;
    lemma_run_end_bounds(s, p + 1, CharClass::MetricChar);
    assert(ws_end(s, q) == q);
    assert(ws_end(s, p) == p);
    assert(s[q + 0] == '[');
    assert(!has_tag_no_case(s, q, seq!['b', 'y']));
    assert(!has_tag_no_case(s, q, seq!['w', 'i', 't', 'h', 'o', 'u', 't']));
    assert(funcall(s, p) == SStep::<ExprV>::NoMatch);
    assert(vector_selector(s, p) == SStep::<VectorV>::Fatal);
    assert(atom(s, p) == SStep::<ExprV>::Fatal);
    lemma_fatal_rises(s, p, 5);
}

proof fn lemma_level_rest_matches(s: Seq<char>, i: int, k: nat, acc: ExprV)
    ensures
        !(level_rest(s, i, k, acc) is NoMatch),
    decreases s.len() - i,
{
    if let Some((q, op)) = binary_op(s, i, k as int) {
        if 0 <= i < q <= s.len() && k >= 1 {
            if let SStep::Done(q2, b) = level(s, q, (k - 1) as nat) {
                if q <= q2 <= s.len() {
                    let node = ExprV::Binary { op, lhs: Box::new(acc), rhs: Box::new(b) };
                    lemma_level_rest_matches(s, q2, k, node);
                }
            }
        }
    }
}

proof fn lemma_level_matches(s: Seq<char>, p: int, k: nat)
    requires
        0 <= p <= s.len(),
        k <= 5,
    ensures
        !(level(s, p, k) is NoMatch),
    decreases k,
{
    lemma_atom_matches(s, p);
    if k > 0 {
        lemma_level_matches(s, p, (k - 1) as nat);
        if let SStep::Done(q, a) = level(s, p, (k - 1) as nat) {
            if p <= q <= s.len() {
                lemma_level_rest_matches(s, q, k, a);
            }
        }
    }
}

/// An expression never fails as a mere mismatch: it yields a tree (at worst the empty
/// selector) or fails fatally. A syntax error never ends a whole-expression parse.
pub proof fn expression_never_mismatches(s: Seq<char>, p: int)
    requires
        0 <= p <= s.len(),
    ensures
        !(expr(s, p) is NoMatch),
{
    lemma_level_matches(s, p, 5);
}

/// A label matcher that parses has one of the four operators, never the unset one.
pub proof fn matcher_operator_is_set(s: Seq<char>, p: int)
    ensures
        label_matcher(s, p) matches Some((_, m)) ==> m.op != LabelMatcherOp::Unset,
{
}

/// `b` is a correctly escaped string body for the delimiter `d`: every backslash escapes `d`
/// or a backslash, and `d` never stands alone.
pub open spec fn escaped_body(b: Seq<char>, d: char) -> bool
    decreases b.len(),
{
    if b.len() == 0 {
        true
    } else if b[0] == d {
        false
    } else if b[0] == '\\' {
        b.len() >= 2 && (b[1] == d || b[1] == '\\') && escaped_body(b.subrange(2, b.len() as int), d)
    } else {
        escaped_body(b.subrange(1, b.len() as int), d)
    }
}

proof fn lemma_body_end(s: Seq<char>, i: int, end: int, d: char)
    requires
        0 <= i <= end < s.len(),
        s[end] == d,
        escaped_body(s.subrange(i, end), d),
    ensures
        string_body_end(s, i, d) == Some(end),
    decreases end - i,
{
    let b = s.subrange(i, end);
    if i < end {
        if s[i] == '\\' {
            assert(b[1] == s[i + 1]);
            assert(b.subrange(2, b.len() as int) =~= s.subrange(i + 2, end));
            lemma_body_end(s, i + 2, end, d);
        } else {
            assert(b.subrange(1, b.len() as int) =~= s.subrange(i + 1, end));
            lemma_body_end(s, i + 1, end, d);
        }
    }
}

/// Escapes in a string literal are kept as written. For any correctly escaped body `b`
/// between two delimiters `d`, whatever follows, the literal's content is `b` itself,
/// backslashes included.
pub proof fn string_escapes_kept_verbatim(d: char, b: Seq<char>, rest: Seq<char>)
    requires
        d == '"' || d == '\'' || d == '`',
        escaped_body(b, d),
    ensures
        ({
            let s = seq![d] + b + seq![d] + rest;
            string_lit(s, 0) matches Some((a, e, _)) && s.subrange(a, e) == b
        }),
{
    let s = seq![d] + b + seq![d] + rest;
    let end: int = b.len() as int + 1;
    assert(s[0] == d);
    assert(s[end] == d);
    assert(s.subrange(1, end) =~= b);
    assert(ws_end(s, 0) == 0);
    lemma_body_end(s, 1, end, d);
}

/// A selector's range, when it has one, is a positive duration.
pub proof fn selector_range_is_positive(s: Seq<char>, p: int)
    ensures
        vector_selector(s, p) matches SStep::Done(_, v) ==> (v.range matches Some(d) ==> d.secs
            > 0 || d.nanos > 0),
{
}

/// No element of `args` is the empty selector.
pub open spec fn no_empty_selector(args: Seq<ExprV>) -> bool {
    forall|i: int| 0 <= i < args.len() ==> !is_empty_selector(#[trigger] args[i])
}

proof fn lemma_push_arg_keeps(acc: Seq<ExprV>, a: ExprV)
    requires
        no_empty_selector(acc),
    ensures
        no_empty_selector(push_arg(acc, a)),
{
    if !is_empty_selector(a) {
        assert forall|i: int| 0 <= i < acc.push(a).len() implies !is_empty_selector(
            #[trigger] acc.push(a)[i],
        ) by {
            if i < acc.len() {
                assert(acc.push(a)[i] == acc[i]);
            }
        }
    }
}

proof fn lemma_args_rest_keeps(s: Seq<char>, i: int, acc: Seq<ExprV>)
    requires
        no_empty_selector(acc),
    ensures
        args_rest(s, i, acc) matches SStep::Done(_, list) ==> no_empty_selector(list),
    decreases s.len() - i,
{
    if 0 <= i < s.len() && s[i] == ',' {
        if let SStep::Done(q, a) = arg(s, i + 1) {
            if i < q <= s.len() {
                lemma_push_arg_keeps(acc, a);
                lemma_args_rest_keeps(s, q, push_arg(acc, a));
            }
        }
    }
}

/// An argument list never keeps the empty selector: every argument that a call gets is one
/// that was written.
pub proof fn arguments_hold_no_empty_selector(s: Seq<char>, p: int)
    ensures
        args(s, p) matches SStep::Done(_, list) ==> no_empty_selector(list),
{
    let empty = Seq::<ExprV>::empty();
    if let SStep::Done(q, a) = arg(s, p) {
        if p <= q <= s.len() {
            lemma_push_arg_keeps(empty, a);
            lemma_args_rest_keeps(s, q, push_arg(empty, a));
        }
    }
}

/// A character of a plain name: a lower-case ASCII letter, a digit or `_`.
pub open spec fn is_name_char(c: char) -> bool {
    ('a' <= c && c <= 'z') || ('0' <= c && c <= '9') || c == '_'
}

/// A plain metric name: a lower-case letter, then lower-case letters, digits and `_`, not
/// starting with the keyword `bool`.
pub open spec fn plain_name(x: Seq<char>) -> bool {
    &&& x.len() >= 1
    &&& 'a' <= x[0] && x[0] <= 'z'
    &&& forall|i: int| 0 <= i < x.len() ==> is_name_char(#[trigger] x[i])
    &&& !(x.len() >= 4 && x.subrange(0, 4) == seq!['b', 'o', 'o', 'l'])
}

/// The selector of the metric `x` alone.
pub open spec fn name_selector(x: Seq<char>) -> ExprV {
    ExprV::Vector(VectorV { name: x, label_matchers: seq![], offset: None, range: None })
}

/// The text is made of plain-name characters and `^` only.
pub open spec fn power_text(s: Seq<char>) -> bool {
    forall|j: int| 0 <= j < s.len() ==> is_name_char(#[trigger] s[j]) || s[j] == '^'
}

proof fn lemma_run_end_exact(s: Seq<char>, i: int, e: int, k: CharClass)
    requires
        0 <= i <= e <= s.len(),
        forall|j: int| i <= j < e ==> in_class(#[trigger] s[j], k),
        e == s.len() || !in_class(s[e], k),
    ensures
        run_end(s, i, k) == e,
    decreases e - i,
{
    if i < e {
        lemma_run_end_exact(s, i + 1, e, k);
    }
}

/// In a power text, a plain name from `p` to `q`, followed by `^` or the end, is a selector
/// operand.
proof fn lemma_name_operand(s: Seq<char>, p: int, q: int)
    requires
        power_text(s),
        0 <= p < q <= s.len(),
        'a' <= s[p] && s[p] <= 'z',
        forall|j: int| p <= j < q ==> is_name_char(#[trigger] s[j]),
        q == s.len() || s[q] == '^',
    ensures
        metric_name_end(s, p) == Some(q),
        atom(s, p) == SStep::Done(q, name_selector(s.subrange(p, q))),
{
    lemma_run_end_exact(s, p + 1, q, CharClass::MetricChar);
    assert(ws_end(s, p) == p);
    assert(ws_end(s, q) == q);
    assert(run_end(s, p, CharClass::Digit) == p);
    assert(number_end(s, p) is None);
    if q < s.len() {
        assert(s[q + 0] == '^');
    }
    assert(!has_tag_no_case(s, q, seq!['b', 'y']));
    assert(!has_tag_no_case(s, q, seq!['w', 'i', 't', 'h', 'o', 'u', 't']));
    assert(funcall(s, p) == SStep::<ExprV>::NoMatch);
    assert(!has_tag_no_case(s, q, seq!['o', 'f', 'f', 's', 'e', 't']));
    assert(label_matchers(s, q) is None);
    assert(vector_selector(s, p) == SStep::Done(
        q,
        VectorV { name: s.subrange(p, q), label_matchers: seq![], offset: None, range: None },
    ));
}

/// In a power text, nothing but the operator is read after a `^` that a plain name follows.
proof fn lemma_power_operator(s: Seq<char>, q: int, e: int)
    requires
        power_text(s),
        0 <= q,
        q + 1 < e <= s.len(),
        s[q] == '^',
        forall|j: int| q + 1 <= j < e ==> is_name_char(#[trigger] s[j]),
        e == s.len() || s[e] == '^',
        !(e - (q + 1) >= 4 && s.subrange(q + 1, q + 5) == seq!['b', 'o', 'o', 'l']),
    ensures
        binary_op(s, q, 0) == Some(
            (q + 1, BinaryOpV { kind: OpKind::Power, return_bool: false, modifier: None }),
        ),
{
    let o = q + 1;
    assert(ws_end(s, q) == q);
    assert(s[q + 0] == '^');
    assert(ws_end(s, o) == o);
    assert(!has_tag_no_case(s, o, seq!['b', 'o', 'o', 'l'])) by {
        if has_tag_no_case(s, o, seq!['b', 'o', 'o', 'l']) {
            assert(s[o + 0] == 'b');
            assert(s[o + 1] == 'o');
            assert(s[o + 2] == 'o');
            assert(s[o + 3] == 'l');
            assert(s.subrange(o, o + 4) =~= seq!['b', 'o', 'o', 'l']);
        }
    }
    assert forall|i: int| o <= i <= s.len() implies !(grouping_labels(s, i) is Some) by {
        if i < s.len() {
            assert(is_name_char(s[i]) || s[i] == '^');
        }
    }
    assert forall|i: int| o <= i <= s.len() implies ws_end(s, i) == i by {
        if i < s.len() {
            assert(is_name_char(s[i]) || s[i] == '^');
        }
    }
    assert(vector_matching(s, o) is None);
}

/// `^` groups to the right on plain names: `x^y^z` is `x ^ (y ^ z)`.
pub proof fn power_chain_groups_right(x: Seq<char>, y: Seq<char>, z: Seq<char>)
    requires
        plain_name(x),
        plain_name(y),
        plain_name(z),
    ensures
        ({
            let s = x + seq!['^'] + y + seq!['^'] + z;
            let pow = BinaryOpV { kind: OpKind::Power, return_bool: false, modifier: None };
            level(s, 0, 0) == SStep::Done(
                s.len() as int,
                ExprV::Binary {
                    op: pow,
                    lhs: Box::new(name_selector(x)),
                    rhs: Box::new(
                        ExprV::Binary {
                            op: pow,
                            lhs: Box::new(name_selector(y)),
                            rhs: Box::new(name_selector(z)),
                        },
                    ),
                },
            )
        }),
{
    let s = x + seq!['^'] + y + seq!['^'] + z;
    let pow = BinaryOpV { kind: OpKind::Power, return_bool: false, modifier: None };
    let a = x.len() as int;
    let b = a + 1 + y.len();
    let n = s.len() as int;
    assert(n == b + 1 + z.len());
    assert forall|j: int| 0 <= j < a implies s[j] == x[j] by {}
    assert forall|j: int| a + 1 <= j < b implies s[j] == y[j - a - 1] by {}
    assert forall|j: int| b + 1 <= j < n implies s[j] == z[j - b - 1] by {}
    assert(s[a] == '^');
    assert(s[b] == '^');
    assert(power_text(s)) by {
        assert forall|j: int| 0 <= j < s.len() implies is_name_char(#[trigger] s[j]) || s[j]
            == '^' by {
            if j < a {
                assert(is_name_char(x[j]));
            } else if a < j < b {
                assert(is_name_char(y[j - a - 1]));
            } else if b < j {
                assert(is_name_char(z[j - b - 1]));
            }
        }
    }
    assert(s.subrange(0, a) =~= x);
    assert(s.subrange(a + 1, b) =~= y);
    assert(s.subrange(b + 1, n) =~= z);
    // z, then y ^ z, then x ^ (y ^ z)
    lemma_name_operand(s, b + 1, n);
    assert(level(s, b + 1, 0) == SStep::Done(n, name_selector(z)));
    lemma_name_operand(s, a + 1, b);
    assert(z.len() >= 4 ==> s.subrange(b + 1, b + 5) =~= z.subrange(0, 4));
    lemma_power_operator(s, b, n);
    let yz = ExprV::Binary {
        op: pow,
        lhs: Box::new(name_selector(y)),
        rhs: Box::new(name_selector(z)),
    };
    assert(level(s, a + 1, 0) == SStep::Done(n, yz));
    lemma_name_operand(s, 0, a);
    assert(y.len() >= 4 ==> s.subrange(a + 1, a + 5) =~= y.subrange(0, 4));
    lemma_power_operator(s, a, b);
}

/// How an operator of the given kind is written, without modifiers.
pub open spec fn op_text(k: OpKind) -> Seq<char> {
    match k {
        OpKind::Power => seq!['^'],
        OpKind::Mul => seq!['*'],
        OpKind::Div => seq!['/'],
        OpKind::Mod => seq!['%'],
        OpKind::Add => seq!['+'],
        OpKind::Sub => seq!['-'],
        OpKind::Equal => seq!['=', '='],
        OpKind::NotEqual => seq!['!', '='],
        OpKind::GreaterThan => seq!['>'],
        OpKind::LessThan => seq!['<'],
        OpKind::GreaterEqual => seq!['>', '='],
        OpKind::LessEqual => seq!['<', '='],
        OpKind::And => seq!['a', 'n', 'd'],
        OpKind::Or => seq!['o', 'r'],
        OpKind::Unless => seq!['u', 'n', 'l', 'e', 's', 's'],
    }
}

/// The operator of the given kind with no `bool` flag and no modifier.
pub open spec fn plain_op(k: OpKind) -> BinaryOpV {
    BinaryOpV { kind: k, return_bool: false, modifier: None }
}

/// A plain-name character, a space or an operator symbol.
pub open spec fn is_chain_char(c: char) -> bool {
    is_name_char(c) || c == ' ' || c == '*' || c == '/' || c == '%' || c == '+' || c == '-' || c
        == '=' || c == '!' || c == '<' || c == '>'
}

/// The text is made of plain-name characters, spaces and operator symbols only.
pub open spec fn chain_text(s: Seq<char>) -> bool {
    forall|j: int| 0 <= j < s.len() ==> is_chain_char(#[trigger] s[j])
}

proof fn lemma_op_text_chars(k: OpKind)
    requires
        k != OpKind::Power,
    ensures
        1 <= op_text(k).len() <= 6,
        forall|i: int| 0 <= i < op_text(k).len() ==> is_chain_char(#[trigger] op_text(k)[i]),
{
}

/// In a chain text, an operator of kind `kind` (not `^`) at `q`, then a space and a plain name
/// running to `e`, is read as that operator alone at its level, and as no operator at any other.
#[verifier::spinoff_prover]
proof fn lemma_chain_operator(s: Seq<char>, q: int, kind: OpKind, e: int)
    requires
        chain_text(s),
        kind != OpKind::Power,
        0 <= q,
        has_tag(s, q, op_text(kind)),
        q + op_text(kind).len() + 1 < e <= s.len(),
        s[q + op_text(kind).len()] == ' ',
        'a' <= s[q + op_text(kind).len() + 1] <= 'z',
        forall|j: int| q + op_text(kind).len() + 1 <= j < e ==> is_name_char(#[trigger] s[j]),
        e == s.len() || s[e] == ' ',
        !(e - (q + op_text(kind).len() + 1) >= 4 && s.subrange(
            q + op_text(kind).len() + 1,
            q + op_text(kind).len() + 5,
        ) == seq!['b', 'o', 'o', 'l']),
    ensures
        forall|j: int|
            0 <= j <= 5 ==> #[trigger] binary_op(s, q, j) == if j == level_of(kind) {
                Some((q + op_text(kind).len() + 1, plain_op(kind)))
            } else {
                None
            },
{
    let t = op_text(kind);
    let l = t.len() as int;
    let o = q + l + 1;
    assert forall|i: int| 0 <= i < l implies s[q + i] == t[i] by {}
    assert(s[q + 0] == t[0]);
    if l > 1 {
        assert(s[q + 1] == t[1]);
    }
    assert(ws_end(s, q) == q);
    assert(ws_end(s, o) == o);
    assert(ws_end(s, q + l) == o);
    assert(!has_tag_no_case(s, o, seq!['b', 'o', 'o', 'l'])) by {
        if has_tag_no_case(s, o, seq!['b', 'o', 'o', 'l']) {
            assert(s[o + 0] == 'b');
            assert(s[o + 1] == 'o');
            assert(s[o + 2] == 'o');
            assert(s[o + 3] == 'l');
            assert(s.subrange(o, o + 4) =~= seq!['b', 'o', 'o', 'l']);
        }
    }
    assert forall|i: int| 0 <= i <= s.len() implies !(grouping_labels(s, i) is Some) by {
        if i < s.len() {
            assert(chain_text(s));
        }
    }
    assert(vector_matching(s, o) is None);
    assert(binary_modifier(s, o, is_comparison(kind)) == (o, false, None::<BinaryModifierV>));
}

/// At `c` stands nothing that could extend an operand: the end, or a character that starts no
/// argument list, label block, range, aggregation modifier or `offset`.
pub open spec fn quiet_at(s: Seq<char>, c: int) -> bool {
    c == s.len() || (0 <= c < s.len() && s[c] != '(' && s[c] != '{' && s[c] != '[' && s[c] != ' '
        && s[c] != 'b' && s[c] != 'B' && s[c] != 'w' && s[c] != 'W' && s[c] != 'O' && !(s[c]
        == 'o' && c + 1 < s.len() && (s[c + 1] == 'f' || s[c + 1] == 'F')))
}

/// A plain name from `p` to `q`, with whitespace up to `c` where nothing extends it, is a
/// selector operand.
#[verifier::rlimit(100)]
#[verifier::spinoff_prover]
proof fn lemma_quiet_operand(s: Seq<char>, p: int, q: int, c: int)
    requires
        0 <= p < q <= c <= s.len(),
        'a' <= s[p] && s[p] <= 'z',
        forall|j: int| p <= j < q ==> is_name_char(#[trigger] s[j]),
        q == s.len() || !in_class(s[q], CharClass::MetricChar),
        ws_end(s, q) == c,
        ws_end(s, c) == c,
        quiet_at(s, c),
    ensures
        atom(s, p) == SStep::Done(c, name_selector(s.subrange(p, q))),
{
    lemma_run_end_exact(s, p + 1, q, CharClass::MetricChar);
    assert(ws_end(s, p) == p);
    assert(run_end(s, p, CharClass::Digit) == p);
    assert(number_end(s, p) is None);
    if c < s.len() {
        assert(s[c + 0] == s[c]);
    }
    assert(!has_tag_no_case(s, c, seq!['b', 'y']));
    assert(!has_tag_no_case(s, c, seq!['w', 'i', 't', 'h', 'o', 'u', 't']));
    assert(body(s, q) == SStep::<Seq<ExprV>>::NoMatch);
    assert(aggregation_modifier(s, q) is None);
    assert(funcall(s, p) == SStep::<ExprV>::NoMatch);
    assert(!has_tag_no_case(s, c, seq!['o', 'f', 'f', 's', 'e', 't'])) by {
        if c < s.len() && s[c] == 'o' {
            assert(s[c + 1] == s[c + 1]);
        }
    }
    assert(label_matchers(s, c) is None);
    assert(range_suffix(s, c) == SStep::<Duration>::NoMatch);
    assert(offset_suffix(s, c) == SStep::<Duration>::NoMatch);
    assert(vector_selector(s, p) == SStep::Done(
        c,
        VectorV { name: s.subrange(p, q), label_matchers: seq![], offset: None, range: None },
    ));
}

/// In a chain text, a plain name from `p` to `q`, then the end or a space and an operator
/// (not `^`), is a selector operand that reads the space too.
#[verifier::spinoff_prover]
proof fn lemma_chain_operand(s: Seq<char>, p: int, q: int, kind: OpKind)
    requires
        chain_text(s),
        0 <= p < q <= s.len(),
        'a' <= s[p] && s[p] <= 'z',
        forall|j: int| p <= j < q ==> is_name_char(#[trigger] s[j]),
        q == s.len() || (s[q] == ' ' && kind != OpKind::Power && has_tag(s, q + 1, op_text(kind))),
    ensures
        atom(s, p) == SStep::Done(
            if q == s.len() {
                q
            } else {
                q + 1
            },
            name_selector(s.subrange(p, q)),
        ),
{
    if q < s.len() {
        let t = op_text(kind);
        assert(s[q + 1 + 0] == t[0]);
        if t.len() > 1 {
            assert(s[q + 1 + 1] == t[1]);
        }
        assert(ws_end(s, q + 1) == q + 1);
        assert(ws_end(s, q) == q + 1);
        assert(quiet_at(s, q + 1));
        lemma_quiet_operand(s, p, q, q + 1);
    } else {
        assert(ws_end(s, q) == q);
        lemma_quiet_operand(s, p, q, q);
    }
}

/// Levels 0 to `j` yield the operand at `p` alone where no operator of those levels follows it.
proof fn lemma_levels_below(s: Seq<char>, p: int, q: int, v: ExprV, j: nat)
    requires
        0 <= p <= q <= s.len(),
        atom(s, p) == SStep::Done(q, v),
        j <= 5,
        forall|i: int| 0 <= i <= j ==> #[trigger] binary_op(s, q, i) is None,
    ensures
        level(s, p, j) == SStep::Done(q, v),
    decreases j,
{
    assert(binary_op(s, q, 0) is None);
    if j > 0 {
        lemma_levels_below(s, p, q, v, (j - 1) as nat);
        assert(binary_op(s, q, j as int) is None);
        assert(level_rest(s, q, j, v) == SStep::Done(q, v));
    }
}

/// Levels `k` to 5 keep what level `k` yields where it reaches the end of the text.
proof fn lemma_levels_above(s: Seq<char>, p: int, v: ExprV, k: nat, j: nat)
    requires
        0 <= p <= s.len(),
        1 <= k <= j <= 5,
        level(s, p, k) == SStep::Done(s.len() as int, v),
    ensures
        level(s, p, j) == SStep::Done(s.len() as int, v),
    decreases j - k,
{
    if j > k {
        lemma_levels_above(s, p, v, k, (j - 1) as nat);
        assert(op_token(s, s.len() as int, j as int) is None);
        assert(binary_op(s, s.len() as int, j as int) is None);
        assert(level_rest(s, s.len() as int, j, v) == SStep::Done(s.len() as int, v));
    }
}

/// In a chain text, a plain name from `p` to `q`, a space, an operator of kind `kind` (not
/// `^`), a space and a plain name running to `e`: below the operator's level the name stands
/// alone, and the operator is read at its level.
#[verifier::rlimit(100)]
#[verifier::spinoff_prover]
proof fn lemma_chain_segment(s: Seq<char>, p: int, q: int, kind: OpKind, e: int)
    requires
        chain_text(s),
        kind != OpKind::Power,
        0 <= p < q,
        'a' <= s[p] <= 'z',
        forall|j: int| p <= j < q ==> is_name_char(#[trigger] s[j]),
        s[q] == ' ',
        has_tag(s, q + 1, op_text(kind)),
        q + op_text(kind).len() + 2 < e <= s.len(),
        s[q + 1 + op_text(kind).len()] == ' ',
        'a' <= s[q + op_text(kind).len() + 2] <= 'z',
        forall|j: int| q + op_text(kind).len() + 2 <= j < e ==> is_name_char(#[trigger] s[j]),
        e == s.len() || s[e] == ' ',
        !(e - (q + op_text(kind).len() + 2) >= 4 && s.subrange(
            q + op_text(kind).len() + 2,
            q + op_text(kind).len() + 6,
        ) == seq!['b', 'o', 'o', 'l']),
    ensures
        level(s, p, (level_of(kind) - 1) as nat) == SStep::Done(
            q + 1,
            name_selector(s.subrange(p, q)),
        ),
        binary_op(s, q + 1, level_of(kind)) == Some(
            (q + op_text(kind).len() + 2, plain_op(kind)),
        ),
{
    lemma_chain_operator(s, q + 1, kind, e);
    lemma_chain_operand(s, p, q, kind);
    let k = level_of(kind);
    assert forall|i: int| 0 <= i <= (k - 1) as nat implies #[trigger] binary_op(s, q + 1, i) is None by {
        assert(binary_op(s, q + 1, i) == if i == k {
            Some((q + op_text(kind).len() + 2, plain_op(kind)))
        } else {
            None
        });
    }
    lemma_levels_below(s, p, q + 1, name_selector(s.subrange(p, q)), (k - 1) as nat);
}

/// In a chain text, a plain name that runs from `p` to the end stands alone at every level.
proof fn lemma_chain_last(s: Seq<char>, p: int, j: nat)
    requires
        chain_text(s),
        0 <= p < s.len(),
        'a' <= s[p] <= 'z',
        forall|i: int| p <= i < s.len() ==> is_name_char(#[trigger] s[i]),
        j <= 5,
    ensures
        level(s, p, j) == SStep::Done(s.len() as int, name_selector(s.subrange(p, s.len() as int))),
{
    let n = s.len() as int;
    lemma_chain_operand(s, p, n, OpKind::Add);
    assert forall|i: int| 0 <= i <= j implies #[trigger] binary_op(s, n, i) is None by {
        assert(op_token(s, n, i) is None);
    }
    lemma_levels_below(s, p, n, name_selector(s.subrange(p, n)), j);
}

proof fn lemma_rest_end(s: Seq<char>, i: int, k: nat, acc: ExprV)
    requires
        binary_op(s, i, k as int) is None,
    ensures
        level_rest(s, i, k, acc) == SStep::Done(i, acc),
{
}

proof fn lemma_rest_step(
    s: Seq<char>,
    i: int,
    k: nat,
    acc: ExprV,
    q: int,
    op: BinaryOpV,
    q2: int,
    b: ExprV,
)
    requires
        1 <= k,
        0 <= i < q <= q2 <= s.len(),
        binary_op(s, i, k as int) == Some((q, op)),
        level(s, q, (k - 1) as nat) == SStep::Done(q2, b),
    ensures
        level_rest(s, i, k, acc) == level_rest(
            s,
            q2,
            k,
            ExprV::Binary { op, lhs: Box::new(acc), rhs: Box::new(b) },
        ),
{
}

proof fn lemma_level_fold(s: Seq<char>, p: int, k: nat, q: int, a: ExprV)
    requires
        1 <= k,
        0 <= p <= q <= s.len(),
        level(s, p, (k - 1) as nat) == SStep::Done(q, a),
    ensures
        level(s, p, k) == level_rest(s, q, k, a),
{
}

/// The evaluation behind `same_level_chain_groups_left`, on positions of one text.
#[verifier::rlimit(100)]
#[verifier::spinoff_prover]
proof fn lemma_chain_eval(s: Seq<char>, a: int, b: int, k1: OpKind, k2: OpKind)
    requires
        level_of(k1) == level_of(k2),
        1 <= level_of(k1) <= 5,
        0 < a,
        a + op_text(k1).len() + 2 < b,
        b + op_text(k2).len() + 2 < s.len(),
        level(s, 0, (level_of(k1) - 1) as nat) == SStep::Done(a + 1, name_selector(s.subrange(0, a))),
        binary_op(s, a + 1, level_of(k1)) == Some((a + op_text(k1).len() + 2, plain_op(k1))),
        level(s, a + op_text(k1).len() + 2, (level_of(k1) - 1) as nat) == SStep::Done(
            b + 1,
            name_selector(s.subrange(a + op_text(k1).len() + 2, b)),
        ),
        binary_op(s, b + 1, level_of(k2)) == Some((b + op_text(k2).len() + 2, plain_op(k2))),
        level(s, b + op_text(k2).len() + 2, (level_of(k1) - 1) as nat) == SStep::Done(
            s.len() as int,
            name_selector(s.subrange(b + op_text(k2).len() + 2, s.len() as int)),
        ),
    ensures
        ({
            let o1 = a + op_text(k1).len() + 2;
            let o2 = b + op_text(k2).len() + 2;
            let xy = ExprV::Binary {
                op: plain_op(k1),
                lhs: Box::new(name_selector(s.subrange(0, a))),
                rhs: Box::new(name_selector(s.subrange(o1, b))),
            };
            expr(s, 0) == SStep::Done(
                s.len() as int,
                ExprV::Binary {
                    op: plain_op(k2),
                    lhs: Box::new(xy),
                    rhs: Box::new(name_selector(s.subrange(o2, s.len() as int))),
                },
            )
        }),
{
    let n = s.len() as int;
    let o1 = a + op_text(k1).len() + 2;
    let o2 = b + op_text(k2).len() + 2;
    let k = level_of(k1) as nat;
    let vx = name_selector(s.subrange(0, a));
    let vy = name_selector(s.subrange(o1, b));
    let vz = name_selector(s.subrange(o2, n));
    let xy = ExprV::Binary { op: plain_op(k1), lhs: Box::new(vx), rhs: Box::new(vy) };
    let xyz = ExprV::Binary { op: plain_op(k2), lhs: Box::new(xy), rhs: Box::new(vz) };
    let km: nat = (level_of(k1) - 1) as nat;
    assert(k as int == level_of(k1));
    assert((k - 1) as nat == km);
    assert(level(s, o2, km) == SStep::Done(n, vz));
    assert(level(s, o1, km) == SStep::Done(b + 1, vy));
    assert(binary_op(s, a + 1, k as int) == Some((o1, plain_op(k1))));
    assert(binary_op(s, b + 1, k as int) == Some((o2, plain_op(k2))));
    assert(op_token(s, n, k as int) is None);
    assert(binary_op(s, n, k as int) is None);
    lemma_rest_end(s, n, k, xyz);
    lemma_rest_step(s, b + 1, k, xy, o2, plain_op(k2), n, vz);
    lemma_rest_step(s, a + 1, k, vx, o1, plain_op(k1), b + 1, vy);
    lemma_level_fold(s, 0, k, a + 1, vx);
    lemma_levels_above(s, 0, xyz, k, 5);
    assert(ws_end(s, n) == n);
}

/// `s` reads `x op1 y op2 z`, with `x` ending at `a` and `y` at `b`, single spaces around
/// the operators of kinds `k1` and `k2`, and plain names.
pub open spec fn chain_layout(s: Seq<char>, a: int, b: int, k1: OpKind, k2: OpKind) -> bool {
    let t1 = op_text(k1);
    let t2 = op_text(k2);
    let o1 = a + t1.len() + 2;
    let o2 = b + t2.len() + 2;
    let n = s.len() as int;
    &&& chain_text(s)
    &&& k1 != OpKind::Power && k2 != OpKind::Power
    &&& 0 < a && o1 < b && o2 < n
    &&& 'a' <= s[0] <= 'z' && 'a' <= s[o1] <= 'z' && 'a' <= s[o2] <= 'z'
    &&& forall|j: int| 0 <= j < a ==> is_name_char(#[trigger] s[j])
    &&& forall|j: int| o1 <= j < b ==> is_name_char(#[trigger] s[j])
    &&& forall|j: int| o2 <= j < n ==> is_name_char(#[trigger] s[j])
    &&& s[a] == ' ' && s[a + 1 + t1.len()] == ' ' && s[b] == ' ' && s[b + 1 + t2.len()] == ' '
    &&& has_tag(s, a + 1, t1) && has_tag(s, b + 1, t2)
    &&& !(b - o1 >= 4 && s.subrange(o1, o1 + 4) == seq!['b', 'o', 'o', 'l'])
    &&& !(n - o2 >= 4 && s.subrange(o2, o2 + 4) == seq!['b', 'o', 'o', 'l'])
}

/// The text `x op1 y op2 z` has that layout.
#[verifier::rlimit(100)]
#[verifier::spinoff_prover]
proof fn lemma_chain_layout(x: Seq<char>, y: Seq<char>, z: Seq<char>, k1: OpKind, k2: OpKind)
    requires
        plain_name(x),
        plain_name(y),
        plain_name(z),
        k1 != OpKind::Power,
        k2 != OpKind::Power,
    ensures
        ({
            let s = x + seq![' '] + op_text(k1) + seq![' '] + y + seq![' '] + op_text(k2) + seq![
                ' ',
            ] + z;
            let a = x.len() as int;
            let b = a + op_text(k1).len() + 2 + y.len();
            let o1 = a + op_text(k1).len() + 2;
            let o2 = b + op_text(k2).len() + 2;
            &&& chain_layout(s, a, b, k1, k2)
            &&& s.subrange(0, a) == x && s.subrange(o1, b) == y && s.subrange(o2, s.len() as int)
                == z
        }),
{
    let t1 = op_text(k1);
    let t2 = op_text(k2);
    lemma_op_text_chars(k1);
    lemma_op_text_chars(k2);
    let s = x + seq![' '] + t1 + seq![' '] + y + seq![' '] + t2 + seq![' '] + z;
    let a = x.len() as int;
    let l1 = t1.len() as int;
    let l2 = t2.len() as int;
    let o1 = a + l1 + 2;
    let b = o1 + y.len();
    let o2 = b + l2 + 2;
    let n = s.len() as int;
    assert(n == o2 + z.len());
    assert forall|j: int| 0 <= j < a implies s[j] == x[j] by {}
    assert forall|j: int| 0 <= j < l1 implies s[a + 1 + j] == t1[j] by {}
    assert forall|j: int| o1 <= j < b implies s[j] == y[j - o1] by {}
    assert forall|j: int| 0 <= j < l2 implies s[b + 1 + j] == t2[j] by {}
    assert forall|j: int| o2 <= j < n implies s[j] == z[j - o2] by {}
    assert(s[a] == ' ' && s[a + 1 + l1] == ' ' && s[b] == ' ' && s[b + 1 + l2] == ' ');
    assert(chain_text(s)) by {
        assert forall|j: int| 0 <= j < s.len() implies is_chain_char(#[trigger] s[j]) by {
            if j < a {
                assert(is_name_char(x[j]));
            } else if a < j < a + 1 + l1 {
                assert(s[a + 1 + (j - a - 1)] == t1[j - a - 1]);
            } else if o1 <= j < b {
                assert(is_name_char(y[j - o1]));
            } else if b < j < b + 1 + l2 {
                assert(s[b + 1 + (j - b - 1)] == t2[j - b - 1]);
            } else if o2 <= j {
                assert(is_name_char(z[j - o2]));
            }
        }
    }
    assert(has_tag(s, a + 1, t1));
    assert(has_tag(s, b + 1, t2));
    assert(s.subrange(0, a) =~= x);
    assert(s.subrange(o1, b) =~= y);
    assert(s.subrange(o2, n) =~= z);
    assert(y.len() >= 4 ==> s.subrange(o1, o1 + 4) =~= y.subrange(0, 4));
    assert(z.len() >= 4 ==> s.subrange(o2, o2 + 4) =~= z.subrange(0, 4));
}

#[verifier::rlimit(100)]
#[verifier::spinoff_prover]
proof fn lemma_same_level_on(s: Seq<char>, a: int, b: int, k1: OpKind, k2: OpKind)
    requires
        chain_layout(s, a, b, k1, k2),
        level_of(k1) == level_of(k2),
    ensures
        ({
            let o1 = a + op_text(k1).len() + 2;
            let o2 = b + op_text(k2).len() + 2;
            expr(s, 0) == SStep::Done(
                s.len() as int,
                ExprV::Binary {
                    op: plain_op(k2),
                    lhs: Box::new(
                        ExprV::Binary {
                            op: plain_op(k1),
                            lhs: Box::new(name_selector(s.subrange(0, a))),
                            rhs: Box::new(name_selector(s.subrange(o1, b))),
                        },
                    ),
                    rhs: Box::new(name_selector(s.subrange(o2, s.len() as int))),
                },
            )
        }),
{
    let o1 = a + op_text(k1).len() + 2;
    let o2 = b + op_text(k2).len() + 2;
    let n = s.len() as int;
    lemma_chain_segment(s, 0, a, k1, b);
    lemma_chain_segment(s, o1, b, k2, n);
    lemma_chain_last(s, o2, (level_of(k1) - 1) as nat);
    lemma_chain_eval(s, a, b, k1, k2);
}

/// Binary operators of one level group to the left on plain names: `x op1 y op2 z`, with both
/// operators of the same level (any but `^`), is `(x op1 y) op2 z`.
pub proof fn same_level_chain_groups_left(
    x: Seq<char>,
    y: Seq<char>,
    z: Seq<char>,
    k1: OpKind,
    k2: OpKind,
)
    requires
        plain_name(x),
        plain_name(y),
        plain_name(z),
        k1 != OpKind::Power,
        level_of(k1) == level_of(k2),
    ensures
        ({
            let s = x + seq![' '] + op_text(k1) + seq![' '] + y + seq![' '] + op_text(k2) + seq![
                ' ',
            ] + z;
            expr(s, 0) == SStep::Done(
                s.len() as int,
                ExprV::Binary {
                    op: plain_op(k2),
                    lhs: Box::new(
                        ExprV::Binary {
                            op: plain_op(k1),
                            lhs: Box::new(name_selector(x)),
                            rhs: Box::new(name_selector(y)),
                        },
                    ),
                    rhs: Box::new(name_selector(z)),
                },
            )
        }),
{
    let s = x + seq![' '] + op_text(k1) + seq![' '] + y + seq![' '] + op_text(k2) + seq![' '] + z;
    let a = x.len() as int;
    let b = a + op_text(k1).len() + 2 + y.len();
    assert(k2 != OpKind::Power);
    lemma_chain_layout(x, y, z, k1, k2);
    lemma_same_level_on(s, a, b, k1, k2);
}

/// Levels from `k` up to `j` keep what level `k` yields at `p` where no operator of those
/// levels follows it.
proof fn lemma_levels_up(s: Seq<char>, p: int, q: int, v: ExprV, k: nat, j: nat)
    requires
        0 <= p <= q <= s.len(),
        1 <= k <= j <= 5,
        level(s, p, k) == SStep::Done(q, v),
        forall|i: int| k < i <= j ==> #[trigger] binary_op(s, q, i) is None,
    ensures
        level(s, p, j) == SStep::Done(q, v),
    decreases j - k,
{
    if j > k {
        lemma_levels_up(s, p, q, v, k, (j - 1) as nat);
        assert(binary_op(s, q, j as int) is None);
        lemma_level_fold(s, p, j, q, v);
        lemma_rest_end(s, q, j, v);
    }
}

#[verifier::rlimit(100)]
#[verifier::spinoff_prover]
proof fn lemma_mixed_level_on(s: Seq<char>, a: int, b: int, k1: OpKind, k2: OpKind)
    requires
        chain_layout(s, a, b, k1, k2),
        level_of(k1) != level_of(k2),
    ensures
        ({
            let vx = name_selector(s.subrange(0, a));
            let vy = name_selector(s.subrange(a + op_text(k1).len() + 2, b));
            let vz = name_selector(s.subrange(b + op_text(k2).len() + 2, s.len() as int));
            expr(s, 0) == SStep::Done(
                s.len() as int,
                if level_of(k2) < level_of(k1) {
                    ExprV::Binary {
                        op: plain_op(k1),
                        lhs: Box::new(vx),
                        rhs: Box::new(
                            ExprV::Binary { op: plain_op(k2), lhs: Box::new(vy), rhs: Box::new(vz) },
                        ),
                    }
                } else {
                    ExprV::Binary {
                        op: plain_op(k2),
                        lhs: Box::new(
                            ExprV::Binary { op: plain_op(k1), lhs: Box::new(vx), rhs: Box::new(vy) },
                        ),
                        rhs: Box::new(vz),
                    }
                },
            )
        }),
{
    let o1 = a + op_text(k1).len() + 2;
    let o2 = b + op_text(k2).len() + 2;
    let n = s.len() as int;
    let l1 = level_of(k1) as nat;
    let l2 = level_of(k2) as nat;
    let vx = name_selector(s.subrange(0, a));
    let vy = name_selector(s.subrange(o1, b));
    let vz = name_selector(s.subrange(o2, n));
    lemma_chain_operator(s, a + 1, k1, b);
    lemma_chain_operator(s, b + 1, k2, n);
    lemma_chain_segment(s, 0, a, k1, b);
    lemma_chain_segment(s, o1, b, k2, n);
    lemma_chain_operand(s, o1, b, k2);
    assert forall|i: int| 0 <= i <= 5 implies #[trigger] binary_op(s, n, i) is None by {
        assert(op_token(s, n, i) is None);
    }
    if l2 < l1 {
        // y op2 z first
        lemma_chain_last(s, o2, (l2 - 1) as nat);
        let yz = ExprV::Binary { op: plain_op(k2), lhs: Box::new(vy), rhs: Box::new(vz) };
        lemma_rest_end(s, n, l2, yz);
        lemma_rest_step(s, b + 1, l2, vy, o2, plain_op(k2), n, vz);
        lemma_level_fold(s, o1, l2, b + 1, vy);
        lemma_levels_up(s, o1, n, yz, l2, (l1 - 1) as nat);
        let xyz = ExprV::Binary { op: plain_op(k1), lhs: Box::new(vx), rhs: Box::new(yz) };
        lemma_rest_end(s, n, l1, xyz);
        lemma_rest_step(s, a + 1, l1, vx, o1, plain_op(k1), n, yz);
        lemma_level_fold(s, 0, l1, a + 1, vx);
        lemma_levels_up(s, 0, n, xyz, l1, 5);
    } else {
        // x op1 y first
        assert forall|i: int| 0 <= i <= (l1 - 1) as nat implies #[trigger] binary_op(s, b + 1, i)
            is None by {
            assert(binary_op(s, b + 1, i) == if i == level_of(k2) {
                Some((o2, plain_op(k2)))
            } else {
                None
            });
        }
        lemma_levels_below(s, o1, b + 1, vy, (l1 - 1) as nat);
        let xy = ExprV::Binary { op: plain_op(k1), lhs: Box::new(vx), rhs: Box::new(vy) };
        lemma_rest_end(s, b + 1, l1, xy);
        lemma_rest_step(s, a + 1, l1, vx, o1, plain_op(k1), b + 1, vy);
        lemma_level_fold(s, 0, l1, a + 1, vx);
        assert forall|i: int| l1 < i <= (l2 - 1) as nat implies #[trigger] binary_op(s, b + 1, i)
            is None by {
            assert(binary_op(s, b + 1, i) == if i == level_of(k2) {
                Some((o2, plain_op(k2)))
            } else {
                None
            });
        }
        lemma_levels_up(s, 0, b + 1, xy, l1, (l2 - 1) as nat);
        lemma_chain_last(s, o2, (l2 - 1) as nat);
        let xyz = ExprV::Binary { op: plain_op(k2), lhs: Box::new(xy), rhs: Box::new(vz) };
        lemma_rest_end(s, n, l2, xyz);
        lemma_rest_step(s, b + 1, l2, xy, o2, plain_op(k2), n, vz);
        lemma_level_fold(s, 0, l2, b + 1, xy);
        lemma_levels_up(s, 0, n, xyz, l2, 5);
    }
    assert(ws_end(s, n) == n);
}

/// Operators of two levels take their operands by precedence on plain names: in
/// `x op1 y op2 z` (neither operator `^`), a tighter `op2` takes `y` and `z` first, giving
/// `x op1 (y op2 z)`; a looser one takes `x op1 y` as its left side, giving `(x op1 y) op2 z`.
pub proof fn mixed_level_chain_follows_precedence(
    x: Seq<char>,
    y: Seq<char>,
    z: Seq<char>,
    k1: OpKind,
    k2: OpKind,
)
    requires
        plain_name(x),
        plain_name(y),
        plain_name(z),
        k1 != OpKind::Power,
        k2 != OpKind::Power,
        level_of(k1) != level_of(k2),
    ensures
        ({
            let s = x + seq![' '] + op_text(k1) + seq![' '] + y + seq![' '] + op_text(k2) + seq![
                ' ',
            ] + z;
            let vx = name_selector(x);
            let vy = name_selector(y);
            let vz = name_selector(z);
            expr(s, 0) == SStep::Done(
                s.len() as int,
                if level_of(k2) < level_of(k1) {
                    ExprV::Binary {
                        op: plain_op(k1),
                        lhs: Box::new(vx),
                        rhs: Box::new(
                            ExprV::Binary { op: plain_op(k2), lhs: Box::new(vy), rhs: Box::new(vz) },
                        ),
                    }
                } else {
                    ExprV::Binary {
                        op: plain_op(k2),
                        lhs: Box::new(
                            ExprV::Binary { op: plain_op(k1), lhs: Box::new(vx), rhs: Box::new(vy) },
                        ),
                        rhs: Box::new(vz),
                    }
                },
            )
        }),
{
    let s = x + seq![' '] + op_text(k1) + seq![' '] + y + seq![' '] + op_text(k2) + seq![' '] + z;
    let a = x.len() as int;
    let b = a + op_text(k1).len() + 2 + y.len();
    lemma_chain_layout(x, y, z, k1, k2);
    lemma_mixed_level_on(s, a, b, k1, k2);
}

} // verus!
