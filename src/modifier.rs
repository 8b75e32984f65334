use vstd::prelude::*;
use crate::ast::{
    AggregationModifier, AggregationModifierAction, AggregationModifierV, BinaryModifier,
    BinaryModifierAction, BinaryModifierGroup, BinaryModifierGroupSide, BinaryModifierGroupV,
    BinaryModifierV, BinaryOp, BinaryOpV, OpKind, is_comparison, modifier_opt_view, strings_view,
};
use crate::lexer::{
    CharClass, Source, char_in_class, has_tag, has_tag_no_case, in_class, label_name_at,
    label_name_end, skip_ws, tag_at, tag_no_case_at, ws_end,
};

verus! {

/// A label name with the whitespace around it, at `p`: where it ends, and the name.
pub open spec fn spaced_label(s: Seq<char>, p: int) -> Option<(int, Seq<char>)> {
    let q = ws_end(s, p);
    match label_name_end(s, q) {
        Some(e) => Some((ws_end(s, e), s.subrange(q, e))),
        None => None,
    }
}

/// The rest of a comma-separated label list, from `i`, after the labels `acc`.
pub open spec fn label_list_rest(s: Seq<char>, i: int, acc: Seq<Seq<char>>) -> (int, Seq<
    Seq<char>,
>)
    decreases s.len() - i,
{
    if 0 <= i < s.len() && s[i] == ',' {
        match spaced_label(s, i + 1) {
            Some((e, name)) => if i < e <= s.len() {
                label_list_rest(s, e, acc.push(name))
            } else {
                (i, acc)
            },
            None => (i, acc),
        }
    } else {
        (i, acc)
    }
}

/// A comma-separated list of label names at `p`, possibly empty: where it ends, and the names.
/// A comma that no label follows is left unread.
pub open spec fn label_list(s: Seq<char>, p: int) -> (int, Seq<Seq<char>>) {
    match spaced_label(s, p) {
        Some((e, name)) => label_list_rest(s, e, seq![name]),
        None => (p, seq![]),
    }
}

/// `(` label list `)` at `p`.
pub open spec fn grouping_labels(s: Seq<char>, p: int) -> Option<(int, Seq<Seq<char>>)> {
    if 0 <= p < s.len() && s[p] == '(' {
        let (e, labels) = label_list(s, p + 1);
        if 0 <= e < s.len() && s[e] == ')' {
            Some((e + 1, labels))
        } else {
            None
        }
    } else {
        None
    }
}

pub fn spaced_label_at(src: &Source, p: usize) -> (r: Option<(usize, String)>)
    requires
        src.wf(),
        p <= src@.len(),
    ensures
        match r {
            Some((e, name)) => spaced_label(src@, p as int) == Some((e as int, name@)) && p < e
                <= src@.len(),
            None => spaced_label(src@, p as int) is None,
        },
{
    let q = skip_ws(src, p);
    match label_name_at(src, q) {
        Some(e) => Some((skip_ws(src, e), src.slice(q, e))),
        None => None,
    }
}

pub fn label_list_at(src: &Source, p: usize) -> (r: (usize, Vec<String>))
    requires
        src.wf(),
        p <= src@.len(),
    ensures
        label_list(src@, p as int) == (r.0 as int, strings_view(r.1@)),
        p <= r.0 <= src@.len(),
{
    let mut labels: Vec<String> = Vec::new();
    let (mut i, first) = match spaced_label_at(src, p) {
        Some((e, name)) => (e, name),
        None => {
            assert(strings_view(labels@) =~= seq![]);
            return (p, labels);
        },
    };
    labels.push(first);
    assert(strings_view(labels@) =~= seq![first@]);
    let n = src.len();
    while src.is(i, ',')
        invariant
            src.wf(),
            n == src@.len(),
            p <= i <= n,
            label_list(src@, p as int) == label_list_rest(src@, i as int, strings_view(labels@)),
        decreases n - i,
    {
        match spaced_label_at(src, i + 1) {
            Some((e, name)) => {
                let ghost old_labels = labels@;
                labels.push(name);
                assert(strings_view(labels@) =~= strings_view(old_labels).push(name@));
                i = e;
            },
            None => {
                return (i, labels);
            },
        }
    }
    (i, labels)
}

pub fn grouping_labels_at(src: &Source, p: usize) -> (r: Option<(usize, Vec<String>)>)
    requires
        src.wf(),
        p <= src@.len(),
    ensures
        match r {
            Some((e, labels)) => grouping_labels(src@, p as int) == Some(
                (e as int, strings_view(labels@)),
            ) && p < e <= src@.len(),
            None => grouping_labels(src@, p as int) is None,
        },
{
    if src.is(p, '(') {
        let (e, labels) = label_list_at(src, p + 1);
        if src.is(e, ')') {
            Some((e + 1, labels))
        } else {
            None
        }
    } else {
        None
    }
}

/// `by` or `without` (in any case) and a parenthesised label list, at `p`, with the whitespace
/// around them.
pub open spec fn aggregation_modifier(s: Seq<char>, p: int) -> Option<
    (int, AggregationModifierV),
> {
    let q = ws_end(s, p);
    let kw = if has_tag_no_case(s, q, seq!['b', 'y']) {
        Some((q + 2, AggregationModifierAction::By))
    } else if has_tag_no_case(s, q, seq!['w', 'i', 't', 'h', 'o', 'u', 't']) {
        Some((q + 7, AggregationModifierAction::Without))
    } else {
        None
    };
    match kw {
        Some((e, action)) => match grouping_labels(s, ws_end(s, e)) {
            Some((e2, labels)) => Some((ws_end(s, e2), AggregationModifierV { action, labels })),
            None => None,
        },
        None => None,
    }
}

pub fn aggregation_modifier_at(src: &Source, p: usize) -> (r: Option<(usize, AggregationModifier)>)
    requires
        src.wf(),
        p <= src@.len(),
    ensures
        match r {
            Some((e, m)) => aggregation_modifier(src@, p as int) == Some((e as int, m@)) && p < e
                <= src@.len(),
            None => aggregation_modifier(src@, p as int) is None,
        },
{
    let q = skip_ws(src, p);
    let (e, action) = if tag_no_case_at(src, q, &['b', 'y']) {
        (q + 2, AggregationModifierAction::By)
    } else if tag_no_case_at(src, q, &['w', 'i', 't', 'h', 'o', 'u', 't']) {
        (q + 7, AggregationModifierAction::Without)
    } else {
        return None;
    };
    let q2 = skip_ws(src, e);
    match grouping_labels_at(src, q2) {
        Some((e2, labels)) => Some((skip_ws(src, e2), AggregationModifier { action, labels })),
        None => None,
    }
}

/// `on` or `ignoring` (in any case) and a parenthesised label list, at `p`.
pub open spec fn on_or_ignoring(s: Seq<char>, p: int) -> Option<(int, BinaryModifierV)> {
    let q = ws_end(s, p);
    let kw = if has_tag_no_case(s, q, seq!['i', 'g', 'n', 'o', 'r', 'i', 'n', 'g']) {
        Some((q + 8, BinaryModifierAction::Ignore))
    } else if has_tag_no_case(s, q, seq!['o', 'n']) {
        Some((q + 2, BinaryModifierAction::On))
    } else {
        None
    };
    match kw {
        Some((e, action)) => match grouping_labels(s, ws_end(s, e)) {
            Some((e2, labels)) => Some(
                (ws_end(s, e2), BinaryModifierV { action, labels, group: None }),
            ),
            None => None,
        },
        None => None,
    }
}

/// `group_left` or `group_right` (in any case) and a parenthesised label list, at `p`.
pub open spec fn group_modifier(s: Seq<char>, p: int) -> Option<(int, BinaryModifierGroupV)> {
    let q = ws_end(s, p);
    let kw = if has_tag_no_case(s, q, seq!['g', 'r', 'o', 'u', 'p', '_', 'l', 'e', 'f', 't']) {
        Some((q + 10, BinaryModifierGroupSide::Left))
    } else if has_tag_no_case(s, q, seq!['g', 'r', 'o', 'u', 'p', '_', 'r', 'i', 'g', 'h', 't']) {
        Some((q + 11, BinaryModifierGroupSide::Right))
    } else {
        None
    };
    match kw {
        Some((e, side)) => match grouping_labels(s, ws_end(s, e)) {
            Some((e2, labels)) => Some((e2, BinaryModifierGroupV { side, labels })),
            None => None,
        },
        None => None,
    }
}

/// A vector-matching clause at `p`: `on (…)` or `ignoring (…)`, then optionally a grouping
/// clause.
pub open spec fn vector_matching(s: Seq<char>, p: int) -> Option<(int, BinaryModifierV)> {
    match on_or_ignoring(s, p) {
        Some((e, m)) => match group_modifier(s, e) {
            Some((e2, g)) => Some((e2, BinaryModifierV { group: Some(g), ..m })),
            None => Some((e, m)),
        },
        None => None,
    }
}

/// The word `bool` (in any case) at `q`, not followed by a character of a name.
pub open spec fn bool_keyword(s: Seq<char>, q: int) -> bool {
    has_tag_no_case(s, q, seq!['b', 'o', 'o', 'l']) && !(q + 4 < s.len() && in_class(
        s[q + 4],
        CharClass::MetricChar,
    ))
}

/// What may follow a binary operator, at `p`: after a comparison an optional `bool` keyword,
/// then an optional vector-matching clause. Where they end, whether `bool` was there, and the
/// clause.
pub open spec fn binary_modifier(s: Seq<char>, p: int, comparison: bool) -> (
    int,
    bool,
    Option<BinaryModifierV>,
) {
    let q = ws_end(s, p);
    let (e, b) = if comparison && bool_keyword(s, q) {
        (ws_end(s, q + 4), true)
    } else {
        (p, false)
    };
    match vector_matching(s, e) {
        Some((e2, m)) => (e2, b, Some(m)),
        None => (e, b, None),
    }
}

pub fn on_or_ignoring_at(src: &Source, p: usize) -> (r: Option<(usize, BinaryModifier)>)
    requires
        src.wf(),
        p <= src@.len(),
    ensures
        match r {
            Some((e, m)) => on_or_ignoring(src@, p as int) == Some((e as int, m@)) && p < e
                <= src@.len(),
            None => on_or_ignoring(src@, p as int) is None,
        },
{
    let q = skip_ws(src, p);
    let (e, action) = if tag_no_case_at(src, q, &['i', 'g', 'n', 'o', 'r', 'i', 'n', 'g']) {
        (q + 8, BinaryModifierAction::Ignore)
    } else if tag_no_case_at(src, q, &['o', 'n']) {
        (q + 2, BinaryModifierAction::On)
    } else {
        return None;
    };
    let q2 = skip_ws(src, e);
    match grouping_labels_at(src, q2) {
        Some((e2, labels)) => Some(
            (skip_ws(src, e2), BinaryModifier { action, labels, group: None }),
        ),
        None => None,
    }
}

pub fn group_modifier_at(src: &Source, p: usize) -> (r: Option<(usize, BinaryModifierGroup)>)
    requires
        src.wf(),
        p <= src@.len(),
    ensures
        match r {
            Some((e, g)) => group_modifier(src@, p as int) == Some((e as int, g@)) && p < e
                <= src@.len(),
            None => group_modifier(src@, p as int) is None,
        },
{
    let q = skip_ws(src, p);
    let (e, side) = if tag_no_case_at(src, q, &['g', 'r', 'o', 'u', 'p', '_', 'l', 'e', 'f', 't']) {
        (q + 10, BinaryModifierGroupSide::Left)
    } else if tag_no_case_at(src, q, &['g', 'r', 'o', 'u', 'p', '_', 'r', 'i', 'g', 'h', 't']) {
        (q + 11, BinaryModifierGroupSide::Right)
    } else {
        return None;
    };
    let q2 = skip_ws(src, e);
    match grouping_labels_at(src, q2) {
        Some((e2, labels)) => Some((e2, BinaryModifierGroup { side, labels })),
        None => None,
    }
}

pub fn vector_matching_at(src: &Source, p: usize) -> (r: Option<(usize, BinaryModifier)>)
    requires
        src.wf(),
        p <= src@.len(),
    ensures
        match r {
            Some((e, m)) => vector_matching(src@, p as int) == Some((e as int, m@)) && p < e
                <= src@.len(),
            None => vector_matching(src@, p as int) is None,
        },
{
    match on_or_ignoring_at(src, p) {
        Some((e, m)) => match group_modifier_at(src, e) {
            Some((e2, g)) => {
                let m2 = BinaryModifier { action: m.action, labels: m.labels, group: Some(g) };
                Some((e2, m2))
            },
            None => Some((e, m)),
        },
        None => None,
    }
}

pub fn binary_modifier_at(src: &Source, p: usize, comparison: bool) -> (r: (
    usize,
    bool,
    Option<BinaryModifier>,
))
    requires
        src.wf(),
        p <= src@.len(),
    ensures
        binary_modifier(src@, p as int, comparison) == (r.0 as int, r.1, modifier_opt_view(r.2)),
        p <= r.0 <= src@.len(),
{
    let q = skip_ws(src, p);
    let word = tag_no_case_at(src, q, &['b', 'o', 'o', 'l']) && !(q + 4 < src.len()
        && char_in_class(src.at(q + 4), CharClass::MetricChar));
    let (e, b) = if comparison && word {
        (skip_ws(src, q + 4), true)
    } else {
        (p, false)
    };
    match vector_matching_at(src, e) {
        Some((e2, m)) => (e2, b, Some(m)),
        None => (e, b, None),
    }
}

/// The operator token of precedence level `k` at `p`, after whitespace: `^` (0), `*` `/` `%`
/// (1), `+` `-` (2), the comparisons (3), `and` `unless` (4), `or` (5). Where it ends, and
/// its kind.
pub open spec fn op_token(s: Seq<char>, p: int, k: int) -> Option<(int, OpKind)> {
    token(s, ws_end(s, p), k)
}

/// The operator token of level `k` right at `q`.
pub open spec fn token(s: Seq<char>, q: int, k: int) -> Option<(int, OpKind)> {
    if k == 0 {
        if has_tag(s, q, seq!['^']) {
            Some((q + 1, OpKind::Power))
        } else {
            None
        }
    } else if k == 1 {
        if has_tag(s, q, seq!['*']) {
            Some((q + 1, OpKind::Mul))
        } else if has_tag(s, q, seq!['/']) {
            Some((q + 1, OpKind::Div))
        } else if has_tag(s, q, seq!['%']) {
            Some((q + 1, OpKind::Mod))
        } else {
            None
        }
    } else if k == 2 {
        if has_tag(s, q, seq!['+']) {
            Some((q + 1, OpKind::Add))
        } else if has_tag(s, q, seq!['-']) {
            Some((q + 1, OpKind::Sub))
        } else {
            None
        }
    } else if k == 3 {
        if has_tag(s, q, seq!['>', '=']) {
            Some((q + 2, OpKind::GreaterEqual))
        } else if has_tag(s, q, seq!['<', '=']) {
            Some((q + 2, OpKind::LessEqual))
        } else if has_tag(s, q, seq!['=', '=']) {
            Some((q + 2, OpKind::Equal))
        } else if has_tag(s, q, seq!['!', '=']) {
            Some((q + 2, OpKind::NotEqual))
        } else if has_tag(s, q, seq!['>']) {
            Some((q + 1, OpKind::GreaterThan))
        } else if has_tag(s, q, seq!['<']) {
            Some((q + 1, OpKind::LessThan))
        } else {
            None
        }
    } else if k == 4 {
        if has_tag(s, q, seq!['a', 'n', 'd']) {
            Some((q + 3, OpKind::And))
        } else if has_tag(s, q, seq!['u', 'n', 'l', 'e', 's', 's']) {
            Some((q + 6, OpKind::Unless))
        } else {
            None
        }
    } else {
        if has_tag(s, q, seq!['o', 'r']) {
            Some((q + 2, OpKind::Or))
        } else {
            None
        }
    }
}

/// A binary operator of level `k` at `p` with what follows it (see `binary_modifier`) and
/// the whitespace after: where it ends, and the operator. The `bool` flag is kept for
/// comparisons only.
pub open spec fn binary_op(s: Seq<char>, p: int, k: int) -> Option<(int, BinaryOpV)> {
    match op_token(s, p, k) {
        Some((e, kind)) => {
            let (e2, b, m) = binary_modifier(s, ws_end(s, e), is_comparison(kind));
            Some((ws_end(s, e2), BinaryOpV { kind, return_bool: is_comparison(kind) && b, modifier: m }))
        },
        None => None,
    }
}

fn op_token_at(src: &Source, p: usize, k: usize) -> (r: Option<(usize, OpKind)>)
    requires
        src.wf(),
        p <= src@.len(),
    ensures
        match r {
            Some((e, kind)) => op_token(src@, p as int, k as int) == Some((e as int, kind)) && p
                < e <= src@.len(),
            None => op_token(src@, p as int, k as int) is None,
        },
{
    let q = skip_ws(src, p);
    token_at(src, q, k)
}

fn token_at(src: &Source, q: usize, k: usize) -> (r: Option<(usize, OpKind)>)
    requires
        src.wf(),
        q <= src@.len(),
    ensures
        match r {
            Some((e, kind)) => token(src@, q as int, k as int) == Some((e as int, kind)) && q < e
                <= src@.len(),
            None => token(src@, q as int, k as int) is None,
        },
{
    if k == 0 {
        if tag_at(src, q, &['^']) {
            Some((q + 1, OpKind::Power))
        } else {
            None
        }
    } else if k == 1 {
        if tag_at(src, q, &['*']) {
            Some((q + 1, OpKind::Mul))
        } else if tag_at(src, q, &['/']) {
            Some((q + 1, OpKind::Div))
        } else if tag_at(src, q, &['%']) {
            Some((q + 1, OpKind::Mod))
        } else {
            None
        }
    } else if k == 2 {
        if tag_at(src, q, &['+']) {
            Some((q + 1, OpKind::Add))
        } else if tag_at(src, q, &['-']) {
            Some((q + 1, OpKind::Sub))
        } else {
            None
        }
    } else if k == 3 {
        if tag_at(src, q, &['>', '=']) {
            Some((q + 2, OpKind::GreaterEqual))
        } else if tag_at(src, q, &['<', '=']) {
            Some((q + 2, OpKind::LessEqual))
        } else if tag_at(src, q, &['=', '=']) {
            Some((q + 2, OpKind::Equal))
        } else if tag_at(src, q, &['!', '=']) {
            Some((q + 2, OpKind::NotEqual))
        } else if tag_at(src, q, &['>']) {
            Some((q + 1, OpKind::GreaterThan))
        } else if tag_at(src, q, &['<']) {
            Some((q + 1, OpKind::LessThan))
        } else {
            None
        }
    } else if k == 4 {
        if tag_at(src, q, &['a', 'n', 'd']) {
            Some((q + 3, OpKind::And))
        } else if tag_at(src, q, &['u', 'n', 'l', 'e', 's', 's']) {
            Some((q + 6, OpKind::Unless))
        } else {
            None
        }
    } else {
        if tag_at(src, q, &['o', 'r']) {
            Some((q + 2, OpKind::Or))
        } else {
            None
        }
    }
}

fn kind_is_comparison(kind: OpKind) -> (r: bool)
    ensures
        r == is_comparison(kind),
{
    match kind {
        OpKind::Equal | OpKind::NotEqual | OpKind::GreaterThan | OpKind::LessThan
        | OpKind::GreaterEqual | OpKind::LessEqual => true,
        _ => false,
    }
}

/// The operator of the given kind, with its flag and modifier.
pub fn make_op(kind: OpKind, return_bool: bool, m: Option<BinaryModifier>) -> (r: BinaryOp)
    ensures
        r@ == (BinaryOpV {
            kind,
            return_bool: is_comparison(kind) && return_bool,
            modifier: modifier_opt_view(m),
        }),
{
    match kind {
        OpKind::Add => BinaryOp::Add(m),
        OpKind::Sub => BinaryOp::Sub(m),
        OpKind::Mul => BinaryOp::Mul(m),
        OpKind::Div => BinaryOp::Div(m),
        OpKind::Mod => BinaryOp::Mod(m),
        OpKind::Power => BinaryOp::Power(m),
        OpKind::Equal => BinaryOp::Equal(return_bool, m),
        OpKind::NotEqual => BinaryOp::NotEqual(return_bool, m),
        OpKind::GreaterThan => BinaryOp::GreaterThan(return_bool, m),
        OpKind::LessThan => BinaryOp::LessThan(return_bool, m),
        OpKind::GreaterEqual => BinaryOp::GreaterEqual(return_bool, m),
        OpKind::LessEqual => BinaryOp::LessEqual(return_bool, m),
        OpKind::And => BinaryOp::And(m),
        OpKind::Or => BinaryOp::Or(m),
        OpKind::Unless => BinaryOp::Unless(m),
    }
}

pub fn binary_op_at(src: &Source, p: usize, k: usize) -> (r: Option<(usize, BinaryOp)>)
    requires
        src.wf(),
        p <= src@.len(),
    ensures
        match r {
            Some((e, op)) => binary_op(src@, p as int, k as int) == Some((e as int, op@)) && p < e
                <= src@.len(),
            None => binary_op(src@, p as int, k as int) is None,
        },
{
    match op_token_at(src, p, k) {
        Some((e, kind)) => {
            let q = skip_ws(src, e);
            let (e2, b, m) = binary_modifier_at(src, q, kind_is_comparison(kind));
            Some((skip_ws(src, e2), make_op(kind, b, m)))
        },
        None => None,
    }
}

} // verus!
