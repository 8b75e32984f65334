use vstd::prelude::*;
use crate::ast::{Duration, LabelMatcher, LabelMatcherOp, LabelMatcherV, Vector, VectorV, matchers_view};
use crate::error::{SStep, Step, step_matches, step_within};
use crate::lexer::{
    Source, duration_at, duration_token, has_tag, has_tag_no_case, metric_name_at, metric_name_end,
    skip_ws, string_lit, string_lit_at, tag_at, tag_no_case_at, ws_end,
};
use crate::modifier::{spaced_label, spaced_label_at};

verus! {

/// A label-matcher operator at `p`, with the whitespace around it. The two-character
/// operators are tried before `=`.
pub open spec fn matcher_op(s: Seq<char>, p: int) -> Option<(int, LabelMatcherOp)> {
    let q = ws_end(s, p);
    let r = if has_tag(s, q, seq!['!', '~']) {
        Some((q + 2, LabelMatcherOp::NotRegexp))
    } else if has_tag(s, q, seq!['!', '=']) {
        Some((q + 2, LabelMatcherOp::NotEqual))
    } else if has_tag(s, q, seq!['=', '~']) {
        Some((q + 2, LabelMatcherOp::Regexp))
    } else if has_tag(s, q, seq!['=']) {
        Some((q + 1, LabelMatcherOp::Equal))
    } else {
        None
    };
    match r {
        Some((e, op)) => Some((ws_end(s, e), op)),
        None => None,
    }
}

/// A label matcher at `p`: a label name, an operator and a string literal.
pub open spec fn label_matcher(s: Seq<char>, p: int) -> Option<(int, LabelMatcherV)> {
    match spaced_label(s, p) {
        Some((e, name)) => match matcher_op(s, e) {
            Some((e2, op)) => match string_lit(s, e2) {
                Some((a, b, e3)) => Some((e3, LabelMatcherV { op, name, value: s.subrange(a, b) })),
                None => None,
            },
            None => None,
        },
        None => None,
    }
}

/// The rest of a comma-separated list of label matchers, from `i`, after the matchers `acc`.
pub open spec fn matcher_list_rest(s: Seq<char>, i: int, acc: Seq<LabelMatcherV>) -> (int, Seq<
    LabelMatcherV,
>)
    decreases s.len() - i,
{
    if 0 <= i < s.len() && s[i] == ',' {
        match label_matcher(s, i + 1) {
            Some((e, m)) => if i < e <= s.len() {
                matcher_list_rest(s, e, acc.push(m))
            } else {
                (i, acc)
            },
            None => (i, acc),
        }
    } else {
        (i, acc)
    }
}

pub open spec fn matcher_list(s: Seq<char>, p: int) -> (int, Seq<LabelMatcherV>) {
    match label_matcher(s, p) {
        Some((e, m)) => matcher_list_rest(s, e, seq![m]),
        None => (p, seq![]),
    }
}

/// `{` comma-separated label matchers `}` at `p`, with the whitespace around the braces.
pub open spec fn label_matchers(s: Seq<char>, p: int) -> Option<(int, Seq<LabelMatcherV>)> {
    let q = ws_end(s, p);
    if 0 <= q < s.len() && s[q] == '{' {
        let (e, ms) = matcher_list(s, ws_end(s, q + 1));
        let e2 = ws_end(s, e);
        if 0 <= e2 < s.len() && s[e2] == '}' {
            Some((ws_end(s, e2 + 1), ms))
        } else {
            None
        }
    } else {
        None
    }
}

/// An optional metric name, then an optional block of label matchers. Both may be missing:
/// the selector with an empty name and no matchers then stands for "nothing here".
pub open spec fn instant_vector(s: Seq<char>, p: int) -> (int, VectorV) {
    let q = ws_end(s, p);
    let (q1, name) = match metric_name_end(s, q) {
        Some(e) => (ws_end(s, e), s.subrange(q, e)),
        None => (p, seq![]),
    };
    let (q2, ms) = match label_matchers(s, q1) {
        Some((e, ms)) => (e, ms),
        None => (q1, seq![]),
    };
    (q2, VectorV { name, label_matchers: ms, offset: None, range: None })
}

/// `[` duration `]` right at `p`. A zero duration is no range: a range is positive, so the
/// brackets are then left unread.
pub open spec fn range_suffix(s: Seq<char>, p: int) -> SStep<Duration> {
    if 0 <= p < s.len() && s[p] == '[' {
        match duration_at(s, p + 1) {
            SStep::Done(e, d) => if 0 <= e < s.len() && s[e] == ']' {
                if d.secs == 0 && d.nanos == 0 {
                    SStep::NoMatch
                } else {
                    SStep::Done(e + 1, d)
                }
            } else {
                SStep::NoMatch
            },
            SStep::NoMatch => SStep::NoMatch,
            SStep::Fatal => SStep::Fatal,
        }
    } else {
        SStep::NoMatch
    }
}

/// `offset` (in any case) and a duration, at `p`.
pub open spec fn offset_suffix(s: Seq<char>, p: int) -> SStep<Duration> {
    let q = ws_end(s, p);
    if has_tag_no_case(s, q, seq!['o', 'f', 'f', 's', 'e', 't']) {
        duration_at(s, ws_end(s, q + 6))
    } else {
        SStep::NoMatch
    }
}

/// A vector selector at `p`: an instant selector, an optional range and an optional offset.
/// It never fails to match; a bad duration in it is fatal.
pub open spec fn vector_selector(s: Seq<char>, p: int) -> SStep<VectorV> {
    let (q, v) = instant_vector(s, p);
    match range_suffix(s, q) {
        SStep::Fatal => SStep::Fatal,
        r => {
            let (q2, range) = match r {
                SStep::Done(e, d) => (e, Some(d)),
                _ => (q, None),
            };
            match offset_suffix(s, q2) {
                SStep::Fatal => SStep::Fatal,
                SStep::Done(e, d) => SStep::Done(e, VectorV { range, offset: Some(d), ..v }),
                SStep::NoMatch => SStep::Done(q2, VectorV { range, ..v }),
            }
        },
    }
}

pub fn matcher_op_at(src: &Source, p: usize) -> (r: Option<(usize, LabelMatcherOp)>)
    requires
        src.wf(),
        p <= src@.len(),
    ensures
        match r {
            Some((e, op)) => matcher_op(src@, p as int) == Some((e as int, op)) && p < e
                <= src@.len(),
            None => matcher_op(src@, p as int) is None,
        },
{
    let q = skip_ws(src, p);
    let (e, op) = if tag_at(src, q, &['!', '~']) {
        (q + 2, LabelMatcherOp::NotRegexp)
    } else if tag_at(src, q, &['!', '=']) {
        (q + 2, LabelMatcherOp::NotEqual)
    } else if tag_at(src, q, &['=', '~']) {
        (q + 2, LabelMatcherOp::Regexp)
    } else if tag_at(src, q, &['=']) {
        (q + 1, LabelMatcherOp::Equal)
    } else {
        return None;
    };
    Some((skip_ws(src, e), op))
}

pub fn label_matcher_at(src: &Source, p: usize) -> (r: Option<(usize, LabelMatcher)>)
    requires
        src.wf(),
        p <= src@.len(),
    ensures
        match r {
            Some((e, m)) => label_matcher(src@, p as int) == Some((e as int, m@)) && p < e
                <= src@.len(),
            None => label_matcher(src@, p as int) is None,
        },
{
    let (e, name) = match spaced_label_at(src, p) {
        Some(x) => x,
        None => return None,
    };
    let (e2, op) = match matcher_op_at(src, e) {
        Some(x) => x,
        None => return None,
    };
    match string_lit_at(src, e2) {
        Some((a, b, e3)) => Some((e3, LabelMatcher { op, name, value: src.slice(a, b) })),
        None => None,
    }
}

pub fn matcher_list_at(src: &Source, p: usize) -> (r: (usize, Vec<LabelMatcher>))
    requires
        src.wf(),
        p <= src@.len(),
    ensures
        matcher_list(src@, p as int) == (r.0 as int, matchers_view(r.1@)),
        p <= r.0 <= src@.len(),
{
    let mut ms: Vec<LabelMatcher> = Vec::new();
    let (mut i, first) = match label_matcher_at(src, p) {
        Some((e, m)) => (e, m),
        None => {
            assert(matchers_view(ms@) =~= seq![]);
            return (p, ms);
        },
    };
    ms.push(first);
    assert(matchers_view(ms@) =~= seq![first@]);
    let n = src.len();
    while src.is(i, ',')
        invariant
            src.wf(),
            n == src@.len(),
            p <= i <= n,
            matcher_list(src@, p as int) == matcher_list_rest(src@, i as int, matchers_view(ms@)),
        decreases n - i,
    {
        match label_matcher_at(src, i + 1) {
            Some((e, m)) => {
                let ghost old_ms = ms@;
                ms.push(m);
                assert(matchers_view(ms@) =~= matchers_view(old_ms).push(m@));
                i = e;
            },
            None => {
                return (i, ms);
            },
        }
    }
    (i, ms)
}

pub fn label_matchers_at(src: &Source, p: usize) -> (r: Option<(usize, Vec<LabelMatcher>)>)
    requires
        src.wf(),
        p <= src@.len(),
    ensures
        match r {
            Some((e, ms)) => label_matchers(src@, p as int) == Some((e as int, matchers_view(ms@)))
                && p < e <= src@.len(),
            None => label_matchers(src@, p as int) is None,
        },
{
    let q = skip_ws(src, p);
    if src.is(q, '{') {
        let q1 = skip_ws(src, q + 1);
        let (e, ms) = matcher_list_at(src, q1);
        let e2 = skip_ws(src, e);
        if src.is(e2, '}') {
            Some((skip_ws(src, e2 + 1), ms))
        } else {
            None
        }
    } else {
        None
    }
}

pub fn instant_vector_at(src: &Source, p: usize) -> (r: (usize, Vector))
    requires
        src.wf(),
        p <= src@.len(),
    ensures
        instant_vector(src@, p as int) == (r.0 as int, r.1@),
        p <= r.0 <= src@.len(),
{
    let q = skip_ws(src, p);
    let (q1, name) = match metric_name_at(src, q) {
        Some(e) => (skip_ws(src, e), src.slice(q, e)),
        None => (p, String::new()),
    };
    let (q2, label_matchers) = match label_matchers_at(src, q1) {
        Some((e, ms)) => (e, ms),
        None => {
            let ms: Vec<LabelMatcher> = Vec::new();
            assert(matchers_view(ms@) =~= seq![]);
            (q1, ms)
        },
    };
    (q2, Vector { name, label_matchers, offset: None, range: None })
}

pub fn range_suffix_at(src: &Source, p: usize) -> (r: Step<Duration>)
    requires
        src.wf(),
        p <= src@.len(),
    ensures
        step_matches(r, range_suffix(src@, p as int), |d: Duration| d),
        step_within(&r, p as int, src@.len() as int),
        r matches Step::Done(_, d) ==> d.secs > 0 || d.nanos > 0,
{
    if src.is(p, '[') {
        match duration_token(src, p + 1) {
            Step::Done(e, d) => if src.is(e, ']') {
                if d.secs == 0 && d.nanos == 0 {
                    Step::NoMatch
                } else {
                    Step::Done(e + 1, d)
                }
            } else {
                Step::NoMatch
            },
            Step::NoMatch => Step::NoMatch,
            Step::Fatal(err) => Step::Fatal(err),
        }
    } else {
        Step::NoMatch
    }
}

pub fn offset_suffix_at(src: &Source, p: usize) -> (r: Step<Duration>)
    requires
        src.wf(),
        p <= src@.len(),
    ensures
        step_matches(r, offset_suffix(src@, p as int), |d: Duration| d),
        step_within(&r, p as int, src@.len() as int),
{
    let q = skip_ws(src, p);
    if tag_no_case_at(src, q, &['o', 'f', 'f', 's', 'e', 't']) {
        let q2 = skip_ws(src, q + 6);
        duration_token(src, q2)
    } else {
        Step::NoMatch
    }
}

pub fn vector_selector_at(src: &Source, p: usize) -> (r: Step<Vector>)
    requires
        src.wf(),
        p <= src@.len(),
    ensures
        step_matches(r, vector_selector(src@, p as int), |v: Vector| v@),
        step_within(&r, p as int, src@.len() as int),
        !(r is NoMatch),
        r matches Step::Done(_, v) ==> (v.range matches Some(d) ==> d.secs > 0 || d.nanos > 0),
{
    let (q, v) = instant_vector_at(src, p);
    let (q2, range) = match range_suffix_at(src, q) {
        Step::Fatal(err) => return Step::Fatal(err),
        Step::Done(e, d) => (e, Some(d)),
        Step::NoMatch => (q, None),
    };
    match offset_suffix_at(src, q2) {
        Step::Fatal(err) => Step::Fatal(err),
        Step::Done(e, d) => Step::Done(
            e,
            Vector { name: v.name, label_matchers: v.label_matchers, offset: Some(d), range },
        ),
        Step::NoMatch => Step::Done(
            q2,
            Vector { name: v.name, label_matchers: v.label_matchers, offset: None, range },
        ),
    }
}

} // verus!
