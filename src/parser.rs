use vstd::prelude::*;
use crate::ast::{
    AggregationModifier, BinaryModifier, BinaryOp, Duration, Expr, FunCall, LabelMatcher,
    NumberLiteral, StringLiteral, Vector, exprs_view, matchers_view, modifier_opt_view,
    strings_view,
};
use crate::error::{Error, ErrorKind, ParserError, SStep, Step, step_within};
use crate::expr::{
    args, args_at, body, body_at, expr, expr_at, funcall, funcall_at, funcall_view, level, level_at,
};
use crate::laws::expression_never_mismatches;
use crate::lexer::{
    Source, duration_at, duration_token, label_name_at, label_name_end, metric_name_at,
    metric_name_end, number_at, number_end, string_lit, string_lit_at,
};
use crate::modifier::{
    aggregation_modifier, aggregation_modifier_at, binary_modifier, binary_modifier_at, binary_op,
    binary_op_at, grouping_labels, grouping_labels_at, label_list, label_list_at, on_or_ignoring,
    on_or_ignoring_at,
};
use crate::selector::{
    instant_vector, instant_vector_at, label_matcher, label_matcher_at, label_matchers,
    label_matchers_at, vector_selector, vector_selector_at,
};

verus! {

/// `r` is what a production that has outcome `s` on all of `input` returns: on a match, the
/// input after it and its value (seen through `view`); where it does not match, a syntax
/// error of kind `kind` at the whole input; on a fatal failure, the bad duration.
/// What remains after a match is a suffix of the input.
pub open spec fn outcome<T, V>(
    input: Seq<char>,
    r: Result<(&str, T), Error<&str>>,
    s: SStep<V>,
    view: spec_fn(T) -> V,
    kind: ErrorKind,
) -> bool {
    match s {
        SStep::Done(q, v) => r matches Ok((rest, t)) && 0 <= q <= input.len() && rest@
            == input.subrange(q, input.len() as int) && view(t) == v,
        SStep::NoMatch => r matches Err(Error::Syntax(rest, k)) && rest@ == input && k == kind,
        SStep::Fatal => r matches Err(Error::Parser(ParserError::InvalidDuration(_))),
    }
}

/// The same for a production that cannot fail fatally.
pub open spec fn opt_outcome<T, V>(
    input: Seq<char>,
    r: Result<(&str, T), Error<&str>>,
    s: Option<(int, V)>,
    view: spec_fn(T) -> V,
    kind: ErrorKind,
) -> bool {
    match s {
        Some((q, v)) => r matches Ok((rest, t)) && 0 <= q <= input.len() && rest@
            == input.subrange(q, input.len() as int) && view(t) == v,
        None => r matches Err(Error::Syntax(rest, k)) && rest@ == input && k == kind,
    }
}

fn finish<'a, T>(src: &Source<'a>, r: Step<T>, kind: ErrorKind) -> (res: Result<
    (&'a str, T),
    Error<&'a str>,
>)
    requires
        src.wf(),
        step_within(&r, 0, src@.len() as int),
    ensures
        match r {
            Step::Done(q, t) => res matches Ok((rest, t2)) && rest@ == src@.subrange(
                q as int,
                src@.len() as int,
            ) && t2 == t,
            Step::NoMatch => res matches Err(Error::Syntax(rest, k)) && rest@ == src@ && k == kind,
            Step::Fatal(e) => res == Err::<(&str, T), Error<&str>>(Error::Parser(e)),
        },
{
    match r {
        Step::Done(q, t) => Ok((src.rest(q), t)),
        Step::NoMatch => {
            let all = src.rest(0);
            assert(src@.subrange(0, src@.len() as int) =~= src@);
            Err(Error::Syntax(all, kind))
        },
        Step::Fatal(e) => Err(Error::Parser(e)),
    }
}

fn finish_opt<'a, T>(src: &Source<'a>, r: Option<(usize, T)>, kind: ErrorKind) -> (res: Result<
    (&'a str, T),
    Error<&'a str>,
>)
    requires
        src.wf(),
        r matches Some((q, _)) ==> q <= src@.len(),
    ensures
        match r {
            Some((q, t)) => res matches Ok((rest, t2)) && rest@ == src@.subrange(
                q as int,
                src@.len() as int,
            ) && t2 == t,
            None => res matches Err(Error::Syntax(rest, k)) && rest@ == src@ && k == kind,
        },
{
    match r {
        Some((q, t)) => Ok((src.rest(q), t)),
        None => {
            let all = src.rest(0);
            assert(src@.subrange(0, src@.len() as int) =~= src@);
            Err(Error::Syntax(all, kind))
        },
    }
}

/// Parses an expression at the start of `input`: returns the input left after it, and the
/// tree. Input that is left is no error here; whether it may remain is for the caller to say.
/// The only failure is a fatal one.
pub fn parse_expr(input: &str) -> (r: Result<(&str, Expr), Error<&str>>)
    ensures
        outcome(input@, r, expr(input@, 0), |e: Expr| e@, ErrorKind::Expression),
        !(r matches Err(Error::Syntax(_, _))),
{
    proof {
        expression_never_mismatches(input@, 0);
    }
    let src = Source::new(input);
    let s = expr_at(&src, 0);
    finish(&src, s, ErrorKind::Expression)
}

/// The loosest level of binary operators (`or`), without a subquery suffix.
pub fn parse_or(input: &str) -> (r: Result<(&str, Expr), Error<&str>>)
    ensures
        outcome(input@, r, level(input@, 0, 5), |e: Expr| e@, ErrorKind::Expression),
{
    let src = Source::new(input);
    let s = level_at(&src, 0, 5);
    finish(&src, s, ErrorKind::Expression)
}

/// The `and` / `unless` level and the tighter ones.
pub fn parse_and_unless(input: &str) -> (r: Result<(&str, Expr), Error<&str>>)
    ensures
        outcome(input@, r, level(input@, 0, 4), |e: Expr| e@, ErrorKind::Expression),
{
    let src = Source::new(input);
    let s = level_at(&src, 0, 4);
    finish(&src, s, ErrorKind::Expression)
}

/// The comparison level and the tighter ones.
pub fn parse_compare(input: &str) -> (r: Result<(&str, Expr), Error<&str>>)
    ensures
        outcome(input@, r, level(input@, 0, 3), |e: Expr| e@, ErrorKind::Expression),
{
    let src = Source::new(input);
    let s = level_at(&src, 0, 3);
    finish(&src, s, ErrorKind::Expression)
}

/// The `+` / `-` level and the tighter ones.
pub fn parse_plus_minus(input: &str) -> (r: Result<(&str, Expr), Error<&str>>)
    ensures
        outcome(input@, r, level(input@, 0, 2), |e: Expr| e@, ErrorKind::Expression),
{
    let src = Source::new(input);
    let s = level_at(&src, 0, 2);
    finish(&src, s, ErrorKind::Expression)
}

/// The `*` / `/` / `%` level and the tighter one.
pub fn parse_mul_div_mod(input: &str) -> (r: Result<(&str, Expr), Error<&str>>)
    ensures
        outcome(input@, r, level(input@, 0, 1), |e: Expr| e@, ErrorKind::Expression),
{
    let src = Source::new(input);
    let s = level_at(&src, 0, 1);
    finish(&src, s, ErrorKind::Expression)
}

/// The `^` level, right-associative.
pub fn parse_power(input: &str) -> (r: Result<(&str, Expr), Error<&str>>)
    ensures
        outcome(input@, r, level(input@, 0, 0), |e: Expr| e@, ErrorKind::Expression),
{
    let src = Source::new(input);
    let s = level_at(&src, 0, 0);
    finish(&src, s, ErrorKind::Expression)
}

pub fn parse_function_call(input: &str) -> (r: Result<(&str, FunCall), Error<&str>>)
    ensures
        outcome(input@, r, funcall(input@, 0), |c: FunCall| funcall_view(c), ErrorKind::FunctionCall),
{
    let src = Source::new(input);
    let s = funcall_at(&src, 0);
    finish(&src, s, ErrorKind::FunctionCall)
}

/// A parenthesised argument list.
pub fn parse_function_call_body(input: &str) -> (r: Result<(&str, Vec<Expr>), Error<&str>>)
    ensures
        outcome(
            input@,
            r,
            body(input@, 0),
            |v: Vec<Expr>| exprs_view(v@),
            ErrorKind::FunctionCallBody,
        ),
{
    let src = Source::new(input);
    let s = body_at(&src, 0);
    finish(&src, s, ErrorKind::FunctionCallBody)
}

/// A comma-separated argument list, without the parentheses.
pub fn parse_function_call_args(input: &str) -> (r: Result<(&str, Vec<Expr>), Error<&str>>)
    ensures
        outcome(
            input@,
            r,
            args(input@, 0),
            |v: Vec<Expr>| exprs_view(v@),
            ErrorKind::FunctionCallBody,
        ),
{
    let src = Source::new(input);
    let s = args_at(&src, 0);
    finish(&src, s, ErrorKind::FunctionCallBody)
}

pub fn parse_aggregation_modifier(input: &str) -> (r: Result<(&str, AggregationModifier), Error<&str>>)
    ensures
        opt_outcome(
            input@,
            r,
            aggregation_modifier(input@, 0),
            |m: AggregationModifier| m@,
            ErrorKind::AggregationModifier,
        ),
{
    let src = Source::new(input);
    let s = aggregation_modifier_at(&src, 0);
    finish_opt(&src, s, ErrorKind::AggregationModifier)
}

/// `(` comma-separated label names `)`.
pub fn parse_grouping_labels(input: &str) -> (r: Result<(&str, Vec<String>), Error<&str>>)
    ensures
        opt_outcome(
            input@,
            r,
            grouping_labels(input@, 0),
            |v: Vec<String>| strings_view(v@),
            ErrorKind::GroupingLabels,
        ),
{
    let src = Source::new(input);
    let s = grouping_labels_at(&src, 0);
    finish_opt(&src, s, ErrorKind::GroupingLabels)
}

/// Comma-separated label names, possibly none.
pub fn parse_grouping_label_list(input: &str) -> (r: Result<(&str, Vec<String>), Error<&str>>)
    ensures
        opt_outcome(
            input@,
            r,
            Some(label_list(input@, 0)),
            |v: Vec<String>| strings_view(v@),
            ErrorKind::GroupingLabels,
        ),
{
    let src = Source::new(input);
    let s = label_list_at(&src, 0);
    finish_opt(&src, Some(s), ErrorKind::GroupingLabels)
}

/// One label name.
pub fn parse_grouping_label(input: &str) -> (r: Result<(&str, &str), Error<&str>>)
    ensures
        opt_outcome(
            input@,
            r,
            match label_name_end(input@, 0) {
                Some(e) => Some((e, input@.subrange(0, e))),
                None => None,
            },
            |t: &str| t@,
            ErrorKind::LabelName,
        ),
{
    parse_label_name(input)
}

/// A metric name, `[A-Za-z_:][A-Za-z0-9_:]*`.
pub fn parse_metric_name(input: &str) -> (r: Result<(&str, &str), Error<&str>>)
    ensures
        opt_outcome(
            input@,
            r,
            match metric_name_end(input@, 0) {
                Some(e) => Some((e, input@.subrange(0, e))),
                None => None,
            },
            |t: &str| t@,
            ErrorKind::MetricName,
        ),
{
    let src = Source::new(input);
    let s = match metric_name_at(&src, 0) {
        Some(e) => Some((e, input.substring_char(0, e))),
        None => None,
    };
    finish_opt(&src, s, ErrorKind::MetricName)
}

/// A label name, `[A-Za-z_][A-Za-z0-9_]*`.
pub fn parse_label_name(input: &str) -> (r: Result<(&str, &str), Error<&str>>)
    ensures
        opt_outcome(
            input@,
            r,
            match label_name_end(input@, 0) {
                Some(e) => Some((e, input@.subrange(0, e))),
                None => None,
            },
            |t: &str| t@,
            ErrorKind::LabelName,
        ),
{
    let src = Source::new(input);
    let s = match label_name_at(&src, 0) {
        Some(e) => Some((e, input.substring_char(0, e))),
        None => None,
    };
    finish_opt(&src, s, ErrorKind::LabelName)
}

/// A number literal right at the start of the input, kept as written.
pub fn parse_number_literal(input: &str) -> (r: Result<(&str, NumberLiteral), Error<&str>>)
    ensures
        opt_outcome(
            input@,
            r,
            match number_end(input@, 0) {
                Some(e) => Some((e, input@.subrange(0, e))),
                None => None,
            },
            |n: NumberLiteral| n.text@,
            ErrorKind::Number,
        ),
{
    let src = Source::new(input);
    let s = match number_at(&src, 0) {
        Some(e) => Some((e, NumberLiteral { text: src.slice(0, e) })),
        None => None,
    };
    finish_opt(&src, s, ErrorKind::Number)
}

/// A string literal with the whitespace around it; its value is the text between the
/// delimiters, escapes kept as written.
pub fn parse_string_literal(input: &str) -> (r: Result<(&str, StringLiteral), Error<&str>>)
    ensures
        opt_outcome(
            input@,
            r,
            match string_lit(input@, 0) {
                Some((a, b, e)) => Some((e, input@.subrange(a, b))),
                None => None,
            },
            |l: StringLiteral| l.value@,
            ErrorKind::StringLiteral,
        ),
{
    let src = Source::new(input);
    let s = match string_lit_at(&src, 0) {
        Some((a, b, e)) => Some((e, StringLiteral { value: src.slice(a, b) })),
        None => None,
    };
    finish_opt(&src, s, ErrorKind::StringLiteral)
}

/// What may follow a comparison operator: an optional `bool` and an optional vector-matching
/// clause; never fails.
pub fn parse_binary_modifier(input: &str) -> (r: Result<
    (&str, (bool, Option<BinaryModifier>)),
    Error<&str>,
>)
    ensures
        ({
            let (e, b, m) = binary_modifier(input@, 0, true);
            opt_outcome(
                input@,
                r,
                Some((e, (b, m))),
                |x: (bool, Option<BinaryModifier>)| (x.0, modifier_opt_view(x.1)),
                ErrorKind::BinaryOp,
            )
        }),
{
    let src = Source::new(input);
    let (e, b, m) = binary_modifier_at(&src, 0, true);
    finish_opt(&src, Some((e, (b, m))), ErrorKind::BinaryOp)
}

/// `on (…)` or `ignoring (…)`.
pub fn parse_on_or_ignoring(input: &str) -> (r: Result<(&str, BinaryModifier), Error<&str>>)
    ensures
        opt_outcome(input@, r, on_or_ignoring(input@, 0), |m: BinaryModifier| m@, ErrorKind::BinaryOp),
{
    let src = Source::new(input);
    let s = on_or_ignoring_at(&src, 0);
    finish_opt(&src, s, ErrorKind::BinaryOp)
}

/// An `and` or `unless` operator with what may follow it.
pub fn parse_binary_op_and_unless(input: &str) -> (r: Result<(&str, BinaryOp), Error<&str>>)
    ensures
        opt_outcome(input@, r, binary_op(input@, 0, 4), |o: BinaryOp| o@, ErrorKind::BinaryOp),
{
    let src = Source::new(input);
    let s = binary_op_at(&src, 0, 4);
    finish_opt(&src, s, ErrorKind::BinaryOp)
}

pub fn parse_label_matchers(input: &str) -> (r: Result<(&str, Vec<LabelMatcher>), Error<&str>>)
    ensures
        opt_outcome(
            input@,
            r,
            label_matchers(input@, 0),
            |v: Vec<LabelMatcher>| matchers_view(v@),
            ErrorKind::LabelMatchers,
        ),
{
    let src = Source::new(input);
    let s = label_matchers_at(&src, 0);
    finish_opt(&src, s, ErrorKind::LabelMatchers)
}

pub fn parse_label_matcher(input: &str) -> (r: Result<(&str, LabelMatcher), Error<&str>>)
    ensures
        opt_outcome(input@, r, label_matcher(input@, 0), |m: LabelMatcher| m@, ErrorKind::LabelMatcher),
{
    let src = Source::new(input);
    let s = label_matcher_at(&src, 0);
    finish_opt(&src, s, ErrorKind::LabelMatcher)
}

/// A vector selector: never a syntax error, since every part of it is optional.
pub fn parse_vector(input: &str) -> (r: Result<(&str, Vector), Error<&str>>)
    ensures
        outcome(input@, r, vector_selector(input@, 0), |v: Vector| v@, ErrorKind::VectorSelector),
        r matches Ok((_, v)) ==> (v.range matches Some(d) ==> d.secs > 0 || d.nanos > 0),
{
    let src = Source::new(input);
    let s = vector_selector_at(&src, 0);
    finish(&src, s, ErrorKind::VectorSelector)
}

/// An optional metric name and an optional block of label matchers.
pub fn parse_instant_vec(input: &str) -> (r: Result<(&str, Vector), Error<&str>>)
    ensures
        ({
            let (e, v) = instant_vector(input@, 0);
            opt_outcome(input@, r, Some((e, v)), |x: Vector| x@, ErrorKind::VectorSelector)
        }),
{
    let src = Source::new(input);
    let (e, v) = instant_vector_at(&src, 0);
    finish_opt(&src, Some((e, v)), ErrorKind::VectorSelector)
}

/// A duration token, read by the duration grammar; a token it refuses is fatal.
pub fn parse_duration(input: &str) -> (r: Result<(&str, Duration), Error<&str>>)
    ensures
        outcome(input@, r, duration_at(input@, 0), |d: Duration| d, ErrorKind::Duration),
{
    let src = Source::new(input);
    let s = duration_token(&src, 0);
    finish(&src, s, ErrorKind::Duration)
}

} // verus!
