use vstd::prelude::*;

verus! {

#[verifier::external_type_specification]
#[verifier::external_body]
pub struct ExDurationError(humantime::DurationError);

/// Domain failures. Once raised, one ends the whole parse: no other alternative is tried.
#[derive(Debug, PartialEq)]
pub enum ParserError {
    /// A duration token that the duration grammar does not accept, with the reason.
    InvalidDuration(humantime::DurationError),
    /// Declared for a later semantic pass; no production raises it.
    RangeOnlyVectorSelectors,
    /// Declared for a later semantic pass; no production raises it.
    InvalidMatrixSelector,
    /// Declared for a later semantic pass; no production raises it.
    InvalidOffsetExpr,
}

/// The production that did not match, in a syntax error.
#[derive(Debug, Clone, Copy, PartialEq, Eq, Structural)]
pub enum ErrorKind {
    Expression,
    MetricName,
    LabelName,
    Number,
    StringLiteral,
    GroupingLabels,
    AggregationModifier,
    FunctionCall,
    FunctionCallBody,
    LabelMatchers,
    LabelMatcher,
    BinaryOp,
    VectorSelector,
    Duration,
}

/// Why a parse failed.
///
/// A `Syntax` error says that a production does not start at the given input (the input that
/// remained where it was tried); it is what alternatives recover from. A `Parser` error is fatal.
#[derive(Debug, PartialEq)]
pub enum Error<I> {
    Parser(ParserError),
    Syntax(I, ErrorKind),
}

/// The outcome of one production tried at a position of the input.
pub enum Step<T> {
    /// It matched; the position after it, and its value.
    Done(usize, T),
    /// It does not start here; an enclosing alternative may try another production.
    NoMatch,
    /// A fatal failure.
    Fatal(ParserError),
}

/// The outcome of a production in the grammar's definition.
pub ghost enum SStep<V> {
    Done(int, V),
    NoMatch,
    Fatal,
}

/// `r` is the outcome `s`, its value seen through `view`; a fatal failure is a bad duration.
pub open spec fn step_matches<T, V>(r: Step<T>, s: SStep<V>, view: spec_fn(T) -> V) -> bool {
    match r {
        Step::Done(q, t) => s == SStep::Done(q as int, view(t)),
        Step::NoMatch => s == SStep::<V>::NoMatch,
        Step::Fatal(e) => s == SStep::<V>::Fatal && e is InvalidDuration,
    }
}

/// A match that starts at `p` ends between `p` and `n`.
pub open spec fn step_within<T>(r: &Step<T>, p: int, n: int) -> bool {
    match r {
        Step::Done(q, _) => p <= *q <= n,
        _ => true,
    }
}

} // verus!
