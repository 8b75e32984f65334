use promql_parser::ast::{
    binary_expr, fun_call, fun_call_agg, fun_call_expr, number_literal_expr, subquery_expr,
    vector, vector_expr, AggregationModifier, AggregationModifierAction, BinaryModifier,
    BinaryModifierAction, BinaryModifierGroup, BinaryModifierGroupSide, BinaryOp, Duration, Expr,
    LabelMatcher, LabelMatcherOp, NumberLiteral, StringLiteral, Vector,
};
use promql_parser::error::{Error, ErrorKind, ParserError};
use promql_parser::parse_expr;
use promql_parser::parser::{
    parse_aggregation_modifier, parse_duration, parse_function_call, parse_grouping_labels,
    parse_label_matcher, parse_metric_name, parse_number_literal, parse_string_literal,
    parse_vector,
};

fn sel(name: &str) -> Expr {
    vector_expr(vector(name))
}

#[test]
fn duration_of_minutes() {
    assert_eq!(parse_duration("5m"), Ok(("", Duration::from_secs(300))));
}

#[test]
fn duration_composite_and_fractional() {
    assert_eq!(parse_duration("1h30m]"), Ok(("]", Duration::from_secs(5400))));
    assert_eq!(parse_duration("1s500ms"), Ok(("", Duration::new(1, 500_000_000))));
    assert_eq!(parse_duration("1.5s"), Err(Error::Parser(ParserError::InvalidDuration(humantime::DurationError::UnknownUnit { start: 1, end: 1, unit: "".to_owned(), value: 1 }))));
}

#[test]
fn subquery_range_and_resolution() {
    assert_eq!(
        parse_expr("x[30m:1m]"),
        Ok((
            "",
            subquery_expr(
                sel("x"),
                Some(Duration::from_secs(1800)),
                Some(Duration::from_secs(60))
            )
        ))
    );
}

#[test]
fn subquery_without_resolution() {
    assert_eq!(
        parse_expr("x[5m:]"),
        Ok(("", subquery_expr(sel("x"), Some(Duration::from_secs(300)), None)))
    );
}

#[test]
fn power_is_right_associative() {
    assert_eq!(
        parse_expr("a^b^c"),
        Ok((
            "",
            binary_expr(
                BinaryOp::Power(None),
                sel("a"),
                binary_expr(BinaryOp::Power(None), sel("b"), sel("c"))
            )
        ))
    );
}

#[test]
fn comparison_is_left_associative() {
    assert_eq!(
        parse_expr("a > b > c"),
        Ok((
            "",
            binary_expr(
                BinaryOp::GreaterThan(false, None),
                binary_expr(BinaryOp::GreaterThan(false, None), sel("a"), sel("b")),
                sel("c")
            )
        ))
    );
}

#[test]
fn multiplication_binds_tighter_than_addition() {
    assert_eq!(
        parse_expr("a + b * c"),
        Ok((
            "",
            binary_expr(
                BinaryOp::Add(None),
                sel("a"),
                binary_expr(BinaryOp::Mul(None), sel("b"), sel("c"))
            )
        ))
    );
}

#[test]
fn or_is_loosest_and_left_associative() {
    assert_eq!(
        parse_expr("a or b and c or d"),
        Ok((
            "",
            binary_expr(
                BinaryOp::Or(None),
                binary_expr(
                    BinaryOp::Or(None),
                    sel("a"),
                    binary_expr(BinaryOp::And(None), sel("b"), sel("c"))
                ),
                sel("d")
            )
        ))
    );
}

#[test]
fn unless_is_recognized() {
    assert_eq!(
        parse_expr("a unless b"),
        Ok(("", binary_expr(BinaryOp::Unless(None), sel("a"), sel("b"))))
    );
}

#[test]
fn aggregation_modifier_in_either_place() {
    let expected = fun_call_expr(fun_call_agg(
        "sum",
        vec![sel("a")],
        Some(AggregationModifier {
            action: AggregationModifierAction::By,
            labels: vec!["x".to_owned()],
        }),
    ));
    assert_eq!(parse_expr("sum by (x) (a)"), Ok(("", expected)));
    let expected = fun_call_expr(fun_call_agg(
        "sum",
        vec![sel("a")],
        Some(AggregationModifier {
            action: AggregationModifierAction::By,
            labels: vec!["x".to_owned()],
        }),
    ));
    assert_eq!(parse_expr("sum(a) by (x)"), Ok(("", expected)));
}

#[test]
fn aggregation_keywords_ignore_case() {
    assert_eq!(
        parse_aggregation_modifier("WITHOUT (a, b)"),
        Ok((
            "",
            AggregationModifier {
                action: AggregationModifierAction::Without,
                labels: vec!["a".to_owned(), "b".to_owned()],
            }
        ))
    );
}

#[test]
fn double_negation_nests() {
    assert_eq!(
        parse_expr("--a"),
        Ok((
            "",
            Expr::NegationExpr(Box::new(Expr::NegationExpr(Box::new(sel("a")))))
        ))
    );
}

#[test]
fn unary_plus_is_dropped() {
    assert_eq!(parse_expr("+a"), Ok(("", sel("a"))));
}

#[test]
fn signed_number_is_one_literal() {
    assert_eq!(parse_expr("-1"), Ok(("", number_literal_expr("-1"))));
}

#[test]
fn empty_call_has_no_arguments() {
    assert_eq!(parse_expr("foo()"), Ok(("", fun_call_expr(fun_call("foo", vec![])))));
    assert_eq!(parse_expr("foo( )"), Ok(("", fun_call_expr(fun_call("foo", vec![])))));
}

#[test]
fn regexp_matcher_is_read_whole() {
    assert_eq!(
        parse_label_matcher("a=~\"x\""),
        Ok((
            "",
            LabelMatcher {
                op: LabelMatcherOp::Regexp,
                name: "a".to_owned(),
                value: "x".to_owned(),
            }
        ))
    );
    assert_eq!(
        parse_vector("{a=~\"x\"}"),
        Ok((
            "",
            Vector {
                label_matchers: vec![LabelMatcher {
                    op: LabelMatcherOp::Regexp,
                    name: "a".to_owned(),
                    value: "x".to_owned(),
                }],
                ..Default::default()
            }
        ))
    );
}

#[test]
fn refused_range_duration_fails_whole_parse() {
    assert!(matches!(
        parse_expr("a[5zz]"),
        Err(Error::Parser(ParserError::InvalidDuration(_)))
    ));
    assert!(matches!(
        parse_expr("rate(x[5zz]) + 1"),
        Err(Error::Parser(ParserError::InvalidDuration(_)))
    ));
    assert!(matches!(
        parse_expr("x[]"),
        Err(Error::Parser(ParserError::InvalidDuration(_)))
    ));
    assert!(matches!(
        parse_expr("x offset 3q"),
        Err(Error::Parser(ParserError::InvalidDuration(_)))
    ));
}

#[test]
fn string_escapes_are_kept_verbatim() {
    // Intentional: escapes are stored as written, not decoded.
    assert_eq!(
        parse_string_literal(r#"'it\'s'"#),
        Ok(("", StringLiteral { value: r#"it\'s"#.to_owned() }))
    );
    assert_eq!(
        parse_string_literal(r#""a\\b""#),
        Ok(("", StringLiteral { value: r#"a\\b"#.to_owned() }))
    );
}

#[test]
fn empty_string_literal() {
    assert_eq!(
        parse_string_literal("\"\""),
        Ok(("", StringLiteral { value: "".to_owned() }))
    );
}

#[test]
fn bad_string_literals_are_syntax_errors() {
    assert_eq!(
        parse_string_literal("\"abc"),
        Err(Error::Syntax("\"abc", ErrorKind::StringLiteral))
    );
    assert_eq!(
        parse_string_literal(r#""a\nb""#),
        Err(Error::Syntax(r#""a\nb""#, ErrorKind::StringLiteral))
    );
}

#[test]
fn syntax_errors_carry_input_and_kind() {
    assert_eq!(parse_metric_name("1abc"), Err(Error::Syntax("1abc", ErrorKind::MetricName)));
    assert_eq!(
        parse_grouping_labels("a, b"),
        Err(Error::Syntax("a, b", ErrorKind::GroupingLabels))
    );
    assert_eq!(
        parse_function_call("foo bar"),
        Err(Error::Syntax("foo bar", ErrorKind::FunctionCall))
    );
    assert_eq!(
        parse_aggregation_modifier("by x"),
        Err(Error::Syntax("by x", ErrorKind::AggregationModifier))
    );
    assert_eq!(
        parse_label_matcher("a == \"x\""),
        Err(Error::Syntax("a == \"x\"", ErrorKind::LabelMatcher))
    );
    assert_eq!(
        parse_label_matcher("a ~ \"x\""),
        Err(Error::Syntax("a ~ \"x\"", ErrorKind::LabelMatcher))
    );
    assert_eq!(parse_number_literal("abc"), Err(Error::Syntax("abc", ErrorKind::Number)));
}

#[test]
fn number_literal_forms() {
    assert_eq!(parse_number_literal("1e3x"), Ok(("x", NumberLiteral::new("1e3"))));
    assert_eq!(parse_number_literal(".5"), Ok(("", NumberLiteral::new(".5"))));
    assert_eq!(parse_number_literal("1."), Ok(("", NumberLiteral::new("1."))));
    assert_eq!(parse_number_literal("2E-3"), Ok(("", NumberLiteral::new("2E-3"))));
    assert_eq!(parse_number_literal("1e"), Ok(("e", NumberLiteral::new("1"))));
    assert_eq!(parse_number_literal("+7"), Ok(("", NumberLiteral::new("+7"))));
}

#[test]
fn empty_input_is_the_empty_selector() {
    assert_eq!(parse_expr(""), Ok(("", sel(""))));
}

#[test]
fn remaining_input_is_returned() {
    assert_eq!(parse_expr("a b"), Ok(("b", sel("a"))));
}

#[test]
fn bool_flag_kept_on_comparisons_only() {
    assert_eq!(
        parse_expr("a > bool b"),
        Ok(("", binary_expr(BinaryOp::GreaterThan(true, None), sel("a"), sel("b"))))
    );
    assert_eq!(
        parse_expr("a > BOOL b"),
        Ok(("", binary_expr(BinaryOp::GreaterThan(true, None), sel("a"), sel("b"))))
    );
    // `bool` is no keyword after an arithmetic operator: it is a metric name there.
    assert_eq!(
        parse_expr("a + bool b"),
        Ok(("b", binary_expr(BinaryOp::Add(None), sel("a"), sel("bool"))))
    );
}

#[test]
fn bool_prefix_of_a_name_is_no_keyword() {
    assert_eq!(
        parse_expr("a + boolean_metric"),
        Ok(("", binary_expr(BinaryOp::Add(None), sel("a"), sel("boolean_metric"))))
    );
    assert_eq!(
        parse_expr("a > boolean_x"),
        Ok(("", binary_expr(BinaryOp::GreaterThan(false, None), sel("a"), sel("boolean_x"))))
    );
}

#[test]
fn vector_matching_with_grouping() {
    assert_eq!(
        parse_expr("a * ON(x) GROUP_RIGHT(y) b"),
        Ok((
            "",
            binary_expr(
                BinaryOp::Mul(Some(BinaryModifier {
                    action: BinaryModifierAction::On,
                    labels: vec!["x".to_owned()],
                    group: Some(BinaryModifierGroup {
                        side: BinaryModifierGroupSide::Right,
                        labels: vec!["y".to_owned()],
                    }),
                })),
                sel("a"),
                sel("b")
            )
        ))
    );
}

#[test]
fn selector_with_all_parts() {
    assert_eq!(
        parse_vector("up{job!~\"x\", a!=`y`}[1h] OFFSET 2d rest"),
        Ok((
            " rest",
            Vector {
                name: "up".to_owned(),
                label_matchers: vec![
                    LabelMatcher {
                        op: LabelMatcherOp::NotRegexp,
                        name: "job".to_owned(),
                        value: "x".to_owned(),
                    },
                    LabelMatcher {
                        op: LabelMatcherOp::NotEqual,
                        name: "a".to_owned(),
                        value: "y".to_owned(),
                    },
                ],
                offset: Some(Duration::from_secs(2 * 86400)),
                range: Some(Duration::from_secs(3600)),
            }
        ))
    );
}

#[test]
fn huge_durations_are_refused_not_panicking() {
    assert_eq!(
        parse_expr("x[18446744073709551615s1000000000ns]"),
        Err(Error::Parser(ParserError::InvalidDuration(humantime::DurationError::NumberOverflow)))
    );
    assert_eq!(
        parse_duration("584542046091y"),
        Err(Error::Parser(ParserError::InvalidDuration(humantime::DurationError::NumberOverflow)))
    );
    assert_eq!(
        parse_duration("18446744073709551615s999999999ns"),
        Ok(("", Duration::new(u64::MAX, 999_999_999)))
    );
    assert_eq!(
        parse_duration("10000000000000000000ns10000000000000000000ns"),
        Ok(("", Duration::from_secs(20_000_000_000)))
    );
    assert_eq!(
        parse_duration("500000000000s"),
        Ok(("", Duration::from_secs(500_000_000_000)))
    );
    assert_eq!(
        parse_duration("7000000000000m"),
        Ok(("", Duration::from_secs(420_000_000_000_000)))
    );
    assert_eq!(parse_duration("2month3ms"), Ok(("", Duration::new(2 * 2_630_016, 3_000_000))));
    assert_eq!(parse_duration("5millis"), Ok(("", Duration::new(0, 5_000_000))));
}

#[test]
fn zero_range_is_no_range() {
    assert_eq!(parse_vector("a[0s]"), Ok(("[0s]", Vector { name: "a".to_owned(), ..Default::default() })));
    assert_eq!(parse_expr("rate(a[0])"), Ok(("(a[0])", sel("rate"))));
    assert_eq!(
        parse_vector("a[1ns]"),
        Ok((
            "",
            Vector {
                name: "a".to_owned(),
                range: Some(Duration::new(0, 1)),
                ..Default::default()
            }
        ))
    );
}
