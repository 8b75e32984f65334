use promql_parser::ast::{
    binary_expr, binary_group_modifier, binary_modifier, binary_modifier_group_left, fun_call,
    fun_call_agg, fun_call_expr, number_literal_expr, string_literal, subquery_expr, v, v_r,
    vector, vector_expr, vector_labels, AggregationModifier, AggregationModifierAction,
    BinaryExpr, BinaryModifierAction, BinaryOp, Duration, Expr, FunCall, LabelMatcher,
    LabelMatcherOp, NumberLiteral, StringLiteral, Vector,
};
use promql_parser::parser::{
    parse_aggregation_modifier, parse_and_unless, parse_binary_modifier, parse_compare,
    parse_duration, parse_expr, parse_function_call, parse_function_call_args,
    parse_function_call_body, parse_grouping_labels, parse_instant_vec, parse_label_matcher,
    parse_label_matchers, parse_label_name, parse_metric_name, parse_mul_div_mod,
    parse_number_literal, parse_on_or_ignoring, parse_or, parse_plus_minus, parse_power,
    parse_string_literal, parse_vector,
};

#[test]
fn test_parse_or() {
    assert_eq!(
        parse_or("a or b"),
        Ok((
            "",
            binary_expr(
                BinaryOp::Or(None),
                vector_expr(vector("a")),
                vector_expr(vector("b")),
            )
        )),
    );
}

#[test]
fn test_parse_and_unless() {
    assert_eq!(
        parse_and_unless("a and b"),
        Ok((
            "",
            binary_expr(
                BinaryOp::And(None),
                vector_expr(vector("a")),
                vector_expr(vector("b")),
            )
        )),
    );

    assert_eq!(
        parse_and_unless("a and b and c"),
        Ok((
            "",
            binary_expr(
                BinaryOp::And(None),
                binary_expr(
                    BinaryOp::And(None),
                    vector_expr(vector("a")),
                    vector_expr(vector("b")),
                ),
                vector_expr(vector("c")),
            )
        )),
    );
}

#[test]
fn test_parse_compare() {
    assert_eq!(
        parse_compare("a > b"),
        Ok((
            "",
            binary_expr(
                BinaryOp::GreaterThan(false, None),
                vector_expr(vector("a")),
                vector_expr(vector("b")),
            )
        )),
    );

    assert_eq!(
        parse_compare("a > b > c"),
        Ok((
            "",
            binary_expr(
                BinaryOp::GreaterThan(false, None),
                binary_expr(
                    BinaryOp::GreaterThan(false, None),
                    vector_expr(vector("a")),
                    vector_expr(vector("b")),
                ),
                vector_expr(vector("c")),
            )
        )),
    );
}

#[test]
fn test_parse_plus_minus() {
    assert_eq!(
        parse_plus_minus("a + b"),
        Ok((
            "",
            binary_expr(
                BinaryOp::Add(None),
                vector_expr(vector("a")),
                vector_expr(vector("b")),
            )
        )),
    );
    assert_eq!(
        parse_plus_minus("a + b * c"),
        Ok((
            "",
            binary_expr(
                BinaryOp::Add(None),
                vector_expr(vector("a")),
                binary_expr(
                    BinaryOp::Mul(None),
                    vector_expr(vector("b")),
                    vector_expr(vector("c")),
                ),
            )
        )),
    );
}

#[test]
fn test_parse_mul_div_mod() {
    assert_eq!(
        parse_mul_div_mod("a / b"),
        Ok((
            "",
            binary_expr(
                BinaryOp::Div(None),
                vector_expr(vector("a")),
                vector_expr(vector("b")),
            )
        )),
    );

    assert_eq!(
        parse_mul_div_mod("a * b / c"),
        Ok((
            "",
            binary_expr(
                BinaryOp::Div(None),
                binary_expr(
                    BinaryOp::Mul(None),
                    vector_expr(vector("a")),
                    vector_expr(vector("b")),
                ),
                vector_expr(vector("c")),
            )
        )),
    );
}

#[test]
fn test_parse_power() {
    assert_eq!(
        parse_power("a ^ b"),
        Ok((
            "",
            Expr::BinaryExpr(Box::new(BinaryExpr {
                op: BinaryOp::Power(None),
                lhs: Expr::VectorExpr(Box::new(Vector {
                    name: "a".to_owned(),
                    ..Default::default()
                })),
                rhs: Expr::VectorExpr(Box::new(Vector {
                    name: "b".to_owned(),
                    ..Default::default()
                })),
                ..Default::default()
            }))
        ))
    );
}

#[test]
fn test_parse_aggregation_modifier() {
    assert_eq!(
        parse_aggregation_modifier("by (instance)"),
        Ok((
            "",
            AggregationModifier {
                action: AggregationModifierAction::By,
                labels: vec!["instance".to_owned()]
            }
        ))
    );
}

#[test]
fn test_parse_function_call_body2() {
    assert_eq!(
        parse_function_call_body("(rate(whatever [5m]) > 0, 0.2)"),
        Ok((
            "",
            vec![
                binary_expr(
                    BinaryOp::GreaterThan(false, None),
                    fun_call_expr(fun_call(
                        "rate",
                        vec![vector_expr(v_r("whatever", Duration::from_secs(300))),]
                    )),
                    number_literal_expr("0"),
                ),
                number_literal_expr("0.2"),
            ],
        ))
    )
}

#[test]
fn test_parse_function_multi_args() {
    assert_eq!(
        parse_function_call("quux(xyzzy, plough)"),
        Ok((
            "",
            FunCall {
                name: "quux".to_owned(),
                args: vec![vector_expr(v("xyzzy")), vector_expr(v("plough")),],
                ..Default::default()
            }
        ))
    )
}

#[test]
fn test_parse_function() {
    assert_eq!(
        parse_function_call(
            r#"label_replace(up{job="api-server",service="a:c"},   'foo' , "$1", "service", "(.*):.*")"#,
        ),
        Ok((
            "",
            FunCall {
                name: "label_replace".to_owned(),
                args: vec![
                    Expr::VectorExpr(Box::new(Vector {
                        name: "up".to_owned(),
                        label_matchers: vec![
                            LabelMatcher {
                                op: LabelMatcherOp::Equal,
                                name: "job".to_owned(),
                                value: "api-server".to_owned()
                            },
                            LabelMatcher {
                                op: LabelMatcherOp::Equal,
                                name: "service".to_owned(),
                                value: "a:c".to_owned()
                            }
                        ],
                        ..Default::default()
                    })),
                    Expr::StringLiteralExpr(Box::new(StringLiteral {
                        value: "foo".to_owned()
                    })),
                    Expr::StringLiteralExpr(Box::new(StringLiteral {
                        value: "$1".to_owned()
                    })),
                    Expr::StringLiteralExpr(Box::new(StringLiteral {
                        value: "service".to_owned()
                    })),
                    Expr::StringLiteralExpr(Box::new(StringLiteral {
                        value: "(.*):.*".to_owned()
                    }))
                ],
                ..Default::default()
            }
        ))
    );
}

#[test]
fn test_parse_function_call() {
    assert_eq!(
        parse_function_call("rate(whatever[5m])"),
        Ok((
            "",
            FunCall {
                name: "rate".to_owned(),
                args: vec![Expr::VectorExpr(Box::new(Vector {
                    name: "whatever".to_owned(),
                    range: Some(Duration::from_secs(300)),
                    ..Default::default()
                }))],
                ..Default::default()
            }
        ))
    )
}

#[test]
fn test_parse_function_call_body() {
    assert_eq!(
        parse_function_call_body("( a )"),
        Ok((
            "",
            vec![Expr::VectorExpr(Box::new(Vector {
                name: "a".to_owned(),
                ..Default::default()
            }))]
        ))
    );
}

#[test]
fn test_parse_function_call_args() {
    assert_eq!(
        parse_function_call_args("nodejs_http_requests"),
        Ok((
            "",
            vec![Expr::VectorExpr(Box::new(Vector {
                name: "nodejs_http_requests".to_owned(),
                ..Default::default()
            }))]
        ))
    );
}

#[test]
fn test_parse_func_by() {
    assert_eq!(
        parse_function_call("sum by (instance)(a)"),
        Ok((
            "",
            FunCall {
                name: "sum".to_owned(),
                args: vec![vector_expr(v("a"))],
                aggregation: Some(AggregationModifier {
                    action: AggregationModifierAction::By,
                    labels: vec!["instance".to_owned()],
                })
            }
        ))
    );
}

#[test]
fn test_parse_grouping_labels() {
    assert_eq!(
        parse_grouping_labels("(abc)"),
        Ok(("", vec!["abc".to_owned()]))
    );
    assert_eq!(
        parse_grouping_labels("(instance)"),
        Ok(("", vec!["instance".to_owned()]))
    );
    assert_eq!(
        parse_grouping_labels("(a,b,c)"),
        Ok(("", vec!["a".to_owned(), "b".to_owned(), "c".to_owned()]))
    );
    assert_eq!(parse_grouping_labels("()"), Ok(("", vec![])));
    assert_eq!(parse_grouping_labels("(a)"), Ok(("", vec!["a".to_owned()])));
    assert_eq!(
        parse_grouping_labels("(a,b)"),
        Ok(("", vec!["a".to_owned(), "b".to_owned()]))
    );
}

#[test]
fn test_parse_label() {
    assert_eq!(parse_label_name("instance)"), Ok((")", "instance")));
    assert_eq!(parse_label_name("a"), Ok(("", "a",)));
    assert_eq!(parse_label_name("abcd"), Ok(("", "abcd",)));
    assert_eq!(parse_label_name("__a__"), Ok(("", "__a__",)));
    assert_eq!(parse_label_name("__name__"), Ok(("", "__name__")));
    assert_eq!(parse_label_name("job="), Ok(("=", "job")));
}

#[test]
fn test_parse_metric_name() {
    assert_eq!(parse_metric_name("a1234"), Ok(("", "a1234",)));

    assert_eq!(
        parse_metric_name("method_code:http_errors:rate5m"),
        Ok(("", "method_code:http_errors:rate5m",))
    );

    assert_eq!(parse_metric_name("__1__"), Ok(("", "__1__",)));
}

#[test]
fn test_parse_number_literal() {
    assert_eq!(
        parse_number_literal("1.23"),
        Ok(("", NumberLiteral::new("1.23")))
    );

    assert_eq!(
        parse_number_literal("-1.23"),
        Ok(("", NumberLiteral::new("-1.23")))
    );
}

#[test]
fn test_parse_string_literal() {
    assert_eq!(
        parse_string_literal(r#" `abcd` "#),
        Ok(("", string_literal("abcd"),))
    );

    assert_eq!(
        parse_string_literal(r#" `111\`222` "#),
        Ok((
            "",
            StringLiteral {
                value: r#"111\`222"#.to_owned(),
            }
        ))
    );

    assert_eq!(
        parse_string_literal(r#" `1` "#),
        Ok((
            "",
            StringLiteral {
                value: r#"1"#.to_owned(),
            }
        ))
    );

    assert_eq!(
        parse_string_literal(r#" '111\'222' "#),
        Ok((
            "",
            StringLiteral {
                value: r#"111\'222"#.to_owned(),
            }
        ))
    );

    assert_eq!(
        parse_string_literal(r#" '1' "#),
        Ok((
            "",
            StringLiteral {
                value: r#"1"#.to_owned(),
            }
        ))
    );

    assert_eq!(
        parse_string_literal(r#" "1" "#),
        Ok((
            "",
            StringLiteral {
                value: r#"1"#.to_owned(),
            }
        ))
    );

    assert_eq!(
        parse_string_literal(r#" "abcd" "#),
        Ok((
            "",
            StringLiteral {
                value: r#"abcd"#.to_owned(),
            }
        ))
    );

    assert_eq!(
        parse_string_literal(r#" "ab cd _ 123" "#),
        Ok((
            "",
            StringLiteral {
                value: r#"ab cd _ 123"#.to_owned(),
            }
        ))
    );

    assert_eq!(
        parse_string_literal(r#" "111\"222" "#),
        Ok((
            "",
            StringLiteral {
                value: r#"111\"222"#.to_owned(),
            }
        ))
    );
}

#[test]
fn test_parse_offset_duration() {
    assert_eq!(
        parse_vector("a{}[1m] offset 10m"),
        Ok((
            "",
            Vector {
                name: "a".to_owned(),
                label_matchers: vec![],
                offset: Some(Duration::from_secs(60 * 10)),
                range: Some(Duration::from_secs(60)),
            }
        ))
    );
}

#[test]
fn test_parse_paren() {
    assert_eq!(
        parse_expr("(1+2)*3"),
        Ok((
            "",
            binary_expr(
                BinaryOp::Mul(None),
                binary_expr(
                    BinaryOp::Add(None),
                    number_literal_expr("1"),
                    number_literal_expr("2")
                ),
                number_literal_expr("3"),
            )
        )),
    );
}

#[test]
fn test_comple_expr() {
    assert_eq!(
        parse_expr("sum(1 - something_used{env=\"production\"} / something_total) by (instance)"),
        Ok((
            "",
            fun_call_expr(fun_call_agg(
                "sum",
                vec![binary_expr(
                    BinaryOp::Sub(None),
                    number_literal_expr("1"),
                    binary_expr(
                        BinaryOp::Div(None),
                        vector_expr(vector_labels(
                            "something_used",
                            vec![LabelMatcher {
                                op: LabelMatcherOp::Equal,
                                name: "env".to_owned(),
                                value: "production".to_owned()
                            }]
                        )),
                        vector_expr(vector("something_total"))
                    )
                )],
                Some(AggregationModifier {
                    action: AggregationModifierAction::By,
                    labels: vec!["instance".to_owned()]
                })
            )),
        ))
    )
}

#[test]
fn test_parse_subquery() {
    assert_eq!(
        parse_expr("min_over_time(rate(http_requests_total[5m])[30m:1m])"),
        Ok((
            "",
            fun_call_expr(fun_call(
                "min_over_time",
                vec![subquery_expr(
                    fun_call_expr(fun_call(
                        "rate",
                        vec![vector_expr(v_r(
                            "http_requests_total",
                            Duration::from_secs(300)
                        ))],
                    )),
                    Some(Duration::from_secs(30 * 60)),
                    Some(Duration::from_secs(60)),
                )]
            )),
        ))
    );
}

#[test]
fn test_parse_expr() {
    assert_eq!(
        parse_expr("foo() + bar(baz) + quux(xyzzy, plough)"),
        Ok((
            "",
            binary_expr(
                BinaryOp::Add(None),
                binary_expr(
                    BinaryOp::Add(None),
                    fun_call_expr(fun_call("foo", vec![])),
                    fun_call_expr(fun_call("bar", vec![vector_expr(vector("baz"))]))
                ),
                fun_call_expr(fun_call(
                    "quux",
                    vec![vector_expr(vector("xyzzy")), vector_expr(vector("plough")),]
                ))
            )
        ))
    );
}

#[test]
fn test_parse_expr2() {
    assert_eq!(
        parse_expr("round(rate(whatever [5m]) > 0, 0.2)"),
        Ok((
            "",
            fun_call_expr(fun_call(
                "round",
                vec![
                    binary_expr(
                        BinaryOp::GreaterThan(false, None),
                        fun_call_expr(fun_call(
                            "rate",
                            vec![vector_expr(v_r("whatever", Duration::from_secs(300))),]
                        )),
                        number_literal_expr("0"),
                    ),
                    number_literal_expr("0.2"),
                ]
            )),
        ))
    );
}

#[test]
fn test_parse_expr3() {
    // "sum by (bar) (foo) * count without (bar) (foo)"
}

#[test]
fn test_parse_binary_complex_compare_expr() {
    assert_eq!(
        parse_expr("foo > bar != 0 and 15.5 < xyzzy"),
        Ok((
            "",
            binary_expr(
                BinaryOp::And(None),
                binary_expr(
                    BinaryOp::NotEqual(false, None),
                    binary_expr(
                        BinaryOp::GreaterThan(false, None),
                        vector_expr(vector("foo")),
                        vector_expr(vector("bar")),
                    ),
                    number_literal_expr("0"),
                ),
                binary_expr(
                    BinaryOp::LessThan(false, None),
                    number_literal_expr("15.5"),
                    vector_expr(vector("xyzzy"))
                )
            ),
        ))
    );
}

#[test]
fn test_parse_binary_modifier() {
    assert_eq!(
        parse_binary_modifier("ignoring(a, b, c) group_left(d, e, g)"),
        Ok((
            "",
            (
                false,
                Some(binary_group_modifier(
                    BinaryModifierAction::Ignore,
                    vec!["a".to_owned(), "b".to_owned(), "c".to_owned()],
                    binary_modifier_group_left(vec![
                        "d".to_owned(),
                        "e".to_owned(),
                        "g".to_owned(),
                    ])
                ))
            )
        ))
    );
}

#[test]
fn test_parse_on_or_ignoring() {
    assert_eq!(
        parse_on_or_ignoring("ignoring (a, b, c)"),
        Ok((
            "",
            binary_modifier(
                BinaryModifierAction::Ignore,
                vec!["a".to_owned(), "b".to_owned(), "c".to_owned()]
            )
        ))
    );

    assert_eq!(
        parse_on_or_ignoring("ON (a, b, c)"),
        Ok((
            "",
            binary_modifier(
                BinaryModifierAction::On,
                vec!["a".to_owned(), "b".to_owned(), "c".to_owned()]
            )
        ))
    );
}

#[test]
fn test_parse_r() {
    assert_eq!(
        parse_vector("nodejs_http_requests[5m]"),
        Ok((
            "",
            Vector {
                name: "nodejs_http_requests".to_owned(),
                range: Some(Duration::from_secs(5 * 60)),
                ..Default::default()
            }
        ))
    );

    assert_eq!(
        parse_vector("foo { }"),
        Ok((
            "",
            Vector {
                name: "foo".to_owned(),
                ..Default::default()
            }
        ))
    );
}

#[test]
fn test_parse_v() {
    assert_eq!(
        parse_instant_vec(" sdk"),
        Ok((
            "",
            Vector {
                name: "sdk".to_owned(),
                ..Default::default()
            }
        ))
    );
    assert_eq!(
        parse_vector("nodejs_http_requests"),
        Ok((
            "",
            Vector {
                name: "nodejs_http_requests".to_owned(),
                ..Default::default()
            }
        ))
    );

    assert_eq!(
        parse_vector("{a=\"1\", b=\"2\"}"),
        Ok((
            "",
            Vector {
                name: "".to_owned(),
                label_matchers: vec![
                    LabelMatcher {
                        op: LabelMatcherOp::Equal,
                        name: "a".to_owned(),
                        value: "1".to_owned()
                    },
                    LabelMatcher {
                        op: LabelMatcherOp::Equal,
                        name: "b".to_owned(),
                        value: "2".to_owned()
                    },
                ],
                ..Default::default()
            }
        ))
    );

    assert_eq!(
        parse_vector("nodejs_http_requests{a=\"1\"}"),
        Ok((
            "",
            Vector {
                name: "nodejs_http_requests".to_owned(),
                label_matchers: vec![LabelMatcher {
                    op: LabelMatcherOp::Equal,
                    name: "a".to_owned(),
                    value: "1".to_owned()
                }],
                ..Default::default()
            }
        ))
    );
}

#[test]
fn test_parse_duration() {
    assert_eq!(parse_duration("5m"), Ok(("", Duration::from_secs(60 * 5))))
}

#[test]
fn test_parse_label_matchers() {
    assert_eq!(
        parse_label_matchers(r#" { job=~".*" } "#),
        Ok((
            "",
            vec![LabelMatcher {
                op: LabelMatcherOp::Regexp,
                name: "job".to_owned(),
                value: ".*".to_owned(),
            },]
        ))
    );

    assert_eq!(
        parse_label_matchers(r#"{job=~".*",method="get"}"#),
        Ok((
            "",
            vec![
                LabelMatcher {
                    op: LabelMatcherOp::Regexp,
                    name: "job".to_owned(),
                    value: ".*".to_owned(),
                },
                LabelMatcher {
                    op: LabelMatcherOp::Equal,
                    name: "method".to_owned(),
                    value: "get".to_owned(),
                }
            ]
        ))
    );
}

#[test]
fn test_parse_label_matcher() {
    assert_eq!(
        parse_label_matcher(r#"a = "1""#),
        Ok((
            "",
            LabelMatcher {
                op: LabelMatcherOp::Equal,
                name: "a".to_owned(),
                value: "1".to_owned(),
            }
        ))
    );

    assert_eq!(
        parse_label_matcher(r#" a != "1" "#),
        Ok((
            "",
            LabelMatcher {
                op: LabelMatcherOp::NotEqual,
                name: "a".to_owned(),
                value: "1".to_owned(),
            }
        ))
    );

    assert_eq!(
        parse_label_matcher(r#" a =~ "1" "#),
        Ok((
            "",
            LabelMatcher {
                op: LabelMatcherOp::Regexp,
                name: "a".to_owned(),
                value: "1".to_owned(),
            }
        ))
    );

    assert_eq!(
        parse_label_matcher(r#" a !~ "1" "#),
        Ok((
            "",
            LabelMatcher {
                op: LabelMatcherOp::NotRegexp,
                name: "a".to_owned(),
                value: "1".to_owned(),
            }
        ))
    );

    assert_eq!(
        parse_label_matcher(r#" __name__=~"job:.*" "#),
        Ok((
            "",
            LabelMatcher {
                op: LabelMatcherOp::Regexp,
                name: "__name__".to_owned(),
                value: "job:.*".to_owned(),
            }
        ))
    );
}
