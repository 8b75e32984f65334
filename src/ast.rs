use vstd::prelude::*;

verus! {

/// A span of time: whole seconds and the nanoseconds beyond them.
#[derive(Debug, Clone, Copy, PartialEq, Eq, Structural)]
pub struct Duration {
    pub secs: u64,
    pub nanos: u32,
}

impl Duration {
    pub open spec fn wf(self) -> bool {
        self.nanos < 1_000_000_000
    }

    pub fn new(secs: u64, nanos: u32) -> (r: Duration)
        requires
            nanos < 1_000_000_000,
        ensures
            r == (Duration { secs, nanos }),
    {
        Duration { secs, nanos }
    }

    pub fn from_secs(secs: u64) -> (r: Duration)
        ensures
            r == (Duration { secs, nanos: 0 }),
    {
        Duration { secs, nanos: 0 }
    }

    pub fn as_secs(&self) -> (r: u64)
        ensures
            r == self.secs,
    {
        self.secs
    }

    pub fn subsec_nanos(&self) -> (r: u32)
        ensures
            r == self.nanos,
    {
        self.nanos
    }
}

#[derive(Debug, Clone, Copy, PartialEq, Eq, Structural, Default)]
pub enum AggregationModifierAction {
    #[default]
    Without,
    By,
}

#[derive(Debug, Clone, PartialEq, Eq, Default)]
pub struct AggregationModifier {
    pub action: AggregationModifierAction,
    pub labels: Vec<String>,
}

#[derive(Debug, Clone, Copy, PartialEq, Eq, Structural, Default)]
pub enum BinaryModifierAction {
    #[default]
    On,
    Ignore,
}

#[derive(Debug, Clone, Copy, PartialEq, Eq, Structural, Default)]
pub enum BinaryModifierGroupSide {
    #[default]
    Left,
    Right,
}

/// Vector grouping operator modifier (`group_left(…)`/`group_right(…)`).
#[derive(Debug, Clone, PartialEq, Eq, Default)]
pub struct BinaryModifierGroup {
    pub side: BinaryModifierGroupSide,
    pub labels: Vec<String>,
}

/// Vector matching operator modifier (`on (…)`/`ignoring (…)`).
#[derive(Debug, Clone, PartialEq, Eq, Default)]
pub struct BinaryModifier {
    /// Whether `on (…)` or `ignoring (…)` follows the operator.
    pub action: BinaryModifierAction,
    /// The labels that `action` applies to.
    pub labels: Vec<String>,
    /// Additional grouping modifier, if any.
    pub group: Option<BinaryModifierGroup>,
}

#[derive(Debug, Clone, PartialEq, Eq)]
pub enum BinaryOp {
    Add(Option<BinaryModifier>),
    Sub(Option<BinaryModifier>),
    Mul(Option<BinaryModifier>),
    Div(Option<BinaryModifier>),
    Mod(Option<BinaryModifier>),
    Power(Option<BinaryModifier>),
    Equal(bool, Option<BinaryModifier>),
    NotEqual(bool, Option<BinaryModifier>),
    GreaterThan(bool, Option<BinaryModifier>),
    LessThan(bool, Option<BinaryModifier>),
    GreaterEqual(bool, Option<BinaryModifier>),
    LessEqual(bool, Option<BinaryModifier>),
    And(Option<BinaryModifier>),
    Or(Option<BinaryModifier>),
    Unless(Option<BinaryModifier>),
}

#[derive(Debug, Clone, Copy, PartialEq, Eq, Structural, Default)]
pub enum LabelMatcherOp {
    /// Not set yet; never the operator of a matcher that a parse produced.
    #[default]
    Unset,
    Equal,
    NotEqual,
    Regexp,
    NotRegexp,
}

#[derive(Debug, Clone, PartialEq, Eq, Default)]
pub struct LabelMatcher {
    pub op: LabelMatcherOp,
    pub name: String,
    pub value: String,
}

#[derive(Debug, Clone, PartialEq, Eq, Default)]
pub struct Vector {
    pub name: String,
    pub label_matchers: Vec<LabelMatcher>,
    pub offset: Option<Duration>,
    pub range: Option<Duration>,
}

/// A number literal, kept as the text it was written with (`1.5`, `-2e3`).
#[derive(Debug, Clone, PartialEq, Eq)]
pub struct NumberLiteral {
    pub text: String,
}

/// A string literal, kept as written between its delimiters: escapes are not decoded.
#[derive(Debug, Clone, PartialEq, Eq)]
pub struct StringLiteral {
    pub value: String,
}

#[derive(Debug, PartialEq, Eq, Default)]
pub struct FunCall {
    pub name: String,
    pub args: Vec<Expr>,
    pub aggregation: Option<AggregationModifier>,
}

#[derive(Debug, PartialEq, Eq, Default)]
pub struct SubqueryExpr {
    pub expr: Expr,
    pub range: Option<Duration>,
    pub resolution: Option<Duration>,
}

#[derive(Debug, PartialEq, Eq, Default)]
pub struct BinaryExpr {
    pub op: BinaryOp,
    pub lhs: Expr,
    pub rhs: Expr,
}

#[derive(Debug, PartialEq, Eq)]
pub enum Expr {
    BinaryExpr(Box<BinaryExpr>),
    FunCallExpr(Box<FunCall>),
    VectorExpr(Box<Vector>),
    NumberLiteralExpr(Box<NumberLiteral>),
    StringLiteralExpr(Box<StringLiteral>),
    SubQueryExpr(Box<SubqueryExpr>),
    NegationExpr(Box<Expr>),
}

#[derive(Debug, Clone)]
pub enum Node {
    Empty,
}

#[derive(Debug, Clone, Copy, PartialEq, Eq, Structural, Default)]
pub enum ValueType {
    #[default]
    NoValue,
    Vector,
    Scalar,
    Matrix,
    String,
}

// ---------------------------------------------------------------------------
// Mathematical views of the tree.

/// The kind of a binary operator, without its modifiers.
#[derive(Debug, Clone, Copy, PartialEq, Eq, Structural)]
pub enum OpKind {
    Add,
    Sub,
    Mul,
    Div,
    Mod,
    Power,
    Equal,
    NotEqual,
    GreaterThan,
    LessThan,
    GreaterEqual,
    LessEqual,
    And,
    Or,
    Unless,
}

pub ghost struct AggregationModifierV {
    pub action: AggregationModifierAction,
    pub labels: Seq<Seq<char>>,
}

pub ghost struct BinaryModifierGroupV {
    pub side: BinaryModifierGroupSide,
    pub labels: Seq<Seq<char>>,
}

pub ghost struct BinaryModifierV {
    pub action: BinaryModifierAction,
    pub labels: Seq<Seq<char>>,
    pub group: Option<BinaryModifierGroupV>,
}

/// An operator as the grammar sees it: its kind, the `bool` flag (comparisons only) and its
/// vector-matching modifier.
pub ghost struct BinaryOpV {
    pub kind: OpKind,
    pub return_bool: bool,
    pub modifier: Option<BinaryModifierV>,
}

pub ghost struct LabelMatcherV {
    pub op: LabelMatcherOp,
    pub name: Seq<char>,
    pub value: Seq<char>,
}

pub ghost struct VectorV {
    pub name: Seq<char>,
    pub label_matchers: Seq<LabelMatcherV>,
    pub offset: Option<Duration>,
    pub range: Option<Duration>,
}

pub ghost enum ExprV {
    Binary { op: BinaryOpV, lhs: Box<ExprV>, rhs: Box<ExprV> },
    Call { name: Seq<char>, args: Seq<ExprV>, aggregation: Option<AggregationModifierV> },
    Vector(VectorV),
    Number(Seq<char>),
    Str(Seq<char>),
    Subquery { expr: Box<ExprV>, range: Option<Duration>, resolution: Option<Duration> },
    Negation(Box<ExprV>),
}

pub open spec fn is_comparison(k: OpKind) -> bool {
    k == OpKind::Equal || k == OpKind::NotEqual || k == OpKind::GreaterThan || k
        == OpKind::LessThan || k == OpKind::GreaterEqual || k == OpKind::LessEqual
}

pub open spec fn strings_view(v: Seq<String>) -> Seq<Seq<char>> {
    v.map_values(|x: String| x@)
}

impl View for AggregationModifier {
    type V = AggregationModifierV;

    open spec fn view(&self) -> AggregationModifierV {
        AggregationModifierV { action: self.action, labels: strings_view(self.labels@) }
    }
}

pub open spec fn aggregation_opt_view(a: Option<AggregationModifier>) -> Option<
    AggregationModifierV,
> {
    match a {
        Some(m) => Some(m@),
        None => None,
    }
}

impl View for BinaryModifierGroup {
    type V = BinaryModifierGroupV;

    open spec fn view(&self) -> BinaryModifierGroupV {
        BinaryModifierGroupV { side: self.side, labels: strings_view(self.labels@) }
    }
}

impl View for BinaryModifier {
    type V = BinaryModifierV;

    open spec fn view(&self) -> BinaryModifierV {
        BinaryModifierV {
            action: self.action,
            labels: strings_view(self.labels@),
            group: match self.group {
                Some(g) => Some(g@),
                None => None,
            },
        }
    }
}

pub open spec fn modifier_opt_view(m: Option<BinaryModifier>) -> Option<BinaryModifierV> {
    match m {
        Some(x) => Some(x@),
        None => None,
    }
}

pub open spec fn op_v(kind: OpKind, return_bool: bool, m: Option<BinaryModifier>) -> BinaryOpV {
    BinaryOpV { kind, return_bool, modifier: modifier_opt_view(m) }
}

impl View for BinaryOp {
    type V = BinaryOpV;

    open spec fn view(&self) -> BinaryOpV {
        match *self {
            BinaryOp::Add(m) => op_v(OpKind::Add, false, m),
            BinaryOp::Sub(m) => op_v(OpKind::Sub, false, m),
            BinaryOp::Mul(m) => op_v(OpKind::Mul, false, m),
            BinaryOp::Div(m) => op_v(OpKind::Div, false, m),
            BinaryOp::Mod(m) => op_v(OpKind::Mod, false, m),
            BinaryOp::Power(m) => op_v(OpKind::Power, false, m),
            BinaryOp::Equal(b, m) => op_v(OpKind::Equal, b, m),
            BinaryOp::NotEqual(b, m) => op_v(OpKind::NotEqual, b, m),
            BinaryOp::GreaterThan(b, m) => op_v(OpKind::GreaterThan, b, m),
            BinaryOp::LessThan(b, m) => op_v(OpKind::LessThan, b, m),
            BinaryOp::GreaterEqual(b, m) => op_v(OpKind::GreaterEqual, b, m),
            BinaryOp::LessEqual(b, m) => op_v(OpKind::LessEqual, b, m),
            BinaryOp::And(m) => op_v(OpKind::And, false, m),
            BinaryOp::Or(m) => op_v(OpKind::Or, false, m),
            BinaryOp::Unless(m) => op_v(OpKind::Unless, false, m),
        }
    }
}

impl View for LabelMatcher {
    type V = LabelMatcherV;

    open spec fn view(&self) -> LabelMatcherV {
        LabelMatcherV { op: self.op, name: self.name@, value: self.value@ }
    }
}

pub open spec fn matchers_view(v: Seq<LabelMatcher>) -> Seq<LabelMatcherV> {
    v.map_values(|m: LabelMatcher| m@)
}

impl View for Vector {
    type V = VectorV;

    open spec fn view(&self) -> VectorV {
        VectorV {
            name: self.name@,
            label_matchers: matchers_view(self.label_matchers@),
            offset: self.offset,
            range: self.range,
        }
    }
}

pub open spec fn expr_view(e: &Expr) -> ExprV
    decreases e,
{
    match e {
        Expr::BinaryExpr(b) => ExprV::Binary {
            op: b.op@,
            lhs: Box::new(expr_view(&b.lhs)),
            rhs: Box::new(expr_view(&b.rhs)),
        },
        Expr::FunCallExpr(f) => ExprV::Call {
            name: f.name@,
            args: exprs_view(f.args@),
            aggregation: aggregation_opt_view(f.aggregation),
        },
        Expr::VectorExpr(v) => ExprV::Vector((**v)@),
        Expr::NumberLiteralExpr(n) => ExprV::Number(n.text@),
        Expr::StringLiteralExpr(s) => ExprV::Str(s.value@),
        Expr::SubQueryExpr(q) => ExprV::Subquery {
            expr: Box::new(expr_view(&q.expr)),
            range: q.range,
            resolution: q.resolution,
        },
        Expr::NegationExpr(x) => ExprV::Negation(Box::new(expr_view(x))),
    }
}

pub open spec fn exprs_view(v: Seq<Expr>) -> Seq<ExprV>
    decreases v,
{
    Seq::new(
        v.len(),
        |i: int|
            if 0 <= i < v.len() {
                expr_view(&v[i])
            } else {
                ExprV::Number(Seq::empty())
            },
    )
}

impl View for Expr {
    type V = ExprV;

    open spec fn view(&self) -> ExprV {
        expr_view(self)
    }
}

} // verus!

verus! {

impl Default for BinaryOp {
    fn default() -> (r: BinaryOp)
        ensures
            r == BinaryOp::Add(None),
    {
        BinaryOp::Add(None)
    }
}

impl Default for Expr {
    /// The number literal `0`.
    fn default() -> (r: Expr)
        ensures
            r@ == ExprV::Number(seq!['0']),
    {
        let r = number_literal_expr("0");
        proof {
            reveal_strlit("0");
            assert("0"@ =~= seq!['0']);
        }
        r
    }
}

impl NumberLiteral {
    pub fn new(text: &str) -> (r: NumberLiteral)
        ensures
            r.text@ == text@,
    {
        NumberLiteral { text: text.to_owned() }
    }
}

impl StringLiteral {
    pub fn new(value: String) -> (r: StringLiteral)
        ensures
            r.value == value,
    {
        StringLiteral { value }
    }
}

pub fn string_literal(value: &str) -> (r: StringLiteral)
    ensures
        r.value@ == value@,
{
    StringLiteral { value: value.to_owned() }
}

pub fn number_literal(text: &str) -> (r: NumberLiteral)
    ensures
        r.text@ == text@,
{
    NumberLiteral { text: text.to_owned() }
}

pub fn subquery_expr(expr: Expr, range: Option<Duration>, resolution: Option<Duration>) -> (r: Expr)
    ensures
        r@ == (ExprV::Subquery { expr: Box::new(expr@), range, resolution }),
{
    Expr::SubQueryExpr(Box::new(SubqueryExpr { expr, range, resolution }))
}

pub fn fun_call(name: &str, args: Vec<Expr>) -> (r: FunCall)
    ensures
        r.name@ == name@,
        r.args == args,
        r.aggregation.is_none(),
{
    FunCall { name: name.to_owned(), args, aggregation: None }
}

pub fn fun_call_agg(name: &str, args: Vec<Expr>, aggregation: Option<AggregationModifier>) -> (r:
    FunCall)
    ensures
        r.name@ == name@,
        r.args == args,
        r.aggregation == aggregation,
{
    FunCall { name: name.to_owned(), args, aggregation }
}

pub fn fun_call_expr(func: FunCall) -> (r: Expr)
    ensures
        r@ == (ExprV::Call {
            name: func.name@,
            args: exprs_view(func.args@),
            aggregation: aggregation_opt_view(func.aggregation),
        }),
{
    Expr::FunCallExpr(Box::new(func))
}

pub fn binary_expr(op: BinaryOp, lhs: Expr, rhs: Expr) -> (r: Expr)
    ensures
        r@ == (ExprV::Binary { op: op@, lhs: Box::new(lhs@), rhs: Box::new(rhs@) }),
{
    Expr::BinaryExpr(Box::new(BinaryExpr { op, lhs, rhs }))
}

pub fn number_literal_expr(text: &str) -> (r: Expr)
    ensures
        r@ == ExprV::Number(text@),
{
    Expr::NumberLiteralExpr(Box::new(number_literal(text)))
}

pub fn vector_expr(v: Vector) -> (r: Expr)
    ensures
        r@ == ExprV::Vector(v@),
{
    Expr::VectorExpr(Box::new(v))
}

pub fn binary_modifier(action: BinaryModifierAction, labels: Vec<String>) -> (r: BinaryModifier)
    ensures
        r == (BinaryModifier { action, labels, group: None }),
{
    BinaryModifier { action, labels, group: None }
}

pub fn binary_group_modifier(
    action: BinaryModifierAction,
    labels: Vec<String>,
    group: BinaryModifierGroup,
) -> (r: BinaryModifier)
    ensures
        r == (BinaryModifier { action, labels, group: Some(group) }),
{
    BinaryModifier { action, labels, group: Some(group) }
}

pub fn binary_modifier_group_right(labels: Vec<String>) -> (r: BinaryModifierGroup)
    ensures
        r == (BinaryModifierGroup { side: BinaryModifierGroupSide::Right, labels }),
{
    BinaryModifierGroup { side: BinaryModifierGroupSide::Right, labels }
}

pub fn binary_modifier_group_left(labels: Vec<String>) -> (r: BinaryModifierGroup)
    ensures
        r == (BinaryModifierGroup { side: BinaryModifierGroupSide::Left, labels }),
{
    BinaryModifierGroup { side: BinaryModifierGroupSide::Left, labels }
}

/// An instant selector with the given metric name and nothing else.
pub fn v(name: &str) -> (r: Vector)
    ensures
        r@ == (VectorV { name: name@, label_matchers: seq![], offset: None, range: None }),
{
    vector(name)
}

/// A range selector with the given metric name and range.
pub fn v_r(name: &str, range: Duration) -> (r: Vector)
    ensures
        r@ == (VectorV { name: name@, label_matchers: seq![], offset: None, range: Some(range) }),
{
    let r = Vector { name: name.to_owned(), label_matchers: Vec::new(), offset: None, range: Some(range) };
    assert(matchers_view(r.label_matchers@) =~= seq![]);
    r
}

pub fn vector_labels(name: &str, label_matchers: Vec<LabelMatcher>) -> (r: Vector)
    ensures
        r@ == (VectorV {
            name: name@,
            label_matchers: matchers_view(label_matchers@),
            offset: None,
            range: None,
        }),
{
    Vector { name: name.to_owned(), label_matchers, offset: None, range: None }
}

pub fn vector_labels_range(
    name: &str,
    label_matchers: Vec<LabelMatcher>,
    range: Option<Duration>,
) -> (r: Vector)
    ensures
        r@ == (VectorV {
            name: name@,
            label_matchers: matchers_view(label_matchers@),
            offset: None,
            range,
        }),
{
    Vector { name: name.to_owned(), label_matchers, offset: None, range }
}

pub fn vector(name: &str) -> (r: Vector)
    ensures
        r@ == (VectorV { name: name@, label_matchers: seq![], offset: None, range: None }),
{
    let r = Vector { name: name.to_owned(), label_matchers: Vec::new(), offset: None, range: None };
    assert(matchers_view(r.label_matchers@) =~= seq![]);
    r
}

} // verus!
