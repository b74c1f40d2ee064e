//! Syntax tree of transform rules.
use vstd::prelude::*;

verus! {

/// A byte range of the rule source.
#[derive(Debug, Clone, Copy, PartialEq, Eq, Structural)]
pub struct Span {
    pub start: usize,
    pub end: usize,
}

impl Span {
    pub fn new(start: usize, end: usize) -> (r: Self)
        ensures
            r == (Span { start, end }),
    {
        Span { start, end }
    }

    /// The span from the start of `self` to the end of `other`.
    pub fn join(self, other: Self) -> (r: Self)
        ensures
            r == (Span { start: self.start, end: other.end }),
    {
        Span { start: self.start, end: other.end }
    }
}

/// A transform rule: where messages come from, how payloads decode, an
/// optional guard and what is emitted.
#[derive(Debug)]
pub struct RuleAst {
    pub source: SourceAst,
    pub decode: DecodeAst,
    pub guard: Option<ExprAst>,
    pub emit: EmitAst,
    pub span: Span,
}

/// The message source of a rule.
#[derive(Debug, Clone)]
pub struct SourceAst {
    pub kind: SourceKindAst,
    pub span: Span,
}

/// The kind of a message source.
#[derive(Debug, Clone)]
pub enum SourceKindAst {
    Topic { filter: String },
}

/// How a rule decodes payloads, and the name it gives the decoded payload.
#[derive(Debug, Clone)]
pub struct DecodeAst {
    pub format: PayloadFormatAst,
    pub alias: String,
    pub span: Span,
}

/// Payload formats.
#[derive(Debug, Clone, Copy, PartialEq, Eq, Structural)]
pub enum PayloadFormatAst {
    Json,
}

/// Destinations and projection of a rule.
#[derive(Debug)]
pub struct EmitAst {
    pub destinations: Vec<String>,
    pub projection: Vec<ProjectionItemAst>,
    pub span: Span,
}

/// One named item of a projection.
#[derive(Debug)]
pub struct ProjectionItemAst {
    pub name: String,
    pub expr: ExprAst,
    pub span: Span,
}

/// An expression and its span.
#[derive(Debug)]
pub struct ExprAst {
    pub kind: ExprKindAst,
    pub span: Span,
}

/// Expressions of the rule language.
#[derive(Debug)]
pub enum ExprKindAst {
    Literal(LiteralAst),
    TopicLevel(usize),
    Property(String),
    Metadata(String),
    VariableRoot(String),
    VariableField { name: String, path: Vec<FieldSegment> },
    Unary { op: UnaryOp, expr: Box<ExprAst> },
    Binary { op: BinaryOp, left: Box<ExprAst>, right: Box<ExprAst> },
}

/// Literals. A float literal is kept as its source text.
#[derive(Debug, Clone)]
pub enum LiteralAst {
    Null,
    Bool(bool),
    Int(i64),
    Float(String),
    String(String),
}

/// One step of a field path.
#[derive(Debug, Clone)]
pub struct FieldSegment {
    pub kind: FieldSegmentKindAst,
    pub span: Span,
}

/// A field name or an array index.
#[derive(Debug, Clone)]
pub enum FieldSegmentKindAst {
    Name(String),
    Index(usize),
}

/// Unary operators.
#[derive(Debug, Clone, Copy, PartialEq, Eq, Structural)]
pub enum UnaryOp {
    Not,
    Neg,
}

/// Binary operators.
#[derive(Debug, Clone, Copy, PartialEq, Eq, Structural)]
pub enum BinaryOp {
    Or,
    And,
    Eq,
    Ne,
    Gt,
    Ge,
    Lt,
    Le,
    Add,
    Sub,
    Mul,
    Div,
    Rem,
}

impl ExprAst {
    pub fn new(kind: ExprKindAst, span: Span) -> (r: Self)
        ensures
            r == (ExprAst { kind, span }),
    {
        ExprAst { kind, span }
    }

    /// The same expression with another span.
    pub fn with_span(self, span: Span) -> (r: Self)
        ensures
            r == (ExprAst { kind: self.kind, span }),
    {
        let mut e = self;
        e.span = span;
        e
    }
}

impl FieldSegment {
    pub fn new(kind: FieldSegmentKindAst, span: Span) -> (r: Self)
        ensures
            r == (FieldSegment { kind, span }),
    {
        FieldSegment { kind, span }
    }
}

/// `left op right`, spanning from the start of `left` to the end of `right`.
pub fn binary_expr(op: BinaryOp, left: ExprAst, right: ExprAst) -> (r: ExprAst)
    ensures
        r.span == (Span { start: left.span.start, end: right.span.end }),
        r.kind == (ExprKindAst::Binary { op, left: Box::new(left), right: Box::new(right) }),
{
    let span = left.span.join(right.span);
    ExprAst::new(ExprKindAst::Binary { op, left: Box::new(left), right: Box::new(right) }, span)
}

/// `op expr`, spanning from `start` to the end of `expr`.
pub fn unary_expr(op: UnaryOp, expr: ExprAst, start: usize) -> (r: ExprAst)
    ensures
        r.span == (Span { start, end: expr.span.end }),
        r.kind == (ExprKindAst::Unary { op, expr: Box::new(expr) }),
{
    let span = Span::new(start, expr.span.end);
    ExprAst::new(ExprKindAst::Unary { op, expr: Box::new(expr) }, span)
}

/// Left-associative chain `head op1 e1 op2 e2 ...` from the `i`-th pair on,
/// on top of `acc`.
pub open spec fn fold_binary(acc: ExprAst, tail: Seq<(BinaryOp, ExprAst)>) -> ExprAst
    decreases tail.len(),
{
    if tail.len() == 0 {
        acc
    } else {
        let (op, right) = tail[0];
        fold_binary(
            ExprAst {
                kind: ExprKindAst::Binary { op, left: Box::new(acc), right: Box::new(right) },
                span: Span { start: acc.span.start, end: right.span.end },
            },
            tail.drop_first(),
        )
    }
}

/// `head op1 e1 op2 e2 ...`, associated to the left.
pub fn fold_binary_expr(head: ExprAst, tail: Vec<(BinaryOp, ExprAst)>) -> (r: ExprAst)
    ensures
        r == fold_binary(head, tail@),
{
    assert(tail@.skip(0) =~= tail@);
    let ghost all = tail@;
    let mut acc = head;
    let mut rest = tail;
    let ghost n = all.len();
    let len = rest.len();
    let mut i: usize = 0;
    while rest.len() > 0
        invariant
            n == all.len(),
            n == len,
            i + rest@.len() == n,
            rest@ == all.skip(i as int),
            fold_binary(head, all) == fold_binary(acc, all.skip(i as int)),
        decreases rest@.len(),
    {
        let (op, right) = rest.remove(0);
        assert(all.skip(i as int)[0] == all[i as int]);
        assert(all.skip(i as int).drop_first() =~= all.skip(i + 1));
        acc = binary_expr(op, acc, right);
        i = i + 1;
    }
    assert(all.skip(i as int) =~= seq![]);
    acc
}

} // verus!
