//! Semantic checks of parsed rules: variable roots resolve to the payload
//! alias, and no rule emits twice to one destination.
use vstd::prelude::*;
use crate::rules::ast::{
    BinaryOp, DecodeAst, EmitAst, ExprAst, ExprKindAst, FieldSegment, LiteralAst,
    ProjectionItemAst, RuleAst, SourceAst, SourceKindAst, Span, UnaryOp,
};
use crate::rules::error::{SemanticError, SemanticErrorKind};
use crate::text::{concat, str_eq};

verus! {

/// Checked rules, in the order of the source.
#[derive(Debug)]
pub struct CheckedRuleSet {
    pub rules: Vec<CheckedRule>,
}

#[derive(Debug)]
pub struct CheckedRule {
    pub source: CheckedSource,
    pub decode: CheckedDecode,
    pub guard: Option<CheckedExpr>,
    pub emit: CheckedEmit,
    pub span: Span,
}

#[derive(Debug)]
pub struct CheckedSource {
    pub kind: SourceKindAst,
    pub span: Span,
}

#[derive(Debug)]
pub struct CheckedDecode {
    pub alias: String,
    pub span: Span,
}

#[derive(Debug)]
pub struct CheckedEmit {
    pub destinations: Vec<String>,
    pub projection: Vec<CheckedProjectionItem>,
    pub span: Span,
}

#[derive(Debug)]
pub struct CheckedProjectionItem {
    pub name: String,
    pub expr: CheckedExpr,
    pub span: Span,
}

#[derive(Debug)]
pub struct CheckedExpr {
    pub kind: CheckedExprKind,
    pub span: Span,
}

/// An expression whose variables all resolved: a reference to the decoded
/// payload is `PayloadRoot` or `PayloadField`.
#[derive(Debug)]
pub enum CheckedExprKind {
    Literal(LiteralAst),
    TopicLevel(usize),
    Property(String),
    Metadata(String),
    PayloadRoot,
    PayloadField(Vec<FieldSegment>),
    Unary { op: UnaryOp, expr: Box<CheckedExpr> },
    Binary { op: BinaryOp, left: Box<CheckedExpr>, right: Box<CheckedExpr> },
}

impl CheckedRuleSet {
    pub fn new(rules: Vec<CheckedRule>) -> (r: Self)
        ensures
            r.rules == rules,
    {
        CheckedRuleSet { rules }
    }
}

impl CheckedExpr {
    pub fn new(kind: CheckedExprKind, span: Span) -> (r: Self)
        ensures
            r == (CheckedExpr { kind, span }),
    {
        CheckedExpr { kind, span }
    }
}

/// A semantic error as kind, span and message.
pub open spec fn fault_of(e: SemanticError) -> (SemanticErrorKind, Span, Seq<char>) {
    (e.kind, e.span, e.message@)
}

/// The error for a variable root other than the payload alias.
pub open spec fn unknown_variable_fault(span: Span, name: Seq<char>) -> (SemanticErrorKind, Span, Seq<char>) {
    (SemanticErrorKind::UnknownVariable, span, "unknown variable root: "@ + name)
}

/// The checked form of `e` under payload alias `alias`, or the first
/// unknown variable root, left operands before right ones.
pub open spec fn check_expr(e: ExprAst, alias: Seq<char>) -> Result<CheckedExpr, (SemanticErrorKind, Span, Seq<char>)>
    decreases e,
{
    match e.kind {
        ExprKindAst::Literal(v) => Ok(CheckedExpr { kind: CheckedExprKind::Literal(v), span: e.span }),
        ExprKindAst::TopicLevel(l) => Ok(CheckedExpr { kind: CheckedExprKind::TopicLevel(l), span: e.span }),
        ExprKindAst::Property(k) => Ok(CheckedExpr { kind: CheckedExprKind::Property(k), span: e.span }),
        ExprKindAst::Metadata(f) => Ok(CheckedExpr { kind: CheckedExprKind::Metadata(f), span: e.span }),
        ExprKindAst::VariableRoot(name) => if name@ == alias {
            Ok(CheckedExpr { kind: CheckedExprKind::PayloadRoot, span: e.span })
        } else {
            Err(unknown_variable_fault(e.span, name@))
        },
        ExprKindAst::VariableField { name, path } => if name@ == alias {
            Ok(CheckedExpr { kind: CheckedExprKind::PayloadField(path), span: e.span })
        } else {
            Err(unknown_variable_fault(e.span, name@))
        },
        ExprKindAst::Unary { op, expr } => match check_expr(*expr, alias) {
            Err(x) => Err(x),
            Ok(c) => Ok(CheckedExpr { kind: CheckedExprKind::Unary { op, expr: Box::new(c) }, span: e.span }),
        },
        ExprKindAst::Binary { op, left, right } => match check_expr(*left, alias) {
            Err(x) => Err(x),
            Ok(l) => match check_expr(*right, alias) {
                Err(x) => Err(x),
                Ok(r) => Ok(
                    CheckedExpr {
                        kind: CheckedExprKind::Binary { op, left: Box::new(l), right: Box::new(r) },
                        span: e.span,
                    },
                ),
            },
        },
    }
}

/// Every variable named in `e` (a payload root or a field of it) is named
/// `alias`.
pub open spec fn variables_named(e: ExprAst, alias: Seq<char>) -> bool
    decreases e,
{
    match e.kind {
        ExprKindAst::VariableRoot(name) => name@ == alias,
        ExprKindAst::VariableField { name, path: _ } => name@ == alias,
        ExprKindAst::Unary { op: _, expr } => variables_named(*expr, alias),
        ExprKindAst::Binary { op: _, left, right } => variables_named(*left, alias) && variables_named(*right, alias),
        _ => true,
    }
}

/// An expression checks exactly when every variable it names is the
/// payload alias; otherwise it is refused as an unknown variable root.
pub proof fn law_variables_resolve_to_alias(e: ExprAst, alias: Seq<char>)
    ensures
        check_expr(e, alias) is Ok <==> variables_named(e, alias),
        check_expr(e, alias) matches Err(x) ==> x.0 == SemanticErrorKind::UnknownVariable,
    decreases e,
{
    match e.kind {
        ExprKindAst::Unary { op: _, expr } => {
            law_variables_resolve_to_alias(*expr, alias);
        },
        ExprKindAst::Binary { op: _, left, right } => {
            law_variables_resolve_to_alias(*left, alias);
            law_variables_resolve_to_alias(*right, alias);
        },
        _ => {},
    }
}

/// Whether an outcome of an analysis is `s`: the same value, or an error
/// of the same kind, span and message.
pub open spec fn outcome_is<T>(r: Result<T, SemanticError>, s: Result<T, (SemanticErrorKind, Span, Seq<char>)>) -> bool {
    match (r, s) {
        (Ok(a), Ok(b)) => a == b,
        (Err(e), Err(f)) => fault_of(e) == f,
        _ => false,
    }
}

fn unknown_variable(span: Span, name: &str) -> (e: SemanticError)
    ensures
        fault_of(e) == unknown_variable_fault(span, name@),
{
    SemanticError::new(SemanticErrorKind::UnknownVariable, span, concat("unknown variable root: ", name))
}

/// Resolves the variable roots of `expr` against the payload alias.
pub fn analyze_expr(expr: ExprAst, alias: &str) -> (r: Result<CheckedExpr, SemanticError>)
    ensures
        outcome_is(r, check_expr(expr, alias@)),
        r is Ok <==> variables_named(expr, alias@),
        r matches Err(e) ==> e.kind == SemanticErrorKind::UnknownVariable,
    decreases expr,
{
    proof {
        law_variables_resolve_to_alias(expr, alias@);
    }
    let span = expr.span;
    let kind = match expr.kind {
        ExprKindAst::Literal(value) => CheckedExprKind::Literal(value),
        ExprKindAst::TopicLevel(level) => CheckedExprKind::TopicLevel(level),
        ExprKindAst::Property(key) => CheckedExprKind::Property(key),
        ExprKindAst::Metadata(field) => CheckedExprKind::Metadata(field),
        ExprKindAst::VariableRoot(name) => {
            if str_eq(name.as_str(), alias) {
                CheckedExprKind::PayloadRoot
            } else {
                return Err(unknown_variable(span, name.as_str()));
            }
        },
        ExprKindAst::VariableField { name, path } => {
            if str_eq(name.as_str(), alias) {
                CheckedExprKind::PayloadField(path)
            } else {
                return Err(unknown_variable(span, name.as_str()));
            }
        },
        ExprKindAst::Unary { op, expr: inner } => {
            match analyze_expr(*inner, alias) {
                Err(e) => {
                    return Err(e);
                },
                Ok(c) => CheckedExprKind::Unary { op, expr: Box::new(c) },
            }
        },
        ExprKindAst::Binary { op, left, right } => {
            let l = match analyze_expr(*left, alias) {
                Err(e) => {
                    return Err(e);
                },
                Ok(c) => c,
            };
            let r = match analyze_expr(*right, alias) {
                Err(e) => {
                    return Err(e);
                },
                Ok(c) => c,
            };
            CheckedExprKind::Binary { op, left: Box::new(l), right: Box::new(r) }
        },
    };
    Ok(CheckedExpr::new(kind, span))
}

/// The checked projection items of `items`, or the first error among them.
pub open spec fn check_items(items: Seq<ProjectionItemAst>, alias: Seq<char>) -> Result<Seq<CheckedProjectionItem>, (SemanticErrorKind, Span, Seq<char>)>
    decreases items.len(),
{
    if items.len() == 0 {
        Ok(seq![])
    } else {
        match check_items(items.drop_last(), alias) {
            Err(x) => Err(x),
            Ok(done) => match check_expr(items.last().expr, alias) {
                Err(x) => Err(x),
                Ok(c) => Ok(done.push(CheckedProjectionItem { name: items.last().name, expr: c, span: items.last().span })),
            },
        }
    }
}

/// Whether `ds[j]` repeats an earlier destination.
pub open spec fn repeats_earlier(ds: Seq<String>, j: int) -> bool {
    exists|i: int| 0 <= i < j && ds[i]@ == ds[j]@
}

/// Index of the first destination among the first `n` that repeats an
/// earlier one.
pub open spec fn first_repeat(ds: Seq<String>, n: int) -> Option<int>
    decreases n,
{
    if n <= 0 {
        None
    } else {
        match first_repeat(ds, n - 1) {
            Some(j) => Some(j),
            None => if repeats_earlier(ds, n - 1) {
                Some(n - 1)
            } else {
                None
            },
        }
    }
}

/// The error for a destination named twice in one emit clause.
pub open spec fn duplicate_fault(span: Span, d: Seq<char>) -> (SemanticErrorKind, Span, Seq<char>) {
    (SemanticErrorKind::DuplicateDestination, span, "duplicate destination: "@ + d)
}

/// The first repeated destination of `emit`, as an error.
pub open spec fn duplicate_destination(emit: EmitAst) -> Option<(SemanticErrorKind, Span, Seq<char>)> {
    match first_repeat(emit.destinations@, emit.destinations@.len() as int) {
        Some(j) => Some(duplicate_fault(emit.span, emit.destinations@[j]@)),
        None => None,
    }
}

/// Fails on the first destination that `emit` names twice.
pub fn reject_duplicate_destinations(emit: &EmitAst) -> (r: Result<(), SemanticError>)
    ensures
        match r {
            Ok(_) => duplicate_destination(*emit) is None,
            Err(e) => duplicate_destination(*emit) == Some(fault_of(e)),
        },
{
    let ds = &emit.destinations;
    let mut j: usize = 0;
    while j < ds.len()
        invariant
            ds@ == emit.destinations@,
            j <= ds@.len(),
            first_repeat(ds@, j as int) is None,
        decreases ds@.len() - j,
    {
        let mut i: usize = 0;
        while i < j
            invariant
                ds@ == emit.destinations@,
                i <= j < ds@.len(),
                first_repeat(ds@, j as int) is None,
                forall|k: int| 0 <= k < i ==> ds@[k]@ != ds@[j as int]@,
            decreases j - i,
        {
            if str_eq(ds[i].as_str(), ds[j].as_str()) {
                assert(repeats_earlier(ds@, j as int));
                assert(first_repeat(ds@, j + 1) == Some(j as int));
                assert(ds@.len() >= j + 1);
                proof {
                    lemma_first_repeat_stable(ds@, j + 1, ds@.len() as int);
                }
                return Err(
                    SemanticError::new(
                        SemanticErrorKind::DuplicateDestination,
                        emit.span,
                        concat("duplicate destination: ", ds[j].as_str()),
                    ),
                );
            }
            i = i + 1;
        }
        assert(!repeats_earlier(ds@, j as int));
        j = j + 1;
    }
    Ok(())
}

/// A repeat found among the first `n` destinations stays the first among more.
proof fn lemma_first_repeat_stable(ds: Seq<String>, n: int, m: int)
    requires
        0 <= n <= m,
        first_repeat(ds, n) is Some,
    ensures
        first_repeat(ds, m) == first_repeat(ds, n),
    decreases m - n,
{
    if m > n {
        lemma_first_repeat_stable(ds, n, m - 1);
    }
}

fn analyze_projection_item(item: ProjectionItemAst, alias: &str) -> (r: Result<CheckedProjectionItem, SemanticError>)
    ensures
        match (r, check_expr(item.expr, alias@)) {
            (Ok(c), Ok(e)) => c == (CheckedProjectionItem { name: item.name, expr: e, span: item.span }),
            (Err(e), Err(f)) => fault_of(e) == f,
            _ => false,
        },
{
    let ProjectionItemAst { name, expr, span } = item;
    match analyze_expr(expr, alias) {
        Ok(c) => Ok(CheckedProjectionItem { name, expr: c, span }),
        Err(e) => Err(e),
    }
}

fn analyze_items(items: Vec<ProjectionItemAst>, alias: &str) -> (r: Result<Vec<CheckedProjectionItem>, SemanticError>)
    ensures
        match (r, check_items(items@, alias@)) {
            (Ok(v), Ok(s)) => v@ == s,
            (Err(e), Err(f)) => fault_of(e) == f,
            _ => false,
        },
{
    let ghost all = items@;
    let mut rest = items;
    let mut out: Vec<CheckedProjectionItem> = Vec::new();
    let ghost mut i: int = 0;
    while rest.len() > 0
        invariant
            all == items@,
            0 <= i <= all.len(),
            rest@ == all.skip(i),
            check_items(all.take(i), alias@) == Ok::<Seq<CheckedProjectionItem>, (SemanticErrorKind, Span, Seq<char>)>(out@),
        decreases rest@.len(),
    {
        let item = rest.remove(0);
        assert(item == all[i]);
        let ghost prefix = all.take(i + 1);
        assert(prefix.drop_last() =~= all.take(i));
        assert(prefix.last() == item);
        match analyze_projection_item(item, alias) {
            Err(e) => {
                assert(check_items(prefix, alias@) == Err::<Seq<CheckedProjectionItem>, (SemanticErrorKind, Span, Seq<char>)>(fault_of(e)));
                proof {
                    lemma_items_error_stays(all, alias@, i + 1, all.len() as int);
                    assert(all.take(all.len() as int) =~= all);
                }
                return Err(e);
            },
            Ok(c) => {
                out.push(c);
            },
        }
        proof {
            i = i + 1;
        }
    }
    assert(all.take(i) =~= all);
    Ok(out)
}

/// An error among the first `n` items is the error of any longer prefix.
proof fn lemma_items_error_stays(all: Seq<ProjectionItemAst>, alias: Seq<char>, n: int, m: int)
    requires
        0 <= n <= m <= all.len(),
        check_items(all.take(n), alias) is Err,
    ensures
        check_items(all.take(m), alias) == check_items(all.take(n), alias),
    decreases m - n,
{
    if m > n {
        lemma_items_error_stays(all, alias, n, m - 1);
        assert(all.take(m).drop_last() =~= all.take(m - 1));
    }
}

/// The first error of `emit`: a repeated destination, then the projection items in order.
pub open spec fn emit_fault(emit: EmitAst, alias: Seq<char>) -> Option<(SemanticErrorKind, Span, Seq<char>)> {
    match duplicate_destination(emit) {
        Some(f) => Some(f),
        None => match check_items(emit.projection@, alias) {
            Err(f) => Some(f),
            Ok(_) => None,
        },
    }
}

/// Whether `c` is `emit` checked under `alias`.
pub open spec fn emit_checked(emit: EmitAst, alias: Seq<char>, c: CheckedEmit) -> bool {
    &&& c.destinations == emit.destinations
    &&& check_items(emit.projection@, alias) == Ok::<Seq<CheckedProjectionItem>, (SemanticErrorKind, Span, Seq<char>)>(c.projection@)
    &&& c.span == emit.span
}

fn analyze_emit(emit: EmitAst, alias: &str) -> (r: Result<CheckedEmit, SemanticError>)
    ensures
        match r {
            Ok(c) => emit_fault(emit, alias@) is None && emit_checked(emit, alias@, c),
            Err(e) => emit_fault(emit, alias@) == Some(fault_of(e)),
        },
{
    match reject_duplicate_destinations(&emit) {
        Err(e) => {
            return Err(e);
        },
        Ok(_) => {},
    }
    let EmitAst { destinations, projection, span } = emit;
    match analyze_items(projection, alias) {
        Err(e) => Err(e),
        Ok(items) => Ok(CheckedEmit { destinations, projection: items, span }),
    }
}

fn analyze_source(source: SourceAst) -> (r: CheckedSource)
    ensures
        r == (CheckedSource { kind: source.kind, span: source.span }),
{
    CheckedSource { kind: source.kind, span: source.span }
}

fn analyze_decode(decode: DecodeAst) -> (r: CheckedDecode)
    ensures
        r == (CheckedDecode { alias: decode.alias, span: decode.span }),
{
    CheckedDecode { alias: decode.alias, span: decode.span }
}

/// The first error of `rule`: its guard, then its emit clause.
pub open spec fn rule_fault(rule: RuleAst) -> Option<(SemanticErrorKind, Span, Seq<char>)> {
    let alias = rule.decode.alias@;
    match rule.guard {
        Some(g) => match check_expr(g, alias) {
            Err(f) => Some(f),
            Ok(_) => emit_fault(rule.emit, alias),
        },
        None => emit_fault(rule.emit, alias),
    }
}

/// Whether `c` is `rule` checked: its parts carried over, payload references
/// resolved against the rule's own alias.
pub open spec fn rule_checked(rule: RuleAst, c: CheckedRule) -> bool {
    let alias = rule.decode.alias@;
    &&& c.source == (CheckedSource { kind: rule.source.kind, span: rule.source.span })
    &&& c.decode == (CheckedDecode { alias: rule.decode.alias, span: rule.decode.span })
    &&& match rule.guard {
        Some(g) => c.guard == Some(check_expr(g, alias)->Ok_0),
        None => c.guard is None,
    }
    &&& emit_checked(rule.emit, alias, c.emit)
    &&& c.span == rule.span
}

/// Checks one rule against its own payload alias.
pub fn analyze_rule(rule: RuleAst) -> (r: Result<CheckedRule, SemanticError>)
    ensures
        match r {
            Ok(c) => rule_fault(rule) is None && rule_checked(rule, c),
            Err(e) => rule_fault(rule) == Some(fault_of(e)),
        },
{
    let alias = rule.decode.alias.clone();
    let RuleAst { source, decode, guard, emit, span } = rule;
    assert(alias@ == decode.alias@);
    let source = analyze_source(source);
    let decode = analyze_decode(decode);
    let guard = match guard {
        None => None,
        Some(g) => match analyze_expr(g, alias.as_str()) {
            Err(e) => {
                return Err(e);
            },
            Ok(c) => Some(c),
        },
    };
    match analyze_emit(emit, alias.as_str()) {
        Err(e) => Err(e),
        Ok(emit) => Ok(CheckedRule { source, decode, guard, emit, span }),
    }
}

/// Index of the first rule among the first `n` with an error.
pub open spec fn first_faulty_rule(rules: Seq<RuleAst>, n: int) -> Option<int>
    decreases n,
{
    if n <= 0 {
        None
    } else {
        match first_faulty_rule(rules, n - 1) {
            Some(j) => Some(j),
            None => if rule_fault(rules[n - 1]) is Some {
                Some(n - 1)
            } else {
                None
            },
        }
    }
}

proof fn lemma_first_faulty_stable(rules: Seq<RuleAst>, n: int, m: int)
    requires
        0 <= n <= m,
        first_faulty_rule(rules, n) is Some,
    ensures
        first_faulty_rule(rules, m) == first_faulty_rule(rules, n),
    decreases m - n,
{
    if m > n {
        lemma_first_faulty_stable(rules, n, m - 1);
    }
}

proof fn lemma_no_faulty_prefix(rules: Seq<RuleAst>, n: int, j: int)
    requires
        0 <= j < n,
        first_faulty_rule(rules, n) is None,
    ensures
        rule_fault(rules[j]) is None,
    decreases n,
{
    if j < n - 1 {
        lemma_no_faulty_prefix(rules, n - 1, j);
    }
}

/// Checks every rule in order; the first error rejects the whole set.
pub fn analyze_rules(rules: Vec<RuleAst>) -> (r: Result<CheckedRuleSet, SemanticError>)
    ensures
        match r {
            Ok(c) => first_faulty_rule(rules@, rules@.len() as int) is None
                && c.rules@.len() == rules@.len()
                && forall|i: int| 0 <= i < rules@.len() ==> rule_checked(#[trigger] rules@[i], c.rules@[i]),
            Err(e) => first_faulty_rule(rules@, rules@.len() as int) matches Some(j)
                && rule_fault(rules@[j]) == Some(fault_of(e)),
        },
{
    let ghost all = rules@;
    let mut rest = rules;
    let mut out: Vec<CheckedRule> = Vec::new();
    let ghost mut i: int = 0;
    while rest.len() > 0
        invariant
            all == rules@,
            0 <= i <= all.len(),
            rest@ == all.skip(i),
            out@.len() == i,
            first_faulty_rule(all, i) is None,
            forall|k: int| 0 <= k < i ==> rule_checked(#[trigger] all[k], out@[k]),
        decreases rest@.len(),
    {
        let rule = rest.remove(0);
        assert(rule == all[i]);
        match analyze_rule(rule) {
            Err(e) => {
                assert(rule_fault(all[i]) == Some(fault_of(e)));
                assert(first_faulty_rule(all, i + 1) == Some(i));
                proof {
                    lemma_first_faulty_stable(all, i + 1, all.len() as int);
                }
                return Err(e);
            },
            Ok(c) => {
                out.push(c);
            },
        }
        proof {
            i = i + 1;
        }
    }
    Ok(CheckedRuleSet::new(out))
}

} // verus!
