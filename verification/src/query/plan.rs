//! Query plans: the operator trees that the planner builds and the executor runs.
use crate::query::ast::{AggregateFunction, Direction, Expression, Pattern};
use vstd::prelude::*;

verus! {

/// A query plan.
#[derive(Debug)]
#[allow(inconsistent_fields)]
pub enum Plan {
    /// `RETURN 1`: one empty row.
    ReturnOne,
    /// Every node (with the label, when given), bound to `alias`.
    NodeScan { alias: String, label: Option<String> },
    /// Nodes of `label` whose `field` equals `value_expr`, looked up in an index when there
    /// is one, else found by running `fallback`.
    IndexSeek { alias: String, label: String, field: String, value_expr: Expression, fallback: Box<Plan> },
    /// One outgoing hop from `src_alias` to `dst_alias`.
    MatchOut {
        input: Option<Box<Plan>>,
        src_alias: String,
        rel: Option<String>,
        edge_alias: Option<String>,
        dst_alias: String,
        limit: Option<u32>,
        project: Vec<String>,
        project_external: bool,
        optional: bool,
    },
    /// Between `min_hops` and `max_hops` outgoing hops.
    MatchOutVarLen {
        input: Option<Box<Plan>>,
        src_alias: String,
        rel: Option<String>,
        edge_alias: Option<String>,
        dst_alias: String,
        min_hops: u32,
        max_hops: Option<u32>,
        limit: Option<u32>,
        project: Vec<String>,
        project_external: bool,
        optional: bool,
    },
    /// The rows of `input` for which `predicate` holds.
    Filter { input: Box<Plan>, predicate: Expression },
    /// Each row of `input` mapped to the named expressions.
    Project { input: Box<Plan>, projections: Vec<(String, Expression)> },
    /// Aggregates over the groups of `input` by the `group_by` columns.
    Aggregate { input: Box<Plan>, group_by: Vec<String>, aggregates: Vec<(AggregateFunction, String)> },
    /// The rows of `input` sorted by the items.
    OrderBy { input: Box<Plan>, items: Vec<(Expression, Direction)> },
    /// The rows of `input` after the first `skip`.
    Skip { input: Box<Plan>, skip: u32 },
    /// The first `limit` rows of `input`.
    Limit { input: Box<Plan>, limit: u32 },
    /// The distinct rows of `input`.
    Distinct { input: Box<Plan> },
    /// Each row of `input` once per element of the list, bound to `alias`.
    Unwind { input: Box<Plan>, expression: Expression, alias: String },
    /// The rows of both sides; without `all`, duplicates are removed.
    Union { left: Box<Plan>, right: Box<Plan>, all: bool },
    /// Creates the pattern.
    Create { pattern: Pattern },
    /// Deletes what the expressions denote, for each row of `input`.
    Delete { input: Box<Plan>, detach: bool, expressions: Vec<Expression> },
    /// Sets `variable.key = value` for each row of `input`.
    SetProperty { input: Box<Plan>, items: Vec<(String, String, Expression)> },
    /// Removes `variable.key` for each row of `input`.
    RemoveProperty { input: Box<Plan>, items: Vec<(String, String)> },
}

/// What a projection column evaluates, with a plain variable reference kept apart by name.
pub enum ProjExpr {
    Var(Seq<char>),
    Expr(Expression),
}

pub open spec fn proj_expr(e: Expression) -> ProjExpr {
    match e {
        Expression::Variable(v) => ProjExpr::Var(v@),
        _ => ProjExpr::Expr(e),
    }
}

/// The mathematical form of a plan: text as character sequences, lists as sequences.
#[allow(inconsistent_fields)]
pub enum PlanView {
    ReturnOne,
    NodeScan { alias: Seq<char>, label: Option<Seq<char>> },
    IndexSeek { alias: Seq<char>, label: Seq<char>, field: Seq<char>, value_expr: Expression, fallback: Box<PlanView> },
    MatchOut {
        input: Option<Box<PlanView>>,
        src_alias: Seq<char>,
        rel: Option<Seq<char>>,
        edge_alias: Option<Seq<char>>,
        dst_alias: Seq<char>,
        limit: Option<u32>,
        project: Seq<Seq<char>>,
        project_external: bool,
        optional: bool,
    },
    MatchOutVarLen {
        input: Option<Box<PlanView>>,
        src_alias: Seq<char>,
        rel: Option<Seq<char>>,
        edge_alias: Option<Seq<char>>,
        dst_alias: Seq<char>,
        min_hops: u32,
        max_hops: Option<u32>,
        limit: Option<u32>,
        project: Seq<Seq<char>>,
        project_external: bool,
        optional: bool,
    },
    Filter { input: Box<PlanView>, predicate: Expression },
    Project { input: Box<PlanView>, projections: Seq<(Seq<char>, ProjExpr)> },
    Aggregate { input: Box<PlanView>, group_by: Seq<Seq<char>>, aggregates: Seq<(AggregateFunction, Seq<char>)> },
    OrderBy { input: Box<PlanView>, items: Seq<(Expression, Direction)> },
    Skip { input: Box<PlanView>, skip: u32 },
    Limit { input: Box<PlanView>, limit: u32 },
    Distinct { input: Box<PlanView> },
    Unwind { input: Box<PlanView>, expression: Expression, alias: Seq<char> },
    Union { left: Box<PlanView>, right: Box<PlanView>, all: bool },
    Create { pattern: Pattern },
    Delete { input: Box<PlanView>, detach: bool, expressions: Seq<Expression> },
    SetProperty { input: Box<PlanView>, items: Seq<(Seq<char>, Seq<char>, Expression)> },
    RemoveProperty { input: Box<PlanView>, items: Seq<(Seq<char>, Seq<char>)> },
}

pub open spec fn opt_text(o: Option<String>) -> Option<Seq<char>> {
    match o {
        Some(s) => Some(s@),
        None => None,
    }
}

pub open spec fn texts(v: Seq<String>) -> Seq<Seq<char>> {
    v.map_values(|s: String| s@)
}

pub open spec fn plan_view(p: Plan) -> PlanView
    decreases p,
{
    match p {
        Plan::ReturnOne => PlanView::ReturnOne,
        Plan::NodeScan { alias, label } => PlanView::NodeScan { alias: alias@, label: opt_text(label) },
        Plan::IndexSeek { alias, label, field, value_expr, fallback } => PlanView::IndexSeek {
            alias: alias@,
            label: label@,
            field: field@,
            value_expr,
            fallback: Box::new(plan_view(*fallback)),
        },
        Plan::MatchOut { input, src_alias, rel, edge_alias, dst_alias, limit, project, project_external, optional } => PlanView::MatchOut {
            input: match input {
                Some(b) => Some(Box::new(plan_view(*b))),
                None => None,
            },
            src_alias: src_alias@,
            rel: opt_text(rel),
            edge_alias: opt_text(edge_alias),
            dst_alias: dst_alias@,
            limit,
            project: texts(project@),
            project_external,
            optional,
        },
        Plan::MatchOutVarLen {
            input,
            src_alias,
            rel,
            edge_alias,
            dst_alias,
            min_hops,
            max_hops,
            limit,
            project,
            project_external,
            optional,
        } => PlanView::MatchOutVarLen {
            input: match input {
                Some(b) => Some(Box::new(plan_view(*b))),
                None => None,
            },
            src_alias: src_alias@,
            rel: opt_text(rel),
            edge_alias: opt_text(edge_alias),
            dst_alias: dst_alias@,
            min_hops,
            max_hops,
            limit,
            project: texts(project@),
            project_external,
            optional,
        },
        Plan::Filter { input, predicate } => PlanView::Filter { input: Box::new(plan_view(*input)), predicate },
        Plan::Project { input, projections } => PlanView::Project {
            input: Box::new(plan_view(*input)),
            projections: projections@.map_values(|p: (String, Expression)| (p.0@, proj_expr(p.1))),
        },
        Plan::Aggregate { input, group_by, aggregates } => PlanView::Aggregate {
            input: Box::new(plan_view(*input)),
            group_by: texts(group_by@),
            aggregates: aggregates@.map_values(|a: (AggregateFunction, String)| (a.0, a.1@)),
        },
        Plan::OrderBy { input, items } => PlanView::OrderBy { input: Box::new(plan_view(*input)), items: items@ },
        Plan::Skip { input, skip } => PlanView::Skip { input: Box::new(plan_view(*input)), skip },
        Plan::Limit { input, limit } => PlanView::Limit { input: Box::new(plan_view(*input)), limit },
        Plan::Distinct { input } => PlanView::Distinct { input: Box::new(plan_view(*input)) },
        Plan::Unwind { input, expression, alias } => PlanView::Unwind {
            input: Box::new(plan_view(*input)),
            expression,
            alias: alias@,
        },
        Plan::Union { left, right, all } => PlanView::Union {
            left: Box::new(plan_view(*left)),
            right: Box::new(plan_view(*right)),
            all,
        },
        Plan::Create { pattern } => PlanView::Create { pattern },
        Plan::Delete { input, detach, expressions } => PlanView::Delete {
            input: Box::new(plan_view(*input)),
            detach,
            expressions: expressions@,
        },
        Plan::SetProperty { input, items } => PlanView::SetProperty {
            input: Box::new(plan_view(*input)),
            items: items@.map_values(|t: (String, String, Expression)| (t.0@, t.1@, t.2)),
        },
        Plan::RemoveProperty { input, items } => PlanView::RemoveProperty {
            input: Box::new(plan_view(*input)),
            items: items@.map_values(|t: (String, String)| (t.0@, t.1@)),
        },
    }
}

impl View for Plan {
    type V = PlanView;

    open spec fn view(&self) -> PlanView {
        plan_view(*self)
    }
}

} // verus!
