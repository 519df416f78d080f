//! The text of a plan that EXPLAIN shows: one line per operator, indented two spaces per
//! level, with the `Debug` text of the syntax-tree values an operator holds.
use crate::query::ast::{AggregateFunction, Direction, Expression, Pattern};
use crate::query::identifiers::is_ws;
use crate::query::syntax_text::{
    aggregate_function_text, bool_text, debug_str, expression_text, pattern_text, push_aggregate_function, push_bool,
    push_expression, push_pattern, str_debug,
};
use crate::query::plan::{opt_text, Plan, PlanView};
use crate::text::{decimal, push_decimal};
use vstd::prelude::*;

verus! {

/// `{:?}` of an `Option<String>`.
pub open spec fn option_text_debug(o: Option<Seq<char>>) -> Seq<char> {
    match o {
        Some(s) => "Some("@ + str_debug(s) + ")"@,
        None => "None"@,
    }
}

/// `{:?}` of an `Option<u32>`.
pub open spec fn option_u32_debug(o: Option<u32>) -> Seq<char> {
    match o {
        Some(n) => "Some("@ + decimal(n as nat) + ")"@,
        None => "None"@,
    }
}

/// `{:?}` of a sort direction.
pub open spec fn direction_debug(d: Direction) -> Seq<char> {
    match d {
        Direction::Ascending => "Ascending"@,
        Direction::Descending => "Descending"@,
    }
}

/// The texts separated by `", "`.
pub open spec fn joined(items: Seq<Seq<char>>) -> Seq<char>
    decreases items.len(),
{
    if items.len() == 0 {
        Seq::empty()
    } else if items.len() == 1 {
        items[0]
    } else {
        joined(items.drop_last()) + ", "@ + items.last()
    }
}

/// `{:?}` of a vector whose elements have the given texts.
pub open spec fn list_debug(items: Seq<Seq<char>>) -> Seq<char> {
    "["@ + joined(items) + "]"@
}

pub open spec fn aggregate_item_debug(a: (AggregateFunction, Seq<char>)) -> Seq<char> {
    "("@ + aggregate_function_text(a.0) + ", "@ + str_debug(a.1) + ")"@
}

pub open spec fn order_item_debug(i: (Expression, Direction)) -> Seq<char> {
    "("@ + expression_text(i.0) + ", "@ + direction_debug(i.1) + ")"@
}

pub open spec fn set_item_debug(i: (Seq<char>, Seq<char>, Expression)) -> Seq<char> {
    "("@ + str_debug(i.0) + ", "@ + str_debug(i.1) + ", "@ + expression_text(i.2) + ")"@
}

pub open spec fn remove_item_debug(i: (Seq<char>, Seq<char>)) -> Seq<char> {
    "("@ + str_debug(i.0) + ", "@ + str_debug(i.1) + ")"@
}

/// `" OPTIONAL"` for an optional match.
pub open spec fn optional_text(optional: bool) -> Seq<char> {
    if optional { " OPTIONAL"@ } else { Seq::empty() }
}

/// `(src=.., rel=.., edge=.., dst=..` of a match line.
pub open spec fn hop_text(src: Seq<char>, rel: Option<Seq<char>>, edge: Option<Seq<char>>, dst: Seq<char>) -> Seq<char> {
    "(src="@ + src + ", rel="@ + option_text_debug(rel) + ", edge="@ + option_text_debug(edge) + ", dst="@ + dst
}

/// The line of a plan operator, without indentation or line end.
pub open spec fn node_line(p: PlanView) -> Seq<char> {
    match p {
        PlanView::ReturnOne => "ReturnOne"@,
        PlanView::NodeScan { alias, label } => "NodeScan(alias="@ + alias + ", label="@ + option_text_debug(label) + ")"@,
        PlanView::MatchOut { src_alias, rel, edge_alias, dst_alias, limit, optional, .. } => "MatchOut"@
            + optional_text(optional) + hop_text(src_alias, rel, edge_alias, dst_alias) + ", limit="@ + option_u32_debug(
            limit,
        ) + ")"@,
        PlanView::MatchOutVarLen { src_alias, rel, edge_alias, dst_alias, min_hops, max_hops, limit, optional, .. } =>
            "MatchOutVarLen"@ + optional_text(optional) + hop_text(src_alias, rel, edge_alias, dst_alias) + ", min="@
                + decimal(min_hops as nat) + ", max="@ + option_u32_debug(max_hops) + ", limit="@ + option_u32_debug(
                limit,
            ) + ")"@,
        PlanView::Filter { predicate, .. } => "Filter(predicate="@ + expression_text(predicate) + ")"@,
        PlanView::Project { projections, .. } => "Project(len="@ + decimal(projections.len()) + ")"@,
        PlanView::Aggregate { group_by, aggregates, .. } => "Aggregate(group_by="@ + list_debug(
            group_by.map_values(|g: Seq<char>| str_debug(g)),
        ) + ", aggregates="@ + list_debug(aggregates.map_values(|a: (AggregateFunction, Seq<char>)| aggregate_item_debug(a)))
            + ")"@,
        PlanView::OrderBy { items, .. } => "OrderBy(items="@ + list_debug(
            items.map_values(|i: (Expression, Direction)| order_item_debug(i)),
        ) + ")"@,
        PlanView::Skip { skip, .. } => "Skip(skip="@ + decimal(skip as nat) + ")"@,
        PlanView::Limit { limit, .. } => "Limit(limit="@ + decimal(limit as nat) + ")"@,
        PlanView::Distinct { .. } => "Distinct"@,
        PlanView::Create { pattern } => "Create(pattern="@ + pattern_text(pattern) + ")"@,
        PlanView::Delete { detach, expressions, .. } => "Delete(detach="@ + bool_text(detach) + ", expressions="@
            + list_debug(expressions.map_values(|e: Expression| expression_text(e))) + ")"@,
        PlanView::Unwind { expression, alias, .. } => "Unwind(alias="@ + alias + ", expression="@ + expression_text(
            expression,
        ) + ")"@,
        PlanView::Union { all, .. } => "Union(all="@ + bool_text(all) + ")"@,
        PlanView::SetProperty { items, .. } => "SetProperty(items="@ + list_debug(
            items.map_values(|i: (Seq<char>, Seq<char>, Expression)| set_item_debug(i)),
        ) + ")"@,
        PlanView::RemoveProperty { items, .. } => "RemoveProperty(items="@ + list_debug(
            items.map_values(|i: (Seq<char>, Seq<char>)| remove_item_debug(i)),
        ) + ")"@,
        PlanView::IndexSeek { alias, label, field, value_expr, .. } => "IndexSeek(alias="@ + alias + ", label="@ + label
            + ", field="@ + field + ", value="@ + expression_text(value_expr) + ")"@,
    }
}

/// The lines of a plan indented by `pad`: the operator's line, then the lines of its inputs
/// indented two spaces more (a match, a scan, a seek and a create show no input).
pub open spec fn plan_lines(p: PlanView, pad: Seq<char>) -> Seq<char>
    decreases p,
{
    let line = pad + node_line(p) + "\n"@;
    let inner = pad + "  "@;
    match p {
        PlanView::Filter { input, .. } => line + plan_lines(*input, inner),
        PlanView::Project { input, .. } => line + plan_lines(*input, inner),
        PlanView::Aggregate { input, .. } => line + plan_lines(*input, inner),
        PlanView::OrderBy { input, .. } => line + plan_lines(*input, inner),
        PlanView::Skip { input, .. } => line + plan_lines(*input, inner),
        PlanView::Limit { input, .. } => line + plan_lines(*input, inner),
        PlanView::Distinct { input } => line + plan_lines(*input, inner),
        PlanView::Delete { input, .. } => line + plan_lines(*input, inner),
        PlanView::Unwind { input, .. } => line + plan_lines(*input, inner),
        PlanView::SetProperty { input, .. } => line + plan_lines(*input, inner),
        PlanView::RemoveProperty { input, .. } => line + plan_lines(*input, inner),
        PlanView::Union { left, right, .. } => line + plan_lines(*left, inner) + plan_lines(*right, inner),
        _ => line,
    }
}

/// The number of whitespace characters that `s` ends with.
pub open spec fn trailing_ws(s: Seq<char>) -> nat
    decreases s.len(),
{
    if s.len() > 0 && is_ws(s.last()) {
        1 + trailing_ws(s.drop_last())
    } else {
        0
    }
}

/// `str::trim_end`.
pub open spec fn trim_end_spec(s: Seq<char>) -> Seq<char> {
    s.take(s.len() - trailing_ws(s))
}

/// The text of a plan: its lines without the trailing whitespace.
pub open spec fn plan_text(p: PlanView) -> Seq<char> {
    trim_end_spec(plan_lines(p, Seq::empty()))
}

proof fn lemma_joined_push(items: Seq<Seq<char>>, x: Seq<char>)
    ensures
        joined(items.push(x)) == if items.len() == 0 { x } else { joined(items) + ", "@ + x },
{
    assert(items.push(x).drop_last() =~= items);
    if items.len() == 0 {
        assert(items.push(x)[0] == x);
    }
}

/// Appends `[t0, t1, ...]`.
fn push_list(out: &mut String, items: &Vec<String>)
    ensures
        final(out)@ == old(out)@ + list_debug(items@.map_values(|s: String| s@)),
{
    let ghost texts = items@.map_values(|s: String| s@);
    out.append("[");
    let mut i: usize = 0;
    proof {
        assert(texts.take(0) =~= Seq::<Seq<char>>::empty());
    }
    while i < items.len()
        invariant
            i <= items@.len(),
            texts == items@.map_values(|s: String| s@),
            out@ == old(out)@ + "["@ + joined(texts.take(i as int)),
        decreases items.len() - i,
    {
        if i > 0 {
            out.append(", ");
        }
        out.append(items[i].as_str());
        proof {
            assert(texts.take(i + 1) =~= texts.take(i as int).push(texts[i as int]));
            lemma_joined_push(texts.take(i as int), texts[i as int]);
            assert(out@ =~= old(out)@ + "["@ + joined(texts.take(i + 1)));
        }
        i = i + 1;
    }
    out.append("]");
    proof {
        assert(texts.take(i as int) =~= texts);
        assert(out@ =~= old(out)@ + list_debug(texts));
    }
}

fn push_option_text(out: &mut String, o: &Option<String>)
    ensures
        final(out)@ == old(out)@ + option_text_debug(
            match *o {
                Some(s) => Some(s@),
                None => None,
            },
        ),
{
    match o {
        Some(s) => {
            out.append("Some(");
            let d = debug_str(s.as_str());
            out.append(d.as_str());
            out.append(")");
            proof {
                assert(out@ =~= old(out)@ + ("Some("@ + str_debug(s@) + ")"@));
            }
        },
        None => {
            out.append("None");
        },
    }
}

fn push_option_u32(out: &mut String, o: Option<u32>)
    ensures
        final(out)@ == old(out)@ + option_u32_debug(o),
{
    match o {
        Some(n) => {
            out.append("Some(");
            push_decimal(out, n as usize);
            out.append(")");
            proof {
                assert(out@ =~= old(out)@ + ("Some("@ + decimal(n as nat) + ")"@));
            }
        },
        None => {
            out.append("None");
        },
    }
}

fn group_by_texts(v: &Vec<String>) -> (r: Vec<String>)
    ensures
        r@.map_values(|s: String| s@) == v@.map_values(|s: String| s@).map_values(|g: Seq<char>| str_debug(g)),
{
    let mut out: Vec<String> = Vec::new();
    let mut i: usize = 0;
    while i < v.len()
        invariant
            i <= v@.len(),
            out@.len() == i,
            forall|j: int| 0 <= j < i ==> (#[trigger] out@[j])@ == str_debug(v@[j]@),
        decreases v.len() - i,
    {
        out.push(debug_str(v[i].as_str()));
        i = i + 1;
    }
    proof {
        assert(out@.map_values(|s: String| s@) =~= v@.map_values(|s: String| s@).map_values(|g: Seq<char>| str_debug(g)));
    }
    out
}

fn aggregate_texts(v: &Vec<(AggregateFunction, String)>) -> (r: Vec<String>)
    ensures
        r@.map_values(|s: String| s@) == v@.map_values(|a: (AggregateFunction, String)| (a.0, a.1@)).map_values(
            |a: (AggregateFunction, Seq<char>)| aggregate_item_debug(a),
        ),
{
    let mut out: Vec<String> = Vec::new();
    let mut i: usize = 0;
    while i < v.len()
        invariant
            i <= v@.len(),
            out@.len() == i,
            forall|j: int| 0 <= j < i ==> (#[trigger] out@[j])@ == aggregate_item_debug((v@[j].0, v@[j].1@)),
        decreases v.len() - i,
    {
        let mut t = String::from_str("(");
        push_aggregate_function(&mut t, &v[i].0);
        t.append(", ");
        let n = debug_str(v[i].1.as_str());
        t.append(n.as_str());
        t.append(")");
        proof {
            assert(t@ =~= aggregate_item_debug((v@[i as int].0, v@[i as int].1@)));
        }
        out.push(t);
        i = i + 1;
    }
    proof {
        assert(out@.map_values(|s: String| s@) =~= v@.map_values(|a: (AggregateFunction, String)| (a.0, a.1@)).map_values(
            |a: (AggregateFunction, Seq<char>)| aggregate_item_debug(a),
        ));
    }
    out
}

fn order_texts(v: &Vec<(Expression, Direction)>) -> (r: Vec<String>)
    ensures
        r@.map_values(|s: String| s@) == v@.map_values(|i: (Expression, Direction)| order_item_debug(i)),
{
    let mut out: Vec<String> = Vec::new();
    let mut i: usize = 0;
    while i < v.len()
        invariant
            i <= v@.len(),
            out@.len() == i,
            forall|j: int| 0 <= j < i ==> (#[trigger] out@[j])@ == order_item_debug(v@[j]),
        decreases v.len() - i,
    {
        let mut t = String::from_str("(");
        push_expression(&mut t, &v[i].0);
        t.append(", ");
        match v[i].1 {
            Direction::Ascending => t.append("Ascending"),
            Direction::Descending => t.append("Descending"),
        }
        t.append(")");
        proof {
            assert(t@ =~= order_item_debug(v@[i as int]));
        }
        out.push(t);
        i = i + 1;
    }
    proof {
        assert(out@.map_values(|s: String| s@) =~= v@.map_values(|i: (Expression, Direction)| order_item_debug(i)));
    }
    out
}

fn expression_texts(v: &Vec<Expression>) -> (r: Vec<String>)
    ensures
        r@.map_values(|s: String| s@) == v@.map_values(|e: Expression| expression_text(e)),
{
    let mut out: Vec<String> = Vec::new();
    let mut i: usize = 0;
    while i < v.len()
        invariant
            i <= v@.len(),
            out@.len() == i,
            forall|j: int| 0 <= j < i ==> (#[trigger] out@[j])@ == expression_text(v@[j]),
        decreases v.len() - i,
    {
        let mut t = String::new();
        push_expression(&mut t, &v[i]);
        proof {
            assert(t@ =~= expression_text(v@[i as int]));
        }
        out.push(t);
        i = i + 1;
    }
    proof {
        assert(out@.map_values(|s: String| s@) =~= v@.map_values(|e: Expression| expression_text(e)));
    }
    out
}

fn set_texts(v: &Vec<(String, String, Expression)>) -> (r: Vec<String>)
    ensures
        r@.map_values(|s: String| s@) == v@.map_values(|t: (String, String, Expression)| (t.0@, t.1@, t.2)).map_values(
            |i: (Seq<char>, Seq<char>, Expression)| set_item_debug(i),
        ),
{
    let mut out: Vec<String> = Vec::new();
    let mut i: usize = 0;
    while i < v.len()
        invariant
            i <= v@.len(),
            out@.len() == i,
            forall|j: int| 0 <= j < i ==> (#[trigger] out@[j])@ == set_item_debug((v@[j].0@, v@[j].1@, v@[j].2)),
        decreases v.len() - i,
    {
        let mut t = String::from_str("(");
        let a = debug_str(v[i].0.as_str());
        t.append(a.as_str());
        t.append(", ");
        let b = debug_str(v[i].1.as_str());
        t.append(b.as_str());
        t.append(", ");
        push_expression(&mut t, &v[i].2);
        t.append(")");
        proof {
            assert(t@ =~= set_item_debug((v@[i as int].0@, v@[i as int].1@, v@[i as int].2)));
        }
        out.push(t);
        i = i + 1;
    }
    proof {
        assert(out@.map_values(|s: String| s@) =~= v@.map_values(|t: (String, String, Expression)| (t.0@, t.1@, t.2)).map_values(
            |i: (Seq<char>, Seq<char>, Expression)| set_item_debug(i),
        ));
    }
    out
}

fn remove_texts(v: &Vec<(String, String)>) -> (r: Vec<String>)
    ensures
        r@.map_values(|s: String| s@) == v@.map_values(|t: (String, String)| (t.0@, t.1@)).map_values(
            |i: (Seq<char>, Seq<char>)| remove_item_debug(i),
        ),
{
    let mut out: Vec<String> = Vec::new();
    let mut i: usize = 0;
    while i < v.len()
        invariant
            i <= v@.len(),
            out@.len() == i,
            forall|j: int| 0 <= j < i ==> (#[trigger] out@[j])@ == remove_item_debug((v@[j].0@, v@[j].1@)),
        decreases v.len() - i,
    {
        let mut t = String::from_str("(");
        let a = debug_str(v[i].0.as_str());
        t.append(a.as_str());
        t.append(", ");
        let b = debug_str(v[i].1.as_str());
        t.append(b.as_str());
        t.append(")");
        proof {
            assert(t@ =~= remove_item_debug((v@[i as int].0@, v@[i as int].1@)));
        }
        out.push(t);
        i = i + 1;
    }
    proof {
        assert(out@.map_values(|s: String| s@) =~= v@.map_values(|t: (String, String)| (t.0@, t.1@)).map_values(
            |i: (Seq<char>, Seq<char>)| remove_item_debug(i),
        ));
    }
    out
}

fn push_hop(out: &mut String, src: &String, rel: &Option<String>, edge: &Option<String>, dst: &String)
    ensures
        final(out)@ == old(out)@ + hop_text(src@, opt_text(*rel), opt_text(*edge), dst@),
{
    out.append("(src=");
    out.append(src.as_str());
    out.append(", rel=");
    push_option_text(out, rel);
    out.append(", edge=");
    push_option_text(out, edge);
    out.append(", dst=");
    out.append(dst.as_str());
    proof {
        assert(out@ =~= old(out)@ + hop_text(src@, opt_text(*rel), opt_text(*edge), dst@));
    }
}

/// Appends the line of a `ReturnOne` operator.
#[verifier::spinoff_prover]
fn line_return_one(out: &mut String, plan: &Plan)
    requires
        plan is ReturnOne,
    ensures
        final(out)@ == old(out)@ + node_line(plan@),
{
    match plan {
        Plan::ReturnOne => {
            out.append("ReturnOne");
            proof {
                assert(out@ =~= old(out)@ + node_line(plan@));
            }
        },
        _ => {},
    }
}

/// Appends the line of a `NodeScan` operator.
#[verifier::spinoff_prover]
fn line_node_scan(out: &mut String, plan: &Plan)
    requires
        plan is NodeScan,
    ensures
        final(out)@ == old(out)@ + node_line(plan@),
{
    match plan {
        Plan::NodeScan { alias, label } => {
            out.append("NodeScan(alias=");
            out.append(alias.as_str());
            out.append(", label=");
            push_option_text(out, label);
            out.append(")");
            proof {
                assert(out@ =~= old(out)@ + node_line(plan@));
            }
        },
        _ => {},
    }
}

/// Appends the line of a `MatchOut` operator.
#[verifier::spinoff_prover]
fn line_match_out(out: &mut String, plan: &Plan)
    requires
        plan is MatchOut,
    ensures
        final(out)@ == old(out)@ + node_line(plan@),
{
    match plan {
        Plan::MatchOut { src_alias, rel, edge_alias, dst_alias, limit, optional, .. } => {
            out.append("MatchOut");
            if *optional {
                out.append(" OPTIONAL");
            }
            push_hop(out, src_alias, rel, edge_alias, dst_alias);
            out.append(", limit=");
            push_option_u32(out, *limit);
            out.append(")");
            proof {
                assert(out@ =~= old(out)@ + node_line(plan@));
            }
        },
        _ => {},
    }
}

/// Appends the line of a `MatchOutVarLen` operator.
#[verifier::spinoff_prover]
#[verifier::rlimit(90)]
fn line_match_out_var_len(out: &mut String, plan: &Plan)
    requires
        plan is MatchOutVarLen,
    ensures
        final(out)@ == old(out)@ + node_line(plan@),
{
    match plan {
        Plan::MatchOutVarLen { src_alias, rel, edge_alias, dst_alias, min_hops, max_hops, limit, optional, .. } => {
            out.append("MatchOutVarLen");
            if *optional {
                out.append(" OPTIONAL");
            }
            push_hop(out, src_alias, rel, edge_alias, dst_alias);
            out.append(", min=");
            push_decimal(out, *min_hops as usize);
            out.append(", max=");
            push_option_u32(out, *max_hops);
            out.append(", limit=");
            push_option_u32(out, *limit);
            out.append(")");
            proof {
                assert(out@ =~= old(out)@ + node_line(plan@));
            }
        },
        _ => {},
    }
}

/// Appends the line of a `Filter` operator.
#[verifier::spinoff_prover]
fn line_filter(out: &mut String, plan: &Plan)
    requires
        plan is Filter,
    ensures
        final(out)@ == old(out)@ + node_line(plan@),
{
    match plan {
        Plan::Filter { predicate, .. } => {
            out.append("Filter(predicate=");
            push_expression(out, predicate);
            out.append(")");
            proof {
                assert(out@ =~= old(out)@ + node_line(plan@));
            }
        },
        _ => {},
    }
}

/// Appends the line of a `Project` operator.
#[verifier::spinoff_prover]
fn line_project(out: &mut String, plan: &Plan)
    requires
        plan is Project,
    ensures
        final(out)@ == old(out)@ + node_line(plan@),
{
    match plan {
        Plan::Project { projections, .. } => {
            out.append("Project(len=");
            push_decimal(out, projections.len());
            out.append(")");
            proof {
                assert(out@ =~= old(out)@ + node_line(plan@));
            }
        },
        _ => {},
    }
}

/// Appends the line of a `Aggregate` operator.
#[verifier::spinoff_prover]
fn line_aggregate(out: &mut String, plan: &Plan)
    requires
        plan is Aggregate,
    ensures
        final(out)@ == old(out)@ + node_line(plan@),
{
    match plan {
        Plan::Aggregate { group_by, aggregates, .. } => {
            out.append("Aggregate(group_by=");
            let g = group_by_texts(group_by);
            push_list(out, &g);
            out.append(", aggregates=");
            let a = aggregate_texts(aggregates);
            push_list(out, &a);
            out.append(")");
            proof {
                assert(out@ =~= old(out)@ + node_line(plan@));
            }
        },
        _ => {},
    }
}

/// Appends the line of a `OrderBy` operator.
#[verifier::spinoff_prover]
fn line_order_by(out: &mut String, plan: &Plan)
    requires
        plan is OrderBy,
    ensures
        final(out)@ == old(out)@ + node_line(plan@),
{
    match plan {
        Plan::OrderBy { items, .. } => {
            out.append("OrderBy(items=");
            let t = order_texts(items);
            push_list(out, &t);
            out.append(")");
            proof {
                assert(out@ =~= old(out)@ + node_line(plan@));
            }
        },
        _ => {},
    }
}

/// Appends the line of a `Skip` operator.
#[verifier::spinoff_prover]
fn line_skip(out: &mut String, plan: &Plan)
    requires
        plan is Skip,
    ensures
        final(out)@ == old(out)@ + node_line(plan@),
{
    match plan {
        Plan::Skip { skip, .. } => {
            out.append("Skip(skip=");
            push_decimal(out, *skip as usize);
            out.append(")");
            proof {
                assert(out@ =~= old(out)@ + node_line(plan@));
            }
        },
        _ => {},
    }
}

/// Appends the line of a `Limit` operator.
#[verifier::spinoff_prover]
fn line_limit(out: &mut String, plan: &Plan)
    requires
        plan is Limit,
    ensures
        final(out)@ == old(out)@ + node_line(plan@),
{
    match plan {
        Plan::Limit { limit, .. } => {
            out.append("Limit(limit=");
            push_decimal(out, *limit as usize);
            out.append(")");
            proof {
                assert(out@ =~= old(out)@ + node_line(plan@));
            }
        },
        _ => {},
    }
}

/// Appends the line of a `Distinct` operator.
#[verifier::spinoff_prover]
fn line_distinct(out: &mut String, plan: &Plan)
    requires
        plan is Distinct,
    ensures
        final(out)@ == old(out)@ + node_line(plan@),
{
    match plan {
        Plan::Distinct { .. } => {
            out.append("Distinct");
            proof {
                assert(out@ =~= old(out)@ + node_line(plan@));
            }
        },
        _ => {},
    }
}

/// Appends the line of a `Create` operator.
#[verifier::spinoff_prover]
fn line_create(out: &mut String, plan: &Plan)
    requires
        plan is Create,
    ensures
        final(out)@ == old(out)@ + node_line(plan@),
{
    match plan {
        Plan::Create { pattern } => {
            out.append("Create(pattern=");
            push_pattern(out, pattern);
            out.append(")");
            proof {
                assert(out@ =~= old(out)@ + node_line(plan@));
            }
        },
        _ => {},
    }
}

/// Appends the line of a `Delete` operator.
#[verifier::spinoff_prover]
fn line_delete(out: &mut String, plan: &Plan)
    requires
        plan is Delete,
    ensures
        final(out)@ == old(out)@ + node_line(plan@),
{
    match plan {
        Plan::Delete { detach, expressions, .. } => {
            out.append("Delete(detach=");
            push_bool(out, *detach);
            out.append(", expressions=");
            let t = expression_texts(expressions);
            push_list(out, &t);
            out.append(")");
            proof {
                assert(out@ =~= old(out)@ + node_line(plan@));
            }
        },
        _ => {},
    }
}

/// Appends the line of a `Unwind` operator.
#[verifier::spinoff_prover]
fn line_unwind(out: &mut String, plan: &Plan)
    requires
        plan is Unwind,
    ensures
        final(out)@ == old(out)@ + node_line(plan@),
{
    match plan {
        Plan::Unwind { expression, alias, .. } => {
            out.append("Unwind(alias=");
            out.append(alias.as_str());
            out.append(", expression=");
            push_expression(out, expression);
            out.append(")");
            proof {
                assert(out@ =~= old(out)@ + node_line(plan@));
            }
        },
        _ => {},
    }
}

/// Appends the line of a `Union` operator.
#[verifier::spinoff_prover]
fn line_union(out: &mut String, plan: &Plan)
    requires
        plan is Union,
    ensures
        final(out)@ == old(out)@ + node_line(plan@),
{
    match plan {
        Plan::Union { all, .. } => {
            out.append("Union(all=");
            push_bool(out, *all);
            out.append(")");
            proof {
                assert(out@ =~= old(out)@ + node_line(plan@));
            }
        },
        _ => {},
    }
}

/// Appends the line of a `SetProperty` operator.
#[verifier::spinoff_prover]
fn line_set_property(out: &mut String, plan: &Plan)
    requires
        plan is SetProperty,
    ensures
        final(out)@ == old(out)@ + node_line(plan@),
{
    match plan {
        Plan::SetProperty { items, .. } => {
            out.append("SetProperty(items=");
            let t = set_texts(items);
            push_list(out, &t);
            out.append(")");
            proof {
                assert(out@ =~= old(out)@ + node_line(plan@));
            }
        },
        _ => {},
    }
}

/// Appends the line of a `RemoveProperty` operator.
#[verifier::spinoff_prover]
fn line_remove_property(out: &mut String, plan: &Plan)
    requires
        plan is RemoveProperty,
    ensures
        final(out)@ == old(out)@ + node_line(plan@),
{
    match plan {
        Plan::RemoveProperty { items, .. } => {
            out.append("RemoveProperty(items=");
            let t = remove_texts(items);
            push_list(out, &t);
            out.append(")");
            proof {
                assert(out@ =~= old(out)@ + node_line(plan@));
            }
        },
        _ => {},
    }
}

/// Appends the line of a `IndexSeek` operator.
#[verifier::spinoff_prover]
fn line_index_seek(out: &mut String, plan: &Plan)
    requires
        plan is IndexSeek,
    ensures
        final(out)@ == old(out)@ + node_line(plan@),
{
    match plan {
        Plan::IndexSeek { alias, label, field, value_expr, .. } => {
            out.append("IndexSeek(alias=");
            out.append(alias.as_str());
            out.append(", label=");
            out.append(label.as_str());
            out.append(", field=");
            out.append(field.as_str());
            out.append(", value=");
            push_expression(out, value_expr);
            out.append(")");
            proof {
                assert(out@ =~= old(out)@ + node_line(plan@));
            }
        },
        _ => {},
    }
}

/// Appends the line of a plan operator.
fn push_line(out: &mut String, plan: &Plan)
    ensures
        final(out)@ == old(out)@ + node_line(plan@),
{
    match plan {
        Plan::ReturnOne { .. } => line_return_one(out, plan),
        Plan::NodeScan { .. } => line_node_scan(out, plan),
        Plan::MatchOut { .. } => line_match_out(out, plan),
        Plan::MatchOutVarLen { .. } => line_match_out_var_len(out, plan),
        Plan::Filter { .. } => line_filter(out, plan),
        Plan::Project { .. } => line_project(out, plan),
        Plan::Aggregate { .. } => line_aggregate(out, plan),
        Plan::OrderBy { .. } => line_order_by(out, plan),
        Plan::Skip { .. } => line_skip(out, plan),
        Plan::Limit { .. } => line_limit(out, plan),
        Plan::Distinct { .. } => line_distinct(out, plan),
        Plan::Create { .. } => line_create(out, plan),
        Plan::Delete { .. } => line_delete(out, plan),
        Plan::Unwind { .. } => line_unwind(out, plan),
        Plan::Union { .. } => line_union(out, plan),
        Plan::SetProperty { .. } => line_set_property(out, plan),
        Plan::RemoveProperty { .. } => line_remove_property(out, plan),
        Plan::IndexSeek { .. } => line_index_seek(out, plan),
    }
}

/// Appends the lines of a plan, indented by `pad`.
fn push_plan(out: &mut String, plan: &Plan, pad: &str)
    ensures
        final(out)@ == old(out)@ + plan_lines(plan@, pad@),
    decreases plan,
{
    out.append(pad);
    push_line(out, plan);
    out.append("\n");
    let ghost after_line = out@;
    let mut inner = String::from_str(pad);
    inner.append("  ");
    match plan {
        Plan::Filter { input, .. } => push_plan(out, &**input, inner.as_str()),
        Plan::Project { input, .. } => push_plan(out, &**input, inner.as_str()),
        Plan::Aggregate { input, .. } => push_plan(out, &**input, inner.as_str()),
        Plan::OrderBy { input, .. } => push_plan(out, &**input, inner.as_str()),
        Plan::Skip { input, .. } => push_plan(out, &**input, inner.as_str()),
        Plan::Limit { input, .. } => push_plan(out, &**input, inner.as_str()),
        Plan::Distinct { input } => push_plan(out, &**input, inner.as_str()),
        Plan::Delete { input, .. } => push_plan(out, &**input, inner.as_str()),
        Plan::Unwind { input, .. } => push_plan(out, &**input, inner.as_str()),
        Plan::SetProperty { input, .. } => push_plan(out, &**input, inner.as_str()),
        Plan::RemoveProperty { input, .. } => push_plan(out, &**input, inner.as_str()),
        Plan::Union { left, right, .. } => {
            push_plan(out, &**left, inner.as_str());
            push_plan(out, &**right, inner.as_str());
        },
        _ => {},
    }
    proof {
        assert(after_line =~= old(out)@ + (pad@ + node_line(plan@) + "\n"@));
        assert(out@ =~= old(out)@ + plan_lines(plan@, pad@));
    }
}

/// The text of a plan that EXPLAIN shows (see `plan_text`): one line per operator, the
/// inputs of an operator below it indented two more spaces, without trailing whitespace.
pub fn render_plan(plan: &Plan) -> (s: String)
    ensures
        s@ == plan_text(plan@),
{
    proof {
        reveal_strlit("");
    }
    let mut out = String::from_str("");
    push_plan(&mut out, plan, "");
    let ghost t = out@;
    assert(t =~= plan_lines(plan@, Seq::empty()));
    let n = out.unicode_len();
    let mut k: usize = n;
    proof {
        assert(t.take(n as int) =~= t);
    }
    while k > 0 && crate::query::identifiers::is_whitespace(out.as_str().get_char(k - 1))
        invariant
            k <= n,
            n == t.len(),
            out@ == t,
            trailing_ws(t) == (n - k) + trailing_ws(t.take(k as int)),
        decreases k,
    {
        proof {
            assert(t.take(k as int).drop_last() =~= t.take(k - 1));
            assert(t.take(k as int).last() == t[k - 1]);
        }
        k = k - 1;
    }
    proof {
        if k > 0 {
            assert(t.take(k as int).last() == t[k - 1]);
        }
    }
    let r = out.as_str().substring_char(0, k);
    proof {
        assert(r@ =~= t.take(k as int));
    }
    String::from_str(r)
}

} // verus!
