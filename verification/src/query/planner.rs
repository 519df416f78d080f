//! The M3 planner: turns the clauses of a query into a plan.
use crate::query::ast::{
    DeleteClause, Direction, Expression, MergeClause, CreateClause, OrderByClause, OrderByItem, PathElement,
    Pattern, PropertyAccess, RelationshipDirection, RemoveClause, SetClause, SetItem, UnwindClause,
};
use crate::query::error::{Error, ErrorView, Result};
use crate::query::ast::{AggregateFunction, BinaryOperator, FunctionCall, Literal, PropertyMap, PropertyPair};
use crate::errors::{to_lowercase, unicode_lowercase};
use crate::text::{decimal, push_decimal, str_equal};
use crate::query::ast::{Clause, Query, MatchClause, NodePattern, RelationshipPattern, ReturnClause, ReturnItem, WithClause, WhereClause};
use crate::query::plan::{opt_text, texts};
use crate::text::{lemma_seq_less_order, seq_less};
use crate::query::plan::{plan_view, proj_expr, Plan, PlanView, ProjExpr};
use crate::strmap::StrMap;
use vstd::prelude::*;

verus! {

/// The items of an ORDER BY clause: each expression with its direction.
pub open spec fn order_items(items: Seq<OrderByItem>) -> Seq<(Expression, Direction)> {
    items.map_values(|it: OrderByItem| (it.expression, it.direction))
}

/// The sort keys of an ORDER BY clause, in order.
pub fn compile_order_by_items(order_by: OrderByClause) -> (r: Result<Vec<(Expression, Direction)>>)
    ensures
        r matches Ok(v) && v@ == order_items(order_by.items@),
{
    let ghost all = order_by.items@;
    let mut items = order_by.items;
    let mut out: Vec<(Expression, Direction)> = Vec::new();
    let ghost mut k: int = 0;
    while items.len() > 0
        invariant
            0 <= k <= all.len(),
            items@ == all.skip(k),
            out@ == order_items(all.take(k)),
        decreases items@.len(),
    {
        let item = items.remove(0);
        proof {
            assert(item == all[k]);
            assert(order_items(all.take(k + 1)) =~= order_items(all.take(k)).push((item.expression, item.direction)));
            assert(all.skip(k).drop_first() =~= all.skip(k + 1));
            k = k + 1;
        }
        out.push((item.expression, item.direction));
    }
    proof {
        assert(all.take(k) =~= all);
    }
    Ok(out)
}

/// UNWIND over the rows of `input`.
pub fn compile_unwind_plan(input: Plan, unwind: UnwindClause) -> (r: Plan)
    ensures
        r@ == (PlanView::Unwind { input: Box::new(input@), expression: unwind.expression, alias: unwind.alias@ }),
{
    Plan::Unwind { input: Box::new(input), expression: unwind.expression, alias: unwind.alias }
}

/// DELETE (or DETACH DELETE) for each row of `input`.
pub fn compile_delete_plan_v2(input: Plan, delete: DeleteClause) -> (r: Result<Plan>)
    ensures
        r matches Ok(p) && p@ == (PlanView::Delete {
            input: Box::new(input@),
            detach: delete.detach,
            expressions: delete.expressions@,
        }),
{
    Ok(Plan::Delete { input: Box::new(input), detach: delete.detach, expressions: delete.expressions })
}

/// The assignments of a SET clause as (variable, key, value).
pub open spec fn set_items(items: Seq<SetItem>) -> Seq<(Seq<char>, Seq<char>, Expression)> {
    items.map_values(|it: SetItem| (it.property.variable@, it.property.property@, it.value))
}

/// SET for each row of `input`.
pub fn compile_set_plan_v2(input: Plan, set: SetClause) -> (r: Result<Plan>)
    ensures
        r matches Ok(p) && p@ == (PlanView::SetProperty { input: Box::new(input@), items: set_items(set.items@) }),
{
    let ghost all = set.items@;
    let mut src = set.items;
    let mut items: Vec<(String, String, Expression)> = Vec::new();
    let ghost mut k: int = 0;
    while src.len() > 0
        invariant
            0 <= k <= all.len(),
            src@ == all.skip(k),
            items@.map_values(|t: (String, String, Expression)| (t.0@, t.1@, t.2)) == set_items(all.take(k)),
        decreases src@.len(),
    {
        let item = src.remove(0);
        proof {
            assert(item == all[k]);
            assert(all.skip(k).drop_first() =~= all.skip(k + 1));
        }
        let ghost before = items@;
        let ghost expected = (item.property.variable@, item.property.property@, item.value);
        items.push((item.property.variable, item.property.property, item.value));
        proof {
            assert(all.take(k + 1) =~= all.take(k).push(all[k]));
            assert(set_items(all.take(k + 1)) =~= set_items(all.take(k)).push(expected));
            assert(items@ == before.push(items@.last()));
            assert(items@.map_values(|t: (String, String, Expression)| (t.0@, t.1@, t.2))
                =~= before.map_values(|t: (String, String, Expression)| (t.0@, t.1@, t.2)).push(expected));
            k = k + 1;
        }
    }
    proof {
        assert(all.take(k) =~= all);
    }
    Ok(Plan::SetProperty { input: Box::new(input), items })
}

/// The properties of a REMOVE clause as (variable, key).
pub open spec fn remove_items(props: Seq<PropertyAccess>) -> Seq<(Seq<char>, Seq<char>)> {
    props.map_values(|p: PropertyAccess| (p.variable@, p.property@))
}

/// REMOVE for each row of `input`.
pub fn compile_remove_plan_v2(input: Plan, remove: RemoveClause) -> (r: Result<Plan>)
    ensures
        r matches Ok(p) && p@ == (PlanView::RemoveProperty { input: Box::new(input@), items: remove_items(remove.properties@) }),
{
    let ghost all = remove.properties@;
    let mut src = remove.properties;
    let mut items: Vec<(String, String)> = Vec::new();
    let ghost mut k: int = 0;
    while src.len() > 0
        invariant
            0 <= k <= all.len(),
            src@ == all.skip(k),
            items@.map_values(|t: (String, String)| (t.0@, t.1@)) == remove_items(all.take(k)),
        decreases src@.len(),
    {
        let prop = src.remove(0);
        proof {
            assert(prop == all[k]);
            assert(all.skip(k).drop_first() =~= all.skip(k + 1));
        }
        let ghost before = items@;
        let ghost expected = (prop.variable@, prop.property@);
        items.push((prop.variable, prop.property));
        proof {
            assert(all.take(k + 1) =~= all.take(k).push(all[k]));
            assert(remove_items(all.take(k + 1)) =~= remove_items(all.take(k)).push(expected));
            assert(items@ == before.push(items@.last()));
            assert(items@.map_values(|t: (String, String)| (t.0@, t.1@))
                =~= before.map_values(|t: (String, String)| (t.0@, t.1@)).push(expected));
            k = k + 1;
        }
    }
    proof {
        assert(all.take(k) =~= all);
    }
    Ok(Plan::RemoveProperty { input: Box::new(input), items })
}

/// What is wrong with a CREATE pattern, if anything: it is empty, or longer than a single
/// hop (node, relationship, node).
pub open spec fn create_error(p: Pattern) -> Option<ErrorView> {
    if p.elements@.len() == 0 {
        Some(ErrorView::Other("CREATE pattern cannot be empty"@))
    } else if p.elements@.len() > 3 {
        Some(ErrorView::NotImplemented("CREATE with more than 3 pattern elements in v2 M3"@))
    } else {
        None
    }
}

/// CREATE of a pattern of at most one hop.
pub fn compile_create_plan(create_clause: CreateClause) -> (r: Result<Plan>)
    ensures
        match create_error(create_clause.pattern) {
            Some(e) => r matches Err(x) && x@ == e,
            None => r matches Ok(p) && p@ == (PlanView::Create { pattern: create_clause.pattern }),
        },
{
    if create_clause.pattern.elements.len() == 0 {
        return Err(Error::other_from("CREATE pattern cannot be empty"));
    }
    if create_clause.pattern.elements.len() > 3 {
        return Err(Error::not_implemented("CREATE with more than 3 pattern elements in v2 M3"));
    }
    Ok(Plan::Create { pattern: create_clause.pattern })
}

pub open spec fn merge_props_msg() -> Seq<char> {
    "MERGE requires a non-empty node property map in v2 M3"@
}

/// The first node of the pattern that MERGE cannot identify: one without properties, or
/// with more than one label.
pub open spec fn merge_node_error(els: Seq<PathElement>) -> Option<ErrorView>
    decreases els.len(),
{
    if els.len() == 0 {
        None
    } else {
        match els[0] {
            PathElement::Node(n) => match n.properties {
                None => Some(ErrorView::NotImplemented(merge_props_msg())),
                Some(props) => if props.properties@.len() == 0 {
                    Some(ErrorView::NotImplemented(merge_props_msg()))
                } else if n.labels@.len() > 1 {
                    Some(ErrorView::NotImplemented("MERGE with multiple labels in v2 M3"@))
                } else {
                    merge_node_error(els.drop_first())
                },
            },
            PathElement::Relationship(_) => merge_node_error(els.drop_first()),
        }
    }
}

/// What is wrong with the relationship of a single-hop MERGE pattern, if anything.
pub open spec fn merge_rel_error(el: PathElement) -> Option<ErrorView> {
    match el {
        PathElement::Relationship(r) => if r.direction != RelationshipDirection::LeftToRight {
            Some(ErrorView::NotImplemented("MERGE supports only -> direction in v2 M3"@))
        } else if r.types@.len() == 0 {
            Some(ErrorView::Other("MERGE relationship requires a type"@))
        } else if r.types@.len() > 1 {
            Some(ErrorView::NotImplemented("MERGE with multiple rel types in v2 M3"@))
        } else if r.variable_length is Some {
            Some(ErrorView::NotImplemented("MERGE does not support variable-length relationships in v2 M3"@))
        } else if r.properties matches Some(props) && props.properties@.len() > 0 {
            Some(ErrorView::NotImplemented("MERGE relationship properties not supported in v2 M3"@))
        } else {
            None
        },
        PathElement::Node(_) => Some(ErrorView::Other("MERGE pattern must have relationship in middle"@)),
    }
}

/// What is wrong with a MERGE pattern, if anything: it must be a node, or a single outgoing
/// hop of one type without properties or length, between nodes with properties and at most
/// one label.
pub open spec fn merge_error(p: Pattern) -> Option<ErrorView> {
    let els = p.elements@;
    if els.len() == 0 {
        Some(ErrorView::Other("MERGE pattern cannot be empty"@))
    } else if els.len() != 1 && els.len() != 3 {
        Some(ErrorView::NotImplemented("MERGE supports only single-node or single-hop patterns in v2 M3"@))
    } else if merge_node_error(els) is Some {
        merge_node_error(els)
    } else if els.len() == 3 {
        merge_rel_error(els[1])
    } else {
        None
    }
}

fn check_merge_nodes(els: &Vec<PathElement>) -> (r: Result<()>)
    ensures
        match merge_node_error(els@) {
            Some(e) => r matches Err(x) && x@ == e,
            None => r is Ok,
        },
{
    let mut i: usize = 0;
    proof {
        assert(els@.skip(0) =~= els@);
    }
    while i < els.len()
        invariant
            i <= els@.len(),
            merge_node_error(els@) == merge_node_error(els@.skip(i as int)),
        decreases els@.len() - i,
    {
        proof {
            assert(els@.skip(i as int)[0] == els@[i as int]);
            assert(els@.skip(i as int).drop_first() =~= els@.skip(i + 1));
        }
        match &els[i] {
            PathElement::Node(n) => {
                match &n.properties {
                    None => {
                        return Err(Error::not_implemented("MERGE requires a non-empty node property map in v2 M3"));
                    },
                    Some(props) => {
                        if props.properties.len() == 0 {
                            return Err(Error::not_implemented("MERGE requires a non-empty node property map in v2 M3"));
                        }
                        if n.labels.len() > 1 {
                            return Err(Error::not_implemented("MERGE with multiple labels in v2 M3"));
                        }
                    },
                }
            },
            PathElement::Relationship(_) => {},
        }
        i = i + 1;
    }
    Ok(())
}

fn check_merge_rel(el: &PathElement) -> (r: Result<()>)
    ensures
        match merge_rel_error(*el) {
            Some(e) => r matches Err(x) && x@ == e,
            None => r is Ok,
        },
{
    match el {
        PathElement::Relationship(rel_pat) => {
            match rel_pat.direction {
                RelationshipDirection::LeftToRight => {},
                _ => {
                    return Err(Error::not_implemented("MERGE supports only -> direction in v2 M3"));
                },
            }
            if rel_pat.types.len() == 0 {
                return Err(Error::other_from("MERGE relationship requires a type"));
            }
            if rel_pat.types.len() > 1 {
                return Err(Error::not_implemented("MERGE with multiple rel types in v2 M3"));
            }
            if rel_pat.variable_length.is_some() {
                return Err(Error::not_implemented("MERGE does not support variable-length relationships in v2 M3"));
            }
            match &rel_pat.properties {
                Some(props) => {
                    if props.properties.len() > 0 {
                        return Err(Error::not_implemented("MERGE relationship properties not supported in v2 M3"));
                    }
                },
                None => {},
            }
            Ok(())
        },
        PathElement::Node(_) => Err(Error::other_from("MERGE pattern must have relationship in middle")),
    }
}

/// MERGE of a node or a single hop, planned as the creation of its pattern.
pub fn compile_merge_plan(merge_clause: MergeClause) -> (r: Result<Plan>)
    ensures
        match merge_error(merge_clause.pattern) {
            Some(e) => r matches Err(x) && x@ == e,
            None => r matches Ok(p) && p@ == (PlanView::Create { pattern: merge_clause.pattern }),
        },
{
    let pattern = merge_clause.pattern;
    if pattern.elements.len() == 0 {
        return Err(Error::other_from("MERGE pattern cannot be empty"));
    }
    if pattern.elements.len() != 1 && pattern.elements.len() != 3 {
        return Err(Error::not_implemented("MERGE supports only single-node or single-hop patterns in v2 M3"));
    }
    let nodes = check_merge_nodes(&pattern.elements);
    if let Err(e) = nodes {
        return Err(e);
    }
    if pattern.elements.len() == 3 {
        let rel = check_merge_rel(&pattern.elements[1]);
        if let Err(e) = rel {
            return Err(e);
        }
    }
    Ok(Plan::Create { pattern })
}


/// Equality predicates by variable, then by property: `n.key = value`.
pub type Predicates = StrMap<StrMap<Expression>>;

/// The mathematical form of the predicates.
pub type PredModel = Map<Seq<char>, Map<Seq<char>, Expression>>;

/// The predicates are well formed: no key occurs twice, at either level.
pub open spec fn preds_wf(p: &Predicates) -> bool {
    &&& p.wf()
    &&& forall|k: Seq<char>| #[trigger] p@.contains_key(k) ==> p@[k].wf()
}

pub open spec fn preds_model(p: &Predicates) -> PredModel {
    Map::new(|k: Seq<char>| p@.contains_key(k), |k: Seq<char>| p@[k]@)
}

/// The predicates of `var`: none when it has none.
pub open spec fn preds_of(m: PredModel, var: Seq<char>) -> Map<Seq<char>, Expression> {
    if m.contains_key(var) { m[var] } else { Map::empty() }
}

/// Records `var.key = value`, replacing an earlier predicate on the same property.
pub open spec fn insert_pred(m: PredModel, var: Seq<char>, key: Seq<char>, value: Expression) -> PredModel {
    m.insert(var, preds_of(m, var).insert(key, value))
}

/// Records each of the predicates in turn.
pub open spec fn apply_inserts(m: PredModel, ins: Seq<(Seq<char>, Seq<char>, Expression)>) -> PredModel
    decreases ins.len(),
{
    if ins.len() == 0 {
        m
    } else {
        apply_inserts(insert_pred(m, ins[0].0, ins[0].1, ins[0].2), ins.drop_first())
    }
}

proof fn lemma_apply_inserts_concat(m: PredModel, a: Seq<(Seq<char>, Seq<char>, Expression)>, b: Seq<(Seq<char>, Seq<char>, Expression)>)
    ensures
        apply_inserts(m, a + b) == apply_inserts(apply_inserts(m, a), b),
    decreases a.len(),
{
    if a.len() == 0 {
        assert(a + b =~= b);
    } else {
        assert((a + b).drop_first() =~= a.drop_first() + b);
        assert((a + b)[0] == a[0]);
        lemma_apply_inserts_concat(insert_pred(m, a[0].0, a[0].1, a[0].2), a.drop_first(), b);
    }
}

fn insert_predicate(preds: &mut Predicates, var: &String, key: String, value: Expression)
    requires
        preds_wf(old(preds)),
    ensures
        preds_wf(final(preds)),
        preds_model(final(preds)) == insert_pred(preds_model(old(preds)), var@, key@, value),
{
    let ghost m0 = preds_model(preds);
    let taken = preds.remove(var.as_str());
    let mut inner = match taken {
        Some(m) => m,
        None => StrMap::new(),
    };
    proof {
        assert(inner@ == preds_of(m0, var@));
    }
    inner.insert(key, value);
    preds.insert(var.clone(), inner);
    proof {
        assert(preds_model(preds) =~= insert_pred(m0, var@, key@, value));
    }
}

/// A literal equal to `l`.
fn copy_literal(l: &Literal) -> (r: Literal)
    ensures
        r == *l,
{
    match l {
        Literal::Integer(i) => Literal::Integer(*i),
        Literal::Float(f) => Literal::Float(*f),
        Literal::String(s) => Literal::String(s.clone()),
        Literal::Boolean(b) => Literal::Boolean(*b),
        Literal::Null => Literal::Null,
    }
}

/// The predicate that `left = right` gives when `left` is a property access and `right` is
/// a literal or a parameter.
pub open spec fn eq_operand(left: Expression, right: Expression) -> Seq<(Seq<char>, Seq<char>, Expression)> {
    match left {
        Expression::PropertyAccess(pa) => match right {
            Expression::Literal(_) | Expression::Parameter(_) => seq![(pa.variable@, pa.property@, right)],
            _ => Seq::empty(),
        },
        _ => Seq::empty(),
    }
}

/// The equality predicates that a WHERE expression gives, in the order they are found: the
/// conjuncts of an AND in turn; for `a = b`, both `a = b` and `b = a` are tried.
pub open spec fn pred_inserts(e: Expression) -> Seq<(Seq<char>, Seq<char>, Expression)>
    decreases e,
{
    match e {
        Expression::Binary(b) => if b.operator == BinaryOperator::And {
            pred_inserts(b.left) + pred_inserts(b.right)
        } else if b.operator == BinaryOperator::Equals {
            eq_operand(b.left, b.right) + eq_operand(b.right, b.left)
        } else {
            Seq::empty()
        },
        _ => Seq::empty(),
    }
}

fn check_eq(left: &Expression, right: &Expression, map: &mut Predicates)
    requires
        preds_wf(old(map)),
    ensures
        preds_wf(final(map)),
        preds_model(final(map)) == apply_inserts(preds_model(old(map)), eq_operand(*left, *right)),
{
    let ghost m0 = preds_model(map);
    match left {
        Expression::PropertyAccess(pa) => {
            let value = match right {
                Expression::Literal(l) => Some(Expression::Literal(copy_literal(l))),
                Expression::Parameter(p) => Some(Expression::Parameter(p.clone())),
                _ => None,
            };
            match value {
                Some(v) => {
                    insert_predicate(map, &pa.variable, pa.property.clone(), v);
                    proof {
                        let ins = eq_operand(*left, *right);
                        assert(ins.drop_first() =~= Seq::<(Seq<char>, Seq<char>, Expression)>::empty());
                        let m1 = insert_pred(m0, ins[0].0, ins[0].1, ins[0].2);
                        assert(apply_inserts(m1, ins.drop_first()) == m1);
                    }
                },
                None => {},
            }
        },
        _ => {},
    }
}

/// Collects the equality predicates of a WHERE expression into `map` (see `pred_inserts`).
pub fn extract_predicates(expr: &Expression, map: &mut Predicates)
    requires
        preds_wf(old(map)),
    ensures
        preds_wf(final(map)),
        preds_model(final(map)) == apply_inserts(preds_model(old(map)), pred_inserts(*expr)),
    decreases expr,
{
    let ghost m0 = preds_model(map);
    match expr {
        Expression::Binary(bin) => {
            match bin.operator {
                BinaryOperator::And => {
                    extract_predicates(&bin.left, map);
                    extract_predicates(&bin.right, map);
                    proof {
                        lemma_apply_inserts_concat(m0, pred_inserts(bin.left), pred_inserts(bin.right));
                    }
                },
                BinaryOperator::Equals => {
                    check_eq(&bin.left, &bin.right, map);
                    check_eq(&bin.right, &bin.left, map);
                    proof {
                        lemma_apply_inserts_concat(m0, eq_operand(bin.left, bin.right), eq_operand(bin.right, bin.left));
                    }
                },
                _ => {},
            }
        },
        _ => {},
    }
}

/// The predicates that an inline property map gives for `var`, in order.
pub open spec fn prop_inserts(var: Seq<char>, props: Seq<PropertyPair>) -> Seq<(Seq<char>, Seq<char>, Expression)> {
    props.map_values(|p: PropertyPair| (var, p.key@, p.value))
}

/// Adds the inline properties of a pattern element as equality predicates on `variable`.
pub fn extend_predicates_from_properties(variable: &String, properties: Option<PropertyMap>, predicates: &mut Predicates)
    requires
        preds_wf(old(predicates)),
    ensures
        preds_wf(final(predicates)),
        preds_model(final(predicates)) == match properties {
            Some(props) => apply_inserts(preds_model(old(predicates)), prop_inserts(variable@, props.properties@)),
            None => preds_model(old(predicates)),
        },
{
    match properties {
        Some(props) => {
            let ghost all = props.properties@;
            let ghost m0 = preds_model(predicates);
            let mut pairs = props.properties;
            let ghost mut k: int = 0;
            proof {
                assert(prop_inserts(variable@, all.take(0)) =~= Seq::<(Seq<char>, Seq<char>, Expression)>::empty());
            }
            while pairs.len() > 0
                invariant
                    0 <= k <= all.len(),
                    pairs@ == all.skip(k),
                    preds_wf(predicates),
                    preds_model(predicates) == apply_inserts(m0, prop_inserts(variable@, all.take(k))),
                decreases pairs@.len(),
            {
                let pair = pairs.remove(0);
                proof {
                    assert(pair == all[k]);
                    assert(all.skip(k).drop_first() =~= all.skip(k + 1));
                    let step = seq![(variable@, pair.key@, pair.value)];
                    assert(prop_inserts(variable@, all.take(k + 1)) =~= prop_inserts(variable@, all.take(k)) + step);
                    lemma_apply_inserts_concat(m0, prop_inserts(variable@, all.take(k)), step);
                    assert(step.drop_first() =~= Seq::<(Seq<char>, Seq<char>, Expression)>::empty());
                    let mk = apply_inserts(m0, prop_inserts(variable@, all.take(k)));
                    let m1 = insert_pred(mk, step[0].0, step[0].1, step[0].2);
                    assert(apply_inserts(m1, step.drop_first()) == m1);
                }
                insert_predicate(predicates, variable, pair.key, pair.value);
                proof {
                    k = k + 1;
                }
            }
            proof {
                assert(all.take(k) =~= all);
            }
        },
        None => {},
    }
}


/// The variables that an expression mentions, in order of appearance (repeats included):
/// variables, the variables of property accesses, and those of function arguments,
/// operands, list items and map values.
pub open spec fn expr_var_seq(e: Expression) -> Seq<Seq<char>>
    decreases e,
{
    match e {
        Expression::Variable(v) => seq![v@],
        Expression::PropertyAccess(pa) => seq![pa.variable@],
        Expression::FunctionCall(f) => list_var_seq(f.args@),
        Expression::Binary(b) => expr_var_seq(b.left) + expr_var_seq(b.right),
        Expression::Unary(u) => expr_var_seq(u.operand),
        Expression::List(l) => list_var_seq(l@),
        Expression::MapLiteral(m) => pairs_var_seq(m.properties@),
        _ => Seq::empty(),
    }
}

pub open spec fn list_var_seq(s: Seq<Expression>) -> Seq<Seq<char>>
    decreases s,
{
    if s.len() == 0 {
        Seq::empty()
    } else {
        expr_var_seq(s[0]) + list_var_seq(s.drop_first())
    }
}

pub open spec fn pairs_var_seq(s: Seq<PropertyPair>) -> Seq<Seq<char>>
    decreases s,
{
    if s.len() == 0 {
        Seq::empty()
    } else {
        expr_var_seq(s[0].value) + pairs_var_seq(s.drop_first())
    }
}

/// `acc` followed by the names of `new` that it does not hold yet, each once, in order.
pub open spec fn add_names(acc: Seq<Seq<char>>, new: Seq<Seq<char>>) -> Seq<Seq<char>>
    decreases new.len(),
{
    if new.len() == 0 {
        acc
    } else {
        add_names(if acc.contains(new[0]) { acc } else { acc.push(new[0]) }, new.drop_first())
    }
}

proof fn lemma_add_names_concat(acc: Seq<Seq<char>>, a: Seq<Seq<char>>, b: Seq<Seq<char>>)
    ensures
        add_names(acc, a + b) == add_names(add_names(acc, a), b),
    decreases a.len(),
{
    if a.len() == 0 {
        assert(a + b =~= b);
    } else {
        assert((a + b).drop_first() =~= a.drop_first() + b);
        assert((a + b)[0] == a[0]);
        lemma_add_names_concat(if acc.contains(a[0]) { acc } else { acc.push(a[0]) }, a.drop_first(), b);
    }
}

/// Adds `name` to `names` unless it is there already.
fn push_name(names: &mut Vec<String>, name: &String)
    ensures
        texts_of(final(names)@) == add_names(texts_of(old(names)@), seq![name@]),
{
    let ghost before = texts_of(names@);
    let mut i: usize = 0;
    while i < names.len()
        invariant
            i <= names@.len(),
            before == texts_of(names@),
            forall|j: int| 0 <= j < i ==> #[trigger] names@[j]@ != name@,
        decreases names@.len() - i,
    {
        if crate::text::str_equal(names[i].as_str(), name.as_str()) {
            proof {
                assert(before[i as int] == name@);
                assert(seq![name@].drop_first() =~= Seq::<Seq<char>>::empty());
                assert(before.contains(name@));
                assert(add_names(before, seq![name@].drop_first()) == before);
            }
            return;
        }
        i = i + 1;
    }
    proof {
        assert(!before.contains(name@)) by {
            if before.contains(name@) {
                let j = choose|j: int| 0 <= j < before.len() && before[j] == name@;
                assert(names@[j]@ == name@);
            }
        }
        assert(seq![name@].drop_first() =~= Seq::<Seq<char>>::empty());
    }
    names.push(name.clone());
    proof {
        assert(texts_of(names@) =~= before.push(name@));
        assert(add_names(before.push(name@), seq![name@].drop_first()) == before.push(name@));
    }
}

pub open spec fn texts_of(v: Seq<String>) -> Seq<Seq<char>> {
    v.map_values(|s: String| s@)
}

/// Adds the variables that `expr` mentions to `vars` (see `expr_var_seq`), each once.
pub fn extract_variables_from_expr(expr: &Expression, vars: &mut Vec<String>)
    ensures
        texts_of(final(vars)@) == add_names(texts_of(old(vars)@), expr_var_seq(*expr)),
    decreases expr,
{
    let ghost v0 = texts_of(vars@);
    match expr {
        Expression::Variable(v) => {
            push_name(vars, v);
        },
        Expression::PropertyAccess(pa) => {
            push_name(vars, &pa.variable);
        },
        Expression::FunctionCall(f) => {
            extract_variables_from_list(&f.args, vars);
        },
        Expression::Binary(b) => {
            extract_variables_from_expr(&b.left, vars);
            extract_variables_from_expr(&b.right, vars);
            proof {
                lemma_add_names_concat(v0, expr_var_seq(b.left), expr_var_seq(b.right));
            }
        },
        Expression::Unary(u) => {
            extract_variables_from_expr(&u.operand, vars);
        },
        Expression::List(l) => {
            extract_variables_from_list(l, vars);
        },
        Expression::MapLiteral(m) => {
            extract_variables_from_pairs(&m.properties, vars);
        },
        _ => {},
    }
}

fn extract_variables_from_list(items: &Vec<Expression>, vars: &mut Vec<String>)
    ensures
        texts_of(final(vars)@) == add_names(texts_of(old(vars)@), list_var_seq(items@)),
    decreases items,
{
    let ghost v0 = texts_of(vars@);
    let mut i: usize = 0;
    proof {
        assert(items@.subrange(0, items@.len() as int) =~= items@);
        assert(list_var_seq(items@.take(0)) =~= Seq::<Seq<char>>::empty());
    }
    while i < items.len()
        invariant
            i <= items@.len(),
            list_var_seq(items@) == list_var_seq(items@.subrange(0, i as int)) + list_var_seq(items@.subrange(i as int, items@.len() as int)),
            texts_of(vars@) == add_names(v0, list_var_seq(items@.subrange(0, i as int))),
        decreases items@.len() - i,
    {
        let ghost rest = items@.subrange(i as int, items@.len() as int);
        proof {
            assert(rest.drop_first() =~= items@.subrange(i + 1, items@.len() as int));
            assert(rest[0] == items@[i as int]);
            lemma_list_var_seq_split(items@.subrange(0, i + 1), i as int);
            assert(items@.subrange(0, i + 1).subrange(0, i as int) =~= items@.subrange(0, i as int));
            assert(items@.subrange(0, i + 1).subrange(i as int, i + 1) =~= seq![items@[i as int]]);
            assert(list_var_seq(seq![items@[i as int]]) == expr_var_seq(items@[i as int]) + list_var_seq(seq![items@[i as int]].drop_first()));
            assert(seq![items@[i as int]].drop_first() =~= Seq::<Expression>::empty());
            assert(list_var_seq(seq![items@[i as int]]) =~= expr_var_seq(items@[i as int]));
            lemma_add_names_concat(v0, list_var_seq(items@.subrange(0, i as int)), expr_var_seq(items@[i as int]));
            assert(list_var_seq(items@.subrange(0, i + 1)) + list_var_seq(items@.subrange(i + 1, items@.len() as int))
                =~= list_var_seq(items@.subrange(0, i as int)) + list_var_seq(rest));
        }
        extract_variables_from_expr(&items[i], vars);
        i = i + 1;
    }
    proof {
        assert(items@.subrange(i as int, items@.len() as int) =~= Seq::<Expression>::empty());
        assert(list_var_seq(items@.subrange(0, i as int)) + Seq::<Seq<char>>::empty() =~= list_var_seq(items@.subrange(0, i as int)));
        assert(items@.subrange(0, i as int) =~= items@);
    }
}

/// The variables of a list split at any point are those of the two parts.
proof fn lemma_list_var_seq_split(s: Seq<Expression>, k: int)
    requires
        0 <= k <= s.len(),
    ensures
        list_var_seq(s) == list_var_seq(s.subrange(0, k)) + list_var_seq(s.subrange(k, s.len() as int)),
    decreases k,
{
    if k == 0 {
        assert(s.subrange(0, 0) =~= Seq::<Expression>::empty());
        assert(s.subrange(0, s.len() as int) =~= s);
        assert(Seq::<Seq<char>>::empty() + list_var_seq(s) =~= list_var_seq(s));
    } else {
        lemma_list_var_seq_split(s.drop_first(), k - 1);
        assert(s.subrange(0, k).drop_first() =~= s.drop_first().subrange(0, k - 1));
        assert(s.subrange(0, k)[0] == s[0]);
        assert(s.drop_first().subrange(k - 1, s.len() - 1) =~= s.subrange(k, s.len() as int));
        assert(expr_var_seq(s[0]) + (list_var_seq(s.drop_first().subrange(0, k - 1)) + list_var_seq(s.subrange(k, s.len() as int)))
            =~= (expr_var_seq(s[0]) + list_var_seq(s.drop_first().subrange(0, k - 1))) + list_var_seq(s.subrange(k, s.len() as int)));
    }
}

proof fn lemma_pairs_var_seq_split(s: Seq<PropertyPair>, k: int)
    requires
        0 <= k <= s.len(),
    ensures
        pairs_var_seq(s) == pairs_var_seq(s.subrange(0, k)) + pairs_var_seq(s.subrange(k, s.len() as int)),
    decreases k,
{
    if k == 0 {
        assert(s.subrange(0, 0) =~= Seq::<PropertyPair>::empty());
        assert(s.subrange(0, s.len() as int) =~= s);
        assert(Seq::<Seq<char>>::empty() + pairs_var_seq(s) =~= pairs_var_seq(s));
    } else {
        lemma_pairs_var_seq_split(s.drop_first(), k - 1);
        assert(s.subrange(0, k).drop_first() =~= s.drop_first().subrange(0, k - 1));
        assert(s.subrange(0, k)[0] == s[0]);
        assert(s.drop_first().subrange(k - 1, s.len() - 1) =~= s.subrange(k, s.len() as int));
        assert(expr_var_seq(s[0].value) + (pairs_var_seq(s.drop_first().subrange(0, k - 1)) + pairs_var_seq(s.subrange(k, s.len() as int)))
            =~= (expr_var_seq(s[0].value) + pairs_var_seq(s.drop_first().subrange(0, k - 1))) + pairs_var_seq(s.subrange(k, s.len() as int)));
    }
}

fn extract_variables_from_pairs(pairs: &Vec<PropertyPair>, vars: &mut Vec<String>)
    ensures
        texts_of(final(vars)@) == add_names(texts_of(old(vars)@), pairs_var_seq(pairs@)),
    decreases pairs,
{
    let ghost v0 = texts_of(vars@);
    let mut i: usize = 0;
    proof {
        assert(pairs@.subrange(0, 0) =~= Seq::<PropertyPair>::empty());
    }
    while i < pairs.len()
        invariant
            i <= pairs@.len(),
            texts_of(vars@) == add_names(v0, pairs_var_seq(pairs@.subrange(0, i as int))),
        decreases pairs@.len() - i,
    {
        proof {
            lemma_pairs_var_seq_split(pairs@.subrange(0, i + 1), i as int);
            assert(pairs@.subrange(0, i + 1).subrange(0, i as int) =~= pairs@.subrange(0, i as int));
            assert(pairs@.subrange(0, i + 1).subrange(i as int, i + 1) =~= seq![pairs@[i as int]]);
            assert(seq![pairs@[i as int]].drop_first() =~= Seq::<PropertyPair>::empty());
            assert(pairs_var_seq(seq![pairs@[i as int]]) == expr_var_seq(seq![pairs@[i as int]][0].value) + pairs_var_seq(seq![pairs@[i as int]].drop_first()));
            assert(pairs_var_seq(seq![pairs@[i as int]]) =~= expr_var_seq(pairs@[i as int].value));
            lemma_add_names_concat(v0, pairs_var_seq(pairs@.subrange(0, i as int)), expr_var_seq(pairs@[i as int].value));
        }
        extract_variables_from_expr(&pairs[i].value, vars);
        i = i + 1;
    }
    proof {
        assert(pairs@.subrange(0, i as int) =~= pairs@);
    }
}


/// The argument count message of an aggregate that takes exactly one argument.
pub open spec fn one_arg_msg(upper: Seq<char>) -> Seq<char> {
    upper + " takes exactly 1 argument"@
}

/// The aggregate that a call denotes, if any (its name is matched without regard to case):
/// `count` with no argument or `"*"` counts rows, with one argument counts that argument's
/// values; `sum`, `avg`, `min`, `max` and `collect` take exactly one argument.
pub open spec fn aggregate_of(call: FunctionCall) -> core::result::Result<Option<AggregateFunction>, ErrorView> {
    let name = unicode_lowercase(call.name@);
    let args = call.args@;
    if name == "count"@ {
        if args.len() == 0 {
            Ok(Some(AggregateFunction::Count(None)))
        } else if args.len() == 1 {
            if args[0] matches Expression::Literal(Literal::String(s)) && s@ == "*"@ {
                Ok(Some(AggregateFunction::Count(None)))
            } else {
                Ok(Some(AggregateFunction::Count(Some(args[0]))))
            }
        } else {
            Err(ErrorView::Other("COUNT takes 0 or 1 argument"@))
        }
    } else if name == "sum"@ {
        if args.len() != 1 { Err(ErrorView::Other(one_arg_msg("SUM"@))) } else { Ok(Some(AggregateFunction::Sum(args[0]))) }
    } else if name == "avg"@ {
        if args.len() != 1 { Err(ErrorView::Other(one_arg_msg("AVG"@))) } else { Ok(Some(AggregateFunction::Avg(args[0]))) }
    } else if name == "min"@ {
        if args.len() != 1 { Err(ErrorView::Other(one_arg_msg("MIN"@))) } else { Ok(Some(AggregateFunction::Min(args[0]))) }
    } else if name == "max"@ {
        if args.len() != 1 { Err(ErrorView::Other(one_arg_msg("MAX"@))) } else { Ok(Some(AggregateFunction::Max(args[0]))) }
    } else if name == "collect"@ {
        if args.len() != 1 { Err(ErrorView::Other(one_arg_msg("COLLECT"@))) } else { Ok(Some(AggregateFunction::Collect(args[0]))) }
    } else {
        Ok(None)
    }
}

/// Whether an aggregate result is an error, or none, or some aggregate.
pub open spec fn agg_matches(r: Result<Option<AggregateFunction>>, expected: core::result::Result<Option<AggregateFunction>, ErrorView>) -> bool {
    match expected {
        Ok(o) => r matches Ok(x) && x == o,
        Err(e) => r matches Err(x) && x@ == e,
    }
}

fn take_single_arg(call: &mut FunctionCall) -> (e: Expression)
    requires
        old(call).args@.len() == 1,
    ensures
        e == old(call).args@[0],
        final(call).args@.len() == 0,
        final(call).name == old(call).name,
{
    call.args.remove(0)
}

/// The aggregate that a call denotes (see `aggregate_of`). When it denotes one, its argument
/// moves into the aggregate and the call is left without arguments; otherwise the call is
/// left as it was.
pub fn parse_aggregate_function(call: &mut FunctionCall) -> (r: Result<Option<AggregateFunction>>)
    ensures
        agg_matches(r, aggregate_of(*old(call))),
        r matches Ok(Some(_)) ==> final(call).name == old(call).name && final(call).args@.len() == 0,
        !(r matches Ok(Some(_))) ==> *final(call) == *old(call),
{
    let name = to_lowercase(call.name.as_str());
    proof {
        reveal_strlit("count");
        reveal_strlit("sum");
        reveal_strlit("avg");
        reveal_strlit("min");
        reveal_strlit("max");
        reveal_strlit("collect");
        reveal_strlit("*");
    }
    if str_equal(name.as_str(), "count") {
        if call.args.len() == 0 {
            return Ok(Some(AggregateFunction::Count(None)));
        } else if call.args.len() == 1 {
            let star = match &call.args[0] {
                Expression::Literal(Literal::String(s)) => str_equal(s.as_str(), "*"),
                _ => false,
            };
            if star {
                let _ = take_single_arg(call);
                return Ok(Some(AggregateFunction::Count(None)));
            }
            let arg = take_single_arg(call);
            return Ok(Some(AggregateFunction::Count(Some(arg))));
        } else {
            return Err(Error::other_from("COUNT takes 0 or 1 argument"));
        }
    }
    let which: u8 = if str_equal(name.as_str(), "sum") {
        1
    } else if str_equal(name.as_str(), "avg") {
        2
    } else if str_equal(name.as_str(), "min") {
        3
    } else if str_equal(name.as_str(), "max") {
        4
    } else if str_equal(name.as_str(), "collect") {
        5
    } else {
        0
    };
    if which == 0 {
        return Ok(None);
    }
    if call.args.len() != 1 {
        let e = if which == 1 {
            Error::other_from("SUM takes exactly 1 argument")
        } else if which == 2 {
            Error::other_from("AVG takes exactly 1 argument")
        } else if which == 3 {
            Error::other_from("MIN takes exactly 1 argument")
        } else if which == 4 {
            Error::other_from("MAX takes exactly 1 argument")
        } else {
            Error::other_from("COLLECT takes exactly 1 argument")
        };
        proof {
            reveal_strlit("SUM takes exactly 1 argument");
            reveal_strlit("AVG takes exactly 1 argument");
            reveal_strlit("MIN takes exactly 1 argument");
            reveal_strlit("MAX takes exactly 1 argument");
            reveal_strlit("COLLECT takes exactly 1 argument");
            reveal_strlit("SUM");
            reveal_strlit("AVG");
            reveal_strlit("MIN");
            reveal_strlit("MAX");
            reveal_strlit("COLLECT");
            reveal_strlit(" takes exactly 1 argument");
            assert(one_arg_msg("SUM"@) =~= "SUM takes exactly 1 argument"@);
            assert(one_arg_msg("AVG"@) =~= "AVG takes exactly 1 argument"@);
            assert(one_arg_msg("MIN"@) =~= "MIN takes exactly 1 argument"@);
            assert(one_arg_msg("MAX"@) =~= "MAX takes exactly 1 argument"@);
            assert(one_arg_msg("COLLECT"@) =~= "COLLECT takes exactly 1 argument"@);
        }
        return Err(e);
    }
    let arg = take_single_arg(call);
    if which == 1 {
        Ok(Some(AggregateFunction::Sum(arg)))
    } else if which == 2 {
        Ok(Some(AggregateFunction::Avg(arg)))
    } else if which == 3 {
        Ok(Some(AggregateFunction::Min(arg)))
    } else if which == 4 {
        Ok(Some(AggregateFunction::Max(arg)))
    } else {
        Ok(Some(AggregateFunction::Collect(arg)))
    }
}


/// The planner's state after some RETURN or WITH items.
pub struct ProjState {
    pub aggregates: Seq<(AggregateFunction, Seq<char>)>,
    pub cols: Seq<Seq<char>>,
    pub pre: Seq<(Seq<char>, ProjExpr)>,
    pub group_by: Seq<Seq<char>>,
    pub projected: Seq<Seq<char>>,
    pub is_agg: bool,
}

pub open spec fn proj_init() -> ProjState {
    ProjState {
        aggregates: Seq::empty(),
        cols: Seq::empty(),
        pre: Seq::empty(),
        group_by: Seq::empty(),
        projected: Seq::empty(),
        is_agg: false,
    }
}

/// The alias given, or else the default.
pub open spec fn alias_or(alias: Option<String>, default: Seq<char>) -> Seq<char> {
    match alias {
        Some(a) => a@,
        None => default,
    }
}

/// The column name of an unaliased item: a variable's name, `var.prop` for a property
/// access, `expr_<i>` otherwise.
pub open spec fn default_alias(e: Expression, i: nat) -> Seq<char> {
    match e {
        Expression::Variable(name) => name@,
        Expression::PropertyAccess(pa) => pa.variable@ + "."@ + pa.property@,
        _ => "expr_"@ + decimal(i),
    }
}

/// Projects each dependency that is not projected yet as the variable of the same name.
pub open spec fn add_dep_projections(st: ProjState, deps: Seq<Seq<char>>) -> ProjState
    decreases deps.len(),
{
    if deps.len() == 0 {
        st
    } else if st.projected.contains(deps[0]) {
        add_dep_projections(st, deps.drop_first())
    } else {
        add_dep_projections(
            ProjState { pre: st.pre.push((deps[0], ProjExpr::Var(deps[0]))), projected: st.projected.push(deps[0]), ..st },
            deps.drop_first(),
        )
    }
}

/// A non-aggregate item: projected under its alias (unless that alias is projected
/// already), and a grouping key and an output column.
pub open spec fn plain_step(st: ProjState, i: nat, item: ReturnItem) -> ProjState {
    let alias = alias_or(item.alias, default_alias(item.expression, i));
    let st2 = if st.projected.contains(alias) {
        st
    } else {
        ProjState { pre: st.pre.push((alias, proj_expr(item.expression))), projected: st.projected.push(alias), ..st }
    };
    ProjState { group_by: st2.group_by.push(alias), cols: st2.cols.push(alias), ..st2 }
}

/// One item of a projection.
pub open spec fn proj_step(st: ProjState, i: nat, item: ReturnItem) -> core::result::Result<ProjState, ErrorView> {
    match item.expression {
        Expression::FunctionCall(call) => match aggregate_of(call) {
            Err(e) => Err(e),
            Ok(Some(agg)) => {
                let alias = alias_or(item.alias, "agg_"@ + decimal(i));
                let st2 = add_dep_projections(st, add_names(Seq::empty(), list_var_seq(call.args@)));
                Ok(ProjState {
                    aggregates: st2.aggregates.push((agg, alias)),
                    cols: st2.cols.push(alias),
                    is_agg: true,
                    ..st2
                })
            },
            Ok(None) => Ok(plain_step(st, i, item)),
        },
        _ => Ok(plain_step(st, i, item)),
    }
}

/// The items in turn; the first error stops.
pub open spec fn proj_fold(items: Seq<ReturnItem>) -> core::result::Result<ProjState, ErrorView>
    decreases items.len(),
{
    if items.len() == 0 {
        Ok(proj_init())
    } else {
        match proj_fold(items.drop_last()) {
            Err(e) => Err(e),
            Ok(st) => proj_step(st, (items.len() - 1) as nat, items.last()),
        }
    }
}

/// The plan of a projection over `input`: the pre-projection then the aggregation when
/// there are aggregates (no pre-projection when it would be empty), the projection alone
/// otherwise.
pub open spec fn proj_plan(input: PlanView, st: ProjState) -> PlanView {
    if st.is_agg {
        PlanView::Aggregate {
            input: Box::new(if st.pre.len() > 0 { PlanView::Project { input: Box::new(input), projections: st.pre } } else { input }),
            group_by: st.group_by,
            aggregates: st.aggregates,
        }
    } else {
        PlanView::Project { input: Box::new(input), projections: st.pre }
    }
}

/// The plan and the output columns of the items of a RETURN or WITH over `input`.
pub open spec fn projection(input: PlanView, items: Seq<ReturnItem>) -> core::result::Result<(PlanView, Seq<Seq<char>>), ErrorView> {
    match proj_fold(items) {
        Err(e) => Err(e),
        Ok(st) => Ok((proj_plan(input, st), st.cols)),
    }
}

/// Exec form of the planner state.
struct ProjBuild {
    aggregates: Vec<(AggregateFunction, String)>,
    cols: Vec<String>,
    pre: Vec<(String, Expression)>,
    group_by: Vec<String>,
    projected: Vec<String>,
    is_agg: bool,
}

impl ProjBuild {
    spec fn models(&self, st: ProjState) -> bool {
        &&& self.aggregates@.map_values(|a: (AggregateFunction, String)| (a.0, a.1@)) == st.aggregates
        &&& texts_of(self.cols@) == st.cols
        &&& self.pre@.map_values(|p: (String, Expression)| (p.0@, proj_expr(p.1))) == st.pre
        &&& texts_of(self.group_by@) == st.group_by
        &&& texts_of(self.projected@) == st.projected
        &&& self.is_agg == st.is_agg
    }
}

/// Whether `names` holds `name`.
fn holds_name(names: &Vec<String>, name: &String) -> (r: bool)
    ensures
        r == texts_of(names@).contains(name@),
{
    let mut i: usize = 0;
    while i < names.len()
        invariant
            i <= names@.len(),
            forall|j: int| 0 <= j < i ==> #[trigger] names@[j]@ != name@,
        decreases names@.len() - i,
    {
        if str_equal(names[i].as_str(), name.as_str()) {
            proof {
                assert(texts_of(names@)[i as int] == name@);
            }
            return true;
        }
        i = i + 1;
    }
    proof {
        if texts_of(names@).contains(name@) {
            let j = choose|j: int| 0 <= j < texts_of(names@).len() && texts_of(names@)[j] == name@;
            assert(names@[j]@ == name@);
        }
    }
    false
}

fn string_of_alias(alias: Option<String>, expr: &Expression, i: usize) -> (r: String)
    ensures
        r@ == alias_or(alias, default_alias(*expr, i as nat)),
{
    match alias {
        Some(a) => a,
        None => match expr {
            Expression::Variable(name) => name.clone(),
            Expression::PropertyAccess(pa) => {
                let mut s = pa.variable.clone();
                s.append(".");
                s.append(pa.property.as_str());
                proof {
                    reveal_strlit(".");
                }
                s
            },
            _ => {
                let mut s = String::from_str("expr_");
                push_decimal(&mut s, i);
                proof {
                    reveal_strlit("expr_");
                }
                s
            },
        },
    }
}

fn push_projection(b: &mut ProjBuild, name: String, e: Expression, Ghost(st): Ghost<ProjState>) -> (r: Ghost<ProjState>)
    requires
        old(b).models(st),
    ensures
        final(b).models(r@),
        r@ == (ProjState { pre: st.pre.push((name@, proj_expr(e))), projected: st.projected.push(name@), ..st }),
        final(b).aggregates == old(b).aggregates,
        final(b).cols == old(b).cols,
        final(b).group_by == old(b).group_by,
        final(b).is_agg == old(b).is_agg,
{
    let ghost before_pre = b.pre@;
    let ghost before_projected = b.projected@;
    let ghost e0 = e;
    b.pre.push((name.clone(), e));
    b.projected.push(name);
    proof {
        assert(texts_of(b.projected@) =~= texts_of(before_projected).push(b.projected@.last()@));
        assert(b.pre@ == before_pre.push(b.pre@.last()));
        assert(b.pre@.map_values(|p: (String, Expression)| (p.0@, proj_expr(p.1)))
            =~= before_pre.map_values(|p: (String, Expression)| (p.0@, proj_expr(p.1))).push((b.projected@.last()@, proj_expr(e0))));
    }
    Ghost(ProjState { pre: st.pre.push((b.projected@.last()@, proj_expr(e0))), projected: st.projected.push(b.projected@.last()@), ..st })
}

fn add_deps(b: &mut ProjBuild, deps: Vec<String>, Ghost(st): Ghost<ProjState>) -> (r: Ghost<ProjState>)
    requires
        old(b).models(st),
    ensures
        final(b).models(r@),
        r@ == add_dep_projections(st, texts_of(deps@)),
        final(b).aggregates == old(b).aggregates,
        final(b).cols == old(b).cols,
        final(b).group_by == old(b).group_by,
        final(b).is_agg == old(b).is_agg,
{
    let ghost all = texts_of(deps@);
    let mut ds = deps;
    let ghost mut cur = st;
    let ghost mut k: int = 0;
    while ds.len() > 0
        invariant
            0 <= k <= all.len(),
            texts_of(ds@) == all.skip(k),
            b.models(cur),
            add_dep_projections(st, all) == add_dep_projections(cur, all.skip(k)),
            b.aggregates == old(b).aggregates,
            b.cols == old(b).cols,
            b.group_by == old(b).group_by,
            b.is_agg == old(b).is_agg,
        decreases ds@.len(),
    {
        let ghost ds_before = ds@;
        let dep = ds.remove(0);
        proof {
            assert(ds@ =~= ds_before.drop_first());
            assert(texts_of(ds_before)[0] == dep@);
            assert(texts_of(ds@) =~= texts_of(ds_before).drop_first());
            assert(texts_of(ds@) =~= all.skip(k + 1));
            assert(all.skip(k)[0] == dep@);
            assert(all.skip(k).drop_first() =~= all.skip(k + 1));
        }
        if !holds_name(&b.projected, &dep) {
            let v = Expression::Variable(dep.clone());
            let g = push_projection(b, dep, v, Ghost(cur));
            proof {
                cur = g@;
            }
        }
        proof {
            k = k + 1;
        }
    }
    proof {
        assert(all.skip(k) =~= Seq::<Seq<char>>::empty());
    }
    Ghost(cur)
}

/// Once a prefix of the items fails, the whole projection fails with the same error.
proof fn lemma_proj_fold_err(s: Seq<ReturnItem>, k: int)
    requires
        0 <= k <= s.len(),
        proj_fold(s.take(k)) is Err,
    ensures
        proj_fold(s) == proj_fold(s.take(k)),
    decreases s.len(),
{
    if s.len() == k {
        assert(s.take(k) =~= s);
    } else {
        assert(s.drop_last().take(k) =~= s.take(k));
        lemma_proj_fold_err(s.drop_last(), k);
    }
}

fn plain_item(b: &mut ProjBuild, expression: Expression, alias: Option<String>, i: usize, Ghost(st): Ghost<ProjState>) -> (r: Ghost<ProjState>)
    requires
        old(b).models(st),
    ensures
        final(b).models(r@),
        r@ == plain_step(st, i as nat, ReturnItem { expression, alias }),
{
    let name = string_of_alias(alias, &expression, i);
    let ghost mut cur = st;
    if !holds_name(&b.projected, &name) {
        let g = push_projection(b, name.clone(), expression, Ghost(cur));
        proof {
            cur = g@;
        }
    }
    let ghost before_group = b.group_by@;
    let ghost before_cols = b.cols@;
    b.group_by.push(name.clone());
    b.cols.push(name);
    proof {
        assert(texts_of(b.group_by@) =~= texts_of(before_group).push(b.cols@.last()@));
        assert(texts_of(b.cols@) =~= texts_of(before_cols).push(b.cols@.last()@));
        cur = ProjState { group_by: cur.group_by.push(b.cols@.last()@), cols: cur.cols.push(b.cols@.last()@), ..cur };
    }
    Ghost(cur)
}

pub open spec fn pair_result_matches(r: Result<(Plan, Vec<String>)>, expected: core::result::Result<(PlanView, Seq<Seq<char>>), ErrorView>) -> bool {
    match expected {
        Ok((p, cols)) => r matches Ok((x, c)) && x@ == p && texts_of(c@) == cols,
        Err(e) => r matches Err(x) && x@ == e,
    }
}

/// Plans the items of a RETURN or WITH over `input` (see `projection`): aggregate items
/// become aggregates (their variables are projected first), the others are projected and
/// become grouping keys; returns the plan and the output column names.
pub fn compile_projection_aggregation(input: Plan, items: Vec<ReturnItem>) -> (r: Result<(Plan, Vec<String>)>)
    ensures
        pair_result_matches(r, projection(input@, items@)),
{
    let ghost all = items@;
    let ghost input_view = input@;
    let mut src = items;
    let mut b = ProjBuild {
        aggregates: Vec::new(),
        cols: Vec::new(),
        pre: Vec::new(),
        group_by: Vec::new(),
        projected: Vec::new(),
        is_agg: false,
    };
    let ghost mut st = proj_init();
    let mut i: usize = 0;
    let n = src.len();
    proof {
        assert(all.take(0) =~= Seq::<ReturnItem>::empty());
        assert(b.aggregates@.map_values(|a: (AggregateFunction, String)| (a.0, a.1@)) =~= st.aggregates);
        assert(texts_of(b.cols@) =~= st.cols);
        assert(b.pre@.map_values(|p: (String, Expression)| (p.0@, proj_expr(p.1))) =~= st.pre);
        assert(texts_of(b.group_by@) =~= st.group_by);
        assert(texts_of(b.projected@) =~= st.projected);
    }
    while src.len() > 0
        invariant
            i <= all.len(),
            n == all.len(),
            all == items@,
            src@ == all.skip(i as int),
            b.models(st),
            proj_fold(all.take(i as int)) == Ok::<ProjState, ErrorView>(st),
        decreases src@.len(),
    {
        let item = src.remove(0);
        proof {
            assert(item == all[i as int]);
            assert(all.skip(i as int).drop_first() =~= all.skip(i + 1));
            assert(all.take(i + 1).drop_last() =~= all.take(i as int));
            assert(all.take(i + 1).last() == item);
        }
        let ghost item0 = item;
        let ReturnItem { expression, alias } = item;
        match expression {
            Expression::FunctionCall(mut call) => {
                let ghost call0 = call;
                let mut deps: Vec<String> = Vec::new();
                extract_variables_from_list(&call.args, &mut deps);
                proof {
                    assert(texts_of(Seq::<String>::empty()) =~= Seq::<Seq<char>>::empty());
                }
                let parsed = parse_aggregate_function(&mut call);
                match parsed {
                    Err(e) => {
                        proof {
                            assert(item0.expression == Expression::FunctionCall(call0));
                            assert(aggregate_of(call0) is Err);
                            assert(proj_fold(all.take(i + 1)) == proj_step(st, i as nat, item0));
                            assert(proj_fold(all.take(i + 1)) is Err);
                            lemma_proj_fold_err(all, i + 1);
                        }
                        return Err(e);
                    },
                    Ok(Some(agg)) => {
                        let name = match alias {
                            Some(a) => a,
                            None => {
                                let mut s = String::from_str("agg_");
                                push_decimal(&mut s, i);
                                proof {
                                    reveal_strlit("agg_");
                                }
                                s
                            },
                        };
                        let g = add_deps(&mut b, deps, Ghost(st));
                        let ghost agg0 = agg;
                        b.aggregates.push((agg, name.clone()));
                        b.cols.push(name);
                        b.is_agg = true;
                        proof {
                            let st2 = g@;
                            assert(b.aggregates@.map_values(|a: (AggregateFunction, String)| (a.0, a.1@))
                                =~= st2.aggregates.push((agg0, b.cols@.last()@)));
                            assert(texts_of(b.cols@) =~= st2.cols.push(b.cols@.last()@));
                            st = ProjState {
                                aggregates: st2.aggregates.push((agg0, b.cols@.last()@)),
                                cols: st2.cols.push(b.cols@.last()@),
                                is_agg: true,
                                ..st2
                            };
                        }
                    },
                    Ok(None) => {
                        let g = plain_item(&mut b, Expression::FunctionCall(call), alias, i, Ghost(st));
                        proof {
                            st = g@;
                        }
                    },
                }
            },
            other => {
                let g = plain_item(&mut b, other, alias, i, Ghost(st));
                proof {
                    st = g@;
                }
            },
        }
        i = i + 1;
    }
    proof {
        assert(all.take(i as int) =~= all);
        assert(proj_fold(items@) == Ok::<ProjState, ErrorView>(st));
        assert(b.pre@.len() == st.pre.len());
    }
    if b.is_agg {
        let plan = if b.pre.len() > 0 {
            Plan::Project { input: Box::new(input), projections: b.pre }
        } else {
            input
        };
        let ghost plan_v = plan@;
        let result = Plan::Aggregate { input: Box::new(plan), group_by: b.group_by, aggregates: b.aggregates };
        proof {
            assert(result@ == (PlanView::Aggregate {
                input: Box::new(plan_v),
                group_by: texts_of(b.group_by@),
                aggregates: b.aggregates@.map_values(|a: (AggregateFunction, String)| (a.0, a.1@)),
            }));
        }
        Ok((result, b.cols))
    } else {
        let result = Plan::Project { input: Box::new(input), projections: b.pre };
        proof {
            assert(result@ == (PlanView::Project {
                input: Box::new(input_view),
                projections: b.pre@.map_values(|p: (String, Expression)| (p.0@, proj_expr(p.1))),
            }));
        }
        Ok((result, b.cols))
    }
}

/// The plan with the ORDER BY, SKIP and LIMIT of a clause added, each when given.
pub open spec fn order_skip_limit(p: PlanView, order_by: Option<OrderByClause>, skip: Option<u32>, limit: Option<u32>) -> PlanView {
    let p1 = match order_by {
        Some(o) => PlanView::OrderBy { input: Box::new(p), items: order_items(o.items@) },
        None => p,
    };
    let p2 = match skip {
        Some(k) => PlanView::Skip { input: Box::new(p1), skip: k },
        None => p1,
    };
    match limit {
        Some(l) => PlanView::Limit { input: Box::new(p2), limit: l },
        None => p2,
    }
}

/// The plan of a WITH clause over `input`: its projection, then its WHERE filter, ORDER BY,
/// SKIP and LIMIT, each when given.
pub open spec fn with_plan(input: PlanView, with: WithClause) -> core::result::Result<PlanView, ErrorView> {
    match projection(input, with.items@) {
        Err(e) => Err(e),
        Ok((p, _)) => {
            let filtered = match with.where_clause {
                Some(w) => PlanView::Filter { input: Box::new(p), predicate: w.expression },
                None => p,
            };
            Ok(order_skip_limit(filtered, with.order_by, with.skip, with.limit))
        },
    }
}

/// The plan and the output columns of a RETURN clause over `input`: its projection, then
/// ORDER BY, SKIP and LIMIT when given, and DISTINCT last.
pub open spec fn return_plan(input: PlanView, ret: ReturnClause) -> core::result::Result<(PlanView, Seq<Seq<char>>), ErrorView> {
    match projection(input, ret.items@) {
        Err(e) => Err(e),
        Ok((p, cols)) => {
            let q = order_skip_limit(p, ret.order_by, ret.skip, ret.limit);
            Ok((if ret.distinct { PlanView::Distinct { input: Box::new(q) } } else { q }, cols))
        },
    }
}

fn add_order_skip_limit(plan: Plan, order_by: Option<OrderByClause>, skip: Option<u32>, limit: Option<u32>) -> (r: Plan)
    ensures
        r@ == order_skip_limit(plan@, order_by, skip, limit),
{
    let ghost p0 = plan@;
    let mut plan = plan;
    match order_by {
        Some(o) => {
            let ghost o0 = o;
            let items = compile_order_by_items(o);
            match items {
                Ok(items) => {
                    plan = Plan::OrderBy { input: Box::new(plan), items };
                    proof {
                        assert(plan@ == (PlanView::OrderBy { input: Box::new(p0), items: order_items(o0.items@) }));
                    }
                },
                Err(_) => {},
            }
        },
        None => {},
    }
    let ghost p1 = plan@;
    match skip {
        Some(k) => {
            plan = Plan::Skip { input: Box::new(plan), skip: k };
            proof {
                assert(plan@ == (PlanView::Skip { input: Box::new(p1), skip: k }));
            }
        },
        None => {},
    }
    let ghost p2 = plan@;
    match limit {
        Some(l) => {
            plan = Plan::Limit { input: Box::new(plan), limit: l };
            proof {
                assert(plan@ == (PlanView::Limit { input: Box::new(p2), limit: l }));
            }
        },
        None => {},
    }
    plan
}

/// Plans a WITH clause over `input` (see `with_plan`).
pub fn compile_with_plan(input: Plan, with: WithClause) -> (r: Result<Plan>)
    ensures
        plan_result_matches(r, with_plan(input@, with)),
{
    let WithClause { items, where_clause, order_by, skip, limit } = with;
    let projected = compile_projection_aggregation(input, items);
    let mut plan = match projected {
        Ok((p, _)) => p,
        Err(e) => {
            return Err(e);
        },
    };
    match where_clause {
        Some(w) => {
            plan = Plan::Filter { input: Box::new(plan), predicate: w.expression };
        },
        None => {},
    }
    Ok(add_order_skip_limit(plan, order_by, skip, limit))
}

/// Plans a RETURN clause over `input` (see `return_plan`); returns the plan and the output
/// column names.
pub fn compile_return_plan(input: Plan, ret: ReturnClause) -> (r: Result<(Plan, Vec<String>)>)
    ensures
        pair_result_matches(r, return_plan(input@, ret)),
{
    let ReturnClause { distinct, items, order_by, skip, limit } = ret;
    let projected = compile_projection_aggregation(input, items);
    let (plan, cols) = match projected {
        Ok(pc) => pc,
        Err(e) => {
            return Err(e);
        },
    };
    let mut plan = add_order_skip_limit(plan, order_by, skip, limit);
    if distinct {
        plan = Plan::Distinct { input: Box::new(plan) };
    }
    Ok((plan, cols))
}

/// The property and value of `left = right` when `left` reads a property of `alias` and
/// `right` is a literal or a parameter.
pub open spec fn seek_operand(alias: Seq<char>, left: Expression, right: Expression) -> Option<(Seq<char>, Expression)> {
    match left {
        Expression::PropertyAccess(pa) => if pa.variable@ == alias {
            match right {
                Expression::Literal(_) | Expression::Parameter(_) => Some((pa.property@, right)),
                _ => None,
            }
        } else {
            None
        },
        _ => None,
    }
}

/// A filter of a labelled node scan by `n.prop = literal-or-parameter` (either way round)
/// becomes an index seek that falls back to the filtered scan; any other plan is kept.
pub open spec fn nodescan_optimized(p: PlanView) -> PlanView {
    match p {
        PlanView::Filter { input, predicate } => match *input {
            PlanView::NodeScan { alias, label: Some(l) } => match predicate {
                Expression::Binary(b) => if b.operator == BinaryOperator::Equals {
                    match seek_operand(alias, b.left, b.right) {
                        Some((f, v)) => PlanView::IndexSeek { alias, label: l, field: f, value_expr: v, fallback: Box::new(p) },
                        None => match seek_operand(alias, b.right, b.left) {
                            Some((f, v)) => PlanView::IndexSeek { alias, label: l, field: f, value_expr: v, fallback: Box::new(p) },
                            None => p,
                        },
                    }
                } else {
                    p
                },
                _ => p,
            },
            _ => p,
        },
        _ => p,
    }
}

fn seek_candidate(alias: &String, left: &Expression, right: &Expression) -> (r: Option<(String, Expression)>)
    ensures
        match seek_operand(alias@, *left, *right) {
            Some((f, v)) => r matches Some((f2, v2)) && f2@ == f && v2 == v,
            None => r is None,
        },
{
    match left {
        Expression::PropertyAccess(pa) => {
            if !str_equal(pa.variable.as_str(), alias.as_str()) {
                return None;
            }
            match right {
                Expression::Literal(l) => Some((pa.property.clone(), Expression::Literal(copy_literal(l)))),
                Expression::Parameter(p) => Some((pa.property.clone(), Expression::Parameter(p.clone()))),
                _ => None,
            }
        },
        _ => None,
    }
}

fn seek_of(plan: &Plan) -> (r: Option<(String, String, String, Expression)>)
    ensures
        match r {
            Some((a, l, f, v)) => nodescan_optimized(plan@) == (PlanView::IndexSeek {
                alias: a@,
                label: l@,
                field: f@,
                value_expr: v,
                fallback: Box::new(plan@),
            }),
            None => nodescan_optimized(plan@) == plan@,
        },
{
    match plan {
        Plan::Filter { input, predicate } => {
            proof {
                assert(plan@ == (PlanView::Filter { input: Box::new(plan_view(**input)), predicate: *predicate }));
            }
            match &**input {
                Plan::NodeScan { alias, label: Some(label) } => {
                    proof {
                        assert(plan_view(**input) == (PlanView::NodeScan { alias: alias@, label: Some(label@) }));
                    }
                    match predicate {
                        Expression::Binary(bin) => match bin.operator {
                            BinaryOperator::Equals => {
                                let first = seek_candidate(alias, &bin.left, &bin.right);
                                match first {
                                    Some((f, v)) => Some((alias.clone(), label.clone(), f, v)),
                                    None => match seek_candidate(alias, &bin.right, &bin.left) {
                                        Some((f, v)) => Some((alias.clone(), label.clone(), f, v)),
                                        None => None,
                                    },
                                }
                            },
                            _ => None,
                        },
                        _ => None,
                    }
                },
                Plan::NodeScan { alias, label: None } => {
                    proof {
                        assert(plan_view(**input) == (PlanView::NodeScan { alias: alias@, label: None }));
                    }
                    None
                },
                _ => None,
            }
        },
        _ => None,
    }
}

/// Rewrites a filtered node scan into an index seek where it can (see
/// `nodescan_optimized`); the second argument is not used.
pub fn try_optimize_nodescan_filter(plan: Plan, _predicate: Expression) -> (r: Plan)
    ensures
        r@ == nodescan_optimized(plan@),
{
    let found = seek_of(&plan);
    match found {
        Some((alias, label, field, value_expr)) => Plan::IndexSeek {
            alias,
            label,
            field,
            value_expr,
            fallback: Box::new(plan),
        },
        None => plan,
    }
}


/// The least key of a map in the order of sorted string keys.
pub open spec fn min_key(m: Map<Seq<char>, Expression>) -> Seq<char> {
    choose|k: Seq<char>| m.contains_key(k) && forall|k2: Seq<char>| #[trigger] m.contains_key(k2) ==> !seq_less(k2, k)
}

/// A key that no other key precedes is the least key.
proof fn lemma_min_key_unique(m: Map<Seq<char>, Expression>, k: Seq<char>)
    requires
        m.contains_key(k),
        forall|k2: Seq<char>| #[trigger] m.contains_key(k2) ==> !seq_less(k2, k),
    ensures
        min_key(m) == k,
{
    let c = min_key(m);
    assert(m.contains_key(c) && forall|k2: Seq<char>| #[trigger] m.contains_key(k2) ==> !seq_less(k2, c));
    lemma_seq_less_order(c, k, k);
}

/// The predicates with the inline properties of a node added.
pub open spec fn with_inline(preds: PredModel, alias: Seq<char>, props: Option<PropertyMap>) -> PredModel {
    match props {
        Some(p) => apply_inserts(preds, prop_inserts(alias, p.properties@)),
        None => preds,
    }
}

/// The plan that finds the start node `alias`: with a label and a predicate on it, an index
/// seek on the predicate of the least property name (falling back to the scan); otherwise a
/// node scan.
pub open spec fn start_plan(alias: Seq<char>, label: Option<Seq<char>>, m: Map<Seq<char>, Expression>) -> PlanView {
    match label {
        Some(l) => if m == Map::<Seq<char>, Expression>::empty() {
            PlanView::NodeScan { alias, label }
        } else {
            PlanView::IndexSeek {
                alias,
                label: l,
                field: min_key(m),
                value_expr: m[min_key(m)],
                fallback: Box::new(PlanView::NodeScan { alias, label }),
            }
        },
        None => PlanView::NodeScan { alias, label },
    }
}

/// The first label of a node, if any.
pub open spec fn first_label(n: NodePattern) -> Option<Seq<char>> {
    if n.labels@.len() > 0 { Some(n.labels@[0]@) } else { None }
}

fn first_label_of(labels: &Vec<String>) -> (r: Option<String>)
    ensures
        opt_text(r) == if labels@.len() > 0 { Some(labels@[0]@) } else { None },
{
    if labels.len() > 0 {
        Some(labels[0].clone())
    } else {
        None
    }
}

fn plan_start(alias: String, label: Option<String>, preds: Predicates) -> (r: Plan)
    requires
        preds_wf(&preds),
    ensures
        r@ == start_plan(alias@, opt_text(label), preds_of(preds_model(&preds), alias@)),
{
    let ghost m = preds_of(preds_model(&preds), alias@);
    match label {
        None => Plan::NodeScan { alias, label: None },
        Some(l) => {
            let mut p = preds;
            let inner = p.remove(alias.as_str());
            match inner {
                None => {
                    proof {
                        assert(m == Map::<Seq<char>, Expression>::empty());
                    }
                    Plan::NodeScan { alias, label: Some(l) }
                },
                Some(im) => {
                    proof {
                        assert(im@ == m);
                    }
                    let first = im.into_first();
                    match first {
                        None => {
                            proof {
                                assert(m == Map::<Seq<char>, Expression>::empty());
                            }
                            Plan::NodeScan { alias, label: Some(l) }
                        },
                        Some((field, value_expr)) => {
                            proof {
                                lemma_min_key_unique(m, field@);
                                assert(m != Map::<Seq<char>, Expression>::empty()) by {
                                    assert(m.contains_key(field@));
                                }
                            }
                            let fb = Plan::NodeScan { alias: alias.clone(), label: Some(l.clone()) };
                            proof {
                                assert(fb@ == (PlanView::NodeScan { alias: alias@, label: Some(l@) }));
                            }
                            let r = Plan::IndexSeek { alias, label: l, field, value_expr, fallback: Box::new(fb) };
                            proof {
                                assert(m.contains_key(field@));
                                assert(min_key(m) == field@);
                                assert(m[min_key(m)] == value_expr);
                                assert(m != Map::<Seq<char>, Expression>::empty());
                                assert(r@ == start_plan(alias@, Some(l@), m));
                            }
                            r
                        },
                    }
                },
            }
        },
    }
}


pub open spec fn anonymous_node() -> ErrorView {
    ErrorView::NotImplemented("anonymous node"@)
}

/// The start of a hop: the plan given, or, at the start of a query, the plan that finds
/// the start node when it has inline properties (nothing otherwise).
pub open spec fn hop_input(input: Option<PlanView>, src: NodePattern, src_alias: Seq<char>, preds: PredModel) -> Option<PlanView> {
    match input {
        Some(p) => Some(p),
        None => if src.properties is Some {
            Some(start_plan(src_alias, first_label(src), preds_of(with_inline(preds, src_alias, src.properties), src_alias)))
        } else {
            None
        },
    }
}

/// The plan of a single outgoing hop `(src)-[rel]->(dst)`.
pub open spec fn hop_plan(
    input: Option<PlanView>,
    src: NodePattern,
    rel: RelationshipPattern,
    dst: NodePattern,
    optional: bool,
    preds: PredModel,
) -> core::result::Result<PlanView, ErrorView> {
    match src.variable {
        None => Err(anonymous_node()),
        Some(sa) => match dst.variable {
            None => Err(anonymous_node()),
            Some(da) => {
                let eff = hop_input(input, src, sa@, preds);
                if src.properties is Some && (eff matches Some(p) && !(p is IndexSeek || p is NodeScan)) {
                    Err(ErrorView::NotImplemented(
                        "Properties on start node only supported at start of query (chained match properties not supported)"@,
                    ))
                } else if rel.direction != RelationshipDirection::LeftToRight {
                    Err(ErrorView::NotImplemented("only -> direction in v2 M3"@))
                } else {
                    let boxed = match eff {
                        Some(p) => Some(Box::new(p)),
                        None => None,
                    };
                    let first_rel = if rel.types@.len() > 0 { Some(rel.types@[0]@) } else { None };
                    match rel.variable_length {
                        Some(vl) => {
                            let min = match vl.min {
                                Some(x) => x,
                                None => 1u32,
                            };
                            if min == 0 {
                                Err(ErrorView::NotImplemented("0-length variable-length paths in v2 M3"@))
                            } else if (vl.max matches Some(mx) && mx < min) {
                                Err(ErrorView::Other("invalid variable-length range: max < min"@))
                            } else {
                                Ok(PlanView::MatchOutVarLen {
                                    input: boxed,
                                    src_alias: sa@,
                                    rel: first_rel,
                                    edge_alias: opt_text(rel.variable),
                                    dst_alias: da@,
                                    min_hops: min,
                                    max_hops: vl.max,
                                    limit: None,
                                    project: Seq::empty(),
                                    project_external: false,
                                    optional,
                                })
                            }
                        },
                        None => Ok(PlanView::MatchOut {
                            input: boxed,
                            src_alias: sa@,
                            rel: first_rel,
                            edge_alias: opt_text(rel.variable),
                            dst_alias: da@,
                            limit: None,
                            project: Seq::empty(),
                            project_external: false,
                            optional,
                        }),
                    }
                }
            },
        },
    }
}

/// The plan of a MATCH clause after `input`, using the equality predicates `preds` of its
/// WHERE clause: a single node (only at the start of a query) or a single hop.
pub open spec fn match_plan(input: Option<PlanView>, m: MatchClause, preds: PredModel) -> core::result::Result<PlanView, ErrorView> {
    let els = m.pattern.elements@;
    if els.len() == 1 {
        if input is Some {
            Err(ErrorView::NotImplemented("Multiple disconnected MATCH clauses not supported (Cartesian product) in v2 M3"@))
        } else {
            match els[0] {
                PathElement::Node(n) => match n.variable {
                    None => Err(anonymous_node()),
                    Some(a) => Ok(start_plan(a@, first_label(n), preds_of(with_inline(preds, a@, n.properties), a@))),
                },
                _ => Err(ErrorView::Other("pattern must be a node"@)),
            }
        }
    } else if els.len() == 3 {
        match els[0] {
            PathElement::Node(src) => match els[1] {
                PathElement::Relationship(rel) => match els[2] {
                    PathElement::Node(dst) => hop_plan(input, src, rel, dst, m.optional, preds),
                    _ => Err(ErrorView::Other("pattern must end with node"@)),
                },
                _ => Err(ErrorView::Other("expected relationship in middle"@)),
            },
            _ => Err(ErrorView::Other("pattern must start with node"@)),
        }
    } else {
        Err(ErrorView::NotImplemented("pattern length must be 1 or 3 in v2 M3"@))
    }
}

pub open spec fn opt_plan_view(p: Option<Plan>) -> Option<PlanView> {
    match p {
        Some(x) => Some(x@),
        None => None,
    }
}

pub open spec fn plan_result_matches(r: Result<Plan>, expected: core::result::Result<PlanView, ErrorView>) -> bool {
    match expected {
        Ok(p) => r matches Ok(x) && x@ == p,
        Err(e) => r matches Err(x) && x@ == e,
    }
}

fn start_with_inline(alias: &String, labels: &Vec<String>, properties: Option<PropertyMap>, preds: Predicates) -> (r: Plan)
    requires
        preds_wf(&preds),
    ensures
        r@ == start_plan(alias@, if labels@.len() > 0 { Some(labels@[0]@) } else { None },
            preds_of(with_inline(preds_model(&preds), alias@, properties), alias@)),
{
    let mut local = preds;
    extend_predicates_from_properties(alias, properties, &mut local);
    let label = first_label_of(labels);
    plan_start(alias.clone(), label, local)
}

fn compile_hop(
    input: Option<Plan>,
    src: NodePattern,
    rel_pat: RelationshipPattern,
    dst: NodePattern,
    optional: bool,
    predicates: Predicates,
) -> (r: Result<Plan>)
    requires
        preds_wf(&predicates),
    ensures
        plan_result_matches(r, hop_plan(opt_plan_view(input), src, rel_pat, dst, optional, preds_model(&predicates))),
{
    let ghost src0 = src;
    let ghost input_view = opt_plan_view(input);
    let ghost pm = preds_model(&predicates);
    let src_alias = match &src.variable {
        Some(a) => a.clone(),
        None => {
            return Err(Error::not_implemented("anonymous node"));
        },
    };
    let dst_alias = match dst.variable {
        Some(a) => a,
        None => {
            return Err(Error::not_implemented("anonymous node"));
        },
    };
    let NodePattern { variable: _, labels: src_labels, properties: src_props } = src;
    let has_props = src_props.is_some();
    let effective_input: Option<Plan> = match input {
        Some(p) => Some(p),
        None => {
            if has_props {
                Some(start_with_inline(&src_alias, &src_labels, src_props, predicates))
            } else {
                None
            }
        },
    };
    proof {
        assert(opt_plan_view(effective_input) == hop_input(input_view, src0, src_alias@, pm));
    }
    if has_props {
        let bad = match &effective_input {
            Some(Plan::IndexSeek { .. }) => false,
            Some(Plan::NodeScan { .. }) => false,
            Some(_) => true,
            None => false,
        };
        if bad {
            return Err(Error::not_implemented(
                "Properties on start node only supported at start of query (chained match properties not supported)",
            ));
        }
    }
    match rel_pat.direction {
        RelationshipDirection::LeftToRight => {},
        _ => {
            return Err(Error::not_implemented("only -> direction in v2 M3"));
        },
    }
    let rel = first_label_of(&rel_pat.types);
    let edge_alias = rel_pat.variable;
    let boxed: Option<Box<Plan>> = match effective_input {
        Some(p) => Some(Box::new(p)),
        None => None,
    };
    match rel_pat.variable_length {
        Some(var_len) => {
            let min_hops: u32 = match var_len.min {
                Some(x) => x,
                None => 1,
            };
            let max_hops = var_len.max;
            if min_hops == 0 {
                return Err(Error::not_implemented("0-length variable-length paths in v2 M3"));
            }
            match max_hops {
                Some(max) => {
                    if max < min_hops {
                        return Err(Error::other_from("invalid variable-length range: max < min"));
                    }
                },
                None => {},
            }
            let r = Plan::MatchOutVarLen {
                input: boxed,
                src_alias,
                rel,
                edge_alias,
                dst_alias,
                min_hops,
                max_hops,
                limit: None,
                project: Vec::new(),
                project_external: false,
                optional,
            };
            proof {
                assert(texts(Seq::<String>::empty()) =~= Seq::<Seq<char>>::empty());
            }
            Ok(r)
        },
        None => {
            let r = Plan::MatchOut {
                input: boxed,
                src_alias,
                rel,
                edge_alias,
                dst_alias,
                limit: None,
                project: Vec::new(),
                project_external: false,
                optional,
            };
            proof {
                assert(texts(Seq::<String>::empty()) =~= Seq::<Seq<char>>::empty());
            }
            Ok(r)
        },
    }
}

/// Plans a MATCH clause (see `match_plan`), taking the predicates of the WHERE clause that
/// follows it.
pub fn compile_match_plan(input: Option<Plan>, m: MatchClause, predicates: Predicates) -> (r: Result<Plan>)
    requires
        preds_wf(&predicates),
    ensures
        plan_result_matches(r, match_plan(opt_plan_view(input), m, preds_model(&predicates))),
{
    let MatchClause { optional, pattern } = m;
    let mut elements = pattern.elements;
    if elements.len() == 1 {
        if input.is_some() {
            return Err(Error::not_implemented(
                "Multiple disconnected MATCH clauses not supported (Cartesian product) in v2 M3",
            ));
        }
        let el = elements.remove(0);
        match el {
            PathElement::Node(node) => {
                let alias = match &node.variable {
                    Some(a) => a.clone(),
                    None => {
                        return Err(Error::not_implemented("anonymous node"));
                    },
                };
                let NodePattern { variable: _, labels, properties } = node;
                Ok(start_with_inline(&alias, &labels, properties, predicates))
            },
            _ => Err(Error::other_from("pattern must be a node")),
        }
    } else if elements.len() == 3 {
        let first = elements.remove(0);
        let middle = elements.remove(0);
        let last = elements.remove(0);
        match first {
            PathElement::Node(src) => match middle {
                PathElement::Relationship(rel_pat) => match last {
                    PathElement::Node(dst) => compile_hop(input, src, rel_pat, dst, optional, predicates),
                    _ => Err(Error::other_from("pattern must end with node")),
                },
                _ => Err(Error::other_from("expected relationship in middle")),
            },
            _ => Err(Error::other_from("pattern must start with node")),
        }
    } else {
        Err(Error::not_implemented("pattern length must be 1 or 3 in v2 M3"))
    }
}


/// How a write query applies its writes.
#[derive(Debug, Clone, Copy, PartialEq, Eq, Structural)]
pub enum WriteSemantics {
    Default,
    Merge,
}

/// A compiled query: its plan and how its writes apply.
#[derive(Debug)]
pub struct CompiledQuery {
    pub plan: Plan,
    pub write: WriteSemantics,
}

/// The planner's state between clauses: the plan so far (none before the first clause that
/// produces rows) and the write semantics.
pub struct M3State {
    pub plan: Option<PlanView>,
    pub write: WriteSemantics,
}

/// The outcome of one clause: go on, finish with a plan, or fail.
pub enum M3Step {
    Continue(M3State),
    Done(PlanView, WriteSemantics),
    Fail(ErrorView),
}

/// The equality predicates that a WHERE clause right after position `i` gives.
pub open spec fn where_preds_after(clauses: Seq<Clause>, i: int) -> PredModel {
    if i + 1 < clauses.len() {
        match clauses[i + 1] {
            Clause::Where(w) => apply_inserts(Map::empty(), pred_inserts(w.expression)),
            _ => Map::empty(),
        }
    } else {
        Map::empty()
    }
}

pub open spec fn boxed_or_one(p: Option<PlanView>) -> PlanView {
    match p {
        Some(x) => x,
        None => PlanView::ReturnOne,
    }
}

/// Continues with `p` as the plan, or fails.
pub open spec fn continue_with(st: M3State, r: core::result::Result<PlanView, ErrorView>) -> M3Step {
    match r {
        Ok(p) => M3Step::Continue(M3State { plan: Some(p), ..st }),
        Err(e) => M3Step::Fail(e),
    }
}

/// The plan of the query that the clauses from position `i` on complete, from state `st`.
pub open spec fn m3_from(clauses: Seq<Clause>, i: int, st: M3State) -> core::result::Result<(PlanView, WriteSemantics), ErrorView>
    decreases clauses, clauses.len() - i,
{
    if i < 0 || i >= clauses.len() {
        match st.plan {
            Some(p) => Ok((p, st.write)),
            None => Err(ErrorView::NotImplemented("Empty query"@)),
        }
    } else {
        let step = match clauses[i] {
            Clause::Match(m) => continue_with(st, match_plan(st.plan, m, where_preds_after(clauses, i))),
            Clause::Where(w) => match st.plan {
                None => M3Step::Fail(ErrorView::Other("WHERE cannot be the first clause"@)),
                Some(p) => M3Step::Continue(M3State { plan: Some(PlanView::Filter { input: Box::new(p), predicate: w.expression }), ..st }),
            },
            Clause::With(w) => match st.plan {
                None => M3Step::Fail(ErrorView::Other("WITH cannot be the first clause"@)),
                Some(p) => continue_with(st, with_plan(p, w)),
            },
            Clause::Return(r) => match return_plan(boxed_or_one(st.plan), r) {
                Err(e) => M3Step::Fail(e),
                Ok((p, _)) => if i + 1 < clauses.len() {
                    if clauses[i + 1] is Union {
                        M3Step::Continue(M3State { plan: Some(p), ..st })
                    } else {
                        M3Step::Fail(ErrorView::NotImplemented("Clauses after RETURN are not supported"@))
                    }
                } else {
                    M3Step::Done(p, st.write)
                },
            },
            Clause::Create(c) => match st.plan {
                None => match create_error(c.pattern) {
                    Some(e) => M3Step::Fail(e),
                    None => M3Step::Continue(M3State { plan: Some(PlanView::Create { pattern: c.pattern }), ..st }),
                },
                Some(_) => M3Step::Fail(ErrorView::NotImplemented("Chained CREATE not supported yet (v2 M3)"@)),
            },
            Clause::Merge(m) => match st.plan {
                None => match merge_error(m.pattern) {
                    Some(e) => M3Step::Fail(e),
                    None => M3Step::Continue(M3State { plan: Some(PlanView::Create { pattern: m.pattern }), write: WriteSemantics::Merge }),
                },
                Some(_) => M3Step::Fail(ErrorView::NotImplemented("Chained MERGE not supported yet"@)),
            },
            Clause::SetProps(set) => match st.plan {
                None => M3Step::Fail(ErrorView::Other("SET need input"@)),
                Some(p) => M3Step::Continue(M3State {
                    plan: Some(PlanView::SetProperty { input: Box::new(p), items: set_items(set.items@) }),
                    ..st
                }),
            },
            Clause::Remove(rm) => match st.plan {
                None => M3Step::Fail(ErrorView::Other("REMOVE need input"@)),
                Some(p) => M3Step::Continue(M3State {
                    plan: Some(PlanView::RemoveProperty { input: Box::new(p), items: remove_items(rm.properties@) }),
                    ..st
                }),
            },
            Clause::Delete(d) => match st.plan {
                None => M3Step::Fail(ErrorView::Other("DELETE need input"@)),
                Some(p) => M3Step::Continue(M3State {
                    plan: Some(PlanView::Delete { input: Box::new(p), detach: d.detach, expressions: d.expressions@ }),
                    ..st
                }),
            },
            Clause::Unwind(u) => M3Step::Continue(M3State {
                plan: Some(PlanView::Unwind { input: Box::new(boxed_or_one(st.plan)), expression: u.expression, alias: u.alias@ }),
                ..st
            }),
            Clause::Call(_) => M3Step::Fail(ErrorView::NotImplemented("CALL in v2 M3"@)),
            Clause::Foreach(_) => M3Step::Fail(ErrorView::NotImplemented("FOREACH in v2 M3"@)),
            Clause::Union(u) => match st.plan {
                None => M3Step::Fail(ErrorView::Other("UNION requires left query part"@)),
                Some(left) => match m3_from(u.query.clauses@, 0, M3State { plan: None, write: WriteSemantics::Default }) {
                    Err(e) => M3Step::Fail(e),
                    Ok((right, _)) => M3Step::Continue(M3State {
                        plan: Some(PlanView::Union { left: Box::new(left), right: Box::new(right), all: u.all }),
                        ..st
                    }),
                },
            },
        };
        match step {
            M3Step::Continue(next) => m3_from(clauses, i + 1, next),
            M3Step::Done(p, w) => Ok((p, w)),
            M3Step::Fail(e) => Err(e),
        }
    }
}

/// The plan of a whole query and its write semantics (see `m3_from`).
pub open spec fn m3_plan(q: Query) -> core::result::Result<(PlanView, WriteSemantics), ErrorView> {
    m3_from(q.clauses@, 0, M3State { plan: None, write: WriteSemantics::Default })
}


pub open spec fn compiled_matches(r: Result<CompiledQuery>, expected: core::result::Result<(PlanView, WriteSemantics), ErrorView>) -> bool {
    match expected {
        Ok((p, w)) => r matches Ok(c) && c.plan@ == p && c.write == w,
        Err(e) => r matches Err(x) && x@ == e,
    }
}

fn plan_or_return_one(plan: Option<Plan>) -> (r: Plan)
    ensures
        r@ == boxed_or_one(opt_plan_view(plan)),
{
    match plan {
        Some(p) => p,
        None => Plan::ReturnOne,
    }
}

/// Compiles a query into a plan (see `m3_plan`): the clauses are planned in turn, each on
/// top of the plan so far; a MATCH uses the equality predicates of a WHERE that follows it;
/// a RETURN ends the query unless a UNION follows.
pub fn compile_m3_plan(query: Query) -> (r: Result<CompiledQuery>)
    ensures
        compiled_matches(r, m3_plan(query)),
    decreases query,
{
    let ghost all = query.clauses@;
    let ghost q0 = query;
    let mut clauses = query.clauses;
    let mut plan: Option<Plan> = None;
    let mut write = WriteSemantics::Default;
    let mut i: usize = 0;
    let n = clauses.len();
    proof {
        assert(all.skip(0) =~= all);
    }
    while clauses.len() > 0
        invariant
            i <= all.len(),
            n == all.len(),
            all == q0.clauses@,
            q0 == query,
            clauses@ == all.skip(i as int),
            m3_plan(q0) == m3_from(all, i as int, M3State { plan: opt_plan_view(plan), write }),
        decreases clauses@.len(),
    {
        let ghost before = clauses@;
        let ghost st = M3State { plan: opt_plan_view(plan), write };
        let clause = clauses.remove(0);
        proof {
            assert(i < all.len());
            assert(clause == all[i as int]);
            assert(clauses@ =~= all.skip(i + 1));
            assert(i + 1 < all.len() ==> clauses@[0] == all[i + 1]);
            assert(clauses@.len() > 0 <==> i + 1 < all.len());
        }
        match clause {
            Clause::Match(m) => {
                let mut preds: Predicates = StrMap::new();
                proof {
                    assert(preds_model(&preds) =~= Map::<Seq<char>, Map<Seq<char>, Expression>>::empty());
                }
                if clauses.len() > 0 {
                    match &clauses[0] {
                        Clause::Where(w) => {
                            extract_predicates(&w.expression, &mut preds);
                        },
                        _ => {},
                    }
                }
                proof {
                    assert(preds_model(&preds) == where_preds_after(all, i as int));
                }
                let compiled = compile_match_plan(plan, m, preds);
                match compiled {
                    Ok(p) => {
                        plan = Some(p);
                    },
                    Err(e) => {
                        return Err(e);
                    },
                }
            },
            Clause::Where(w) => {
                match plan {
                    None => {
                        return Err(Error::other_from("WHERE cannot be the first clause"));
                    },
                    Some(p) => {
                        plan = Some(Plan::Filter { input: Box::new(p), predicate: w.expression });
                    },
                }
            },
            Clause::With(w) => {
                match plan {
                    None => {
                        return Err(Error::other_from("WITH cannot be the first clause"));
                    },
                    Some(p) => {
                        let compiled = compile_with_plan(p, w);
                        match compiled {
                            Ok(p2) => {
                                plan = Some(p2);
                            },
                            Err(e) => {
                                return Err(e);
                            },
                        }
                    },
                }
            },
            Clause::Return(ret) => {
                let input = plan_or_return_one(plan);
                let compiled = compile_return_plan(input, ret);
                match compiled {
                    Err(e) => {
                        return Err(e);
                    },
                    Ok((p, _)) => {
                        if clauses.len() > 0 {
                            let union_next = match &clauses[0] {
                                Clause::Union(_) => true,
                                _ => false,
                            };
                            if !union_next {
                                return Err(Error::not_implemented("Clauses after RETURN are not supported"));
                            }
                            plan = Some(p);
                        } else {
                            return Ok(CompiledQuery { plan: p, write });
                        }
                    },
                }
            },
            Clause::Create(c) => {
                if plan.is_none() {
                    let compiled = compile_create_plan(c);
                    match compiled {
                        Ok(p) => {
                            plan = Some(p);
                        },
                        Err(e) => {
                            return Err(e);
                        },
                    }
                } else {
                    return Err(Error::not_implemented("Chained CREATE not supported yet (v2 M3)"));
                }
            },
            Clause::Merge(mc) => {
                write = WriteSemantics::Merge;
                if plan.is_none() {
                    let compiled = compile_merge_plan(mc);
                    match compiled {
                        Ok(p) => {
                            plan = Some(p);
                        },
                        Err(e) => {
                            return Err(e);
                        },
                    }
                } else {
                    return Err(Error::not_implemented("Chained MERGE not supported yet"));
                }
            },
            Clause::SetProps(set) => {
                match plan {
                    None => {
                        return Err(Error::other_from("SET need input"));
                    },
                    Some(p) => {
                        let compiled = compile_set_plan_v2(p, set);
                        match compiled {
                            Ok(p2) => {
                                plan = Some(p2);
                            },
                            Err(e) => {
                                return Err(e);
                            },
                        }
                    },
                }
            },
            Clause::Remove(rm) => {
                match plan {
                    None => {
                        return Err(Error::other_from("REMOVE need input"));
                    },
                    Some(p) => {
                        let compiled = compile_remove_plan_v2(p, rm);
                        match compiled {
                            Ok(p2) => {
                                plan = Some(p2);
                            },
                            Err(e) => {
                                return Err(e);
                            },
                        }
                    },
                }
            },
            Clause::Delete(d) => {
                match plan {
                    None => {
                        return Err(Error::other_from("DELETE need input"));
                    },
                    Some(p) => {
                        let compiled = compile_delete_plan_v2(p, d);
                        match compiled {
                            Ok(p2) => {
                                plan = Some(p2);
                            },
                            Err(e) => {
                                return Err(e);
                            },
                        }
                    },
                }
            },
            Clause::Unwind(u) => {
                let input = plan_or_return_one(plan);
                plan = Some(compile_unwind_plan(input, u));
            },
            Clause::Call(_) => {
                return Err(Error::not_implemented("CALL in v2 M3"));
            },
            Clause::Foreach(_) => {
                return Err(Error::not_implemented("FOREACH in v2 M3"));
            },
            Clause::Union(u) => {
                match plan {
                    None => {
                        return Err(Error::other_from("UNION requires left query part"));
                    },
                    Some(left) => {
                        proof {
                            assert(decreases_to!(q0 => q0.clauses));
                            assert(decreases_to!(q0.clauses => q0.clauses@));
                            assert(decreases_to!(all => all[i as int]));
                        }
                        let right = compile_m3_plan(u.query);
                        match right {
                            Err(e) => {
                                return Err(e);
                            },
                            Ok(c) => {
                                plan = Some(Plan::Union { left: Box::new(left), right: Box::new(c.plan), all: u.all });
                            },
                        }
                    },
                }
            },
        }
        i = i + 1;
    }
    match plan {
        Some(p) => Ok(CompiledQuery { plan: p, write }),
        None => Err(Error::not_implemented("Empty query")),
    }
}

/// The value of a predicate that the planner can seek by: a literal or a parameter.
pub open spec fn is_constant(e: Expression) -> bool {
    e is Literal || e is Parameter
}

/// Every predicate value is a literal or a parameter.
pub open spec fn all_constant(m: PredModel) -> bool {
    forall|v: Seq<char>, k: Seq<char>| #[trigger] m.contains_key(v) && m[v].contains_key(k) ==> is_constant(#[trigger] m[v][k])
}

proof fn lemma_inserts_constant(m: PredModel, ins: Seq<(Seq<char>, Seq<char>, Expression)>)
    requires
        all_constant(m),
        forall|i: int| 0 <= i < ins.len() ==> is_constant(#[trigger] ins[i].2),
    ensures
        all_constant(apply_inserts(m, ins)),
    decreases ins.len(),
{
    if ins.len() > 0 {
        let m1 = insert_pred(m, ins[0].0, ins[0].1, ins[0].2);
        assert(all_constant(m1)) by {
            assert forall|v: Seq<char>, k: Seq<char>| #[trigger] m1.contains_key(v) && m1[v].contains_key(k) implies is_constant(#[trigger] m1[v][k]) by {
                if v == ins[0].0 && k != ins[0].1 {
                    assert(m1[v][k] == preds_of(m, v)[k]);
                }
            }
        }
        assert forall|i: int| 0 <= i < ins.drop_first().len() implies is_constant(#[trigger] ins.drop_first()[i].2) by {
            assert(ins.drop_first()[i] == ins[i + 1]);
        }
        lemma_inserts_constant(m1, ins.drop_first());
    }
}

proof fn lemma_pred_inserts_constant(e: Expression)
    ensures
        forall|i: int| 0 <= i < pred_inserts(e).len() ==> is_constant(#[trigger] pred_inserts(e)[i].2),
    decreases e,
{
    match e {
        Expression::Binary(b) => {
            if b.operator == BinaryOperator::And {
                lemma_pred_inserts_constant(b.left);
                lemma_pred_inserts_constant(b.right);
                let l = pred_inserts(b.left);
                let r = pred_inserts(b.right);
                assert forall|i: int| 0 <= i < (l + r).len() implies is_constant(#[trigger] (l + r)[i].2) by {
                    if i < l.len() {
                        assert((l + r)[i] == l[i]);
                    } else {
                        assert((l + r)[i] == r[i - l.len()]);
                    }
                }
            } else if b.operator == BinaryOperator::Equals {
                let l = eq_operand(b.left, b.right);
                let r = eq_operand(b.right, b.left);
                assert forall|i: int| 0 <= i < (l + r).len() implies is_constant(#[trigger] (l + r)[i].2) by {
                    if i < l.len() {
                        assert((l + r)[i] == l[i]);
                    } else {
                        assert((l + r)[i] == r[i - l.len()]);
                    }
                }
            }
        },
        _ => {},
    }
}

/// The predicates that a WHERE clause gives are constants (literals or parameters): the
/// planner never seeks by an expression that depends on the row.
pub proof fn law_where_predicates_are_constants(e: Expression)
    ensures
        all_constant(apply_inserts(Map::empty(), pred_inserts(e))),
{
    lemma_pred_inserts_constant(e);
    lemma_inserts_constant(Map::empty(), pred_inserts(e));
}

/// A finite set of keys that is not empty has a least key.
proof fn lemma_least_key_exists(m: Map<Seq<char>, Expression>)
    requires
        m.dom().finite(),
        m.dom().len() > 0,
    ensures
        exists|k: Seq<char>| m.contains_key(k) && forall|k2: Seq<char>| #[trigger] m.contains_key(k2) ==> !seq_less(k2, k),
    decreases m.dom().len(),
{
    let x = m.dom().choose();
    let rest = m.remove(x);
    assert(rest.dom() =~= m.dom().remove(x));
    if rest.dom().len() == 0 {
        assert forall|k2: Seq<char>| #[trigger] m.contains_key(k2) implies !seq_less(k2, x) by {
            if k2 != x {
                assert(rest.dom().contains(k2));
            }
            lemma_seq_less_order(k2, k2, k2);
        }
    } else {
        lemma_least_key_exists(rest);
        let y = choose|k: Seq<char>| rest.contains_key(k) && forall|k2: Seq<char>| #[trigger] rest.contains_key(k2) ==> !seq_less(k2, k);
        if seq_less(x, y) {
            assert forall|k2: Seq<char>| #[trigger] m.contains_key(k2) implies !seq_less(k2, x) by {
                lemma_seq_less_order(k2, x, y);
                lemma_seq_less_order(x, x, x);
                if k2 != x {
                    assert(rest.contains_key(k2));
                }
            }
        } else {
            assert forall|k2: Seq<char>| #[trigger] m.contains_key(k2) implies !seq_less(k2, y) by {
                if k2 == x {
                    lemma_seq_less_order(x, y, x);
                } else {
                    assert(rest.contains_key(k2));
                }
            }
        }
    }
}

/// An index seek that starts a match falls back to a scan of the same label under the same
/// alias, and seeks by a property that has a predicate, with that predicate's value.
pub proof fn law_start_seek_falls_back_to_scan(alias: Seq<char>, label: Option<Seq<char>>, m: Map<Seq<char>, Expression>)
    requires
        m.dom().finite(),
        start_plan(alias, label, m) is IndexSeek,
    ensures
        start_plan(alias, label, m) matches PlanView::IndexSeek { alias: a, label: l, field, value_expr, fallback }
            && a == alias && label == Some(l) && m.contains_key(field) && value_expr == m[field]
            && *fallback == (PlanView::NodeScan { alias, label }),
{
    assert(m != Map::<Seq<char>, Expression>::empty());
    if m.dom().len() == 0 {
        assert(m.dom() =~= Set::<Seq<char>>::empty());
        assert(m =~= Map::<Seq<char>, Expression>::empty());
    }
    lemma_least_key_exists(m);
}


// ---------------------------------------------------------------------------------------
// SKIP and LIMIT
// ---------------------------------------------------------------------------------------

/// With both SKIP `k` and LIMIT `l`, the LIMIT operator is the parent of the SKIP operator,
/// which sits on the plan as it is without them: the rows that come out are rows `k + 1` to
/// `k + l` of what lies beneath, not the first `l` rows with `k` of them then dropped.
pub proof fn law_limit_applies_after_skip(p: PlanView, order_by: Option<OrderByClause>, k: u32, l: u32)
    ensures
        order_skip_limit(p, order_by, Some(k), Some(l)) == (PlanView::Limit {
            input: Box::new(PlanView::Skip { input: Box::new(order_skip_limit(p, order_by, None, None)), skip: k }),
            limit: l,
        }),
        order_skip_limit(p, order_by, Some(k), None) == (PlanView::Skip {
            input: Box::new(order_skip_limit(p, order_by, None, None)),
            skip: k,
        }),
        order_skip_limit(p, order_by, None, Some(l)) == (PlanView::Limit {
            input: Box::new(order_skip_limit(p, order_by, None, None)),
            limit: l,
        }),
{
}

/// The plan of a RETURN clause with both SKIP `k` and LIMIT `l` (and no DISTINCT) ends in a
/// LIMIT `l` over a SKIP `k`.
pub proof fn law_return_skip_then_limit(input: PlanView, ret: ReturnClause, k: u32, l: u32)
    requires
        !ret.distinct,
        ret.skip == Some(k),
        ret.limit == Some(l),
        return_plan(input, ret) is Ok,
    ensures
        return_plan(input, ret)->Ok_0.0 matches PlanView::Limit { input: lim_in, limit } && limit == l
            && (*lim_in matches PlanView::Skip { skip, .. } && skip == k),
{
}

/// The plan of a WITH clause with both SKIP `k` and LIMIT `l` ends in a LIMIT `l` over a
/// SKIP `k`.
pub proof fn law_with_skip_then_limit(input: PlanView, with: WithClause, k: u32, l: u32)
    requires
        with.skip == Some(k),
        with.limit == Some(l),
        with_plan(input, with) is Ok,
    ensures
        with_plan(input, with)->Ok_0 matches PlanView::Limit { input: lim_in, limit } && limit == l
            && (*lim_in matches PlanView::Skip { skip, .. } && skip == k),
{
}

// ---------------------------------------------------------------------------------------
// Seek predicates
// ---------------------------------------------------------------------------------------

/// `c` is a conjunct of `e`: `e` itself, or a conjunct of either side of an AND.
pub open spec fn is_conjunct(c: Expression, e: Expression) -> bool
    decreases e,
{
    c == e || match e {
        Expression::Binary(b) => b.operator == BinaryOperator::And && (is_conjunct(c, b.left) || is_conjunct(
            c,
            b.right,
        )),
        _ => false,
    }
}

/// One side of an equality is property `key` of `var` and the other the constant `value` (a
/// literal or a parameter).
pub open spec fn sides_state(left: Expression, right: Expression, var: Seq<char>, key: Seq<char>, value: Expression) -> bool {
    &&& left matches Expression::PropertyAccess(pa) && pa.variable@ == var && pa.property@ == key
    &&& right == value
    &&& (value is Literal || value is Parameter)
}

/// `c` is an equality that says property `key` of `var` equals `value`, on either side.
pub open spec fn equality_states(c: Expression, var: Seq<char>, key: Seq<char>, value: Expression) -> bool {
    match c {
        Expression::Binary(b) => b.operator == BinaryOperator::Equals && (sides_state(b.left, b.right, var, key, value)
            || sides_state(b.right, b.left, var, key, value)),
        _ => false,
    }
}

/// Every predicate taken from a WHERE expression is stated by one of its equality conjuncts,
/// never by a side of an OR or of any other operator: the WHERE implies it, so a seek on it
/// loses no row that the WHERE keeps.
pub proof fn law_extracted_predicates_are_conjuncts(e: Expression, i: int)
    requires
        0 <= i < pred_inserts(e).len(),
    ensures
        exists|c: Expression|
            is_conjunct(c, e) && #[trigger] equality_states(c, pred_inserts(e)[i].0, pred_inserts(e)[i].1, pred_inserts(e)[i].2),
    decreases e,
{
    match e {
        Expression::Binary(b) => {
            if b.operator == BinaryOperator::And {
                let l = pred_inserts(b.left);
                let r = pred_inserts(b.right);
                assert(pred_inserts(e) == l + r);
                if i < l.len() {
                    assert(pred_inserts(e)[i] == l[i]);
                    law_extracted_predicates_are_conjuncts(b.left, i);
                    let c = choose|c: Expression| is_conjunct(c, b.left) && #[trigger] equality_states(c, l[i].0, l[i].1, l[i].2);
                    assert(is_conjunct(c, e));
                } else {
                    assert(pred_inserts(e)[i] == r[i - l.len()]);
                    law_extracted_predicates_are_conjuncts(b.right, i - l.len());
                    let c = choose|c: Expression|
                        is_conjunct(c, b.right) && #[trigger] equality_states(c, r[i - l.len()].0, r[i - l.len()].1, r[i - l.len()].2);
                    assert(is_conjunct(c, e));
                }
            } else if b.operator == BinaryOperator::Equals {
                let l = eq_operand(b.left, b.right);
                let r = eq_operand(b.right, b.left);
                assert(pred_inserts(e) == l + r);
                let t = pred_inserts(e)[i];
                if i < l.len() {
                    assert(t == l[i]);
                    assert(sides_state(b.left, b.right, t.0, t.1, t.2));
                } else {
                    assert(t == r[i - l.len()]);
                    assert(sides_state(b.right, b.left, t.0, t.1, t.2));
                }
                assert(is_conjunct(e, e));
                assert(equality_states(e, t.0, t.1, t.2));
            }
        },
        _ => {},
    }
}

proof fn lemma_apply_inserts_source(
    m: PredModel,
    ins: Seq<(Seq<char>, Seq<char>, Expression)>,
    var: Seq<char>,
    key: Seq<char>,
)
    requires
        preds_of(apply_inserts(m, ins), var).contains_key(key),
    ensures
        (preds_of(m, var).contains_key(key) && preds_of(m, var)[key] == preds_of(apply_inserts(m, ins), var)[key])
            || exists|i: int|
            0 <= i < ins.len() && #[trigger] ins[i] == (var, key, preds_of(apply_inserts(m, ins), var)[key]),
    decreases ins.len(),
{
    if ins.len() > 0 {
        let m1 = insert_pred(m, ins[0].0, ins[0].1, ins[0].2);
        let rest = ins.drop_first();
        assert(apply_inserts(m, ins) == apply_inserts(m1, rest));
        let v = preds_of(apply_inserts(m, ins), var)[key];
        lemma_apply_inserts_source(m1, rest, var, key);
        if exists|j: int| 0 <= j < rest.len() && #[trigger] rest[j] == (var, key, v) {
            let j = choose|j: int| 0 <= j < rest.len() && #[trigger] rest[j] == (var, key, v);
            assert(ins[j + 1] == rest[j]);
        } else if var == ins[0].0 && key == ins[0].1 {
            assert(ins[0] == (var, key, v));
        }
    }
}

/// What `extract_predicates` collects into an empty map holds only predicates stated by
/// equality conjuncts of the WHERE expression: each `var.key = value` it records is one.
pub proof fn law_collected_predicates_are_conjuncts(e: Expression, var: Seq<char>, key: Seq<char>)
    requires
        preds_of(apply_inserts(Map::empty(), pred_inserts(e)), var).contains_key(key),
    ensures
        exists|c: Expression|
            is_conjunct(c, e) && #[trigger] equality_states(
                c,
                var,
                key,
                preds_of(apply_inserts(Map::empty(), pred_inserts(e)), var)[key],
            ),
{
    let ins = pred_inserts(e);
    let v = preds_of(apply_inserts(Map::empty(), ins), var)[key];
    lemma_apply_inserts_source(Map::empty(), ins, var, key);
    assert(!preds_of(Map::empty(), var).contains_key(key));
    let i = choose|i: int| 0 <= i < ins.len() && #[trigger] ins[i] == (var, key, v);
    law_extracted_predicates_are_conjuncts(e, i);
}


/// Every equality conjunct of a WHERE expression that compares a property with a constant
/// gives a predicate: none is missed.
pub proof fn law_equality_conjuncts_are_extracted(e: Expression, c: Expression, var: Seq<char>, key: Seq<char>, value: Expression)
    requires
        is_conjunct(c, e),
        equality_states(c, var, key, value),
    ensures
        pred_inserts(e).contains((var, key, value)),
    decreases e,
{
    if c == e {
        match e {
            Expression::Binary(b) => {
                let l = eq_operand(b.left, b.right);
                let r = eq_operand(b.right, b.left);
                assert(pred_inserts(e) == l + r);
                if sides_state(b.left, b.right, var, key, value) {
                    assert(l[0] == (var, key, value));
                    assert((l + r)[0] == l[0]);
                } else {
                    assert(r[0] == (var, key, value));
                    assert((l + r)[l.len() as int] == r[0]);
                }
            },
            _ => {},
        }
    } else {
        match e {
            Expression::Binary(b) => {
                let l = pred_inserts(b.left);
                let r = pred_inserts(b.right);
                assert(pred_inserts(e) == l + r);
                if is_conjunct(c, b.left) {
                    law_equality_conjuncts_are_extracted(b.left, c, var, key, value);
                    let i = choose|i: int| 0 <= i < l.len() && l[i] == (var, key, value);
                    assert((l + r)[i] == l[i]);
                } else {
                    law_equality_conjuncts_are_extracted(b.right, c, var, key, value);
                    let i = choose|i: int| 0 <= i < r.len() && r[i] == (var, key, value);
                    assert((l + r)[l.len() + i] == r[i]);
                }
            },
            _ => {},
        }
    }
}
} // verus!
