//! What a WHERE expression that passes the scope checks is known to satisfy: every variable it
//! uses freely is bound, and every pattern predicate it holds has bound variables.
use crate::query::ast::{ExistsExpression, Expression, FunctionCall, PathElement, Pattern, PropertyPair};
use crate::query::bindings::BindingKind;
use crate::query::where_validation::{
    call_var_err, element_variable, first_some, inferred_kind, is_quantifier_name, pattern_locals, pred_err,
    pred_err_exists_elements, var_err, vars_err_elements, vars_err_list, vars_err_opt, vars_err_pairs, vars_err_whens,
    where_bindings_error,
};
use vstd::prelude::*;

verus! {

/// `v` occurs free in `e`: as a variable or as the variable of a property access, outside
/// EXISTS, and not bound by an enclosing list comprehension, quantifier or pattern
/// comprehension. `local` holds the names bound around `e`.
pub open spec fn occurs_free(v: Seq<char>, e: Expression, local: Set<Seq<char>>) -> bool
    decreases e,
{
    match e {
        Expression::Variable(x) => x@ == v && !local.contains(v),
        Expression::PropertyAccess(pa) => pa.variable@ == v && !local.contains(v),
        Expression::Unary(u) => occurs_free(v, u.operand, local),
        Expression::Binary(b) => occurs_free(v, b.left, local) || occurs_free(v, b.right, local),
        Expression::FunctionCall(call) => occurs_free_call(v, call, local),
        Expression::List(items) => occurs_free_list(v, items@, local),
        Expression::MapLiteral(m) => occurs_free_pairs(v, m.properties@, local),
        Expression::Case(c) => occurs_free_opt(v, c.expression, local) || occurs_free_whens(v, c.when_clauses@, local)
            || occurs_free_opt(v, c.else_expression, local),
        Expression::ListComprehension(lc) => occurs_free(v, lc.list, local) || occurs_free_opt(
            v,
            lc.where_expression,
            local.insert(lc.variable@),
        ) || occurs_free_opt(v, lc.map_expression, local.insert(lc.variable@)),
        Expression::PatternComprehension(pc) => occurs_free_elements(
            v,
            pc.pattern.elements@,
            local.union(pattern_locals(pc.pattern)),
        ) || occurs_free_opt(v, pc.where_expression, local.union(pattern_locals(pc.pattern))) || occurs_free(
            v,
            pc.projection,
            local.union(pattern_locals(pc.pattern)),
        ),
        _ => false,
    }
}

/// `v` occurs free in a call; a quantifier `(variable, list, predicate)` binds its variable in
/// its predicate.
pub open spec fn occurs_free_call(v: Seq<char>, call: FunctionCall, local: Set<Seq<char>>) -> bool
    decreases call,
{
    if is_quantifier_name(call.name@) && call.args@.len() == 3 {
        occurs_free(v, call.args@[1], local) || match call.args@[0] {
            Expression::Variable(var) => occurs_free(v, call.args@[2], local.insert(var@)),
            _ => occurs_free(v, call.args@[2], local),
        }
    } else {
        occurs_free_list(v, call.args@, local)
    }
}

pub open spec fn occurs_free_opt(v: Seq<char>, o: Option<Expression>, local: Set<Seq<char>>) -> bool
    decreases o,
{
    match o {
        Some(x) => occurs_free(v, x, local),
        None => false,
    }
}

pub open spec fn occurs_free_list(v: Seq<char>, s: Seq<Expression>, local: Set<Seq<char>>) -> bool
    decreases s,
{
    s.len() > 0 && (occurs_free(v, s[0], local) || occurs_free_list(v, s.drop_first(), local))
}

pub open spec fn occurs_free_pairs(v: Seq<char>, s: Seq<PropertyPair>, local: Set<Seq<char>>) -> bool
    decreases s,
{
    s.len() > 0 && (occurs_free(v, s[0].value, local) || occurs_free_pairs(v, s.drop_first(), local))
}

pub open spec fn occurs_free_whens(v: Seq<char>, s: Seq<(Expression, Expression)>, local: Set<Seq<char>>) -> bool
    decreases s,
{
    s.len() > 0 && (occurs_free(v, s[0].0, local) || occurs_free(v, s[0].1, local) || occurs_free_whens(
        v,
        s.drop_first(),
        local,
    ))
}

/// `v` occurs free in the inline property values of the elements of a pattern.
pub open spec fn occurs_free_elements(v: Seq<char>, s: Seq<PathElement>, local: Set<Seq<char>>) -> bool
    decreases s,
{
    s.len() > 0 && (match s[0] {
        PathElement::Node(n) => match n.properties {
            Some(props) => occurs_free_pairs(v, props.properties@, local),
            None => false,
        },
        PathElement::Relationship(r) => match r.properties {
            Some(props) => occurs_free_pairs(v, props.properties@, local),
            None => false,
        },
    } || occurs_free_elements(v, s.drop_first(), local))
}

proof fn lemma_first_some_none<T>(a: Option<T>, b: Option<T>)
    ensures
        first_some(a, b) is None <==> (a is None && b is None),
{
}

proof fn lemma_free_known(v: Seq<char>, e: Expression, known: Set<Seq<char>>, local: Set<Seq<char>>)
    ensures
        var_err(e, known, local) is None && occurs_free(v, e, local) ==> known.contains(v),
    decreases e,
{
    match e {
        Expression::Unary(u) => lemma_free_known(v, u.operand, known, local),
        Expression::Binary(b) => {
            lemma_first_some_none(var_err(b.left, known, local), var_err(b.right, known, local));
            lemma_free_known(v, b.left, known, local);
            lemma_free_known(v, b.right, known, local);
        },
        Expression::FunctionCall(call) => lemma_free_known_call(v, call, known, local),
        Expression::List(items) => lemma_free_known_list(v, items@, known, local),
        Expression::MapLiteral(m) => lemma_free_known_pairs(v, m.properties@, known, local),
        Expression::Case(c) => {
            lemma_first_some_none(vars_err_whens(c.when_clauses@, known, local), vars_err_opt(c.else_expression, known, local));
            lemma_first_some_none(
                vars_err_opt(c.expression, known, local),
                first_some(vars_err_whens(c.when_clauses@, known, local), vars_err_opt(c.else_expression, known, local)),
            );
            lemma_free_known_opt(v, c.expression, known, local);
            lemma_free_known_whens(v, c.when_clauses@, known, local);
            lemma_free_known_opt(v, c.else_expression, known, local);
        },
        Expression::ListComprehension(lc) => {
            let inner = local.insert(lc.variable@);
            lemma_first_some_none(vars_err_opt(lc.where_expression, known, inner), vars_err_opt(lc.map_expression, known, inner));
            lemma_first_some_none(
                var_err(lc.list, known, local),
                first_some(vars_err_opt(lc.where_expression, known, inner), vars_err_opt(lc.map_expression, known, inner)),
            );
            lemma_free_known(v, lc.list, known, local);
            lemma_free_known_opt(v, lc.where_expression, known, inner);
            lemma_free_known_opt(v, lc.map_expression, known, inner);
        },
        Expression::PatternComprehension(pc) => {
            let inner = local.union(pattern_locals(pc.pattern));
            lemma_first_some_none(vars_err_opt(pc.where_expression, known, inner), var_err(pc.projection, known, inner));
            lemma_first_some_none(
                vars_err_elements(pc.pattern.elements@, known, inner),
                first_some(vars_err_opt(pc.where_expression, known, inner), var_err(pc.projection, known, inner)),
            );
            lemma_free_known_elements(v, pc.pattern.elements@, known, inner);
            lemma_free_known_opt(v, pc.where_expression, known, inner);
            lemma_free_known(v, pc.projection, known, inner);
        },
        _ => {},
    }
}

proof fn lemma_free_known_call(v: Seq<char>, call: FunctionCall, known: Set<Seq<char>>, local: Set<Seq<char>>)
    ensures
        call_var_err(call, known, local) is None && occurs_free_call(v, call, local) ==> known.contains(v),
    decreases call,
{
    if is_quantifier_name(call.name@) && call.args@.len() == 3 {
        let pred_local = match call.args@[0] {
            Expression::Variable(var) => local.insert(var@),
            _ => local,
        };
        lemma_first_some_none(var_err(call.args@[1], known, local), var_err(call.args@[2], known, pred_local));
        lemma_free_known(v, call.args@[1], known, local);
        lemma_free_known(v, call.args@[2], known, pred_local);
    } else {
        lemma_free_known_list(v, call.args@, known, local);
    }
}

proof fn lemma_free_known_opt(v: Seq<char>, o: Option<Expression>, known: Set<Seq<char>>, local: Set<Seq<char>>)
    ensures
        vars_err_opt(o, known, local) is None && occurs_free_opt(v, o, local) ==> known.contains(v),
    decreases o,
{
    match o {
        Some(x) => lemma_free_known(v, x, known, local),
        None => {},
    }
}

proof fn lemma_free_known_list(v: Seq<char>, s: Seq<Expression>, known: Set<Seq<char>>, local: Set<Seq<char>>)
    ensures
        vars_err_list(s, known, local) is None && occurs_free_list(v, s, local) ==> known.contains(v),
    decreases s,
{
    if s.len() > 0 {
        lemma_first_some_none(var_err(s[0], known, local), vars_err_list(s.drop_first(), known, local));
        lemma_free_known(v, s[0], known, local);
        lemma_free_known_list(v, s.drop_first(), known, local);
    }
}

proof fn lemma_free_known_pairs(v: Seq<char>, s: Seq<PropertyPair>, known: Set<Seq<char>>, local: Set<Seq<char>>)
    ensures
        vars_err_pairs(s, known, local) is None && occurs_free_pairs(v, s, local) ==> known.contains(v),
    decreases s,
{
    if s.len() > 0 {
        lemma_first_some_none(var_err(s[0].value, known, local), vars_err_pairs(s.drop_first(), known, local));
        lemma_free_known(v, s[0].value, known, local);
        lemma_free_known_pairs(v, s.drop_first(), known, local);
    }
}

proof fn lemma_free_known_whens(
    v: Seq<char>,
    s: Seq<(Expression, Expression)>,
    known: Set<Seq<char>>,
    local: Set<Seq<char>>,
)
    ensures
        vars_err_whens(s, known, local) is None && occurs_free_whens(v, s, local) ==> known.contains(v),
    decreases s,
{
    if s.len() > 0 {
        lemma_first_some_none(var_err(s[0].1, known, local), vars_err_whens(s.drop_first(), known, local));
        lemma_first_some_none(
            var_err(s[0].0, known, local),
            first_some(var_err(s[0].1, known, local), vars_err_whens(s.drop_first(), known, local)),
        );
        lemma_free_known(v, s[0].0, known, local);
        lemma_free_known(v, s[0].1, known, local);
        lemma_free_known_whens(v, s.drop_first(), known, local);
    }
}

proof fn lemma_free_known_elements(v: Seq<char>, s: Seq<PathElement>, known: Set<Seq<char>>, local: Set<Seq<char>>)
    ensures
        vars_err_elements(s, known, local) is None && occurs_free_elements(v, s, local) ==> known.contains(v),
    decreases s,
{
    if s.len() > 0 {
        let head = match s[0] {
            PathElement::Node(n) => match n.properties {
                Some(props) => vars_err_pairs(props.properties@, known, local),
                None => None,
            },
            PathElement::Relationship(r) => match r.properties {
                Some(props) => vars_err_pairs(props.properties@, known, local),
                None => None,
            },
        };
        lemma_first_some_none(head, vars_err_elements(s.drop_first(), known, local));
        match s[0] {
            PathElement::Node(n) => match n.properties {
                Some(props) => lemma_free_known_pairs(v, props.properties@, known, local),
                None => {},
            },
            PathElement::Relationship(r) => match r.properties {
                Some(props) => lemma_free_known_pairs(v, props.properties@, known, local),
                None => {},
            },
        }
        lemma_free_known_elements(v, s.drop_first(), known, local);
    }
}

/// A WHERE expression that passes the check uses no unbound variable: every variable that
/// occurs free in it (outside EXISTS and the scopes of comprehensions and quantifiers) is
/// bound, and the expression itself is not a node, relationship or path.
pub proof fn law_where_free_variables_bound(e: Expression, known: Map<Seq<char>, BindingKind>)
    requires
        where_bindings_error(e, known) is None,
    ensures
        forall|v: Seq<char>| #[trigger] occurs_free(v, e, Set::empty()) ==> known.contains_key(v),
        !matches!(inferred_kind(e, known), BindingKind::Node | BindingKind::Relationship | BindingKind::Path),
{
    assert forall|v: Seq<char>| #[trigger] occurs_free(v, e, Set::empty()) implies known.contains_key(v) by {
        lemma_free_known(v, e, known.dom(), Set::empty());
    }
}

proof fn lemma_exists_elements_known(s: Seq<PathElement>, known: Set<Seq<char>>)
    requires
        pred_err_exists_elements(s, known) is None,
    ensures
        forall|i: int|
            0 <= i < s.len() && (#[trigger] element_variable(s[i])) is Some ==> known.contains(
                element_variable(s[i])->0@,
            ),
    decreases s,
{
    if s.len() > 0 {
        lemma_exists_elements_known(s.drop_first(), known);
        assert forall|i: int|
            0 <= i < s.len() && (#[trigger] element_variable(s[i])) is Some implies known.contains(
                element_variable(s[i])->0@,
            ) by {
            if i > 0 {
                assert(s[i] == s.drop_first()[i - 1]);
            }
        }
    }
}

/// A pattern predicate `EXISTS { pattern }` that passes the check has at least one hop (three
/// elements), and every variable of its pattern, the path variable and those of its nodes and
/// relationships, is bound.
pub proof fn law_pattern_predicate_bound(p: Pattern, known: Map<Seq<char>, BindingKind>)
    requires
        pred_err(Expression::Exists(Box::new(ExistsExpression::Pattern(p))), known.dom()) is None,
    ensures
        p.elements@.len() >= 3,
        forall|v: Seq<char>| #[trigger] pattern_locals(p).contains(v) ==> known.contains_key(v),
{
    lemma_exists_elements_known(p.elements@, known.dom());
    assert forall|v: Seq<char>| #[trigger] pattern_locals(p).contains(v) implies known.contains_key(v) by {
        if !(p.variable is Some && p.variable->0@ == v) {
            let i = choose|i: int|
                0 <= i < p.elements@.len() && (#[trigger] element_variable(p.elements@[i])) is Some
                    && element_variable(p.elements@[i])->0@ == v;
        }
    }
}

} // verus!
