//! Scope checks of the variables that a WHERE expression mentions.
use crate::query::ast::{
    Clause, ExistsExpression, Expression, FunctionCall, PathElement, Pattern, PropertyPair,
    ReturnItem,
};
use crate::query::bindings::{BindingKind, Bindings};
use crate::query::error::{
    invalid_argument_type, invalid_argument_type_msg, undefined_variable, undefined_variable_msg,
    ErrorView, Result,
};
use crate::text::str_equal;
use vstd::prelude::*;

verus! {

/// The name of one of the quantifier functions (`any`, `all`, `none`, `single`) after parsing.
pub open spec fn is_quantifier_name(n: Seq<char>) -> bool {
    n == "__quant_any"@ || n == "__quant_all"@ || n == "__quant_none"@ || n == "__quant_single"@
}

/// The first of two outcomes that is present.
pub open spec fn first_some<T>(a: Option<T>, b: Option<T>) -> Option<T> {
    if a is Some {
        a
    } else {
        b
    }
}

/// The set of names that a sequence of strings holds.
pub open spec fn names_of(s: Seq<String>) -> Set<Seq<char>> {
    Set::new(|v: Seq<char>| exists|j: int| 0 <= j < s.len() && #[trigger] s[j]@ == v)
}

/// The names bound by any scope of a stack of local scopes.
pub open spec fn scope_names(st: Seq<Vec<String>>) -> Set<Seq<char>> {
    Set::new(|v: Seq<char>| exists|i: int| 0 <= i < st.len() && #[trigger] names_of(st[i]@).contains(v))
}

/// The variable that a node or relationship pattern binds, if any.
pub open spec fn element_variable(el: PathElement) -> Option<String> {
    match el {
        PathElement::Node(n) => n.variable,
        PathElement::Relationship(r) => r.variable,
    }
}

/// The variables that a pattern binds: its path variable and those of its elements.
pub open spec fn pattern_locals(p: Pattern) -> Set<Seq<char>> {
    Set::new(
        |v: Seq<char>|
            (p.variable is Some && p.variable->0@ == v) || exists|i: int|
                0 <= i < p.elements@.len() && (#[trigger] element_variable(p.elements@[i])) is Some
                    && element_variable(p.elements@[i])->0@ == v,
    )
}

// ---------------------------------------------------------------------------------------
// Undefined variables of a WHERE expression.
// ---------------------------------------------------------------------------------------

/// The first variable, in evaluation order, that `e` uses while it is neither known nor bound
/// by an enclosing list comprehension, quantifier or pattern comprehension.
pub open spec fn var_err(e: Expression, known: Set<Seq<char>>, local: Set<Seq<char>>) -> Option<Seq<char>>
    decreases e,
{
    match e {
        Expression::Variable(v) => if !local.contains(v@) && !known.contains(v@) {
            Some(v@)
        } else {
            None
        },
        Expression::PropertyAccess(pa) => if !local.contains(pa.variable@) && !known.contains(pa.variable@) {
            Some(pa.variable@)
        } else {
            None
        },
        Expression::Unary(u) => var_err(u.operand, known, local),
        Expression::Binary(b) => first_some(var_err(b.left, known, local), var_err(b.right, known, local)),
        Expression::FunctionCall(call) => call_var_err(call, known, local),
        Expression::List(items) => vars_err_list(items@, known, local),
        Expression::MapLiteral(m) => vars_err_pairs(m.properties@, known, local),
        Expression::Case(c) => first_some(
            vars_err_opt(c.expression, known, local),
            first_some(vars_err_whens(c.when_clauses@, known, local), vars_err_opt(c.else_expression, known, local)),
        ),
        Expression::ListComprehension(lc) => first_some(
            var_err(lc.list, known, local),
            first_some(
                vars_err_opt(lc.where_expression, known, local.insert(lc.variable@)),
                vars_err_opt(lc.map_expression, known, local.insert(lc.variable@)),
            ),
        ),
        Expression::PatternComprehension(pc) => first_some(
            vars_err_elements(pc.pattern.elements@, known, local.union(pattern_locals(pc.pattern))),
            first_some(
                vars_err_opt(pc.where_expression, known, local.union(pattern_locals(pc.pattern))),
                var_err(pc.projection, known, local.union(pattern_locals(pc.pattern))),
            ),
        ),
        _ => None,
    }
}

/// `var_err` of a function call: a quantifier binds its variable inside its predicate.
pub open spec fn call_var_err(call: FunctionCall, known: Set<Seq<char>>, local: Set<Seq<char>>) -> Option<Seq<char>>
    decreases call,
{
    if is_quantifier_name(call.name@) && call.args@.len() == 3 {
        first_some(
            var_err(call.args@[1], known, local),
            match call.args@[0] {
                Expression::Variable(var) => var_err(call.args@[2], known, local.insert(var@)),
                _ => var_err(call.args@[2], known, local),
            },
        )
    } else {
        vars_err_list(call.args@, known, local)
    }
}

pub open spec fn vars_err_opt(o: Option<Expression>, known: Set<Seq<char>>, local: Set<Seq<char>>) -> Option<Seq<char>>
    decreases o,
{
    match o {
        Some(x) => var_err(x, known, local),
        None => None,
    }
}

pub open spec fn vars_err_list(s: Seq<Expression>, known: Set<Seq<char>>, local: Set<Seq<char>>) -> Option<Seq<char>>
    decreases s,
{
    if s.len() == 0 {
        None
    } else {
        first_some(var_err(s[0], known, local), vars_err_list(s.drop_first(), known, local))
    }
}

pub open spec fn vars_err_pairs(s: Seq<PropertyPair>, known: Set<Seq<char>>, local: Set<Seq<char>>) -> Option<Seq<char>>
    decreases s,
{
    if s.len() == 0 {
        None
    } else {
        first_some(var_err(s[0].value, known, local), vars_err_pairs(s.drop_first(), known, local))
    }
}

pub open spec fn vars_err_whens(s: Seq<(Expression, Expression)>, known: Set<Seq<char>>, local: Set<Seq<char>>) -> Option<Seq<char>>
    decreases s,
{
    if s.len() == 0 {
        None
    } else {
        first_some(
            var_err(s[0].0, known, local),
            first_some(var_err(s[0].1, known, local), vars_err_whens(s.drop_first(), known, local)),
        )
    }
}

/// `var_err` of the inline property values of the elements of a pattern.
pub open spec fn vars_err_elements(s: Seq<PathElement>, known: Set<Seq<char>>, local: Set<Seq<char>>) -> Option<Seq<char>>
    decreases s,
{
    if s.len() == 0 {
        None
    } else {
        first_some(
            match s[0] {
                PathElement::Node(n) => match n.properties {
                    Some(props) => vars_err_pairs(props.properties@, known, local),
                    None => None,
                },
                PathElement::Relationship(r) => match r.properties {
                    Some(props) => vars_err_pairs(props.properties@, known, local),
                    None => None,
                },
            },
            vars_err_elements(s.drop_first(), known, local),
        )
    }
}

// ---------------------------------------------------------------------------------------
// Pattern predicates (EXISTS) inside a WHERE expression.
// ---------------------------------------------------------------------------------------

pub open spec fn undefined(name: Seq<char>) -> ErrorView {
    ErrorView::Other(undefined_variable_msg(name))
}

pub open spec fn invalid_argument() -> ErrorView {
    ErrorView::Other(invalid_argument_type_msg())
}

/// The first error of the pattern predicates (`EXISTS { .. }`) that `e` holds: a pattern of
/// fewer than three elements, or a pattern variable that is not known.
pub open spec fn pred_err(e: Expression, known: Set<Seq<char>>) -> Option<ErrorView>
    decreases e,
{
    match e {
        Expression::Exists(x) => match *x {
            ExistsExpression::Pattern(p) => if p.elements@.len() < 3 {
                Some(invalid_argument())
            } else if p.variable matches Some(pv) && !known.contains(pv@) {
                Some(undefined(p.variable->0@))
            } else {
                pred_err_exists_elements(p.elements@, known)
            },
            ExistsExpression::Subquery(q) => pred_err_clauses(q.clauses@, known),
        },
        Expression::Unary(u) => pred_err(u.operand, known),
        Expression::Binary(b) => first_some(pred_err(b.left, known), pred_err(b.right, known)),
        Expression::FunctionCall(call) => call_pred_err(call, known),
        Expression::List(items) => pred_err_list(items@, known),
        Expression::ListComprehension(lc) => first_some(
            pred_err(lc.list, known),
            first_some(pred_err_opt(lc.where_expression, known), pred_err_opt(lc.map_expression, known)),
        ),
        Expression::PatternComprehension(pc) => first_some(
            pred_err_element_props(pc.pattern.elements@, known.union(pattern_locals(pc.pattern))),
            first_some(
                pred_err_opt(pc.where_expression, known.union(pattern_locals(pc.pattern))),
                pred_err(pc.projection, known.union(pattern_locals(pc.pattern))),
            ),
        ),
        Expression::MapLiteral(m) => pred_err_pairs(m.properties@, known),
        Expression::Case(c) => first_some(
            pred_err_opt(c.expression, known),
            first_some(pred_err_whens(c.when_clauses@, known), pred_err_opt(c.else_expression, known)),
        ),
        _ => None,
    }
}

pub open spec fn call_pred_err(call: FunctionCall, known: Set<Seq<char>>) -> Option<ErrorView>
    decreases call,
{
    if is_quantifier_name(call.name@) && call.args@.len() == 3 {
        first_some(
            pred_err(call.args@[1], known),
            match call.args@[0] {
                Expression::Variable(var) => pred_err(call.args@[2], known.insert(var@)),
                _ => pred_err(call.args@[2], known),
            },
        )
    } else {
        pred_err_list(call.args@, known)
    }
}

pub open spec fn pred_err_opt(o: Option<Expression>, known: Set<Seq<char>>) -> Option<ErrorView>
    decreases o,
{
    match o {
        Some(x) => pred_err(x, known),
        None => None,
    }
}

pub open spec fn pred_err_list(s: Seq<Expression>, known: Set<Seq<char>>) -> Option<ErrorView>
    decreases s,
{
    if s.len() == 0 {
        None
    } else {
        first_some(pred_err(s[0], known), pred_err_list(s.drop_first(), known))
    }
}

pub open spec fn pred_err_items(s: Seq<ReturnItem>, known: Set<Seq<char>>) -> Option<ErrorView>
    decreases s,
{
    if s.len() == 0 {
        None
    } else {
        first_some(pred_err(s[0].expression, known), pred_err_items(s.drop_first(), known))
    }
}

pub open spec fn pred_err_pairs(s: Seq<PropertyPair>, known: Set<Seq<char>>) -> Option<ErrorView>
    decreases s,
{
    if s.len() == 0 {
        None
    } else {
        first_some(pred_err(s[0].value, known), pred_err_pairs(s.drop_first(), known))
    }
}

pub open spec fn pred_err_whens(s: Seq<(Expression, Expression)>, known: Set<Seq<char>>) -> Option<ErrorView>
    decreases s,
{
    if s.len() == 0 {
        None
    } else {
        first_some(
            pred_err(s[0].0, known),
            first_some(pred_err(s[0].1, known), pred_err_whens(s.drop_first(), known)),
        )
    }
}

pub open spec fn pred_err_props(props: Option<crate::query::ast::PropertyMap>, known: Set<Seq<char>>) -> Option<ErrorView>
    decreases props,
{
    match props {
        Some(p) => pred_err_pairs(p.properties@, known),
        None => None,
    }
}

/// The elements of an EXISTS pattern: each variable must be known, then its property values.
pub open spec fn pred_err_exists_elements(s: Seq<PathElement>, known: Set<Seq<char>>) -> Option<ErrorView>
    decreases s,
{
    if s.len() == 0 {
        None
    } else {
        first_some(
            match s[0] {
                PathElement::Node(n) => if n.variable matches Some(v) && !known.contains(v@) {
                    Some(undefined(n.variable->0@))
                } else {
                    pred_err_props(n.properties, known)
                },
                PathElement::Relationship(r) => if r.variable matches Some(v) && !known.contains(v@) {
                    Some(undefined(r.variable->0@))
                } else {
                    pred_err_props(r.properties, known)
                },
            },
            pred_err_exists_elements(s.drop_first(), known),
        )
    }
}

/// The property values of the elements of a pattern comprehension.
pub open spec fn pred_err_element_props(s: Seq<PathElement>, known: Set<Seq<char>>) -> Option<ErrorView>
    decreases s,
{
    if s.len() == 0 {
        None
    } else {
        first_some(
            match s[0] {
                PathElement::Node(n) => pred_err_props(n.properties, known),
                PathElement::Relationship(r) => pred_err_props(r.properties, known),
            },
            pred_err_element_props(s.drop_first(), known),
        )
    }
}

/// The WHERE, WITH and RETURN clauses of an EXISTS subquery.
pub open spec fn pred_err_clauses(s: Seq<Clause>, known: Set<Seq<char>>) -> Option<ErrorView>
    decreases s,
{
    if s.len() == 0 {
        None
    } else {
        first_some(
            match s[0] {
                Clause::Where(w) => pred_err(w.expression, known),
                Clause::With(w) => first_some(
                    pred_err_items(w.items@, known),
                    match w.where_clause {
                        Some(wc) => pred_err(wc.expression, known),
                        None => None,
                    },
                ),
                Clause::Return(r) => pred_err_items(r.items@, known),
                _ => None,
            },
            pred_err_clauses(s.drop_first(), known),
        )
    }
}

// ---------------------------------------------------------------------------------------
// The whole WHERE check.
// ---------------------------------------------------------------------------------------

/// The kind of value that an expression evaluates to, as far as the bindings tell: a variable
/// has the kind it is bound to (`Unknown` when it is not bound); other expressions are scalars.
pub open spec fn inferred_kind(e: Expression, known: Map<Seq<char>, BindingKind>) -> BindingKind {
    match e {
        Expression::Variable(v) => if known.contains_key(v@) {
            known[v@]
        } else {
            BindingKind::Unknown
        },
        _ => BindingKind::Scalar,
    }
}

/// The error, if any, that the WHERE check reports for `e` under the bindings `known`.
pub open spec fn where_bindings_error(e: Expression, known: Map<Seq<char>, BindingKind>) -> Option<ErrorView> {
    match var_err(e, known.dom(), Set::empty()) {
        Some(v) => Some(undefined(v)),
        None => match pred_err(e, known.dom()) {
            Some(err) => Some(err),
            None => if matches!(inferred_kind(e, known), BindingKind::Node | BindingKind::Relationship | BindingKind::Path) {
                Some(invalid_argument())
            } else {
                None
            },
        },
    }
}

// ---------------------------------------------------------------------------------------
// Executable checks.
// ---------------------------------------------------------------------------------------

/// Whether the call is one of the quantifier functions (`__quant_any` and its siblings).
pub fn is_quantifier_call(call: &FunctionCall) -> (r: bool)
    ensures
        r == is_quantifier_name(call.name@),
{
    let n = call.name.as_str();
    str_equal(n, "__quant_any") || str_equal(n, "__quant_all") || str_equal(n, "__quant_none")
        || str_equal(n, "__quant_single")
}

/// Whether any of the local scopes binds `var`.
pub fn is_locally_bound(local_scopes: &[Vec<String>], var: &str) -> (r: bool)
    ensures
        r == scope_names(local_scopes@).contains(var@),
{
    let mut i: usize = 0;
    while i < local_scopes.len()
        invariant
            i <= local_scopes@.len(),
            forall|k: int| 0 <= k < i ==> !(#[trigger] names_of(local_scopes@[k]@)).contains(var@),
        decreases local_scopes.len() - i,
    {
        let scope = &local_scopes[i];
        let mut j: usize = 0;
        while j < scope.len()
            invariant
                i < local_scopes@.len(),
                *scope == local_scopes@[i as int],
                j <= scope@.len(),
                forall|k: int| 0 <= k < j ==> (#[trigger] scope@[k])@ != var@,
            decreases scope.len() - j,
        {
            if str_equal(scope[j].as_str(), var) {
                proof {
                    assert(names_of(local_scopes@[i as int]@).contains(var@));
                }
                return true;
            }
            j = j + 1;
        }
        i = i + 1;
    }
    false
}

/// The variables bound by the first `i` elements of a pattern.
pub open spec fn element_vars_upto(p: Pattern, i: int) -> Set<Seq<char>> {
    Set::new(
        |v: Seq<char>| exists|k: int|
            0 <= k < i && (#[trigger] element_variable(p.elements@[k])) is Some
                && element_variable(p.elements@[k])->0@ == v,
    )
}

proof fn lemma_names_push(s: Seq<String>, x: String)
    ensures
        names_of(s.push(x)) == names_of(s).insert(x@),
{
    assert forall|v: Seq<char>| #[trigger] names_of(s.push(x)).contains(v) == names_of(s).insert(x@).contains(v) by {
        if names_of(s.push(x)).contains(v) {
            let j = choose|j: int| 0 <= j < s.push(x).len() && #[trigger] s.push(x)[j]@ == v;
            if j < s.len() {
                assert(s[j]@ == v);
            }
        }
        if names_of(s).contains(v) {
            let j = choose|j: int| 0 <= j < s.len() && #[trigger] s[j]@ == v;
            assert(s.push(x)[j] == s[j]);
        }
        assert(s.push(x)[s.len() as int] == x);
    }
    assert(names_of(s.push(x)) =~= names_of(s).insert(x@));
}

/// The variables that `pattern` binds, in order of appearance (path variable first).
pub fn collect_pattern_local_variables(pattern: &Pattern) -> (r: Vec<String>)
    ensures
        names_of(r@) == pattern_locals(*pattern),
{
    let mut vars: Vec<String> = Vec::new();
    proof {
        assert(names_of(vars@) =~= Set::<Seq<char>>::empty());
    }
    if let Some(path_var) = &pattern.variable {
        proof {
            lemma_names_push(vars@, *path_var);
        }
        vars.push(path_var.clone());
    }
    let ghost base = names_of(vars@);
    proof {
        assert(element_vars_upto(*pattern, 0) =~= Set::<Seq<char>>::empty());
        assert(names_of(vars@) =~= base.union(element_vars_upto(*pattern, 0)));
    }
    let mut i: usize = 0;
    while i < pattern.elements.len()
        invariant
            i <= pattern.elements@.len(),
            base == if pattern.variable is Some {
                Set::<Seq<char>>::empty().insert(pattern.variable->0@)
            } else {
                Set::<Seq<char>>::empty()
            },
            names_of(vars@) == base.union(element_vars_upto(*pattern, i as int)),
        decreases pattern.elements.len() - i,
    {
        let var = match &pattern.elements[i] {
            PathElement::Node(node) => &node.variable,
            PathElement::Relationship(rel) => &rel.variable,
        };
        proof {
            assert(*var == element_variable(pattern.elements@[i as int]));
        }
        let ghost before = vars@;
        if let Some(v) = var {
            proof {
                lemma_names_push(vars@, *v);
            }
            vars.push(v.clone());
        }
        proof {
            assert forall|v: Seq<char>| #[trigger] element_vars_upto(*pattern, i + 1).contains(v)
                == (element_vars_upto(*pattern, i as int).contains(v) || (var is Some && var->0@ == v)) by {
                if element_vars_upto(*pattern, i + 1).contains(v) {
                    let k = choose|k: int| 0 <= k < i + 1 && (#[trigger] element_variable(pattern.elements@[k])) is Some
                        && element_variable(pattern.elements@[k])->0@ == v;
                    if k < i {
                        assert(element_vars_upto(*pattern, i as int).contains(v));
                    }
                }
                if element_vars_upto(*pattern, i as int).contains(v) {
                    let k = choose|k: int| 0 <= k < i && (#[trigger] element_variable(pattern.elements@[k])) is Some
                        && element_variable(pattern.elements@[k])->0@ == v;
                    assert(0 <= k < i + 1);
                }
                if var is Some && var->0@ == v {
                    assert(element_variable(pattern.elements@[i as int]) is Some);
                }
            }
            assert(names_of(vars@) =~= base.union(element_vars_upto(*pattern, i + 1)));
        }
        i = i + 1;
    }
    proof {
        assert(names_of(vars@) =~= pattern_locals(*pattern));
    }
    vars
}

proof fn lemma_scope_push(st: Seq<Vec<String>>, scope: Vec<String>)
    ensures
        scope_names(st.push(scope)) == scope_names(st).union(names_of(scope@)),
{
    assert forall|v: Seq<char>| #[trigger] scope_names(st.push(scope)).contains(v)
        == scope_names(st).union(names_of(scope@)).contains(v) by {
        if scope_names(st.push(scope)).contains(v) {
            let i = choose|i: int| 0 <= i < st.push(scope).len() && #[trigger] names_of(st.push(scope)[i]@).contains(v);
            if i < st.len() {
                assert(st.push(scope)[i] == st[i]);
                assert(scope_names(st).contains(v));
            }
        }
        if scope_names(st).contains(v) {
            let i = choose|i: int| 0 <= i < st.len() && #[trigger] names_of(st[i]@).contains(v);
            assert(st.push(scope)[i] == st[i]);
        }
        if names_of(scope@).contains(v) {
            assert(st.push(scope)[st.len() as int] == scope);
        }
    }
    assert(scope_names(st.push(scope)) =~= scope_names(st).union(names_of(scope@)));
}

proof fn lemma_names_single(s: String)
    ensures
        names_of(seq![s]) == set![s@],
{
    assert(names_of(seq![s]) =~= set![s@]) by {
        assert forall|v: Seq<char>| names_of(seq![s]).contains(v) implies v == s@ by {
            let j = choose|j: int| 0 <= j < 1 && #[trigger] seq![s][j]@ == v;
        }
        assert(seq![s][0]@ == s@);
    }
}

fn check_variable(name: &String, known: &Bindings, local_scopes: &Vec<Vec<String>>) -> (r: Result<()>)
    ensures
        r is Ok <==> (scope_names(local_scopes@).contains(name@) || known@.dom().contains(name@)),
        r matches Err(e) ==> e@ == undefined(name@),
{
    if !is_locally_bound(local_scopes.as_slice(), name.as_str()) && !known.contains_key(name.as_str()) {
        return Err(undefined_variable(name));
    }
    Ok(())
}

fn validate_vars_opt(o: &Option<Expression>, known: &Bindings, local_scopes: &mut Vec<Vec<String>>) -> (r: Result<()>)
    ensures
        r is Ok <==> vars_err_opt(*o, known@.dom(), scope_names(old(local_scopes)@)) is None,
        r matches Err(e) ==> e@ == undefined(vars_err_opt(*o, known@.dom(), scope_names(old(local_scopes)@))->0),
        r is Ok ==> final(local_scopes)@ == old(local_scopes)@,
    decreases o,
{
    match o {
        Some(x) => validate_where_expression_variables(x, known, local_scopes),
        None => Ok(()),
    }
}

fn validate_vars_list(items: &Vec<Expression>, known: &Bindings, local_scopes: &mut Vec<Vec<String>>) -> (r: Result<()>)
    ensures
        r is Ok <==> vars_err_list(items@, known@.dom(), scope_names(old(local_scopes)@)) is None,
        r matches Err(e) ==> e@ == undefined(vars_err_list(items@, known@.dom(), scope_names(old(local_scopes)@))->0),
        r is Ok ==> final(local_scopes)@ == old(local_scopes)@,
    decreases items,
{
    let ghost k = known@.dom();
    let ghost l = scope_names(local_scopes@);
    proof {
        assert(items@.subrange(0, items@.len() as int) =~= items@);
    }
    let mut i: usize = 0;
    while i < items.len()
        invariant
            i <= items.len(),
            k == known@.dom(),
            local_scopes@ == old(local_scopes)@,
            l == scope_names(old(local_scopes)@),
            vars_err_list(items@, k, l) == vars_err_list(items@.subrange(i as int, items@.len() as int), k, l),
        decreases items.len() - i,
    {
        proof {
            assert(items@.subrange(i as int, items@.len() as int).drop_first()
                =~= items@.subrange(i + 1, items@.len() as int));
            assert(items@.subrange(i as int, items@.len() as int)[0] == items@[i as int]);
        }
        let r = validate_where_expression_variables(&items[i], known, local_scopes);
        if r.is_err() {
            return r;
        }
        i = i + 1;
    }
    proof {
        assert(items@.subrange(i as int, items@.len() as int).len() == 0);
    }
    Ok(())
}

fn validate_vars_pairs(pairs: &Vec<PropertyPair>, known: &Bindings, local_scopes: &mut Vec<Vec<String>>) -> (r: Result<()>)
    ensures
        r is Ok <==> vars_err_pairs(pairs@, known@.dom(), scope_names(old(local_scopes)@)) is None,
        r matches Err(e) ==> e@ == undefined(vars_err_pairs(pairs@, known@.dom(), scope_names(old(local_scopes)@))->0),
        r is Ok ==> final(local_scopes)@ == old(local_scopes)@,
    decreases pairs,
{
    let ghost k = known@.dom();
    let ghost l = scope_names(local_scopes@);
    proof {
        assert(pairs@.subrange(0, pairs@.len() as int) =~= pairs@);
    }
    let mut i: usize = 0;
    while i < pairs.len()
        invariant
            i <= pairs.len(),
            k == known@.dom(),
            local_scopes@ == old(local_scopes)@,
            l == scope_names(old(local_scopes)@),
            vars_err_pairs(pairs@, k, l) == vars_err_pairs(pairs@.subrange(i as int, pairs@.len() as int), k, l),
        decreases pairs.len() - i,
    {
        proof {
            assert(pairs@.subrange(i as int, pairs@.len() as int).drop_first()
                =~= pairs@.subrange(i + 1, pairs@.len() as int));
            assert(pairs@.subrange(i as int, pairs@.len() as int)[0] == pairs@[i as int]);
        }
        let r = validate_where_expression_variables(&pairs[i].value, known, local_scopes);
        if r.is_err() {
            return r;
        }
        i = i + 1;
    }
    proof {
        assert(pairs@.subrange(i as int, pairs@.len() as int).len() == 0);
    }
    Ok(())
}

fn validate_vars_whens(whens: &Vec<(Expression, Expression)>, known: &Bindings, local_scopes: &mut Vec<Vec<String>>) -> (r: Result<()>)
    ensures
        r is Ok <==> vars_err_whens(whens@, known@.dom(), scope_names(old(local_scopes)@)) is None,
        r matches Err(e) ==> e@ == undefined(vars_err_whens(whens@, known@.dom(), scope_names(old(local_scopes)@))->0),
        r is Ok ==> final(local_scopes)@ == old(local_scopes)@,
    decreases whens,
{
    let ghost k = known@.dom();
    let ghost l = scope_names(local_scopes@);
    proof {
        assert(whens@.subrange(0, whens@.len() as int) =~= whens@);
    }
    let mut i: usize = 0;
    while i < whens.len()
        invariant
            i <= whens.len(),
            k == known@.dom(),
            local_scopes@ == old(local_scopes)@,
            l == scope_names(old(local_scopes)@),
            vars_err_whens(whens@, k, l) == vars_err_whens(whens@.subrange(i as int, whens@.len() as int), k, l),
        decreases whens.len() - i,
    {
        proof {
            assert(whens@.subrange(i as int, whens@.len() as int).drop_first()
                =~= whens@.subrange(i + 1, whens@.len() as int));
            assert(whens@.subrange(i as int, whens@.len() as int)[0] == whens@[i as int]);
        }
        let r = validate_where_expression_variables(&whens[i].0, known, local_scopes);
        if r.is_err() {
            return r;
        }
        let r = validate_where_expression_variables(&whens[i].1, known, local_scopes);
        if r.is_err() {
            return r;
        }
        i = i + 1;
    }
    proof {
        assert(whens@.subrange(i as int, whens@.len() as int).len() == 0);
    }
    Ok(())
}

fn validate_vars_elements(elements: &Vec<PathElement>, known: &Bindings, local_scopes: &mut Vec<Vec<String>>) -> (r: Result<()>)
    ensures
        r is Ok <==> vars_err_elements(elements@, known@.dom(), scope_names(old(local_scopes)@)) is None,
        r matches Err(e) ==> e@ == undefined(vars_err_elements(elements@, known@.dom(), scope_names(old(local_scopes)@))->0),
        r is Ok ==> final(local_scopes)@ == old(local_scopes)@,
    decreases elements,
{
    let ghost k = known@.dom();
    let ghost l = scope_names(local_scopes@);
    proof {
        assert(elements@.subrange(0, elements@.len() as int) =~= elements@);
    }
    let mut i: usize = 0;
    while i < elements.len()
        invariant
            i <= elements.len(),
            k == known@.dom(),
            local_scopes@ == old(local_scopes)@,
            l == scope_names(old(local_scopes)@),
            vars_err_elements(elements@, k, l) == vars_err_elements(elements@.subrange(i as int, elements@.len() as int), k, l),
        decreases elements.len() - i,
    {
        proof {
            assert(elements@.subrange(i as int, elements@.len() as int).drop_first()
                =~= elements@.subrange(i + 1, elements@.len() as int));
            assert(elements@.subrange(i as int, elements@.len() as int)[0] == elements@[i as int]);
        }
        let props = match &elements[i] {
            PathElement::Node(node) => &node.properties,
            PathElement::Relationship(rel) => &rel.properties,
        };
        if let Some(props) = props {
            let r = validate_vars_pairs(&props.properties, known, local_scopes);
            if r.is_err() {
                return r;
            }
        }
        i = i + 1;
    }
    proof {
        assert(elements@.subrange(i as int, elements@.len() as int).len() == 0);
    }
    Ok(())
}

/// Checks the part of a quantifier call or another call; the quantifier variable is bound
/// in a scope of its own while the predicate is checked.
fn validate_vars_call(call: &FunctionCall, known: &Bindings, local_scopes: &mut Vec<Vec<String>>) -> (r: Result<()>)
    ensures
        r is Ok <==> call_var_err(*call, known@.dom(), scope_names(old(local_scopes)@)) is None,
        r matches Err(e) ==> e@ == undefined(call_var_err(*call, known@.dom(), scope_names(old(local_scopes)@))->0),
        r is Ok ==> final(local_scopes)@ == old(local_scopes)@,
    decreases call,
{
    if is_quantifier_call(call) && call.args.len() == 3 {
        let r = validate_where_expression_variables(&call.args[1], known, local_scopes);
        if r.is_err() {
            return r;
        }
        if let Expression::Variable(var) = &call.args[0] {
            let ghost before = local_scopes@;
            let mut scope: Vec<String> = Vec::new();
            scope.push(var.clone());
            proof {
                lemma_names_single(scope@[0]);
                assert(scope@ =~= seq![scope@[0]]);
                lemma_scope_push(before, scope);
                assert(set![var@] =~= Set::empty().insert(var@));
                assert(scope_names(before).union(set![var@]) =~= scope_names(before).insert(var@));
            }
            local_scopes.push(scope);
            let r = validate_where_expression_variables(&call.args[2], known, local_scopes);
            if r.is_err() {
                return r;
            }
            local_scopes.pop();
            proof {
                assert(local_scopes@ =~= before);
            }
            Ok(())
        } else {
            validate_where_expression_variables(&call.args[2], known, local_scopes)
        }
    } else {
        validate_vars_list(&call.args, known, local_scopes)
    }
}

/// Rejects, with "syntax error: UndefinedVariable (<name>)", the first variable of `expr` that
/// is neither known nor bound by an enclosing scope of the expression itself.
pub fn validate_where_expression_variables(
    expr: &Expression,
    known: &Bindings,
    local_scopes: &mut Vec<Vec<String>>,
) -> (r: Result<()>)
    ensures
        r is Ok <==> var_err(*expr, known@.dom(), scope_names(old(local_scopes)@)) is None,
        r matches Err(e) ==> e@ == undefined(var_err(*expr, known@.dom(), scope_names(old(local_scopes)@))->0),
        r is Ok ==> final(local_scopes)@ == old(local_scopes)@,
    decreases expr,
{
    match expr {
        Expression::Variable(var) => check_variable(var, known, local_scopes),
        Expression::PropertyAccess(pa) => check_variable(&pa.variable, known, local_scopes),
        Expression::Unary(u) => validate_where_expression_variables(&u.operand, known, local_scopes),
        Expression::Binary(b) => {
            let r = validate_where_expression_variables(&b.left, known, local_scopes);
            if r.is_err() {
                return r;
            }
            validate_where_expression_variables(&b.right, known, local_scopes)
        },
        Expression::FunctionCall(call) => validate_vars_call(call, known, local_scopes),
        Expression::List(items) => validate_vars_list(items, known, local_scopes),
        Expression::MapLiteral(m) => validate_vars_pairs(&m.properties, known, local_scopes),
        Expression::Case(c) => {
            let r = validate_vars_opt(&c.expression, known, local_scopes);
            if r.is_err() {
                return r;
            }
            let r = validate_vars_whens(&c.when_clauses, known, local_scopes);
            if r.is_err() {
                return r;
            }
            validate_vars_opt(&c.else_expression, known, local_scopes)
        },
        Expression::ListComprehension(lc) => {
            let r = validate_where_expression_variables(&lc.list, known, local_scopes);
            if r.is_err() {
                return r;
            }
            let ghost before = local_scopes@;
            let mut scope: Vec<String> = Vec::new();
            scope.push(lc.variable.clone());
            proof {
                lemma_names_single(scope@[0]);
                assert(scope@ =~= seq![scope@[0]]);
                lemma_scope_push(before, scope);
                assert(scope_names(before).union(set![lc.variable@]) =~= scope_names(before).insert(lc.variable@));
            }
            local_scopes.push(scope);
            let r = validate_vars_opt(&lc.where_expression, known, local_scopes);
            if r.is_err() {
                return r;
            }
            let r = validate_vars_opt(&lc.map_expression, known, local_scopes);
            if r.is_err() {
                return r;
            }
            local_scopes.pop();
            proof {
                assert(local_scopes@ =~= before);
            }
            Ok(())
        },
        Expression::PatternComprehension(pc) => {
            let ghost before = local_scopes@;
            let scope = collect_pattern_local_variables(&pc.pattern);
            proof {
                lemma_scope_push(before, scope);
            }
            local_scopes.push(scope);
            let r = validate_vars_elements(&pc.pattern.elements, known, local_scopes);
            if r.is_err() {
                return r;
            }
            let r = validate_vars_opt(&pc.where_expression, known, local_scopes);
            if r.is_err() {
                return r;
            }
            let r = validate_where_expression_variables(&pc.projection, known, local_scopes);
            if r.is_err() {
                return r;
            }
            local_scopes.pop();
            proof {
                assert(local_scopes@ =~= before);
            }
            Ok(())
        },
        _ => Ok(()),
    }
}

fn pred_list(items: &Vec<Expression>, known: &Bindings) -> (r: Result<()>)
    ensures
        r is Ok <==> pred_err_list(items@, known@.dom()) is None,
        r matches Err(e) ==> e@ == pred_err_list(items@, known@.dom())->0,
    decreases items,
{
    proof {
        assert(items@.subrange(0, items@.len() as int) =~= items@);
    }
    let mut i: usize = 0;
    while i < items.len()
        invariant
            i <= items.len(),
            pred_err_list(items@, known@.dom()) == pred_err_list(items@.subrange(i as int, items@.len() as int), known@.dom()),
        decreases items.len() - i,
    {
        proof {
            assert(items@.subrange(i as int, items@.len() as int).drop_first()
                =~= items@.subrange(i + 1, items@.len() as int));
            assert(items@.subrange(i as int, items@.len() as int)[0] == items@[i as int]);
        }
        let r = validate_pattern_predicate_bindings(&items[i], known);
        if r.is_err() {
            return r;
        }

        i = i + 1;
    }
    proof {
        assert(items@.subrange(i as int, items@.len() as int).len() == 0);
    }
    Ok(())
}

fn pred_items(items: &Vec<ReturnItem>, known: &Bindings) -> (r: Result<()>)
    ensures
        r is Ok <==> pred_err_items(items@, known@.dom()) is None,
        r matches Err(e) ==> e@ == pred_err_items(items@, known@.dom())->0,
    decreases items,
{
    proof {
        assert(items@.subrange(0, items@.len() as int) =~= items@);
    }
    let mut i: usize = 0;
    while i < items.len()
        invariant
            i <= items.len(),
            pred_err_items(items@, known@.dom()) == pred_err_items(items@.subrange(i as int, items@.len() as int), known@.dom()),
        decreases items.len() - i,
    {
        proof {
            assert(items@.subrange(i as int, items@.len() as int).drop_first()
                =~= items@.subrange(i + 1, items@.len() as int));
            assert(items@.subrange(i as int, items@.len() as int)[0] == items@[i as int]);
        }
        let r = validate_pattern_predicate_bindings(&items[i].expression, known);
        if r.is_err() {
            return r;
        }

        i = i + 1;
    }
    proof {
        assert(items@.subrange(i as int, items@.len() as int).len() == 0);
    }
    Ok(())
}

fn pred_pairs(items: &Vec<PropertyPair>, known: &Bindings) -> (r: Result<()>)
    ensures
        r is Ok <==> pred_err_pairs(items@, known@.dom()) is None,
        r matches Err(e) ==> e@ == pred_err_pairs(items@, known@.dom())->0,
    decreases items,
{
    proof {
        assert(items@.subrange(0, items@.len() as int) =~= items@);
    }
    let mut i: usize = 0;
    while i < items.len()
        invariant
            i <= items.len(),
            pred_err_pairs(items@, known@.dom()) == pred_err_pairs(items@.subrange(i as int, items@.len() as int), known@.dom()),
        decreases items.len() - i,
    {
        proof {
            assert(items@.subrange(i as int, items@.len() as int).drop_first()
                =~= items@.subrange(i + 1, items@.len() as int));
            assert(items@.subrange(i as int, items@.len() as int)[0] == items@[i as int]);
        }
        let r = validate_pattern_predicate_bindings(&items[i].value, known);
        if r.is_err() {
            return r;
        }

        i = i + 1;
    }
    proof {
        assert(items@.subrange(i as int, items@.len() as int).len() == 0);
    }
    Ok(())
}

fn pred_whens(items: &Vec<(Expression, Expression)>, known: &Bindings) -> (r: Result<()>)
    ensures
        r is Ok <==> pred_err_whens(items@, known@.dom()) is None,
        r matches Err(e) ==> e@ == pred_err_whens(items@, known@.dom())->0,
    decreases items,
{
    proof {
        assert(items@.subrange(0, items@.len() as int) =~= items@);
    }
    let mut i: usize = 0;
    while i < items.len()
        invariant
            i <= items.len(),
            pred_err_whens(items@, known@.dom()) == pred_err_whens(items@.subrange(i as int, items@.len() as int), known@.dom()),
        decreases items.len() - i,
    {
        proof {
            assert(items@.subrange(i as int, items@.len() as int).drop_first()
                =~= items@.subrange(i + 1, items@.len() as int));
            assert(items@.subrange(i as int, items@.len() as int)[0] == items@[i as int]);
        }
        let r = validate_pattern_predicate_bindings(&items[i].0, known);
        if r.is_err() {
            return r;
        }
        let r = validate_pattern_predicate_bindings(&items[i].1, known);
        if r.is_err() {
            return r;
        }

        i = i + 1;
    }
    proof {
        assert(items@.subrange(i as int, items@.len() as int).len() == 0);
    }
    Ok(())
}

fn pred_element_props(items: &Vec<PathElement>, known: &Bindings) -> (r: Result<()>)
    ensures
        r is Ok <==> pred_err_element_props(items@, known@.dom()) is None,
        r matches Err(e) ==> e@ == pred_err_element_props(items@, known@.dom())->0,
    decreases items,
{
    proof {
        assert(items@.subrange(0, items@.len() as int) =~= items@);
    }
    let mut i: usize = 0;
    while i < items.len()
        invariant
            i <= items.len(),
            pred_err_element_props(items@, known@.dom()) == pred_err_element_props(items@.subrange(i as int, items@.len() as int), known@.dom()),
        decreases items.len() - i,
    {
        proof {
            assert(items@.subrange(i as int, items@.len() as int).drop_first()
                =~= items@.subrange(i + 1, items@.len() as int));
            assert(items@.subrange(i as int, items@.len() as int)[0] == items@[i as int]);
        }
        let props_opt = match &items[i] {
            PathElement::Node(node) => &node.properties,
            PathElement::Relationship(rel) => &rel.properties,
        };
        proof {
            assert(pred_err_props(*props_opt, known@.dom()) == match items@[i as int] {
                PathElement::Node(n) => pred_err_props(n.properties, known@.dom()),
                PathElement::Relationship(r) => pred_err_props(r.properties, known@.dom()),
            });
        }
        if let Some(props) = props_opt {
            let r = pred_pairs(&props.properties, known);
            if r.is_err() {
                return r;
            }
        }

        i = i + 1;
    }
    proof {
        assert(items@.subrange(i as int, items@.len() as int).len() == 0);
    }
    Ok(())
}

fn pred_exists_elements(items: &Vec<PathElement>, known: &Bindings) -> (r: Result<()>)
    ensures
        r is Ok <==> pred_err_exists_elements(items@, known@.dom()) is None,
        r matches Err(e) ==> e@ == pred_err_exists_elements(items@, known@.dom())->0,
    decreases items,
{
    proof {
        assert(items@.subrange(0, items@.len() as int) =~= items@);
    }
    let mut i: usize = 0;
    while i < items.len()
        invariant
            i <= items.len(),
            pred_err_exists_elements(items@, known@.dom()) == pred_err_exists_elements(items@.subrange(i as int, items@.len() as int), known@.dom()),
        decreases items.len() - i,
    {
        proof {
            assert(items@.subrange(i as int, items@.len() as int).drop_first()
                =~= items@.subrange(i + 1, items@.len() as int));
            assert(items@.subrange(i as int, items@.len() as int)[0] == items@[i as int]);
        }
        let (var, props_opt) = match &items[i] {
            PathElement::Node(node) => (&node.variable, &node.properties),
            PathElement::Relationship(rel) => (&rel.variable, &rel.properties),
        };
        proof {
            assert(pred_err_props(*props_opt, known@.dom()) == match items@[i as int] {
                PathElement::Node(n) => pred_err_props(n.properties, known@.dom()),
                PathElement::Relationship(r) => pred_err_props(r.properties, known@.dom()),
            });
            assert(*var == element_variable(items@[i as int]));
        }
        if let Some(v) = var {
            if !known.contains_key(v.as_str()) {
                return Err(undefined_variable(v));
            }
        }
        if let Some(props) = props_opt {
            let r = pred_pairs(&props.properties, known);
            if r.is_err() {
                return r;
            }
        }

        i = i + 1;
    }
    proof {
        assert(items@.subrange(i as int, items@.len() as int).len() == 0);
    }
    Ok(())
}

fn pred_clauses(items: &Vec<Clause>, known: &Bindings) -> (r: Result<()>)
    ensures
        r is Ok <==> pred_err_clauses(items@, known@.dom()) is None,
        r matches Err(e) ==> e@ == pred_err_clauses(items@, known@.dom())->0,
    decreases items,
{
    proof {
        assert(items@.subrange(0, items@.len() as int) =~= items@);
    }
    let mut i: usize = 0;
    while i < items.len()
        invariant
            i <= items.len(),
            pred_err_clauses(items@, known@.dom()) == pred_err_clauses(items@.subrange(i as int, items@.len() as int), known@.dom()),
        decreases items.len() - i,
    {
        proof {
            assert(items@.subrange(i as int, items@.len() as int).drop_first()
                =~= items@.subrange(i + 1, items@.len() as int));
            assert(items@.subrange(i as int, items@.len() as int)[0] == items@[i as int]);
        }
        match &items[i] {
            Clause::Where(w) => {
                let r = validate_pattern_predicate_bindings(&w.expression, known);
                if r.is_err() {
                    return r;
                }
            },
            Clause::With(w) => {
                let r = pred_items(&w.items, known);
                if r.is_err() {
                    return r;
                }
                if let Some(where_clause) = &w.where_clause {
                    let r = validate_pattern_predicate_bindings(&where_clause.expression, known);
                    if r.is_err() {
                        return r;
                    }
                }
            },
            Clause::Return(ret) => {
                let r = pred_items(&ret.items, known);
                if r.is_err() {
                    return r;
                }
            },
            _ => {},
        }

        i = i + 1;
    }
    proof {
        assert(items@.subrange(i as int, items@.len() as int).len() == 0);
    }
    Ok(())
}

fn pred_opt(o: &Option<Expression>, known: &Bindings) -> (r: Result<()>)
    ensures
        r is Ok <==> pred_err_opt(*o, known@.dom()) is None,
        r matches Err(e) ==> e@ == pred_err_opt(*o, known@.dom())->0,
    decreases o,
{
    match o {
        Some(x) => validate_pattern_predicate_bindings(x, known),
        None => Ok(()),
    }
}

fn pred_call(call: &FunctionCall, known: &Bindings) -> (r: Result<()>)
    ensures
        r is Ok <==> call_pred_err(*call, known@.dom()) is None,
        r matches Err(e) ==> e@ == call_pred_err(*call, known@.dom())->0,
    decreases call,
{
    if is_quantifier_call(call) && call.args.len() == 3 {
        let r = validate_pattern_predicate_bindings(&call.args[1], known);
        if r.is_err() {
            return r;
        }
        if let Expression::Variable(var) = &call.args[0] {
            let mut scoped = known.duplicate();
            scoped.insert_if_absent(var.clone(), BindingKind::Unknown);
            proof {
                assert(scoped@.dom() =~= known@.dom().insert(var@));
            }
            validate_pattern_predicate_bindings(&call.args[2], &scoped)
        } else {
            validate_pattern_predicate_bindings(&call.args[2], known)
        }
    } else {
        pred_list(&call.args, known)
    }
}

/// Bindings that extend `known` by the variables of `pattern`, each as `Unknown` unless known.
fn bindings_with_pattern_locals(known: &Bindings, pattern: &Pattern) -> (r: Bindings)
    ensures
        r@.dom() == known@.dom().union(pattern_locals(*pattern)),
{
    let mut scoped = known.duplicate();
    let locals = collect_pattern_local_variables(pattern);
    let mut i: usize = 0;
    while i < locals.len()
        invariant
            i <= locals.len(),
            scoped@.dom() == known@.dom().union(names_of(locals@.subrange(0, i as int))),
        decreases locals.len() - i,
    {
        proof {
            assert(locals@.subrange(0, i + 1) =~= locals@.subrange(0, i as int).push(locals@[i as int]));
            lemma_names_push(locals@.subrange(0, i as int), locals@[i as int]);
        }
        scoped.insert_if_absent(locals[i].clone(), BindingKind::Unknown);
        proof {
            assert(scoped@.dom() =~= known@.dom().union(names_of(locals@.subrange(0, i + 1))));
        }
        i = i + 1;
    }
    proof {
        assert(locals@.subrange(0, i as int) =~= locals@);
    }
    scoped
}

/// Rejects the pattern predicates of an expression whose pattern is shorter than one hop
/// ("syntax error: InvalidArgumentType") or mentions a variable that is not known
/// ("syntax error: UndefinedVariable (<name>)"); the first such error in evaluation order.
pub fn validate_pattern_predicate_bindings(expr: &Expression, known: &Bindings) -> (r: Result<()>)
    ensures
        r is Ok <==> pred_err(*expr, known@.dom()) is None,
        r matches Err(e) ==> e@ == pred_err(*expr, known@.dom())->0,
    decreases expr,
{
    match expr {
        Expression::Exists(x) => match &**x {
            ExistsExpression::Pattern(pattern) => {
                if pattern.elements.len() < 3 {
                    return Err(invalid_argument_type());
                }
                if let Some(path_var) = &pattern.variable {
                    if !known.contains_key(path_var.as_str()) {
                        return Err(undefined_variable(path_var));
                    }
                }
                pred_exists_elements(&pattern.elements, known)
            },
            ExistsExpression::Subquery(subquery) => pred_clauses(&subquery.clauses, known),
        },
        Expression::Unary(u) => validate_pattern_predicate_bindings(&u.operand, known),
        Expression::Binary(b) => {
            let r = validate_pattern_predicate_bindings(&b.left, known);
            if r.is_err() {
                return r;
            }
            validate_pattern_predicate_bindings(&b.right, known)
        },
        Expression::FunctionCall(call) => pred_call(call, known),
        Expression::List(items) => pred_list(items, known),
        Expression::ListComprehension(lc) => {
            let r = validate_pattern_predicate_bindings(&lc.list, known);
            if r.is_err() {
                return r;
            }
            let r = pred_opt(&lc.where_expression, known);
            if r.is_err() {
                return r;
            }
            pred_opt(&lc.map_expression, known)
        },
        Expression::PatternComprehension(pc) => {
            let scoped = bindings_with_pattern_locals(known, &pc.pattern);
            let r = pred_element_props(&pc.pattern.elements, &scoped);
            if r.is_err() {
                return r;
            }
            let r = pred_opt(&pc.where_expression, &scoped);
            if r.is_err() {
                return r;
            }
            validate_pattern_predicate_bindings(&pc.projection, &scoped)
        },
        Expression::MapLiteral(m) => pred_pairs(&m.properties, known),
        Expression::Case(c) => {
            let r = pred_opt(&c.expression, known);
            if r.is_err() {
                return r;
            }
            let r = pred_whens(&c.when_clauses, known);
            if r.is_err() {
                return r;
            }
            pred_opt(&c.else_expression, known)
        },
        _ => Ok(()),
    }
}

/// The kind of value that `expr` evaluates to, as far as the bindings tell.
pub fn infer_expression_binding_kind(expr: &Expression, known: &Bindings) -> (k: BindingKind)
    ensures
        k == inferred_kind(*expr, known@),
{
    match expr {
        Expression::Variable(v) => match known.get(v.as_str()) {
            Some(kind) => kind,
            None => BindingKind::Unknown,
        },
        _ => BindingKind::Scalar,
    }
}

/// Checks a WHERE expression against the variables bound before it: every variable must be
/// known or locally bound, pattern predicates must be well formed, and the expression itself
/// must not be a node, relationship or path.
pub fn validate_where_expression_bindings(expr: &Expression, known: &Bindings) -> (r: Result<()>)
    ensures
        r is Ok <==> where_bindings_error(*expr, known@) is None,
        r matches Err(e) ==> e@ == where_bindings_error(*expr, known@)->0,
{
    let mut local_scopes: Vec<Vec<String>> = Vec::new();
    proof {
        assert(scope_names(local_scopes@) =~= Set::<Seq<char>>::empty());
    }
    let r = validate_where_expression_variables(expr, known, &mut local_scopes);
    if r.is_err() {
        return r;
    }
    let r = validate_pattern_predicate_bindings(expr, known);
    if r.is_err() {
        return r;
    }
    match infer_expression_binding_kind(expr, known) {
        BindingKind::Node | BindingKind::Relationship | BindingKind::Path => Err(invalid_argument_type()),
        _ => Ok(()),
    }
}

} // verus!
