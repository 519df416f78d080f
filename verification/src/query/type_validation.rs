//! Static type checks of expressions that the planner runs before compiling a WHERE clause.
use crate::query::ast::{
    BinaryOperator, Clause, ExistsExpression, Expression, Literal, PathElement, Pattern,
    UnaryOperator,
};
use crate::query::ast::{PropertyPair, Query, ReturnItem};
use crate::query::error::{invalid_argument_type, invalid_argument_type_msg, other, Result};
use crate::text::{eq_ignore_ascii_case, eq_ignore_ascii_case_spec};
use vstd::prelude::*;

verus! {

/// The operator always yields a number (never a boolean).
pub open spec fn is_arithmetic(op: BinaryOperator) -> bool {
    matches!(op, BinaryOperator::Add | BinaryOperator::Subtract | BinaryOperator::Multiply
        | BinaryOperator::Divide | BinaryOperator::Modulo | BinaryOperator::Power)
}

/// The expression can be seen, without evaluating it, to not be a boolean.
pub open spec fn non_boolean(e: Expression) -> bool
    decreases e,
{
    match e {
        Expression::Literal(Literal::Boolean(_)) => false,
        Expression::Literal(Literal::Null) => false,
        Expression::Literal(_) => true,
        Expression::List(_) => true,
        Expression::MapLiteral(_) => true,
        Expression::Unary(u) => match u.operator {
            UnaryOperator::Not => non_boolean(u.operand),
            UnaryOperator::Negate => true,
        },
        Expression::Binary(b) => is_arithmetic(b.operator),
        _ => false,
    }
}

/// The expression is a literal that is certainly not a list.
pub open spec fn non_list_literal(e: Expression) -> bool {
    match e {
        Expression::Literal(Literal::Boolean(_)) => true,
        Expression::Literal(Literal::Integer(_)) => true,
        Expression::Literal(Literal::Float(_)) => true,
        Expression::Literal(Literal::String(_)) => true,
        Expression::MapLiteral(_) => true,
        _ => false,
    }
}

/// A literal argument that `properties(..)` can never accept.
pub open spec fn bad_properties_argument(e: Expression) -> bool {
    match e {
        Expression::Literal(Literal::Integer(_)) => true,
        Expression::Literal(Literal::Float(_)) => true,
        Expression::Literal(Literal::String(_)) => true,
        Expression::Literal(Literal::Boolean(_)) => true,
        Expression::List(_) => true,
        _ => false,
    }
}

/// Every value of the property pairs passes the type check.
pub open spec fn pairs_types_ok(s: Seq<PropertyPair>) -> bool
    decreases s,
{
    s.len() == 0 || (types_ok(s[0].value) && pairs_types_ok(s.drop_first()))
}

/// Every expression of the sequence passes the type check.
pub open spec fn exprs_types_ok(s: Seq<Expression>) -> bool
    decreases s,
{
    s.len() == 0 || (types_ok(s[0]) && exprs_types_ok(s.drop_first()))
}

/// Every projected expression passes the type check.
pub open spec fn items_types_ok(s: Seq<ReturnItem>) -> bool
    decreases s,
{
    s.len() == 0 || (types_ok(s[0].expression) && items_types_ok(s.drop_first()))
}

/// Both sides of every CASE branch pass the type check.
pub open spec fn whens_types_ok(s: Seq<(Expression, Expression)>) -> bool
    decreases s,
{
    s.len() == 0 || (types_ok(s[0].0) && types_ok(s[0].1) && whens_types_ok(s.drop_first()))
}

/// Every clause of a subquery passes the type check.
pub open spec fn clauses_types_ok(s: Seq<Clause>) -> bool
    decreases s,
{
    s.len() == 0 || (clause_types_ok(s[0]) && clauses_types_ok(s.drop_first()))
}

/// An optional expression, when present, passes the type check.
pub open spec fn opt_types_ok(e: Option<Expression>) -> bool
    decreases e,
{
    match e {
        Some(x) => types_ok(x),
        None => true,
    }
}

/// Every expression nested in a pattern's inline property maps passes the type check.
pub open spec fn pattern_types_ok(p: Pattern) -> bool
    decreases p,
{
    elements_types_ok(p.elements@)
}

/// Every element of the path passes the type check.
pub open spec fn elements_types_ok(s: Seq<PathElement>) -> bool
    decreases s,
{
    s.len() == 0 || (element_types_ok(s[0]) && elements_types_ok(s.drop_first()))
}

/// The inline property values of a node or relationship pattern pass the type check.
pub open spec fn element_types_ok(el: PathElement) -> bool
    decreases el,
{
    match el {
        PathElement::Node(n) => match n.properties {
            Some(props) => pairs_types_ok(props.properties@),
            None => true,
        },
        PathElement::Relationship(r) => match r.properties {
            Some(props) => pairs_types_ok(props.properties@),
            None => true,
        },
    }
}

/// The expressions of the WHERE, WITH and RETURN clauses of a subquery pass the type check.
pub open spec fn clause_types_ok(c: Clause) -> bool
    decreases c,
{
    match c {
        Clause::Where(w) => types_ok(w.expression),
        Clause::With(w) => items_types_ok(w.items@) && match w.where_clause {
            Some(wc) => types_ok(wc.expression),
            None => true,
        },
        Clause::Return(r) => items_types_ok(r.items@),
        _ => true,
    }
}

/// The expression passes the static type check: no `NOT` of a non-boolean, no `IN` of a
/// non-list literal, no `AND`/`OR`/`XOR` of a non-boolean, no `properties(..)` of a
/// literal or list or with other than one argument, anywhere in the expression.
pub open spec fn types_ok(e: Expression) -> bool
    decreases e,
{
    match e {
        Expression::Unary(u) => types_ok(u.operand) && !(u.operator == UnaryOperator::Not && non_boolean(u.operand)),
        Expression::Binary(b) => {
            &&& types_ok(b.left)
            &&& types_ok(b.right)
            &&& !(b.operator == BinaryOperator::In && non_list_literal(b.right))
            &&& !((b.operator == BinaryOperator::And || b.operator == BinaryOperator::Or
                || b.operator == BinaryOperator::Xor) && (non_boolean(b.left) || non_boolean(b.right)))
        },
        Expression::FunctionCall(call) => {
            &&& exprs_types_ok(call.args@)
            &&& eq_ignore_ascii_case_spec(call.name@, "properties"@) ==> (call.args@.len() == 1
                && !bad_properties_argument(call.args@[0]))
        },
        Expression::List(items) => exprs_types_ok(items@),
        Expression::ListComprehension(lc) => types_ok(lc.list) && opt_types_ok(lc.where_expression)
            && opt_types_ok(lc.map_expression),
        Expression::PatternComprehension(pc) => pattern_types_ok(pc.pattern) && opt_types_ok(pc.where_expression)
            && types_ok(pc.projection),
        Expression::MapLiteral(m) => pairs_types_ok(m.properties@),
        Expression::Case(c) => opt_types_ok(c.expression) && whens_types_ok(c.when_clauses@)
            && opt_types_ok(c.else_expression),
        Expression::Exists(x) => match *x {
            ExistsExpression::Pattern(p) => pattern_types_ok(p),
            ExistsExpression::Subquery(q) => clauses_types_ok(q.clauses@),
        },
        _ => true,
    }
}

fn is_definitely_non_boolean(expr: &Expression) -> (r: bool)
    ensures
        r == non_boolean(*expr),
    decreases expr,
{
    match expr {
        Expression::Literal(Literal::Boolean(_)) => false,
        Expression::Literal(Literal::Null) => false,
        Expression::Literal(_) => true,
        Expression::List(_) => true,
        Expression::MapLiteral(_) => true,
        Expression::Unary(u) => match u.operator {
            UnaryOperator::Not => is_definitely_non_boolean(&u.operand),
            UnaryOperator::Negate => true,
        },
        Expression::Binary(b) => match b.operator {
            BinaryOperator::Add | BinaryOperator::Subtract | BinaryOperator::Multiply
            | BinaryOperator::Divide | BinaryOperator::Modulo | BinaryOperator::Power => true,
            _ => false,
        },
        _ => false,
    }
}

fn is_definitely_non_list_literal(expr: &Expression) -> (r: bool)
    ensures
        r == non_list_literal(*expr),
{
    match expr {
        Expression::Literal(Literal::Boolean(_)) => true,
        Expression::Literal(Literal::Integer(_)) => true,
        Expression::Literal(Literal::Float(_)) => true,
        Expression::Literal(Literal::String(_)) => true,
        Expression::MapLiteral(_) => true,
        _ => false,
    }
}

fn validate_property_pairs(props: &Vec<PropertyPair>) -> (r: Result<()>)
    ensures
        r is Ok <==> pairs_types_ok(props@),
        r matches Err(e) ==> e@ == other(invalid_argument_type_msg()),
    decreases props,
{
    proof {
        assert(props@.subrange(0, props@.len() as int) =~= props@);
    }
    let mut i: usize = 0;
    while i < props.len()
        invariant
            i <= props.len(),
            pairs_types_ok(props@) == pairs_types_ok(props@.subrange(i as int, props@.len() as int)),
        decreases props.len() - i,
    {
        proof {
            assert(props@.subrange(i as int, props@.len() as int).drop_first()
                =~= props@.subrange(i + 1, props@.len() as int));
            assert(props@.subrange(i as int, props@.len() as int)[0] == props@[i as int]);
        }
        let r = validate_expression_types(&props[i].value);
        if r.is_err() {
            return r;
        }
        i = i + 1;
    }
    proof {
        assert(props@.subrange(i as int, props@.len() as int).len() == 0);
    }
    Ok(())
}

fn validate_expressions(items: &Vec<Expression>) -> (r: Result<()>)
    ensures
        r is Ok <==> exprs_types_ok(items@),
        r matches Err(e) ==> e@ == other(invalid_argument_type_msg()),
    decreases items,
{
    proof {
        assert(items@.subrange(0, items@.len() as int) =~= items@);
    }
    let mut i: usize = 0;
    while i < items.len()
        invariant
            i <= items.len(),
            exprs_types_ok(items@) == exprs_types_ok(items@.subrange(i as int, items@.len() as int)),
        decreases items.len() - i,
    {
        proof {
            assert(items@.subrange(i as int, items@.len() as int).drop_first()
                =~= items@.subrange(i + 1, items@.len() as int));
            assert(items@.subrange(i as int, items@.len() as int)[0] == items@[i as int]);
        }
        let r = validate_expression_types(&items[i]);
        if r.is_err() {
            return r;
        }
        i = i + 1;
    }
    proof {
        assert(items@.subrange(i as int, items@.len() as int).len() == 0);
    }
    Ok(())
}

fn validate_return_items(items: &Vec<ReturnItem>) -> (r: Result<()>)
    ensures
        r is Ok <==> items_types_ok(items@),
        r matches Err(e) ==> e@ == other(invalid_argument_type_msg()),
    decreases items,
{
    proof {
        assert(items@.subrange(0, items@.len() as int) =~= items@);
    }
    let mut i: usize = 0;
    while i < items.len()
        invariant
            i <= items.len(),
            items_types_ok(items@) == items_types_ok(items@.subrange(i as int, items@.len() as int)),
        decreases items.len() - i,
    {
        proof {
            assert(items@.subrange(i as int, items@.len() as int).drop_first()
                =~= items@.subrange(i + 1, items@.len() as int));
            assert(items@.subrange(i as int, items@.len() as int)[0] == items@[i as int]);
        }
        let r = validate_expression_types(&items[i].expression);
        if r.is_err() {
            return r;
        }
        i = i + 1;
    }
    proof {
        assert(items@.subrange(i as int, items@.len() as int).len() == 0);
    }
    Ok(())
}

fn validate_opt_expression(e: &Option<Expression>) -> (r: Result<()>)
    ensures
        r is Ok <==> opt_types_ok(*e),
        r matches Err(err) ==> err@ == other(invalid_argument_type_msg()),
    decreases e,
{
    match e {
        Some(x) => validate_expression_types(x),
        None => Ok(()),
    }
}

fn validate_element_types(el: &PathElement) -> (r: Result<()>)
    ensures
        r is Ok <==> element_types_ok(*el),
        r matches Err(e) ==> e@ == other(invalid_argument_type_msg()),
    decreases el,
{
    let props = match el {
        PathElement::Node(node) => &node.properties,
        PathElement::Relationship(rel) => &rel.properties,
    };
    match props {
        Some(props) => validate_property_pairs(&props.properties),
        None => Ok(()),
    }
}

fn validate_pattern_types(p: &Pattern) -> (r: Result<()>)
    ensures
        r is Ok <==> pattern_types_ok(*p),
        r matches Err(e) ==> e@ == other(invalid_argument_type_msg()),
    decreases p,
{
    proof {
        assert(p.elements@.subrange(0, p.elements@.len() as int) =~= p.elements@);
    }
    let mut i: usize = 0;
    while i < p.elements.len()
        invariant
            i <= p.elements.len(),
            elements_types_ok(p.elements@) == elements_types_ok(p.elements@.subrange(i as int, p.elements@.len() as int)),
        decreases p.elements.len() - i,
    {
        proof {
            assert(p.elements@.subrange(i as int, p.elements@.len() as int).drop_first()
                =~= p.elements@.subrange(i + 1, p.elements@.len() as int));
            assert(p.elements@.subrange(i as int, p.elements@.len() as int)[0] == p.elements@[i as int]);
        }
        let r = validate_element_types(&p.elements[i]);
        if r.is_err() {
            return r;
        }
        i = i + 1;
    }
    proof {
        assert(p.elements@.subrange(i as int, p.elements@.len() as int).len() == 0);
    }
    Ok(())
}

fn validate_clause_types(c: &Clause) -> (r: Result<()>)
    ensures
        r is Ok <==> clause_types_ok(*c),
        r matches Err(e) ==> e@ == other(invalid_argument_type_msg()),
    decreases c,
{
    match c {
        Clause::Where(w) => validate_expression_types(&w.expression),
        Clause::With(w) => {
            let r = validate_return_items(&w.items);
            if r.is_err() {
                return r;
            }
            match &w.where_clause {
                Some(wc) => validate_expression_types(&wc.expression),
                None => Ok(()),
            }
        },
        Clause::Return(ret) => validate_return_items(&ret.items),
        _ => Ok(()),
    }
}

fn validate_subquery_types(q: &Query) -> (r: Result<()>)
    ensures
        r is Ok <==> clauses_types_ok(q.clauses@),
        r matches Err(e) ==> e@ == other(invalid_argument_type_msg()),
    decreases q,
{
    proof {
        assert(q.clauses@.subrange(0, q.clauses@.len() as int) =~= q.clauses@);
    }
    let mut i: usize = 0;
    while i < q.clauses.len()
        invariant
            i <= q.clauses.len(),
            clauses_types_ok(q.clauses@) == clauses_types_ok(q.clauses@.subrange(i as int, q.clauses@.len() as int)),
        decreases q.clauses.len() - i,
    {
        proof {
            assert(q.clauses@.subrange(i as int, q.clauses@.len() as int).drop_first()
                =~= q.clauses@.subrange(i + 1, q.clauses@.len() as int));
            assert(q.clauses@.subrange(i as int, q.clauses@.len() as int)[0] == q.clauses@[i as int]);
        }
        let r = validate_clause_types(&q.clauses[i]);
        if r.is_err() {
            return r;
        }
        i = i + 1;
    }
    proof {
        assert(q.clauses@.subrange(i as int, q.clauses@.len() as int).len() == 0);
    }
    Ok(())
}

fn validate_whens(whens: &Vec<(Expression, Expression)>) -> (r: Result<()>)
    ensures
        r is Ok <==> whens_types_ok(whens@),
        r matches Err(e) ==> e@ == other(invalid_argument_type_msg()),
    decreases whens,
{
    proof {
        assert(whens@.subrange(0, whens@.len() as int) =~= whens@);
    }
    let mut i: usize = 0;
    while i < whens.len()
        invariant
            i <= whens.len(),
            whens_types_ok(whens@) == whens_types_ok(whens@.subrange(i as int, whens@.len() as int)),
        decreases whens.len() - i,
    {
        proof {
            assert(whens@.subrange(i as int, whens@.len() as int).drop_first()
                =~= whens@.subrange(i + 1, whens@.len() as int));
            assert(whens@.subrange(i as int, whens@.len() as int)[0] == whens@[i as int]);
        }
        let r = validate_expression_types(&whens[i].0);
        if r.is_err() {
            return r;
        }
        let r = validate_expression_types(&whens[i].1);
        if r.is_err() {
            return r;
        }
        i = i + 1;
    }
    proof {
        assert(whens@.subrange(i as int, whens@.len() as int).len() == 0);
    }
    Ok(())
}

/// Rejects, with "syntax error: InvalidArgumentType", an expression that applies an operator
/// or `properties(..)` to an operand of a type that can never be right.
pub fn validate_expression_types(expr: &Expression) -> (r: Result<()>)
    ensures
        r is Ok <==> types_ok(*expr),
        r matches Err(e) ==> e@ == other(invalid_argument_type_msg()),
    decreases expr,
{
    match expr {
        Expression::Unary(u) => {
            let r = validate_expression_types(&u.operand);
            if r.is_err() {
                return r;
            }
            if u.operator == UnaryOperator::Not && is_definitely_non_boolean(&u.operand) {
                return Err(invalid_argument_type());
            }
            Ok(())
        },
        Expression::Binary(b) => {
            let r = validate_expression_types(&b.left);
            if r.is_err() {
                return r;
            }
            let r = validate_expression_types(&b.right);
            if r.is_err() {
                return r;
            }
            if b.operator == BinaryOperator::In && is_definitely_non_list_literal(&b.right) {
                return Err(invalid_argument_type());
            }
            if (b.operator == BinaryOperator::And || b.operator == BinaryOperator::Or
                || b.operator == BinaryOperator::Xor) && (is_definitely_non_boolean(&b.left)
                || is_definitely_non_boolean(&b.right)) {
                return Err(invalid_argument_type());
            }
            Ok(())
        },
        Expression::FunctionCall(call) => {
            let r = validate_expressions(&call.args);
            if r.is_err() {
                return r;
            }
            if eq_ignore_ascii_case(call.name.as_str(), "properties") {
                if call.args.len() != 1 {
                    return Err(invalid_argument_type());
                }
                let bad = match &call.args[0] {
                    Expression::Literal(Literal::Integer(_)) => true,
                    Expression::Literal(Literal::Float(_)) => true,
                    Expression::Literal(Literal::String(_)) => true,
                    Expression::Literal(Literal::Boolean(_)) => true,
                    Expression::List(_) => true,
                    _ => false,
                };
                if bad {
                    return Err(invalid_argument_type());
                }
            }
            proof {
                reveal_strlit("properties");
            }
            Ok(())
        },
        Expression::List(items) => validate_expressions(items),
        Expression::ListComprehension(lc) => {
            let r = validate_expression_types(&lc.list);
            if r.is_err() {
                return r;
            }
            let r = validate_opt_expression(&lc.where_expression);
            if r.is_err() {
                return r;
            }
            validate_opt_expression(&lc.map_expression)
        },
        Expression::PatternComprehension(pc) => {
            let r = validate_pattern_types(&pc.pattern);
            if r.is_err() {
                return r;
            }
            let r = validate_opt_expression(&pc.where_expression);
            if r.is_err() {
                return r;
            }
            validate_expression_types(&pc.projection)
        },
        Expression::MapLiteral(m) => validate_property_pairs(&m.properties),
        Expression::Case(c) => {
            let r = validate_opt_expression(&c.expression);
            if r.is_err() {
                return r;
            }
            let r = validate_whens(&c.when_clauses);
            if r.is_err() {
                return r;
            }
            validate_opt_expression(&c.else_expression)
        },
        Expression::Exists(x) => match &**x {
            ExistsExpression::Pattern(p) => validate_pattern_types(p),
            ExistsExpression::Subquery(q) => validate_subquery_types(q),
        },
        _ => Ok(()),
    }
}

} // verus!
