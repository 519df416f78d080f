//! The `Debug` text of the syntax tree, as the derived `Debug` impls print it: a struct as
//! `Name { field: value, .. }`, a variant as `Name(value)`, an `Option` as `Some(..)` or
//! `None`, a vector as `[a, b]`, a string quoted and escaped. EXPLAIN shows expressions,
//! patterns and aggregates in this form. A float literal is held by its bit pattern, and its
//! text here is the decimal of those bits.
use crate::query::ast::{
    Literal, UnaryOperator, BinaryOperator, PropertyAccess, UnaryExpression, BinaryExpression, FunctionCall, PropertyPair, PropertyMap, CaseExpression, ListComprehension, PatternComprehension, ExistsExpression, Expression, NodePattern, RelationshipDirection, VariableLength, RelationshipPattern, PathElement, Pattern, Query, MatchClause, WhereClause, ReturnItem, Direction, OrderByItem, OrderByClause, WithClause, ReturnClause, CreateClause, MergeClause, SetItem, SetClause, RemoveClause, DeleteClause, UnwindClause, YieldItem, ProcedureCall, CallClause, UnionClause, ForeachClause, Clause, AggregateFunction,
};
use crate::text::{decimal, push_decimal, push_decimal_u64};
use vstd::prelude::*;

verus! {

/// The `Debug` text of a string: quoted, with `str::escape_debug` applied.
pub uninterp spec fn str_debug(s: Seq<char>) -> Seq<char>;

/// Formats `s` with `{:?}`; the text is named `str_debug`.
#[verifier::external_body]
pub(crate) fn debug_str(s: &str) -> (r: String)
    ensures
        r@ == str_debug(s@),
{
    format!("{:?}", s)
}

/// `{}` and `{:?}` of a `bool`.
pub open spec fn bool_text(b: bool) -> Seq<char> {
    if b { "true"@ } else { "false"@ }
}

/// `{:?}` of an `i64`: a minus sign before the decimal of a negative number.
pub open spec fn i64_text(n: i64) -> Seq<char> {
    if n < 0 { "-"@ + decimal((-n) as nat) } else { decimal(n as nat) }
}

#[verifier::spinoff_prover]
pub(crate) fn push_bool(out: &mut String, b: bool)
    ensures
        final(out)@ == old(out)@ + bool_text(b),
{
    if b {
        out.append("true");
    } else {
        out.append("false");
    }
}

#[verifier::spinoff_prover]
pub(crate) fn push_i64(out: &mut String, n: i64)
    ensures
        final(out)@ == old(out)@ + i64_text(n),
{
    if n < 0 {
        out.append("-");
        let m: i128 = -(n as i128);
        push_decimal_u64(out, m as u64);
        proof {
            assert(out@ =~= old(out)@ + i64_text(n));
        }
    } else {
        push_decimal_u64(out, n as u64);
    }
}

/// The `Debug` text of a literal; a float shows the decimal of its bit pattern.
pub open spec fn literal_text(x: Literal) -> Seq<char>
{
    match x {
        Literal::Integer(a) => "Integer("@ + i64_text(a) + ")"@,
        Literal::Float(a) => "Float("@ + decimal(a as nat) + ")"@,
        Literal::String(a) => "String("@ + str_debug(a@) + ")"@,
        Literal::Boolean(a) => "Boolean("@ + bool_text(a) + ")"@,
        Literal::Null => "Null"@,
    }
}

pub open spec fn unary_operator_text(x: UnaryOperator) -> Seq<char>
{
    match x {
        UnaryOperator::Not => "Not"@,
        UnaryOperator::Negate => "Negate"@,
    }
}

pub open spec fn binary_operator_text(x: BinaryOperator) -> Seq<char>
{
    match x {
        BinaryOperator::Equals => "Equals"@,
        BinaryOperator::NotEquals => "NotEquals"@,
        BinaryOperator::LessThan => "LessThan"@,
        BinaryOperator::LessEqual => "LessEqual"@,
        BinaryOperator::GreaterThan => "GreaterThan"@,
        BinaryOperator::GreaterEqual => "GreaterEqual"@,
        BinaryOperator::And => "And"@,
        BinaryOperator::Or => "Or"@,
        BinaryOperator::Xor => "Xor"@,
        BinaryOperator::In => "In"@,
        BinaryOperator::StartsWith => "StartsWith"@,
        BinaryOperator::EndsWith => "EndsWith"@,
        BinaryOperator::Contains => "Contains"@,
        BinaryOperator::HasLabel => "HasLabel"@,
        BinaryOperator::IsNull => "IsNull"@,
        BinaryOperator::IsNotNull => "IsNotNull"@,
        BinaryOperator::Add => "Add"@,
        BinaryOperator::Subtract => "Subtract"@,
        BinaryOperator::Multiply => "Multiply"@,
        BinaryOperator::Divide => "Divide"@,
        BinaryOperator::Modulo => "Modulo"@,
        BinaryOperator::Power => "Power"@,
    }
}

pub open spec fn property_access_text(x: PropertyAccess) -> Seq<char>
{
    "PropertyAccess { "@ + "variable: "@ + str_debug(x.variable@) + ", property: "@ + str_debug(x.property@) + " }"@
}

pub open spec fn unary_expression_text(x: UnaryExpression) -> Seq<char>
    decreases x, 2int,
{
    "UnaryExpression { "@ + "operator: "@ + unary_operator_text(x.operator) + ", operand: "@ + expression_text(x.operand) + " }"@
}

pub open spec fn binary_expression_text(x: BinaryExpression) -> Seq<char>
    decreases x, 2int,
{
    "BinaryExpression { "@ + "left: "@ + expression_text(x.left) + ", operator: "@ + binary_operator_text(x.operator) + ", right: "@ + expression_text(x.right) + " }"@
}

pub open spec fn function_call_text(x: FunctionCall) -> Seq<char>
    decreases x, 2int,
{
    "FunctionCall { "@ + "name: "@ + str_debug(x.name@) + ", args: "@ + list_expression_text(x.args@) + " }"@
}

pub open spec fn property_pair_text(x: PropertyPair) -> Seq<char>
    decreases x, 2int,
{
    "PropertyPair { "@ + "key: "@ + str_debug(x.key@) + ", value: "@ + expression_text(x.value) + " }"@
}

pub open spec fn property_map_text(x: PropertyMap) -> Seq<char>
    decreases x, 2int,
{
    "PropertyMap { "@ + "properties: "@ + list_property_pair_text(x.properties@) + " }"@
}

pub open spec fn case_expression_text(x: CaseExpression) -> Seq<char>
    decreases x, 2int,
{
    "CaseExpression { "@ + "expression: "@ + option_expression_text(x.expression) + ", when_clauses: "@ + list_when_pair_text(x.when_clauses@) + ", else_expression: "@ + option_expression_text(x.else_expression) + " }"@
}

pub open spec fn list_comprehension_text(x: ListComprehension) -> Seq<char>
    decreases x, 2int,
{
    "ListComprehension { "@ + "variable: "@ + str_debug(x.variable@) + ", list: "@ + expression_text(x.list) + ", where_expression: "@ + option_expression_text(x.where_expression) + ", map_expression: "@ + option_expression_text(x.map_expression) + " }"@
}

pub open spec fn pattern_comprehension_text(x: PatternComprehension) -> Seq<char>
    decreases x, 2int,
{
    "PatternComprehension { "@ + "pattern: "@ + pattern_text(x.pattern) + ", where_expression: "@ + option_expression_text(x.where_expression) + ", projection: "@ + expression_text(x.projection) + " }"@
}

pub open spec fn exists_expression_text(x: ExistsExpression) -> Seq<char>
    decreases x, 2int,
{
    match x {
        ExistsExpression::Pattern(a) => "Pattern("@ + pattern_text(a) + ")"@,
        ExistsExpression::Subquery(a) => "Subquery("@ + query_text(a) + ")"@,
    }
}

/// The `Debug` text of an expression.
pub open spec fn expression_text(x: Expression) -> Seq<char>
    decreases x, 2int,
{
    match x {
        Expression::Literal(a) => "Literal("@ + literal_text(a) + ")"@,
        Expression::Variable(a) => "Variable("@ + str_debug(a@) + ")"@,
        Expression::Parameter(a) => "Parameter("@ + str_debug(a@) + ")"@,
        Expression::PropertyAccess(a) => "PropertyAccess("@ + property_access_text(a) + ")"@,
        Expression::Unary(a) => "Unary("@ + unary_expression_text(*a) + ")"@,
        Expression::Binary(a) => "Binary("@ + binary_expression_text(*a) + ")"@,
        Expression::FunctionCall(a) => "FunctionCall("@ + function_call_text(a) + ")"@,
        Expression::List(a) => "List("@ + list_expression_text(a@) + ")"@,
        Expression::MapLiteral(a) => "MapLiteral("@ + property_map_text(a) + ")"@,
        Expression::Case(a) => "Case("@ + case_expression_text(*a) + ")"@,
        Expression::Exists(a) => "Exists("@ + exists_expression_text(*a) + ")"@,
        Expression::ListComprehension(a) => "ListComprehension("@ + list_comprehension_text(*a) + ")"@,
        Expression::PatternComprehension(a) => "PatternComprehension("@ + pattern_comprehension_text(*a) + ")"@,
    }
}

pub open spec fn node_pattern_text(x: NodePattern) -> Seq<char>
    decreases x, 2int,
{
    "NodePattern { "@ + "variable: "@ + option_string_text(x.variable) + ", labels: "@ + list_string_text(x.labels@) + ", properties: "@ + option_property_map_text(x.properties) + " }"@
}

pub open spec fn relationship_direction_text(x: RelationshipDirection) -> Seq<char>
{
    match x {
        RelationshipDirection::LeftToRight => "LeftToRight"@,
        RelationshipDirection::RightToLeft => "RightToLeft"@,
        RelationshipDirection::Undirected => "Undirected"@,
    }
}

pub open spec fn variable_length_text(x: VariableLength) -> Seq<char>
{
    "VariableLength { "@ + "min: "@ + option_u32_text(x.min) + ", max: "@ + option_u32_text(x.max) + " }"@
}

pub open spec fn relationship_pattern_text(x: RelationshipPattern) -> Seq<char>
    decreases x, 2int,
{
    "RelationshipPattern { "@ + "variable: "@ + option_string_text(x.variable) + ", types: "@ + list_string_text(x.types@) + ", direction: "@ + relationship_direction_text(x.direction) + ", properties: "@ + option_property_map_text(x.properties) + ", variable_length: "@ + option_variable_length_text(x.variable_length) + " }"@
}

pub open spec fn path_element_text(x: PathElement) -> Seq<char>
    decreases x, 2int,
{
    match x {
        PathElement::Node(a) => "Node("@ + node_pattern_text(a) + ")"@,
        PathElement::Relationship(a) => "Relationship("@ + relationship_pattern_text(a) + ")"@,
    }
}

/// The `Debug` text of a pattern.
pub open spec fn pattern_text(x: Pattern) -> Seq<char>
    decreases x, 2int,
{
    "Pattern { "@ + "variable: "@ + option_string_text(x.variable) + ", elements: "@ + list_path_element_text(x.elements@) + " }"@
}

pub open spec fn query_text(x: Query) -> Seq<char>
    decreases x, 2int,
{
    "Query { "@ + "clauses: "@ + list_clause_text(x.clauses@) + " }"@
}

pub open spec fn match_clause_text(x: MatchClause) -> Seq<char>
    decreases x, 2int,
{
    "MatchClause { "@ + "optional: "@ + bool_text(x.optional) + ", pattern: "@ + pattern_text(x.pattern) + " }"@
}

pub open spec fn where_clause_text(x: WhereClause) -> Seq<char>
    decreases x, 2int,
{
    "WhereClause { "@ + "expression: "@ + expression_text(x.expression) + " }"@
}

pub open spec fn return_item_text(x: ReturnItem) -> Seq<char>
    decreases x, 2int,
{
    "ReturnItem { "@ + "expression: "@ + expression_text(x.expression) + ", alias: "@ + option_string_text(x.alias) + " }"@
}

pub open spec fn direction_text(x: Direction) -> Seq<char>
{
    match x {
        Direction::Ascending => "Ascending"@,
        Direction::Descending => "Descending"@,
    }
}

pub open spec fn order_by_item_text(x: OrderByItem) -> Seq<char>
    decreases x, 2int,
{
    "OrderByItem { "@ + "expression: "@ + expression_text(x.expression) + ", direction: "@ + direction_text(x.direction) + " }"@
}

pub open spec fn order_by_clause_text(x: OrderByClause) -> Seq<char>
    decreases x, 2int,
{
    "OrderByClause { "@ + "items: "@ + list_order_by_item_text(x.items@) + " }"@
}

pub open spec fn with_clause_text(x: WithClause) -> Seq<char>
    decreases x, 2int,
{
    "WithClause { "@ + "items: "@ + list_return_item_text(x.items@) + ", where_clause: "@ + option_where_clause_text(x.where_clause) + ", order_by: "@ + option_order_by_clause_text(x.order_by) + ", skip: "@ + option_u32_text(x.skip) + ", limit: "@ + option_u32_text(x.limit) + " }"@
}

pub open spec fn return_clause_text(x: ReturnClause) -> Seq<char>
    decreases x, 2int,
{
    "ReturnClause { "@ + "distinct: "@ + bool_text(x.distinct) + ", items: "@ + list_return_item_text(x.items@) + ", order_by: "@ + option_order_by_clause_text(x.order_by) + ", skip: "@ + option_u32_text(x.skip) + ", limit: "@ + option_u32_text(x.limit) + " }"@
}

pub open spec fn create_clause_text(x: CreateClause) -> Seq<char>
    decreases x, 2int,
{
    "CreateClause { "@ + "pattern: "@ + pattern_text(x.pattern) + " }"@
}

pub open spec fn merge_clause_text(x: MergeClause) -> Seq<char>
    decreases x, 2int,
{
    "MergeClause { "@ + "pattern: "@ + pattern_text(x.pattern) + " }"@
}

pub open spec fn set_item_text(x: SetItem) -> Seq<char>
    decreases x, 2int,
{
    "SetItem { "@ + "property: "@ + property_access_text(x.property) + ", value: "@ + expression_text(x.value) + " }"@
}

pub open spec fn set_clause_text(x: SetClause) -> Seq<char>
    decreases x, 2int,
{
    "SetClause { "@ + "items: "@ + list_set_item_text(x.items@) + " }"@
}

pub open spec fn remove_clause_text(x: RemoveClause) -> Seq<char>
    decreases x, 2int,
{
    "RemoveClause { "@ + "properties: "@ + list_property_access_text(x.properties@) + " }"@
}

pub open spec fn delete_clause_text(x: DeleteClause) -> Seq<char>
    decreases x, 2int,
{
    "DeleteClause { "@ + "detach: "@ + bool_text(x.detach) + ", expressions: "@ + list_expression_text(x.expressions@) + " }"@
}

pub open spec fn unwind_clause_text(x: UnwindClause) -> Seq<char>
    decreases x, 2int,
{
    "UnwindClause { "@ + "expression: "@ + expression_text(x.expression) + ", alias: "@ + str_debug(x.alias@) + " }"@
}

pub open spec fn yield_item_text(x: YieldItem) -> Seq<char>
{
    "YieldItem { "@ + "name: "@ + str_debug(x.name@) + ", alias: "@ + option_string_text(x.alias) + " }"@
}

pub open spec fn procedure_call_text(x: ProcedureCall) -> Seq<char>
    decreases x, 2int,
{
    "ProcedureCall { "@ + "name: "@ + str_debug(x.name@) + ", arguments: "@ + list_expression_text(x.arguments@) + ", yields: "@ + option_yield_items_text(x.yields) + " }"@
}

pub open spec fn call_clause_text(x: CallClause) -> Seq<char>
    decreases x, 2int,
{
    match x {
        CallClause::Subquery(a) => "Subquery("@ + query_text(a) + ")"@,
        CallClause::Procedure(a) => "Procedure("@ + procedure_call_text(a) + ")"@,
    }
}

pub open spec fn union_clause_text(x: UnionClause) -> Seq<char>
    decreases x, 2int,
{
    "UnionClause { "@ + "all: "@ + bool_text(x.all) + ", query: "@ + query_text(x.query) + " }"@
}

pub open spec fn foreach_clause_text(x: ForeachClause) -> Seq<char>
    decreases x, 2int,
{
    "ForeachClause { "@ + "variable: "@ + str_debug(x.variable@) + ", list: "@ + expression_text(x.list) + ", updates: "@ + list_clause_text(x.updates@) + " }"@
}

/// The `Debug` text of a clause.
pub open spec fn clause_text(x: Clause) -> Seq<char>
    decreases x, 2int,
{
    match x {
        Clause::Match(a) => "Match("@ + match_clause_text(a) + ")"@,
        Clause::Where(a) => "Where("@ + where_clause_text(a) + ")"@,
        Clause::With(a) => "With("@ + with_clause_text(a) + ")"@,
        Clause::Return(a) => "Return("@ + return_clause_text(a) + ")"@,
        Clause::Create(a) => "Create("@ + create_clause_text(a) + ")"@,
        Clause::Merge(a) => "Merge("@ + merge_clause_text(a) + ")"@,
        Clause::SetProps(a) => "SetProps("@ + set_clause_text(a) + ")"@,
        Clause::Remove(a) => "Remove("@ + remove_clause_text(a) + ")"@,
        Clause::Delete(a) => "Delete("@ + delete_clause_text(a) + ")"@,
        Clause::Unwind(a) => "Unwind("@ + unwind_clause_text(a) + ")"@,
        Clause::Call(a) => "Call("@ + call_clause_text(a) + ")"@,
        Clause::Union(a) => "Union("@ + union_clause_text(a) + ")"@,
        Clause::Foreach(a) => "Foreach("@ + foreach_clause_text(a) + ")"@,
    }
}

/// The `Debug` text of an aggregate function.
pub open spec fn aggregate_function_text(x: AggregateFunction) -> Seq<char>
    decreases x, 2int,
{
    match x {
        AggregateFunction::Count(a) => "Count("@ + option_expression_text(a) + ")"@,
        AggregateFunction::Sum(a) => "Sum("@ + expression_text(a) + ")"@,
        AggregateFunction::Avg(a) => "Avg("@ + expression_text(a) + ")"@,
        AggregateFunction::Min(a) => "Min("@ + expression_text(a) + ")"@,
        AggregateFunction::Max(a) => "Max("@ + expression_text(a) + ")"@,
        AggregateFunction::Collect(a) => "Collect("@ + expression_text(a) + ")"@,
    }
}

pub open spec fn option_expression_text(x: Option<Expression>) -> Seq<char>
    decreases x, 2int,
{
    match x {
        Some(a) => "Some("@ + expression_text(a) + ")"@,
        None => "None"@,
    }
}

pub open spec fn option_order_by_clause_text(x: Option<OrderByClause>) -> Seq<char>
    decreases x, 2int,
{
    match x {
        Some(a) => "Some("@ + order_by_clause_text(a) + ")"@,
        None => "None"@,
    }
}

pub open spec fn option_property_map_text(x: Option<PropertyMap>) -> Seq<char>
    decreases x, 2int,
{
    match x {
        Some(a) => "Some("@ + property_map_text(a) + ")"@,
        None => "None"@,
    }
}

pub open spec fn option_string_text(x: Option<String>) -> Seq<char>
{
    match x {
        Some(a) => "Some("@ + str_debug(a@) + ")"@,
        None => "None"@,
    }
}

pub open spec fn option_variable_length_text(x: Option<VariableLength>) -> Seq<char>
{
    match x {
        Some(a) => "Some("@ + variable_length_text(a) + ")"@,
        None => "None"@,
    }
}

pub open spec fn option_yield_items_text(x: Option<Vec<YieldItem>>) -> Seq<char>
{
    match x {
        Some(a) => "Some("@ + list_yield_item_text(a@) + ")"@,
        None => "None"@,
    }
}

pub open spec fn option_where_clause_text(x: Option<WhereClause>) -> Seq<char>
    decreases x, 2int,
{
    match x {
        Some(a) => "Some("@ + where_clause_text(a) + ")"@,
        None => "None"@,
    }
}

pub open spec fn option_u32_text(x: Option<u32>) -> Seq<char>
{
    match x {
        Some(a) => "Some("@ + decimal(a as nat) + ")"@,
        None => "None"@,
    }
}

pub open spec fn when_pair_text(x: (Expression, Expression)) -> Seq<char>
    decreases x, 2int,
{
    "("@ + expression_text(x.0) + ", "@ + expression_text(x.1) + ")"@
}

pub open spec fn join_when_pair(s: Seq<(Expression, Expression)>) -> Seq<char>
    decreases s, 0int,
{
    if s.len() == 0 {
        Seq::empty()
    } else if s.len() == 1 {
        when_pair_text(s[0])
    } else {
        join_when_pair(s.drop_last()) + ", "@ + when_pair_text(s.last())
    }
}

pub open spec fn list_when_pair_text(s: Seq<(Expression, Expression)>) -> Seq<char>
    decreases s, 1int,
{
    "["@ + join_when_pair(s) + "]"@
}

pub open spec fn join_clause(s: Seq<Clause>) -> Seq<char>
    decreases s, 0int,
{
    if s.len() == 0 {
        Seq::empty()
    } else if s.len() == 1 {
        clause_text(s[0])
    } else {
        join_clause(s.drop_last()) + ", "@ + clause_text(s.last())
    }
}

pub open spec fn list_clause_text(s: Seq<Clause>) -> Seq<char>
    decreases s, 1int,
{
    "["@ + join_clause(s) + "]"@
}

pub open spec fn join_expression(s: Seq<Expression>) -> Seq<char>
    decreases s, 0int,
{
    if s.len() == 0 {
        Seq::empty()
    } else if s.len() == 1 {
        expression_text(s[0])
    } else {
        join_expression(s.drop_last()) + ", "@ + expression_text(s.last())
    }
}

pub open spec fn list_expression_text(s: Seq<Expression>) -> Seq<char>
    decreases s, 1int,
{
    "["@ + join_expression(s) + "]"@
}

pub open spec fn join_order_by_item(s: Seq<OrderByItem>) -> Seq<char>
    decreases s, 0int,
{
    if s.len() == 0 {
        Seq::empty()
    } else if s.len() == 1 {
        order_by_item_text(s[0])
    } else {
        join_order_by_item(s.drop_last()) + ", "@ + order_by_item_text(s.last())
    }
}

pub open spec fn list_order_by_item_text(s: Seq<OrderByItem>) -> Seq<char>
    decreases s, 1int,
{
    "["@ + join_order_by_item(s) + "]"@
}

pub open spec fn join_path_element(s: Seq<PathElement>) -> Seq<char>
    decreases s, 0int,
{
    if s.len() == 0 {
        Seq::empty()
    } else if s.len() == 1 {
        path_element_text(s[0])
    } else {
        join_path_element(s.drop_last()) + ", "@ + path_element_text(s.last())
    }
}

pub open spec fn list_path_element_text(s: Seq<PathElement>) -> Seq<char>
    decreases s, 1int,
{
    "["@ + join_path_element(s) + "]"@
}

pub open spec fn join_property_access(s: Seq<PropertyAccess>) -> Seq<char>
    decreases s.len(),
{
    if s.len() == 0 {
        Seq::empty()
    } else if s.len() == 1 {
        property_access_text(s[0])
    } else {
        join_property_access(s.drop_last()) + ", "@ + property_access_text(s.last())
    }
}

pub open spec fn list_property_access_text(s: Seq<PropertyAccess>) -> Seq<char>
{
    "["@ + join_property_access(s) + "]"@
}

pub open spec fn join_property_pair(s: Seq<PropertyPair>) -> Seq<char>
    decreases s, 0int,
{
    if s.len() == 0 {
        Seq::empty()
    } else if s.len() == 1 {
        property_pair_text(s[0])
    } else {
        join_property_pair(s.drop_last()) + ", "@ + property_pair_text(s.last())
    }
}

pub open spec fn list_property_pair_text(s: Seq<PropertyPair>) -> Seq<char>
    decreases s, 1int,
{
    "["@ + join_property_pair(s) + "]"@
}

pub open spec fn join_return_item(s: Seq<ReturnItem>) -> Seq<char>
    decreases s, 0int,
{
    if s.len() == 0 {
        Seq::empty()
    } else if s.len() == 1 {
        return_item_text(s[0])
    } else {
        join_return_item(s.drop_last()) + ", "@ + return_item_text(s.last())
    }
}

pub open spec fn list_return_item_text(s: Seq<ReturnItem>) -> Seq<char>
    decreases s, 1int,
{
    "["@ + join_return_item(s) + "]"@
}

pub open spec fn join_set_item(s: Seq<SetItem>) -> Seq<char>
    decreases s, 0int,
{
    if s.len() == 0 {
        Seq::empty()
    } else if s.len() == 1 {
        set_item_text(s[0])
    } else {
        join_set_item(s.drop_last()) + ", "@ + set_item_text(s.last())
    }
}

pub open spec fn list_set_item_text(s: Seq<SetItem>) -> Seq<char>
    decreases s, 1int,
{
    "["@ + join_set_item(s) + "]"@
}

pub open spec fn join_string(s: Seq<String>) -> Seq<char>
    decreases s.len(),
{
    if s.len() == 0 {
        Seq::empty()
    } else if s.len() == 1 {
        str_debug(s[0]@)
    } else {
        join_string(s.drop_last()) + ", "@ + str_debug(s.last()@)
    }
}

pub open spec fn list_string_text(s: Seq<String>) -> Seq<char>
{
    "["@ + join_string(s) + "]"@
}

pub open spec fn join_yield_item(s: Seq<YieldItem>) -> Seq<char>
    decreases s.len(),
{
    if s.len() == 0 {
        Seq::empty()
    } else if s.len() == 1 {
        yield_item_text(s[0])
    } else {
        join_yield_item(s.drop_last()) + ", "@ + yield_item_text(s.last())
    }
}

pub open spec fn list_yield_item_text(s: Seq<YieldItem>) -> Seq<char>
{
    "["@ + join_yield_item(s) + "]"@
}

#[verifier::spinoff_prover]
pub(crate) fn push_literal(out: &mut String, x: &Literal)
    ensures
        final(out)@ == old(out)@ + literal_text(*x),
{
    match x {
        Literal::Integer(a) => {
            out.append("Integer(");
            push_i64(out, *a);
            out.append(")");
            proof {
                assert(out@ =~= old(out)@ + literal_text(*x));
            }
        },
        Literal::Float(a) => {
            out.append("Float(");
            push_decimal_u64(out, *a);
            out.append(")");
            proof {
                assert(out@ =~= old(out)@ + literal_text(*x));
            }
        },
        Literal::String(a) => {
            out.append("String(");
            let d = debug_str(a.as_str());
            out.append(d.as_str());
            out.append(")");
            proof {
                assert(out@ =~= old(out)@ + literal_text(*x));
            }
        },
        Literal::Boolean(a) => {
            out.append("Boolean(");
            push_bool(out, *a);
            out.append(")");
            proof {
                assert(out@ =~= old(out)@ + literal_text(*x));
            }
        },
        Literal::Null => {
            out.append("Null");
        },
    }
}

#[verifier::spinoff_prover]
pub(crate) fn push_unary_operator(out: &mut String, x: &UnaryOperator)
    ensures
        final(out)@ == old(out)@ + unary_operator_text(*x),
{
    match x {
        UnaryOperator::Not => {
            out.append("Not");
        },
        UnaryOperator::Negate => {
            out.append("Negate");
        },
    }
}

#[verifier::spinoff_prover]
pub(crate) fn push_binary_operator(out: &mut String, x: &BinaryOperator)
    ensures
        final(out)@ == old(out)@ + binary_operator_text(*x),
{
    match x {
        BinaryOperator::Equals => {
            out.append("Equals");
        },
        BinaryOperator::NotEquals => {
            out.append("NotEquals");
        },
        BinaryOperator::LessThan => {
            out.append("LessThan");
        },
        BinaryOperator::LessEqual => {
            out.append("LessEqual");
        },
        BinaryOperator::GreaterThan => {
            out.append("GreaterThan");
        },
        BinaryOperator::GreaterEqual => {
            out.append("GreaterEqual");
        },
        BinaryOperator::And => {
            out.append("And");
        },
        BinaryOperator::Or => {
            out.append("Or");
        },
        BinaryOperator::Xor => {
            out.append("Xor");
        },
        BinaryOperator::In => {
            out.append("In");
        },
        BinaryOperator::StartsWith => {
            out.append("StartsWith");
        },
        BinaryOperator::EndsWith => {
            out.append("EndsWith");
        },
        BinaryOperator::Contains => {
            out.append("Contains");
        },
        BinaryOperator::HasLabel => {
            out.append("HasLabel");
        },
        BinaryOperator::IsNull => {
            out.append("IsNull");
        },
        BinaryOperator::IsNotNull => {
            out.append("IsNotNull");
        },
        BinaryOperator::Add => {
            out.append("Add");
        },
        BinaryOperator::Subtract => {
            out.append("Subtract");
        },
        BinaryOperator::Multiply => {
            out.append("Multiply");
        },
        BinaryOperator::Divide => {
            out.append("Divide");
        },
        BinaryOperator::Modulo => {
            out.append("Modulo");
        },
        BinaryOperator::Power => {
            out.append("Power");
        },
    }
}

#[verifier::spinoff_prover]
pub(crate) fn push_property_access(out: &mut String, x: &PropertyAccess)
    ensures
        final(out)@ == old(out)@ + property_access_text(*x),
{
    out.append("PropertyAccess { ");
    out.append("variable: ");
    proof {
        assert(out@ =~= old(out)@ + ("PropertyAccess { "@ + "variable: "@));
    }
    let d = debug_str(&x.variable.as_str());
    out.append(d.as_str());
    proof {
        assert(out@ =~= old(out)@ + ("PropertyAccess { "@ + "variable: "@ + str_debug(x.variable@)));
    }
    out.append(", property: ");
    proof {
        assert(out@ =~= old(out)@ + ("PropertyAccess { "@ + "variable: "@ + str_debug(x.variable@) + ", property: "@));
    }
    let d = debug_str(&x.property.as_str());
    out.append(d.as_str());
    proof {
        assert(out@ =~= old(out)@ + ("PropertyAccess { "@ + "variable: "@ + str_debug(x.variable@) + ", property: "@ + str_debug(x.property@)));
    }
    out.append(" }");
    proof {
        assert(out@ =~= old(out)@ + property_access_text(*x));
    }
}

#[verifier::spinoff_prover]
pub(crate) fn push_unary_expression(out: &mut String, x: &UnaryExpression)
    ensures
        final(out)@ == old(out)@ + unary_expression_text(*x),
    decreases x,
{
    out.append("UnaryExpression { ");
    out.append("operator: ");
    proof {
        assert(out@ =~= old(out)@ + ("UnaryExpression { "@ + "operator: "@));
    }
    push_unary_operator(out, &x.operator);
    proof {
        assert(out@ =~= old(out)@ + ("UnaryExpression { "@ + "operator: "@ + unary_operator_text(x.operator)));
    }
    out.append(", operand: ");
    proof {
        assert(out@ =~= old(out)@ + ("UnaryExpression { "@ + "operator: "@ + unary_operator_text(x.operator) + ", operand: "@));
    }
    push_expression(out, &x.operand);
    proof {
        assert(out@ =~= old(out)@ + ("UnaryExpression { "@ + "operator: "@ + unary_operator_text(x.operator) + ", operand: "@ + expression_text(x.operand)));
    }
    out.append(" }");
    proof {
        assert(out@ =~= old(out)@ + unary_expression_text(*x));
    }
}

#[verifier::spinoff_prover]
pub(crate) fn push_binary_expression(out: &mut String, x: &BinaryExpression)
    ensures
        final(out)@ == old(out)@ + binary_expression_text(*x),
    decreases x,
{
    out.append("BinaryExpression { ");
    out.append("left: ");
    proof {
        assert(out@ =~= old(out)@ + ("BinaryExpression { "@ + "left: "@));
    }
    push_expression(out, &x.left);
    proof {
        assert(out@ =~= old(out)@ + ("BinaryExpression { "@ + "left: "@ + expression_text(x.left)));
    }
    out.append(", operator: ");
    proof {
        assert(out@ =~= old(out)@ + ("BinaryExpression { "@ + "left: "@ + expression_text(x.left) + ", operator: "@));
    }
    push_binary_operator(out, &x.operator);
    proof {
        assert(out@ =~= old(out)@ + ("BinaryExpression { "@ + "left: "@ + expression_text(x.left) + ", operator: "@ + binary_operator_text(x.operator)));
    }
    out.append(", right: ");
    proof {
        assert(out@ =~= old(out)@ + ("BinaryExpression { "@ + "left: "@ + expression_text(x.left) + ", operator: "@ + binary_operator_text(x.operator) + ", right: "@));
    }
    push_expression(out, &x.right);
    proof {
        assert(out@ =~= old(out)@ + ("BinaryExpression { "@ + "left: "@ + expression_text(x.left) + ", operator: "@ + binary_operator_text(x.operator) + ", right: "@ + expression_text(x.right)));
    }
    out.append(" }");
    proof {
        assert(out@ =~= old(out)@ + binary_expression_text(*x));
    }
}

#[verifier::spinoff_prover]
pub(crate) fn push_function_call(out: &mut String, x: &FunctionCall)
    ensures
        final(out)@ == old(out)@ + function_call_text(*x),
    decreases x,
{
    out.append("FunctionCall { ");
    out.append("name: ");
    proof {
        assert(out@ =~= old(out)@ + ("FunctionCall { "@ + "name: "@));
    }
    let d = debug_str(&x.name.as_str());
    out.append(d.as_str());
    proof {
        assert(out@ =~= old(out)@ + ("FunctionCall { "@ + "name: "@ + str_debug(x.name@)));
    }
    out.append(", args: ");
    proof {
        assert(out@ =~= old(out)@ + ("FunctionCall { "@ + "name: "@ + str_debug(x.name@) + ", args: "@));
    }
    push_list_expression(out, &x.args);
    proof {
        assert(out@ =~= old(out)@ + ("FunctionCall { "@ + "name: "@ + str_debug(x.name@) + ", args: "@ + list_expression_text(x.args@)));
    }
    out.append(" }");
    proof {
        assert(out@ =~= old(out)@ + function_call_text(*x));
    }
}

#[verifier::spinoff_prover]
pub(crate) fn push_property_pair(out: &mut String, x: &PropertyPair)
    ensures
        final(out)@ == old(out)@ + property_pair_text(*x),
    decreases x,
{
    out.append("PropertyPair { ");
    out.append("key: ");
    proof {
        assert(out@ =~= old(out)@ + ("PropertyPair { "@ + "key: "@));
    }
    let d = debug_str(&x.key.as_str());
    out.append(d.as_str());
    proof {
        assert(out@ =~= old(out)@ + ("PropertyPair { "@ + "key: "@ + str_debug(x.key@)));
    }
    out.append(", value: ");
    proof {
        assert(out@ =~= old(out)@ + ("PropertyPair { "@ + "key: "@ + str_debug(x.key@) + ", value: "@));
    }
    push_expression(out, &x.value);
    proof {
        assert(out@ =~= old(out)@ + ("PropertyPair { "@ + "key: "@ + str_debug(x.key@) + ", value: "@ + expression_text(x.value)));
    }
    out.append(" }");
    proof {
        assert(out@ =~= old(out)@ + property_pair_text(*x));
    }
}

#[verifier::spinoff_prover]
pub(crate) fn push_property_map(out: &mut String, x: &PropertyMap)
    ensures
        final(out)@ == old(out)@ + property_map_text(*x),
    decreases x,
{
    out.append("PropertyMap { ");
    out.append("properties: ");
    proof {
        assert(out@ =~= old(out)@ + ("PropertyMap { "@ + "properties: "@));
    }
    push_list_property_pair(out, &x.properties);
    proof {
        assert(out@ =~= old(out)@ + ("PropertyMap { "@ + "properties: "@ + list_property_pair_text(x.properties@)));
    }
    out.append(" }");
    proof {
        assert(out@ =~= old(out)@ + property_map_text(*x));
    }
}

#[verifier::spinoff_prover]
pub(crate) fn push_case_expression(out: &mut String, x: &CaseExpression)
    ensures
        final(out)@ == old(out)@ + case_expression_text(*x),
    decreases x,
{
    out.append("CaseExpression { ");
    out.append("expression: ");
    proof {
        assert(out@ =~= old(out)@ + ("CaseExpression { "@ + "expression: "@));
    }
    push_option_expression(out, &x.expression);
    proof {
        assert(out@ =~= old(out)@ + ("CaseExpression { "@ + "expression: "@ + option_expression_text(x.expression)));
    }
    out.append(", when_clauses: ");
    proof {
        assert(out@ =~= old(out)@ + ("CaseExpression { "@ + "expression: "@ + option_expression_text(x.expression) + ", when_clauses: "@));
    }
    push_list_when_pair(out, &x.when_clauses);
    proof {
        assert(out@ =~= old(out)@ + ("CaseExpression { "@ + "expression: "@ + option_expression_text(x.expression) + ", when_clauses: "@ + list_when_pair_text(x.when_clauses@)));
    }
    out.append(", else_expression: ");
    proof {
        assert(out@ =~= old(out)@ + ("CaseExpression { "@ + "expression: "@ + option_expression_text(x.expression) + ", when_clauses: "@ + list_when_pair_text(x.when_clauses@) + ", else_expression: "@));
    }
    push_option_expression(out, &x.else_expression);
    proof {
        assert(out@ =~= old(out)@ + ("CaseExpression { "@ + "expression: "@ + option_expression_text(x.expression) + ", when_clauses: "@ + list_when_pair_text(x.when_clauses@) + ", else_expression: "@ + option_expression_text(x.else_expression)));
    }
    out.append(" }");
    proof {
        assert(out@ =~= old(out)@ + case_expression_text(*x));
    }
}

#[verifier::spinoff_prover]
pub(crate) fn push_list_comprehension(out: &mut String, x: &ListComprehension)
    ensures
        final(out)@ == old(out)@ + list_comprehension_text(*x),
    decreases x,
{
    out.append("ListComprehension { ");
    out.append("variable: ");
    proof {
        assert(out@ =~= old(out)@ + ("ListComprehension { "@ + "variable: "@));
    }
    let d = debug_str(&x.variable.as_str());
    out.append(d.as_str());
    proof {
        assert(out@ =~= old(out)@ + ("ListComprehension { "@ + "variable: "@ + str_debug(x.variable@)));
    }
    out.append(", list: ");
    proof {
        assert(out@ =~= old(out)@ + ("ListComprehension { "@ + "variable: "@ + str_debug(x.variable@) + ", list: "@));
    }
    push_expression(out, &x.list);
    proof {
        assert(out@ =~= old(out)@ + ("ListComprehension { "@ + "variable: "@ + str_debug(x.variable@) + ", list: "@ + expression_text(x.list)));
    }
    out.append(", where_expression: ");
    proof {
        assert(out@ =~= old(out)@ + ("ListComprehension { "@ + "variable: "@ + str_debug(x.variable@) + ", list: "@ + expression_text(x.list) + ", where_expression: "@));
    }
    push_option_expression(out, &x.where_expression);
    proof {
        assert(out@ =~= old(out)@ + ("ListComprehension { "@ + "variable: "@ + str_debug(x.variable@) + ", list: "@ + expression_text(x.list) + ", where_expression: "@ + option_expression_text(x.where_expression)));
    }
    out.append(", map_expression: ");
    proof {
        assert(out@ =~= old(out)@ + ("ListComprehension { "@ + "variable: "@ + str_debug(x.variable@) + ", list: "@ + expression_text(x.list) + ", where_expression: "@ + option_expression_text(x.where_expression) + ", map_expression: "@));
    }
    push_option_expression(out, &x.map_expression);
    proof {
        assert(out@ =~= old(out)@ + ("ListComprehension { "@ + "variable: "@ + str_debug(x.variable@) + ", list: "@ + expression_text(x.list) + ", where_expression: "@ + option_expression_text(x.where_expression) + ", map_expression: "@ + option_expression_text(x.map_expression)));
    }
    out.append(" }");
    proof {
        assert(out@ =~= old(out)@ + list_comprehension_text(*x));
    }
}

#[verifier::spinoff_prover]
pub(crate) fn push_pattern_comprehension(out: &mut String, x: &PatternComprehension)
    ensures
        final(out)@ == old(out)@ + pattern_comprehension_text(*x),
    decreases x,
{
    out.append("PatternComprehension { ");
    out.append("pattern: ");
    proof {
        assert(out@ =~= old(out)@ + ("PatternComprehension { "@ + "pattern: "@));
    }
    push_pattern(out, &x.pattern);
    proof {
        assert(out@ =~= old(out)@ + ("PatternComprehension { "@ + "pattern: "@ + pattern_text(x.pattern)));
    }
    out.append(", where_expression: ");
    proof {
        assert(out@ =~= old(out)@ + ("PatternComprehension { "@ + "pattern: "@ + pattern_text(x.pattern) + ", where_expression: "@));
    }
    push_option_expression(out, &x.where_expression);
    proof {
        assert(out@ =~= old(out)@ + ("PatternComprehension { "@ + "pattern: "@ + pattern_text(x.pattern) + ", where_expression: "@ + option_expression_text(x.where_expression)));
    }
    out.append(", projection: ");
    proof {
        assert(out@ =~= old(out)@ + ("PatternComprehension { "@ + "pattern: "@ + pattern_text(x.pattern) + ", where_expression: "@ + option_expression_text(x.where_expression) + ", projection: "@));
    }
    push_expression(out, &x.projection);
    proof {
        assert(out@ =~= old(out)@ + ("PatternComprehension { "@ + "pattern: "@ + pattern_text(x.pattern) + ", where_expression: "@ + option_expression_text(x.where_expression) + ", projection: "@ + expression_text(x.projection)));
    }
    out.append(" }");
    proof {
        assert(out@ =~= old(out)@ + pattern_comprehension_text(*x));
    }
}

#[verifier::spinoff_prover]
pub(crate) fn push_exists_expression(out: &mut String, x: &ExistsExpression)
    ensures
        final(out)@ == old(out)@ + exists_expression_text(*x),
    decreases x,
{
    match x {
        ExistsExpression::Pattern(a) => {
            out.append("Pattern(");
            push_pattern(out, a);
            out.append(")");
            proof {
                assert(out@ =~= old(out)@ + exists_expression_text(*x));
            }
        },
        ExistsExpression::Subquery(a) => {
            out.append("Subquery(");
            push_query(out, a);
            out.append(")");
            proof {
                assert(out@ =~= old(out)@ + exists_expression_text(*x));
            }
        },
    }
}

/// Appends the `Debug` text of an expression.
#[verifier::spinoff_prover]
pub(crate) fn push_expression(out: &mut String, x: &Expression)
    ensures
        final(out)@ == old(out)@ + expression_text(*x),
    decreases x,
{
    match x {
        Expression::Literal(a) => {
            out.append("Literal(");
            push_literal(out, a);
            out.append(")");
            proof {
                assert(out@ =~= old(out)@ + expression_text(*x));
            }
        },
        Expression::Variable(a) => {
            out.append("Variable(");
            let d = debug_str(a.as_str());
            out.append(d.as_str());
            out.append(")");
            proof {
                assert(out@ =~= old(out)@ + expression_text(*x));
            }
        },
        Expression::Parameter(a) => {
            out.append("Parameter(");
            let d = debug_str(a.as_str());
            out.append(d.as_str());
            out.append(")");
            proof {
                assert(out@ =~= old(out)@ + expression_text(*x));
            }
        },
        Expression::PropertyAccess(a) => {
            out.append("PropertyAccess(");
            push_property_access(out, a);
            out.append(")");
            proof {
                assert(out@ =~= old(out)@ + expression_text(*x));
            }
        },
        Expression::Unary(a) => {
            out.append("Unary(");
            push_unary_expression(out, &**a);
            out.append(")");
            proof {
                assert(out@ =~= old(out)@ + expression_text(*x));
            }
        },
        Expression::Binary(a) => {
            out.append("Binary(");
            push_binary_expression(out, &**a);
            out.append(")");
            proof {
                assert(out@ =~= old(out)@ + expression_text(*x));
            }
        },
        Expression::FunctionCall(a) => {
            out.append("FunctionCall(");
            push_function_call(out, a);
            out.append(")");
            proof {
                assert(out@ =~= old(out)@ + expression_text(*x));
            }
        },
        Expression::List(a) => {
            out.append("List(");
            push_list_expression(out, a);
            out.append(")");
            proof {
                assert(out@ =~= old(out)@ + expression_text(*x));
            }
        },
        Expression::MapLiteral(a) => {
            out.append("MapLiteral(");
            push_property_map(out, a);
            out.append(")");
            proof {
                assert(out@ =~= old(out)@ + expression_text(*x));
            }
        },
        Expression::Case(a) => {
            out.append("Case(");
            push_case_expression(out, &**a);
            out.append(")");
            proof {
                assert(out@ =~= old(out)@ + expression_text(*x));
            }
        },
        Expression::Exists(a) => {
            out.append("Exists(");
            push_exists_expression(out, &**a);
            out.append(")");
            proof {
                assert(out@ =~= old(out)@ + expression_text(*x));
            }
        },
        Expression::ListComprehension(a) => {
            out.append("ListComprehension(");
            push_list_comprehension(out, &**a);
            out.append(")");
            proof {
                assert(out@ =~= old(out)@ + expression_text(*x));
            }
        },
        Expression::PatternComprehension(a) => {
            out.append("PatternComprehension(");
            push_pattern_comprehension(out, &**a);
            out.append(")");
            proof {
                assert(out@ =~= old(out)@ + expression_text(*x));
            }
        },
    }
}

#[verifier::spinoff_prover]
pub(crate) fn push_node_pattern(out: &mut String, x: &NodePattern)
    ensures
        final(out)@ == old(out)@ + node_pattern_text(*x),
    decreases x,
{
    out.append("NodePattern { ");
    out.append("variable: ");
    proof {
        assert(out@ =~= old(out)@ + ("NodePattern { "@ + "variable: "@));
    }
    push_option_string(out, &x.variable);
    proof {
        assert(out@ =~= old(out)@ + ("NodePattern { "@ + "variable: "@ + option_string_text(x.variable)));
    }
    out.append(", labels: ");
    proof {
        assert(out@ =~= old(out)@ + ("NodePattern { "@ + "variable: "@ + option_string_text(x.variable) + ", labels: "@));
    }
    push_list_string(out, &x.labels);
    proof {
        assert(out@ =~= old(out)@ + ("NodePattern { "@ + "variable: "@ + option_string_text(x.variable) + ", labels: "@ + list_string_text(x.labels@)));
    }
    out.append(", properties: ");
    proof {
        assert(out@ =~= old(out)@ + ("NodePattern { "@ + "variable: "@ + option_string_text(x.variable) + ", labels: "@ + list_string_text(x.labels@) + ", properties: "@));
    }
    push_option_property_map(out, &x.properties);
    proof {
        assert(out@ =~= old(out)@ + ("NodePattern { "@ + "variable: "@ + option_string_text(x.variable) + ", labels: "@ + list_string_text(x.labels@) + ", properties: "@ + option_property_map_text(x.properties)));
    }
    out.append(" }");
    proof {
        assert(out@ =~= old(out)@ + node_pattern_text(*x));
    }
}

#[verifier::spinoff_prover]
pub(crate) fn push_relationship_direction(out: &mut String, x: &RelationshipDirection)
    ensures
        final(out)@ == old(out)@ + relationship_direction_text(*x),
{
    match x {
        RelationshipDirection::LeftToRight => {
            out.append("LeftToRight");
        },
        RelationshipDirection::RightToLeft => {
            out.append("RightToLeft");
        },
        RelationshipDirection::Undirected => {
            out.append("Undirected");
        },
    }
}

#[verifier::spinoff_prover]
pub(crate) fn push_variable_length(out: &mut String, x: &VariableLength)
    ensures
        final(out)@ == old(out)@ + variable_length_text(*x),
{
    out.append("VariableLength { ");
    out.append("min: ");
    proof {
        assert(out@ =~= old(out)@ + ("VariableLength { "@ + "min: "@));
    }
    push_option_u32(out, &x.min);
    proof {
        assert(out@ =~= old(out)@ + ("VariableLength { "@ + "min: "@ + option_u32_text(x.min)));
    }
    out.append(", max: ");
    proof {
        assert(out@ =~= old(out)@ + ("VariableLength { "@ + "min: "@ + option_u32_text(x.min) + ", max: "@));
    }
    push_option_u32(out, &x.max);
    proof {
        assert(out@ =~= old(out)@ + ("VariableLength { "@ + "min: "@ + option_u32_text(x.min) + ", max: "@ + option_u32_text(x.max)));
    }
    out.append(" }");
    proof {
        assert(out@ =~= old(out)@ + variable_length_text(*x));
    }
}

#[verifier::spinoff_prover]
#[verifier::rlimit(40)]
pub(crate) fn push_relationship_pattern(out: &mut String, x: &RelationshipPattern)
    ensures
        final(out)@ == old(out)@ + relationship_pattern_text(*x),
    decreases x,
{
    out.append("RelationshipPattern { ");
    out.append("variable: ");
    proof {
        assert(out@ =~= old(out)@ + ("RelationshipPattern { "@ + "variable: "@));
    }
    push_option_string(out, &x.variable);
    proof {
        assert(out@ =~= old(out)@ + ("RelationshipPattern { "@ + "variable: "@ + option_string_text(x.variable)));
    }
    out.append(", types: ");
    proof {
        assert(out@ =~= old(out)@ + ("RelationshipPattern { "@ + "variable: "@ + option_string_text(x.variable) + ", types: "@));
    }
    push_list_string(out, &x.types);
    proof {
        assert(out@ =~= old(out)@ + ("RelationshipPattern { "@ + "variable: "@ + option_string_text(x.variable) + ", types: "@ + list_string_text(x.types@)));
    }
    out.append(", direction: ");
    proof {
        assert(out@ =~= old(out)@ + ("RelationshipPattern { "@ + "variable: "@ + option_string_text(x.variable) + ", types: "@ + list_string_text(x.types@) + ", direction: "@));
    }
    push_relationship_direction(out, &x.direction);
    proof {
        assert(out@ =~= old(out)@ + ("RelationshipPattern { "@ + "variable: "@ + option_string_text(x.variable) + ", types: "@ + list_string_text(x.types@) + ", direction: "@ + relationship_direction_text(x.direction)));
    }
    out.append(", properties: ");
    proof {
        assert(out@ =~= old(out)@ + ("RelationshipPattern { "@ + "variable: "@ + option_string_text(x.variable) + ", types: "@ + list_string_text(x.types@) + ", direction: "@ + relationship_direction_text(x.direction) + ", properties: "@));
    }
    push_option_property_map(out, &x.properties);
    proof {
        assert(out@ =~= old(out)@ + ("RelationshipPattern { "@ + "variable: "@ + option_string_text(x.variable) + ", types: "@ + list_string_text(x.types@) + ", direction: "@ + relationship_direction_text(x.direction) + ", properties: "@ + option_property_map_text(x.properties)));
    }
    out.append(", variable_length: ");
    proof {
        assert(out@ =~= old(out)@ + ("RelationshipPattern { "@ + "variable: "@ + option_string_text(x.variable) + ", types: "@ + list_string_text(x.types@) + ", direction: "@ + relationship_direction_text(x.direction) + ", properties: "@ + option_property_map_text(x.properties) + ", variable_length: "@));
    }
    push_option_variable_length(out, &x.variable_length);
    proof {
        assert(out@ =~= old(out)@ + ("RelationshipPattern { "@ + "variable: "@ + option_string_text(x.variable) + ", types: "@ + list_string_text(x.types@) + ", direction: "@ + relationship_direction_text(x.direction) + ", properties: "@ + option_property_map_text(x.properties) + ", variable_length: "@ + option_variable_length_text(x.variable_length)));
    }
    out.append(" }");
    proof {
        assert(out@ =~= old(out)@ + relationship_pattern_text(*x));
    }
}

#[verifier::spinoff_prover]
pub(crate) fn push_path_element(out: &mut String, x: &PathElement)
    ensures
        final(out)@ == old(out)@ + path_element_text(*x),
    decreases x,
{
    match x {
        PathElement::Node(a) => {
            out.append("Node(");
            push_node_pattern(out, a);
            out.append(")");
            proof {
                assert(out@ =~= old(out)@ + path_element_text(*x));
            }
        },
        PathElement::Relationship(a) => {
            out.append("Relationship(");
            push_relationship_pattern(out, a);
            out.append(")");
            proof {
                assert(out@ =~= old(out)@ + path_element_text(*x));
            }
        },
    }
}

/// Appends the `Debug` text of a pattern.
#[verifier::spinoff_prover]
pub(crate) fn push_pattern(out: &mut String, x: &Pattern)
    ensures
        final(out)@ == old(out)@ + pattern_text(*x),
    decreases x,
{
    out.append("Pattern { ");
    out.append("variable: ");
    proof {
        assert(out@ =~= old(out)@ + ("Pattern { "@ + "variable: "@));
    }
    push_option_string(out, &x.variable);
    proof {
        assert(out@ =~= old(out)@ + ("Pattern { "@ + "variable: "@ + option_string_text(x.variable)));
    }
    out.append(", elements: ");
    proof {
        assert(out@ =~= old(out)@ + ("Pattern { "@ + "variable: "@ + option_string_text(x.variable) + ", elements: "@));
    }
    push_list_path_element(out, &x.elements);
    proof {
        assert(out@ =~= old(out)@ + ("Pattern { "@ + "variable: "@ + option_string_text(x.variable) + ", elements: "@ + list_path_element_text(x.elements@)));
    }
    out.append(" }");
    proof {
        assert(out@ =~= old(out)@ + pattern_text(*x));
    }
}

#[verifier::spinoff_prover]
pub(crate) fn push_query(out: &mut String, x: &Query)
    ensures
        final(out)@ == old(out)@ + query_text(*x),
    decreases x,
{
    out.append("Query { ");
    out.append("clauses: ");
    proof {
        assert(out@ =~= old(out)@ + ("Query { "@ + "clauses: "@));
    }
    push_list_clause(out, &x.clauses);
    proof {
        assert(out@ =~= old(out)@ + ("Query { "@ + "clauses: "@ + list_clause_text(x.clauses@)));
    }
    out.append(" }");
    proof {
        assert(out@ =~= old(out)@ + query_text(*x));
    }
}

#[verifier::spinoff_prover]
pub(crate) fn push_match_clause(out: &mut String, x: &MatchClause)
    ensures
        final(out)@ == old(out)@ + match_clause_text(*x),
    decreases x,
{
    out.append("MatchClause { ");
    out.append("optional: ");
    proof {
        assert(out@ =~= old(out)@ + ("MatchClause { "@ + "optional: "@));
    }
    push_bool(out, x.optional);
    proof {
        assert(out@ =~= old(out)@ + ("MatchClause { "@ + "optional: "@ + bool_text(x.optional)));
    }
    out.append(", pattern: ");
    proof {
        assert(out@ =~= old(out)@ + ("MatchClause { "@ + "optional: "@ + bool_text(x.optional) + ", pattern: "@));
    }
    push_pattern(out, &x.pattern);
    proof {
        assert(out@ =~= old(out)@ + ("MatchClause { "@ + "optional: "@ + bool_text(x.optional) + ", pattern: "@ + pattern_text(x.pattern)));
    }
    out.append(" }");
    proof {
        assert(out@ =~= old(out)@ + match_clause_text(*x));
    }
}

#[verifier::spinoff_prover]
pub(crate) fn push_where_clause(out: &mut String, x: &WhereClause)
    ensures
        final(out)@ == old(out)@ + where_clause_text(*x),
    decreases x,
{
    out.append("WhereClause { ");
    out.append("expression: ");
    proof {
        assert(out@ =~= old(out)@ + ("WhereClause { "@ + "expression: "@));
    }
    push_expression(out, &x.expression);
    proof {
        assert(out@ =~= old(out)@ + ("WhereClause { "@ + "expression: "@ + expression_text(x.expression)));
    }
    out.append(" }");
    proof {
        assert(out@ =~= old(out)@ + where_clause_text(*x));
    }
}

#[verifier::spinoff_prover]
pub(crate) fn push_return_item(out: &mut String, x: &ReturnItem)
    ensures
        final(out)@ == old(out)@ + return_item_text(*x),
    decreases x,
{
    out.append("ReturnItem { ");
    out.append("expression: ");
    proof {
        assert(out@ =~= old(out)@ + ("ReturnItem { "@ + "expression: "@));
    }
    push_expression(out, &x.expression);
    proof {
        assert(out@ =~= old(out)@ + ("ReturnItem { "@ + "expression: "@ + expression_text(x.expression)));
    }
    out.append(", alias: ");
    proof {
        assert(out@ =~= old(out)@ + ("ReturnItem { "@ + "expression: "@ + expression_text(x.expression) + ", alias: "@));
    }
    push_option_string(out, &x.alias);
    proof {
        assert(out@ =~= old(out)@ + ("ReturnItem { "@ + "expression: "@ + expression_text(x.expression) + ", alias: "@ + option_string_text(x.alias)));
    }
    out.append(" }");
    proof {
        assert(out@ =~= old(out)@ + return_item_text(*x));
    }
}

#[verifier::spinoff_prover]
pub(crate) fn push_direction(out: &mut String, x: &Direction)
    ensures
        final(out)@ == old(out)@ + direction_text(*x),
{
    match x {
        Direction::Ascending => {
            out.append("Ascending");
        },
        Direction::Descending => {
            out.append("Descending");
        },
    }
}

#[verifier::spinoff_prover]
pub(crate) fn push_order_by_item(out: &mut String, x: &OrderByItem)
    ensures
        final(out)@ == old(out)@ + order_by_item_text(*x),
    decreases x,
{
    out.append("OrderByItem { ");
    out.append("expression: ");
    proof {
        assert(out@ =~= old(out)@ + ("OrderByItem { "@ + "expression: "@));
    }
    push_expression(out, &x.expression);
    proof {
        assert(out@ =~= old(out)@ + ("OrderByItem { "@ + "expression: "@ + expression_text(x.expression)));
    }
    out.append(", direction: ");
    proof {
        assert(out@ =~= old(out)@ + ("OrderByItem { "@ + "expression: "@ + expression_text(x.expression) + ", direction: "@));
    }
    push_direction(out, &x.direction);
    proof {
        assert(out@ =~= old(out)@ + ("OrderByItem { "@ + "expression: "@ + expression_text(x.expression) + ", direction: "@ + direction_text(x.direction)));
    }
    out.append(" }");
    proof {
        assert(out@ =~= old(out)@ + order_by_item_text(*x));
    }
}

#[verifier::spinoff_prover]
pub(crate) fn push_order_by_clause(out: &mut String, x: &OrderByClause)
    ensures
        final(out)@ == old(out)@ + order_by_clause_text(*x),
    decreases x,
{
    out.append("OrderByClause { ");
    out.append("items: ");
    proof {
        assert(out@ =~= old(out)@ + ("OrderByClause { "@ + "items: "@));
    }
    push_list_order_by_item(out, &x.items);
    proof {
        assert(out@ =~= old(out)@ + ("OrderByClause { "@ + "items: "@ + list_order_by_item_text(x.items@)));
    }
    out.append(" }");
    proof {
        assert(out@ =~= old(out)@ + order_by_clause_text(*x));
    }
}

#[verifier::spinoff_prover]
#[verifier::rlimit(40)]
pub(crate) fn push_with_clause(out: &mut String, x: &WithClause)
    ensures
        final(out)@ == old(out)@ + with_clause_text(*x),
    decreases x,
{
    out.append("WithClause { ");
    out.append("items: ");
    proof {
        assert(out@ =~= old(out)@ + ("WithClause { "@ + "items: "@));
    }
    push_list_return_item(out, &x.items);
    proof {
        assert(out@ =~= old(out)@ + ("WithClause { "@ + "items: "@ + list_return_item_text(x.items@)));
    }
    out.append(", where_clause: ");
    proof {
        assert(out@ =~= old(out)@ + ("WithClause { "@ + "items: "@ + list_return_item_text(x.items@) + ", where_clause: "@));
    }
    push_option_where_clause(out, &x.where_clause);
    proof {
        assert(out@ =~= old(out)@ + ("WithClause { "@ + "items: "@ + list_return_item_text(x.items@) + ", where_clause: "@ + option_where_clause_text(x.where_clause)));
    }
    out.append(", order_by: ");
    proof {
        assert(out@ =~= old(out)@ + ("WithClause { "@ + "items: "@ + list_return_item_text(x.items@) + ", where_clause: "@ + option_where_clause_text(x.where_clause) + ", order_by: "@));
    }
    push_option_order_by_clause(out, &x.order_by);
    proof {
        assert(out@ =~= old(out)@ + ("WithClause { "@ + "items: "@ + list_return_item_text(x.items@) + ", where_clause: "@ + option_where_clause_text(x.where_clause) + ", order_by: "@ + option_order_by_clause_text(x.order_by)));
    }
    out.append(", skip: ");
    proof {
        assert(out@ =~= old(out)@ + ("WithClause { "@ + "items: "@ + list_return_item_text(x.items@) + ", where_clause: "@ + option_where_clause_text(x.where_clause) + ", order_by: "@ + option_order_by_clause_text(x.order_by) + ", skip: "@));
    }
    push_option_u32(out, &x.skip);
    proof {
        assert(out@ =~= old(out)@ + ("WithClause { "@ + "items: "@ + list_return_item_text(x.items@) + ", where_clause: "@ + option_where_clause_text(x.where_clause) + ", order_by: "@ + option_order_by_clause_text(x.order_by) + ", skip: "@ + option_u32_text(x.skip)));
    }
    out.append(", limit: ");
    proof {
        assert(out@ =~= old(out)@ + ("WithClause { "@ + "items: "@ + list_return_item_text(x.items@) + ", where_clause: "@ + option_where_clause_text(x.where_clause) + ", order_by: "@ + option_order_by_clause_text(x.order_by) + ", skip: "@ + option_u32_text(x.skip) + ", limit: "@));
    }
    push_option_u32(out, &x.limit);
    proof {
        assert(out@ =~= old(out)@ + ("WithClause { "@ + "items: "@ + list_return_item_text(x.items@) + ", where_clause: "@ + option_where_clause_text(x.where_clause) + ", order_by: "@ + option_order_by_clause_text(x.order_by) + ", skip: "@ + option_u32_text(x.skip) + ", limit: "@ + option_u32_text(x.limit)));
    }
    out.append(" }");
    proof {
        assert(out@ =~= old(out)@ + with_clause_text(*x));
    }
}

#[verifier::spinoff_prover]
#[verifier::rlimit(40)]
pub(crate) fn push_return_clause(out: &mut String, x: &ReturnClause)
    ensures
        final(out)@ == old(out)@ + return_clause_text(*x),
    decreases x,
{
    out.append("ReturnClause { ");
    out.append("distinct: ");
    proof {
        assert(out@ =~= old(out)@ + ("ReturnClause { "@ + "distinct: "@));
    }
    push_bool(out, x.distinct);
    proof {
        assert(out@ =~= old(out)@ + ("ReturnClause { "@ + "distinct: "@ + bool_text(x.distinct)));
    }
    out.append(", items: ");
    proof {
        assert(out@ =~= old(out)@ + ("ReturnClause { "@ + "distinct: "@ + bool_text(x.distinct) + ", items: "@));
    }
    push_list_return_item(out, &x.items);
    proof {
        assert(out@ =~= old(out)@ + ("ReturnClause { "@ + "distinct: "@ + bool_text(x.distinct) + ", items: "@ + list_return_item_text(x.items@)));
    }
    out.append(", order_by: ");
    proof {
        assert(out@ =~= old(out)@ + ("ReturnClause { "@ + "distinct: "@ + bool_text(x.distinct) + ", items: "@ + list_return_item_text(x.items@) + ", order_by: "@));
    }
    push_option_order_by_clause(out, &x.order_by);
    proof {
        assert(out@ =~= old(out)@ + ("ReturnClause { "@ + "distinct: "@ + bool_text(x.distinct) + ", items: "@ + list_return_item_text(x.items@) + ", order_by: "@ + option_order_by_clause_text(x.order_by)));
    }
    out.append(", skip: ");
    proof {
        assert(out@ =~= old(out)@ + ("ReturnClause { "@ + "distinct: "@ + bool_text(x.distinct) + ", items: "@ + list_return_item_text(x.items@) + ", order_by: "@ + option_order_by_clause_text(x.order_by) + ", skip: "@));
    }
    push_option_u32(out, &x.skip);
    proof {
        assert(out@ =~= old(out)@ + ("ReturnClause { "@ + "distinct: "@ + bool_text(x.distinct) + ", items: "@ + list_return_item_text(x.items@) + ", order_by: "@ + option_order_by_clause_text(x.order_by) + ", skip: "@ + option_u32_text(x.skip)));
    }
    out.append(", limit: ");
    proof {
        assert(out@ =~= old(out)@ + ("ReturnClause { "@ + "distinct: "@ + bool_text(x.distinct) + ", items: "@ + list_return_item_text(x.items@) + ", order_by: "@ + option_order_by_clause_text(x.order_by) + ", skip: "@ + option_u32_text(x.skip) + ", limit: "@));
    }
    push_option_u32(out, &x.limit);
    proof {
        assert(out@ =~= old(out)@ + ("ReturnClause { "@ + "distinct: "@ + bool_text(x.distinct) + ", items: "@ + list_return_item_text(x.items@) + ", order_by: "@ + option_order_by_clause_text(x.order_by) + ", skip: "@ + option_u32_text(x.skip) + ", limit: "@ + option_u32_text(x.limit)));
    }
    out.append(" }");
    proof {
        assert(out@ =~= old(out)@ + return_clause_text(*x));
    }
}

#[verifier::spinoff_prover]
pub(crate) fn push_create_clause(out: &mut String, x: &CreateClause)
    ensures
        final(out)@ == old(out)@ + create_clause_text(*x),
    decreases x,
{
    out.append("CreateClause { ");
    out.append("pattern: ");
    proof {
        assert(out@ =~= old(out)@ + ("CreateClause { "@ + "pattern: "@));
    }
    push_pattern(out, &x.pattern);
    proof {
        assert(out@ =~= old(out)@ + ("CreateClause { "@ + "pattern: "@ + pattern_text(x.pattern)));
    }
    out.append(" }");
    proof {
        assert(out@ =~= old(out)@ + create_clause_text(*x));
    }
}

#[verifier::spinoff_prover]
pub(crate) fn push_merge_clause(out: &mut String, x: &MergeClause)
    ensures
        final(out)@ == old(out)@ + merge_clause_text(*x),
    decreases x,
{
    out.append("MergeClause { ");
    out.append("pattern: ");
    proof {
        assert(out@ =~= old(out)@ + ("MergeClause { "@ + "pattern: "@));
    }
    push_pattern(out, &x.pattern);
    proof {
        assert(out@ =~= old(out)@ + ("MergeClause { "@ + "pattern: "@ + pattern_text(x.pattern)));
    }
    out.append(" }");
    proof {
        assert(out@ =~= old(out)@ + merge_clause_text(*x));
    }
}

#[verifier::spinoff_prover]
pub(crate) fn push_set_item(out: &mut String, x: &SetItem)
    ensures
        final(out)@ == old(out)@ + set_item_text(*x),
    decreases x,
{
    out.append("SetItem { ");
    out.append("property: ");
    proof {
        assert(out@ =~= old(out)@ + ("SetItem { "@ + "property: "@));
    }
    push_property_access(out, &x.property);
    proof {
        assert(out@ =~= old(out)@ + ("SetItem { "@ + "property: "@ + property_access_text(x.property)));
    }
    out.append(", value: ");
    proof {
        assert(out@ =~= old(out)@ + ("SetItem { "@ + "property: "@ + property_access_text(x.property) + ", value: "@));
    }
    push_expression(out, &x.value);
    proof {
        assert(out@ =~= old(out)@ + ("SetItem { "@ + "property: "@ + property_access_text(x.property) + ", value: "@ + expression_text(x.value)));
    }
    out.append(" }");
    proof {
        assert(out@ =~= old(out)@ + set_item_text(*x));
    }
}

#[verifier::spinoff_prover]
pub(crate) fn push_set_clause(out: &mut String, x: &SetClause)
    ensures
        final(out)@ == old(out)@ + set_clause_text(*x),
    decreases x,
{
    out.append("SetClause { ");
    out.append("items: ");
    proof {
        assert(out@ =~= old(out)@ + ("SetClause { "@ + "items: "@));
    }
    push_list_set_item(out, &x.items);
    proof {
        assert(out@ =~= old(out)@ + ("SetClause { "@ + "items: "@ + list_set_item_text(x.items@)));
    }
    out.append(" }");
    proof {
        assert(out@ =~= old(out)@ + set_clause_text(*x));
    }
}

#[verifier::spinoff_prover]
pub(crate) fn push_remove_clause(out: &mut String, x: &RemoveClause)
    ensures
        final(out)@ == old(out)@ + remove_clause_text(*x),
    decreases x,
{
    out.append("RemoveClause { ");
    out.append("properties: ");
    proof {
        assert(out@ =~= old(out)@ + ("RemoveClause { "@ + "properties: "@));
    }
    push_list_property_access(out, &x.properties);
    proof {
        assert(out@ =~= old(out)@ + ("RemoveClause { "@ + "properties: "@ + list_property_access_text(x.properties@)));
    }
    out.append(" }");
    proof {
        assert(out@ =~= old(out)@ + remove_clause_text(*x));
    }
}

#[verifier::spinoff_prover]
pub(crate) fn push_delete_clause(out: &mut String, x: &DeleteClause)
    ensures
        final(out)@ == old(out)@ + delete_clause_text(*x),
    decreases x,
{
    out.append("DeleteClause { ");
    out.append("detach: ");
    proof {
        assert(out@ =~= old(out)@ + ("DeleteClause { "@ + "detach: "@));
    }
    push_bool(out, x.detach);
    proof {
        assert(out@ =~= old(out)@ + ("DeleteClause { "@ + "detach: "@ + bool_text(x.detach)));
    }
    out.append(", expressions: ");
    proof {
        assert(out@ =~= old(out)@ + ("DeleteClause { "@ + "detach: "@ + bool_text(x.detach) + ", expressions: "@));
    }
    push_list_expression(out, &x.expressions);
    proof {
        assert(out@ =~= old(out)@ + ("DeleteClause { "@ + "detach: "@ + bool_text(x.detach) + ", expressions: "@ + list_expression_text(x.expressions@)));
    }
    out.append(" }");
    proof {
        assert(out@ =~= old(out)@ + delete_clause_text(*x));
    }
}

#[verifier::spinoff_prover]
pub(crate) fn push_unwind_clause(out: &mut String, x: &UnwindClause)
    ensures
        final(out)@ == old(out)@ + unwind_clause_text(*x),
    decreases x,
{
    out.append("UnwindClause { ");
    out.append("expression: ");
    proof {
        assert(out@ =~= old(out)@ + ("UnwindClause { "@ + "expression: "@));
    }
    push_expression(out, &x.expression);
    proof {
        assert(out@ =~= old(out)@ + ("UnwindClause { "@ + "expression: "@ + expression_text(x.expression)));
    }
    out.append(", alias: ");
    proof {
        assert(out@ =~= old(out)@ + ("UnwindClause { "@ + "expression: "@ + expression_text(x.expression) + ", alias: "@));
    }
    let d = debug_str(&x.alias.as_str());
    out.append(d.as_str());
    proof {
        assert(out@ =~= old(out)@ + ("UnwindClause { "@ + "expression: "@ + expression_text(x.expression) + ", alias: "@ + str_debug(x.alias@)));
    }
    out.append(" }");
    proof {
        assert(out@ =~= old(out)@ + unwind_clause_text(*x));
    }
}

#[verifier::spinoff_prover]
pub(crate) fn push_yield_item(out: &mut String, x: &YieldItem)
    ensures
        final(out)@ == old(out)@ + yield_item_text(*x),
{
    out.append("YieldItem { ");
    out.append("name: ");
    proof {
        assert(out@ =~= old(out)@ + ("YieldItem { "@ + "name: "@));
    }
    let d = debug_str(&x.name.as_str());
    out.append(d.as_str());
    proof {
        assert(out@ =~= old(out)@ + ("YieldItem { "@ + "name: "@ + str_debug(x.name@)));
    }
    out.append(", alias: ");
    proof {
        assert(out@ =~= old(out)@ + ("YieldItem { "@ + "name: "@ + str_debug(x.name@) + ", alias: "@));
    }
    push_option_string(out, &x.alias);
    proof {
        assert(out@ =~= old(out)@ + ("YieldItem { "@ + "name: "@ + str_debug(x.name@) + ", alias: "@ + option_string_text(x.alias)));
    }
    out.append(" }");
    proof {
        assert(out@ =~= old(out)@ + yield_item_text(*x));
    }
}

#[verifier::spinoff_prover]
pub(crate) fn push_procedure_call(out: &mut String, x: &ProcedureCall)
    ensures
        final(out)@ == old(out)@ + procedure_call_text(*x),
    decreases x,
{
    out.append("ProcedureCall { ");
    out.append("name: ");
    proof {
        assert(out@ =~= old(out)@ + ("ProcedureCall { "@ + "name: "@));
    }
    let d = debug_str(&x.name.as_str());
    out.append(d.as_str());
    proof {
        assert(out@ =~= old(out)@ + ("ProcedureCall { "@ + "name: "@ + str_debug(x.name@)));
    }
    out.append(", arguments: ");
    proof {
        assert(out@ =~= old(out)@ + ("ProcedureCall { "@ + "name: "@ + str_debug(x.name@) + ", arguments: "@));
    }
    push_list_expression(out, &x.arguments);
    proof {
        assert(out@ =~= old(out)@ + ("ProcedureCall { "@ + "name: "@ + str_debug(x.name@) + ", arguments: "@ + list_expression_text(x.arguments@)));
    }
    out.append(", yields: ");
    proof {
        assert(out@ =~= old(out)@ + ("ProcedureCall { "@ + "name: "@ + str_debug(x.name@) + ", arguments: "@ + list_expression_text(x.arguments@) + ", yields: "@));
    }
    push_option_yield_items(out, &x.yields);
    proof {
        assert(out@ =~= old(out)@ + ("ProcedureCall { "@ + "name: "@ + str_debug(x.name@) + ", arguments: "@ + list_expression_text(x.arguments@) + ", yields: "@ + option_yield_items_text(x.yields)));
    }
    out.append(" }");
    proof {
        assert(out@ =~= old(out)@ + procedure_call_text(*x));
    }
}

#[verifier::spinoff_prover]
pub(crate) fn push_call_clause(out: &mut String, x: &CallClause)
    ensures
        final(out)@ == old(out)@ + call_clause_text(*x),
    decreases x,
{
    match x {
        CallClause::Subquery(a) => {
            out.append("Subquery(");
            push_query(out, a);
            out.append(")");
            proof {
                assert(out@ =~= old(out)@ + call_clause_text(*x));
            }
        },
        CallClause::Procedure(a) => {
            out.append("Procedure(");
            push_procedure_call(out, a);
            out.append(")");
            proof {
                assert(out@ =~= old(out)@ + call_clause_text(*x));
            }
        },
    }
}

#[verifier::spinoff_prover]
pub(crate) fn push_union_clause(out: &mut String, x: &UnionClause)
    ensures
        final(out)@ == old(out)@ + union_clause_text(*x),
    decreases x,
{
    out.append("UnionClause { ");
    out.append("all: ");
    proof {
        assert(out@ =~= old(out)@ + ("UnionClause { "@ + "all: "@));
    }
    push_bool(out, x.all);
    proof {
        assert(out@ =~= old(out)@ + ("UnionClause { "@ + "all: "@ + bool_text(x.all)));
    }
    out.append(", query: ");
    proof {
        assert(out@ =~= old(out)@ + ("UnionClause { "@ + "all: "@ + bool_text(x.all) + ", query: "@));
    }
    push_query(out, &x.query);
    proof {
        assert(out@ =~= old(out)@ + ("UnionClause { "@ + "all: "@ + bool_text(x.all) + ", query: "@ + query_text(x.query)));
    }
    out.append(" }");
    proof {
        assert(out@ =~= old(out)@ + union_clause_text(*x));
    }
}

#[verifier::spinoff_prover]
pub(crate) fn push_foreach_clause(out: &mut String, x: &ForeachClause)
    ensures
        final(out)@ == old(out)@ + foreach_clause_text(*x),
    decreases x,
{
    out.append("ForeachClause { ");
    out.append("variable: ");
    proof {
        assert(out@ =~= old(out)@ + ("ForeachClause { "@ + "variable: "@));
    }
    let d = debug_str(&x.variable.as_str());
    out.append(d.as_str());
    proof {
        assert(out@ =~= old(out)@ + ("ForeachClause { "@ + "variable: "@ + str_debug(x.variable@)));
    }
    out.append(", list: ");
    proof {
        assert(out@ =~= old(out)@ + ("ForeachClause { "@ + "variable: "@ + str_debug(x.variable@) + ", list: "@));
    }
    push_expression(out, &x.list);
    proof {
        assert(out@ =~= old(out)@ + ("ForeachClause { "@ + "variable: "@ + str_debug(x.variable@) + ", list: "@ + expression_text(x.list)));
    }
    out.append(", updates: ");
    proof {
        assert(out@ =~= old(out)@ + ("ForeachClause { "@ + "variable: "@ + str_debug(x.variable@) + ", list: "@ + expression_text(x.list) + ", updates: "@));
    }
    push_list_clause(out, &x.updates);
    proof {
        assert(out@ =~= old(out)@ + ("ForeachClause { "@ + "variable: "@ + str_debug(x.variable@) + ", list: "@ + expression_text(x.list) + ", updates: "@ + list_clause_text(x.updates@)));
    }
    out.append(" }");
    proof {
        assert(out@ =~= old(out)@ + foreach_clause_text(*x));
    }
}

#[verifier::spinoff_prover]
pub(crate) fn push_clause(out: &mut String, x: &Clause)
    ensures
        final(out)@ == old(out)@ + clause_text(*x),
    decreases x,
{
    match x {
        Clause::Match(a) => {
            out.append("Match(");
            push_match_clause(out, a);
            out.append(")");
            proof {
                assert(out@ =~= old(out)@ + clause_text(*x));
            }
        },
        Clause::Where(a) => {
            out.append("Where(");
            push_where_clause(out, a);
            out.append(")");
            proof {
                assert(out@ =~= old(out)@ + clause_text(*x));
            }
        },
        Clause::With(a) => {
            out.append("With(");
            push_with_clause(out, a);
            out.append(")");
            proof {
                assert(out@ =~= old(out)@ + clause_text(*x));
            }
        },
        Clause::Return(a) => {
            out.append("Return(");
            push_return_clause(out, a);
            out.append(")");
            proof {
                assert(out@ =~= old(out)@ + clause_text(*x));
            }
        },
        Clause::Create(a) => {
            out.append("Create(");
            push_create_clause(out, a);
            out.append(")");
            proof {
                assert(out@ =~= old(out)@ + clause_text(*x));
            }
        },
        Clause::Merge(a) => {
            out.append("Merge(");
            push_merge_clause(out, a);
            out.append(")");
            proof {
                assert(out@ =~= old(out)@ + clause_text(*x));
            }
        },
        Clause::SetProps(a) => {
            out.append("SetProps(");
            push_set_clause(out, a);
            out.append(")");
            proof {
                assert(out@ =~= old(out)@ + clause_text(*x));
            }
        },
        Clause::Remove(a) => {
            out.append("Remove(");
            push_remove_clause(out, a);
            out.append(")");
            proof {
                assert(out@ =~= old(out)@ + clause_text(*x));
            }
        },
        Clause::Delete(a) => {
            out.append("Delete(");
            push_delete_clause(out, a);
            out.append(")");
            proof {
                assert(out@ =~= old(out)@ + clause_text(*x));
            }
        },
        Clause::Unwind(a) => {
            out.append("Unwind(");
            push_unwind_clause(out, a);
            out.append(")");
            proof {
                assert(out@ =~= old(out)@ + clause_text(*x));
            }
        },
        Clause::Call(a) => {
            out.append("Call(");
            push_call_clause(out, a);
            out.append(")");
            proof {
                assert(out@ =~= old(out)@ + clause_text(*x));
            }
        },
        Clause::Union(a) => {
            out.append("Union(");
            push_union_clause(out, a);
            out.append(")");
            proof {
                assert(out@ =~= old(out)@ + clause_text(*x));
            }
        },
        Clause::Foreach(a) => {
            out.append("Foreach(");
            push_foreach_clause(out, a);
            out.append(")");
            proof {
                assert(out@ =~= old(out)@ + clause_text(*x));
            }
        },
    }
}

/// Appends the `Debug` text of an aggregate function.
#[verifier::spinoff_prover]
pub(crate) fn push_aggregate_function(out: &mut String, x: &AggregateFunction)
    ensures
        final(out)@ == old(out)@ + aggregate_function_text(*x),
    decreases x,
{
    match x {
        AggregateFunction::Count(a) => {
            out.append("Count(");
            push_option_expression(out, a);
            out.append(")");
            proof {
                assert(out@ =~= old(out)@ + aggregate_function_text(*x));
            }
        },
        AggregateFunction::Sum(a) => {
            out.append("Sum(");
            push_expression(out, a);
            out.append(")");
            proof {
                assert(out@ =~= old(out)@ + aggregate_function_text(*x));
            }
        },
        AggregateFunction::Avg(a) => {
            out.append("Avg(");
            push_expression(out, a);
            out.append(")");
            proof {
                assert(out@ =~= old(out)@ + aggregate_function_text(*x));
            }
        },
        AggregateFunction::Min(a) => {
            out.append("Min(");
            push_expression(out, a);
            out.append(")");
            proof {
                assert(out@ =~= old(out)@ + aggregate_function_text(*x));
            }
        },
        AggregateFunction::Max(a) => {
            out.append("Max(");
            push_expression(out, a);
            out.append(")");
            proof {
                assert(out@ =~= old(out)@ + aggregate_function_text(*x));
            }
        },
        AggregateFunction::Collect(a) => {
            out.append("Collect(");
            push_expression(out, a);
            out.append(")");
            proof {
                assert(out@ =~= old(out)@ + aggregate_function_text(*x));
            }
        },
    }
}

#[verifier::spinoff_prover]
pub(crate) fn push_option_expression(out: &mut String, x: &Option<Expression>)
    ensures
        final(out)@ == old(out)@ + option_expression_text(*x),
    decreases x,
{
    match x {
        Some(a) => {
            out.append("Some(");
            push_expression(out, a);
            out.append(")");
            proof {
                assert(out@ =~= old(out)@ + option_expression_text(*x));
            }
        },
        None => {
            out.append("None");
        },
    }
}

#[verifier::spinoff_prover]
pub(crate) fn push_option_order_by_clause(out: &mut String, x: &Option<OrderByClause>)
    ensures
        final(out)@ == old(out)@ + option_order_by_clause_text(*x),
    decreases x,
{
    match x {
        Some(a) => {
            out.append("Some(");
            push_order_by_clause(out, a);
            out.append(")");
            proof {
                assert(out@ =~= old(out)@ + option_order_by_clause_text(*x));
            }
        },
        None => {
            out.append("None");
        },
    }
}

#[verifier::spinoff_prover]
pub(crate) fn push_option_property_map(out: &mut String, x: &Option<PropertyMap>)
    ensures
        final(out)@ == old(out)@ + option_property_map_text(*x),
    decreases x,
{
    match x {
        Some(a) => {
            out.append("Some(");
            push_property_map(out, a);
            out.append(")");
            proof {
                assert(out@ =~= old(out)@ + option_property_map_text(*x));
            }
        },
        None => {
            out.append("None");
        },
    }
}

#[verifier::spinoff_prover]
pub(crate) fn push_option_string(out: &mut String, x: &Option<String>)
    ensures
        final(out)@ == old(out)@ + option_string_text(*x),
{
    match x {
        Some(a) => {
            out.append("Some(");
            let d = debug_str(a.as_str());
            out.append(d.as_str());
            out.append(")");
            proof {
                assert(out@ =~= old(out)@ + option_string_text(*x));
            }
        },
        None => {
            out.append("None");
        },
    }
}

#[verifier::spinoff_prover]
pub(crate) fn push_option_variable_length(out: &mut String, x: &Option<VariableLength>)
    ensures
        final(out)@ == old(out)@ + option_variable_length_text(*x),
{
    match x {
        Some(a) => {
            out.append("Some(");
            push_variable_length(out, a);
            out.append(")");
            proof {
                assert(out@ =~= old(out)@ + option_variable_length_text(*x));
            }
        },
        None => {
            out.append("None");
        },
    }
}

#[verifier::spinoff_prover]
pub(crate) fn push_option_yield_items(out: &mut String, x: &Option<Vec<YieldItem>>)
    ensures
        final(out)@ == old(out)@ + option_yield_items_text(*x),
{
    match x {
        Some(a) => {
            out.append("Some(");
            push_list_yield_item(out, a);
            out.append(")");
            proof {
                assert(out@ =~= old(out)@ + option_yield_items_text(*x));
            }
        },
        None => {
            out.append("None");
        },
    }
}

#[verifier::spinoff_prover]
pub(crate) fn push_option_where_clause(out: &mut String, x: &Option<WhereClause>)
    ensures
        final(out)@ == old(out)@ + option_where_clause_text(*x),
    decreases x,
{
    match x {
        Some(a) => {
            out.append("Some(");
            push_where_clause(out, a);
            out.append(")");
            proof {
                assert(out@ =~= old(out)@ + option_where_clause_text(*x));
            }
        },
        None => {
            out.append("None");
        },
    }
}

#[verifier::spinoff_prover]
pub(crate) fn push_option_u32(out: &mut String, x: &Option<u32>)
    ensures
        final(out)@ == old(out)@ + option_u32_text(*x),
{
    match x {
        Some(a) => {
            out.append("Some(");
            push_decimal(out, *a as usize);
            out.append(")");
            proof {
                assert(out@ =~= old(out)@ + option_u32_text(*x));
            }
        },
        None => {
            out.append("None");
        },
    }
}

#[verifier::spinoff_prover]
pub(crate) fn push_when_pair(out: &mut String, x: &(Expression, Expression))
    ensures
        final(out)@ == old(out)@ + when_pair_text(*x),
    decreases x,
{
    out.append("(");
    push_expression(out, &x.0);
    out.append(", ");
    push_expression(out, &x.1);
    out.append(")");
    proof {
        assert(out@ =~= old(out)@ + when_pair_text(*x));
    }
}

#[verifier::spinoff_prover]
pub(crate) fn push_list_when_pair(out: &mut String, v: &Vec<(Expression, Expression)>)
    ensures
        final(out)@ == old(out)@ + list_when_pair_text(v@),
    decreases v,
{
    out.append("[");
    let mut i: usize = 0;
    proof {
        assert(v@.take(0) =~= Seq::<(Expression, Expression)>::empty());
    }
    while i < v.len()
        invariant
            i <= v@.len(),
            out@ == old(out)@ + "["@ + join_when_pair(v@.take(i as int)),
        decreases v.len() - i,
    {
        if i > 0 {
            out.append(", ");
        }
        push_when_pair(out, &v[i]);
        proof {
            let s = v@.take(i + 1);
            assert(s.drop_last() =~= v@.take(i as int));
            assert(s.last() == v@[i as int]);
            if i == 0 {
                assert(s[0] == v@[0]);
            }
            assert(out@ =~= old(out)@ + "["@ + join_when_pair(v@.take(i + 1)));
        }
        i = i + 1;
    }
    out.append("]");
    proof {
        assert(v@.take(i as int) =~= v@);
        assert(out@ =~= old(out)@ + list_when_pair_text(v@));
    }
}

#[verifier::spinoff_prover]
pub(crate) fn push_list_clause(out: &mut String, v: &Vec<Clause>)
    ensures
        final(out)@ == old(out)@ + list_clause_text(v@),
    decreases v,
{
    out.append("[");
    let mut i: usize = 0;
    proof {
        assert(v@.take(0) =~= Seq::<Clause>::empty());
    }
    while i < v.len()
        invariant
            i <= v@.len(),
            out@ == old(out)@ + "["@ + join_clause(v@.take(i as int)),
        decreases v.len() - i,
    {
        if i > 0 {
            out.append(", ");
        }
        push_clause(out, &v[i]);
        proof {
            let s = v@.take(i + 1);
            assert(s.drop_last() =~= v@.take(i as int));
            assert(s.last() == v@[i as int]);
            if i == 0 {
                assert(s[0] == v@[0]);
            }
            assert(out@ =~= old(out)@ + "["@ + join_clause(v@.take(i + 1)));
        }
        i = i + 1;
    }
    out.append("]");
    proof {
        assert(v@.take(i as int) =~= v@);
        assert(out@ =~= old(out)@ + list_clause_text(v@));
    }
}

#[verifier::spinoff_prover]
pub(crate) fn push_list_expression(out: &mut String, v: &Vec<Expression>)
    ensures
        final(out)@ == old(out)@ + list_expression_text(v@),
    decreases v,
{
    out.append("[");
    let mut i: usize = 0;
    proof {
        assert(v@.take(0) =~= Seq::<Expression>::empty());
    }
    while i < v.len()
        invariant
            i <= v@.len(),
            out@ == old(out)@ + "["@ + join_expression(v@.take(i as int)),
        decreases v.len() - i,
    {
        if i > 0 {
            out.append(", ");
        }
        push_expression(out, &v[i]);
        proof {
            let s = v@.take(i + 1);
            assert(s.drop_last() =~= v@.take(i as int));
            assert(s.last() == v@[i as int]);
            if i == 0 {
                assert(s[0] == v@[0]);
            }
            assert(out@ =~= old(out)@ + "["@ + join_expression(v@.take(i + 1)));
        }
        i = i + 1;
    }
    out.append("]");
    proof {
        assert(v@.take(i as int) =~= v@);
        assert(out@ =~= old(out)@ + list_expression_text(v@));
    }
}

#[verifier::spinoff_prover]
pub(crate) fn push_list_order_by_item(out: &mut String, v: &Vec<OrderByItem>)
    ensures
        final(out)@ == old(out)@ + list_order_by_item_text(v@),
    decreases v,
{
    out.append("[");
    let mut i: usize = 0;
    proof {
        assert(v@.take(0) =~= Seq::<OrderByItem>::empty());
    }
    while i < v.len()
        invariant
            i <= v@.len(),
            out@ == old(out)@ + "["@ + join_order_by_item(v@.take(i as int)),
        decreases v.len() - i,
    {
        if i > 0 {
            out.append(", ");
        }
        push_order_by_item(out, &v[i]);
        proof {
            let s = v@.take(i + 1);
            assert(s.drop_last() =~= v@.take(i as int));
            assert(s.last() == v@[i as int]);
            if i == 0 {
                assert(s[0] == v@[0]);
            }
            assert(out@ =~= old(out)@ + "["@ + join_order_by_item(v@.take(i + 1)));
        }
        i = i + 1;
    }
    out.append("]");
    proof {
        assert(v@.take(i as int) =~= v@);
        assert(out@ =~= old(out)@ + list_order_by_item_text(v@));
    }
}

#[verifier::spinoff_prover]
pub(crate) fn push_list_path_element(out: &mut String, v: &Vec<PathElement>)
    ensures
        final(out)@ == old(out)@ + list_path_element_text(v@),
    decreases v,
{
    out.append("[");
    let mut i: usize = 0;
    proof {
        assert(v@.take(0) =~= Seq::<PathElement>::empty());
    }
    while i < v.len()
        invariant
            i <= v@.len(),
            out@ == old(out)@ + "["@ + join_path_element(v@.take(i as int)),
        decreases v.len() - i,
    {
        if i > 0 {
            out.append(", ");
        }
        push_path_element(out, &v[i]);
        proof {
            let s = v@.take(i + 1);
            assert(s.drop_last() =~= v@.take(i as int));
            assert(s.last() == v@[i as int]);
            if i == 0 {
                assert(s[0] == v@[0]);
            }
            assert(out@ =~= old(out)@ + "["@ + join_path_element(v@.take(i + 1)));
        }
        i = i + 1;
    }
    out.append("]");
    proof {
        assert(v@.take(i as int) =~= v@);
        assert(out@ =~= old(out)@ + list_path_element_text(v@));
    }
}

#[verifier::spinoff_prover]
pub(crate) fn push_list_property_access(out: &mut String, v: &Vec<PropertyAccess>)
    ensures
        final(out)@ == old(out)@ + list_property_access_text(v@),
{
    out.append("[");
    let mut i: usize = 0;
    proof {
        assert(v@.take(0) =~= Seq::<PropertyAccess>::empty());
    }
    while i < v.len()
        invariant
            i <= v@.len(),
            out@ == old(out)@ + "["@ + join_property_access(v@.take(i as int)),
        decreases v.len() - i,
    {
        if i > 0 {
            out.append(", ");
        }
        push_property_access(out, &v[i]);
        proof {
            let s = v@.take(i + 1);
            assert(s.drop_last() =~= v@.take(i as int));
            assert(s.last() == v@[i as int]);
            if i == 0 {
                assert(s[0] == v@[0]);
            }
            assert(out@ =~= old(out)@ + "["@ + join_property_access(v@.take(i + 1)));
        }
        i = i + 1;
    }
    out.append("]");
    proof {
        assert(v@.take(i as int) =~= v@);
        assert(out@ =~= old(out)@ + list_property_access_text(v@));
    }
}

#[verifier::spinoff_prover]
pub(crate) fn push_list_property_pair(out: &mut String, v: &Vec<PropertyPair>)
    ensures
        final(out)@ == old(out)@ + list_property_pair_text(v@),
    decreases v,
{
    out.append("[");
    let mut i: usize = 0;
    proof {
        assert(v@.take(0) =~= Seq::<PropertyPair>::empty());
    }
    while i < v.len()
        invariant
            i <= v@.len(),
            out@ == old(out)@ + "["@ + join_property_pair(v@.take(i as int)),
        decreases v.len() - i,
    {
        if i > 0 {
            out.append(", ");
        }
        push_property_pair(out, &v[i]);
        proof {
            let s = v@.take(i + 1);
            assert(s.drop_last() =~= v@.take(i as int));
            assert(s.last() == v@[i as int]);
            if i == 0 {
                assert(s[0] == v@[0]);
            }
            assert(out@ =~= old(out)@ + "["@ + join_property_pair(v@.take(i + 1)));
        }
        i = i + 1;
    }
    out.append("]");
    proof {
        assert(v@.take(i as int) =~= v@);
        assert(out@ =~= old(out)@ + list_property_pair_text(v@));
    }
}

#[verifier::spinoff_prover]
pub(crate) fn push_list_return_item(out: &mut String, v: &Vec<ReturnItem>)
    ensures
        final(out)@ == old(out)@ + list_return_item_text(v@),
    decreases v,
{
    out.append("[");
    let mut i: usize = 0;
    proof {
        assert(v@.take(0) =~= Seq::<ReturnItem>::empty());
    }
    while i < v.len()
        invariant
            i <= v@.len(),
            out@ == old(out)@ + "["@ + join_return_item(v@.take(i as int)),
        decreases v.len() - i,
    {
        if i > 0 {
            out.append(", ");
        }
        push_return_item(out, &v[i]);
        proof {
            let s = v@.take(i + 1);
            assert(s.drop_last() =~= v@.take(i as int));
            assert(s.last() == v@[i as int]);
            if i == 0 {
                assert(s[0] == v@[0]);
            }
            assert(out@ =~= old(out)@ + "["@ + join_return_item(v@.take(i + 1)));
        }
        i = i + 1;
    }
    out.append("]");
    proof {
        assert(v@.take(i as int) =~= v@);
        assert(out@ =~= old(out)@ + list_return_item_text(v@));
    }
}

#[verifier::spinoff_prover]
pub(crate) fn push_list_set_item(out: &mut String, v: &Vec<SetItem>)
    ensures
        final(out)@ == old(out)@ + list_set_item_text(v@),
    decreases v,
{
    out.append("[");
    let mut i: usize = 0;
    proof {
        assert(v@.take(0) =~= Seq::<SetItem>::empty());
    }
    while i < v.len()
        invariant
            i <= v@.len(),
            out@ == old(out)@ + "["@ + join_set_item(v@.take(i as int)),
        decreases v.len() - i,
    {
        if i > 0 {
            out.append(", ");
        }
        push_set_item(out, &v[i]);
        proof {
            let s = v@.take(i + 1);
            assert(s.drop_last() =~= v@.take(i as int));
            assert(s.last() == v@[i as int]);
            if i == 0 {
                assert(s[0] == v@[0]);
            }
            assert(out@ =~= old(out)@ + "["@ + join_set_item(v@.take(i + 1)));
        }
        i = i + 1;
    }
    out.append("]");
    proof {
        assert(v@.take(i as int) =~= v@);
        assert(out@ =~= old(out)@ + list_set_item_text(v@));
    }
}

#[verifier::spinoff_prover]
pub(crate) fn push_list_string(out: &mut String, v: &Vec<String>)
    ensures
        final(out)@ == old(out)@ + list_string_text(v@),
{
    out.append("[");
    let mut i: usize = 0;
    proof {
        assert(v@.take(0) =~= Seq::<String>::empty());
    }
    while i < v.len()
        invariant
            i <= v@.len(),
            out@ == old(out)@ + "["@ + join_string(v@.take(i as int)),
        decreases v.len() - i,
    {
        if i > 0 {
            out.append(", ");
        }
        let d = debug_str(&v[i].as_str());
        out.append(d.as_str());
        proof {
            let s = v@.take(i + 1);
            assert(s.drop_last() =~= v@.take(i as int));
            assert(s.last() == v@[i as int]);
            if i == 0 {
                assert(s[0] == v@[0]);
            }
            assert(out@ =~= old(out)@ + "["@ + join_string(v@.take(i + 1)));
        }
        i = i + 1;
    }
    out.append("]");
    proof {
        assert(v@.take(i as int) =~= v@);
        assert(out@ =~= old(out)@ + list_string_text(v@));
    }
}

#[verifier::spinoff_prover]
pub(crate) fn push_list_yield_item(out: &mut String, v: &Vec<YieldItem>)
    ensures
        final(out)@ == old(out)@ + list_yield_item_text(v@),
{
    out.append("[");
    let mut i: usize = 0;
    proof {
        assert(v@.take(0) =~= Seq::<YieldItem>::empty());
    }
    while i < v.len()
        invariant
            i <= v@.len(),
            out@ == old(out)@ + "["@ + join_yield_item(v@.take(i as int)),
        decreases v.len() - i,
    {
        if i > 0 {
            out.append(", ");
        }
        push_yield_item(out, &v[i]);
        proof {
            let s = v@.take(i + 1);
            assert(s.drop_last() =~= v@.take(i as int));
            assert(s.last() == v@[i as int]);
            if i == 0 {
                assert(s[0] == v@[0]);
            }
            assert(out@ =~= old(out)@ + "["@ + join_yield_item(v@.take(i + 1)));
        }
        i = i + 1;
    }
    out.append("]");
    proof {
        assert(v@.take(i as int) =~= v@);
        assert(out@ =~= old(out)@ + list_yield_item_text(v@));
    }
}

} // verus!
