//! The Cypher syntax tree that the parser produces and the planner consumes.
use vstd::prelude::*;

verus! {

/// A literal; a float literal is carried by its IEEE-754 bit pattern.
#[derive(Debug)]
pub enum Literal {
    Integer(i64),
    Float(u64),
    String(String),
    Boolean(bool),
    Null,
}

#[derive(Debug, Clone, Copy, PartialEq, Eq, Structural)]
pub enum UnaryOperator {
    Not,
    Negate,
}

#[derive(Debug, Clone, Copy, PartialEq, Eq, Structural)]
pub enum BinaryOperator {
    Equals,
    NotEquals,
    LessThan,
    LessEqual,
    GreaterThan,
    GreaterEqual,
    And,
    Or,
    Xor,
    In,
    StartsWith,
    EndsWith,
    Contains,
    HasLabel,
    IsNull,
    IsNotNull,
    Add,
    Subtract,
    Multiply,
    Divide,
    Modulo,
    Power,
}

#[derive(Debug)]
pub struct PropertyAccess {
    pub variable: String,
    pub property: String,
}

#[derive(Debug)]
pub struct UnaryExpression {
    pub operator: UnaryOperator,
    pub operand: Expression,
}

#[derive(Debug)]
pub struct BinaryExpression {
    pub left: Expression,
    pub operator: BinaryOperator,
    pub right: Expression,
}

#[derive(Debug)]
pub struct FunctionCall {
    pub name: String,
    pub args: Vec<Expression>,
}

#[derive(Debug)]
pub struct PropertyPair {
    pub key: String,
    pub value: Expression,
}

#[derive(Debug)]
pub struct PropertyMap {
    pub properties: Vec<PropertyPair>,
}

#[derive(Debug)]
pub struct CaseExpression {
    pub expression: Option<Expression>,
    pub when_clauses: Vec<(Expression, Expression)>,
    pub else_expression: Option<Expression>,
}

#[derive(Debug)]
pub struct ListComprehension {
    pub variable: String,
    pub list: Expression,
    pub where_expression: Option<Expression>,
    pub map_expression: Option<Expression>,
}

#[derive(Debug)]
pub struct PatternComprehension {
    pub pattern: Pattern,
    pub where_expression: Option<Expression>,
    pub projection: Expression,
}

#[derive(Debug)]
pub enum ExistsExpression {
    Pattern(Pattern),
    Subquery(Query),
}

#[derive(Debug)]
pub enum Expression {
    Literal(Literal),
    Variable(String),
    Parameter(String),
    PropertyAccess(PropertyAccess),
    Unary(Box<UnaryExpression>),
    Binary(Box<BinaryExpression>),
    FunctionCall(FunctionCall),
    List(Vec<Expression>),
    MapLiteral(PropertyMap),
    Case(Box<CaseExpression>),
    Exists(Box<ExistsExpression>),
    ListComprehension(Box<ListComprehension>),
    PatternComprehension(Box<PatternComprehension>),
}

#[derive(Debug)]
pub struct NodePattern {
    pub variable: Option<String>,
    pub labels: Vec<String>,
    pub properties: Option<PropertyMap>,
}

#[derive(Debug, Clone, Copy, PartialEq, Eq, Structural)]
pub enum RelationshipDirection {
    LeftToRight,
    RightToLeft,
    Undirected,
}

#[derive(Debug, Clone, Copy, PartialEq, Eq, Structural)]
pub struct VariableLength {
    pub min: Option<u32>,
    pub max: Option<u32>,
}

#[derive(Debug)]
pub struct RelationshipPattern {
    pub variable: Option<String>,
    pub types: Vec<String>,
    pub direction: RelationshipDirection,
    pub properties: Option<PropertyMap>,
    pub variable_length: Option<VariableLength>,
}

#[derive(Debug)]
pub enum PathElement {
    Node(NodePattern),
    Relationship(RelationshipPattern),
}

#[derive(Debug)]
pub struct Pattern {
    pub variable: Option<String>,
    pub elements: Vec<PathElement>,
}

#[derive(Debug)]
pub struct Query {
    pub clauses: Vec<Clause>,
}

#[derive(Debug)]
pub struct MatchClause {
    pub optional: bool,
    pub pattern: Pattern,
}

#[derive(Debug)]
pub struct WhereClause {
    pub expression: Expression,
}

#[derive(Debug)]
pub struct ReturnItem {
    pub expression: Expression,
    pub alias: Option<String>,
}

#[derive(Debug, Clone, Copy, PartialEq, Eq, Structural)]
pub enum Direction {
    Ascending,
    Descending,
}

#[derive(Debug)]
pub struct OrderByItem {
    pub expression: Expression,
    pub direction: Direction,
}

#[derive(Debug)]
pub struct OrderByClause {
    pub items: Vec<OrderByItem>,
}

#[derive(Debug)]
pub struct WithClause {
    pub items: Vec<ReturnItem>,
    pub where_clause: Option<WhereClause>,
    pub order_by: Option<OrderByClause>,
    pub skip: Option<u32>,
    pub limit: Option<u32>,
}

#[derive(Debug)]
pub struct ReturnClause {
    pub distinct: bool,
    pub items: Vec<ReturnItem>,
    pub order_by: Option<OrderByClause>,
    pub skip: Option<u32>,
    pub limit: Option<u32>,
}

#[derive(Debug)]
pub struct CreateClause {
    pub pattern: Pattern,
}

#[derive(Debug)]
pub struct MergeClause {
    pub pattern: Pattern,
}

#[derive(Debug)]
pub struct SetItem {
    pub property: PropertyAccess,
    pub value: Expression,
}

#[derive(Debug)]
pub struct SetClause {
    pub items: Vec<SetItem>,
}

#[derive(Debug)]
pub struct RemoveClause {
    pub properties: Vec<PropertyAccess>,
}

#[derive(Debug)]
pub struct DeleteClause {
    pub detach: bool,
    pub expressions: Vec<Expression>,
}

#[derive(Debug)]
pub struct UnwindClause {
    pub expression: Expression,
    pub alias: String,
}

#[derive(Debug)]
pub struct YieldItem {
    pub name: String,
    pub alias: Option<String>,
}

#[derive(Debug)]
pub struct ProcedureCall {
    pub name: String,
    pub arguments: Vec<Expression>,
    pub yields: Option<Vec<YieldItem>>,
}

#[derive(Debug)]
pub enum CallClause {
    Subquery(Query),
    Procedure(ProcedureCall),
}

#[derive(Debug)]
pub struct UnionClause {
    pub all: bool,
    pub query: Query,
}

#[derive(Debug)]
pub struct ForeachClause {
    pub variable: String,
    pub list: Expression,
    pub updates: Vec<Clause>,
}

#[derive(Debug)]
pub enum Clause {
    Match(MatchClause),
    Where(WhereClause),
    With(WithClause),
    Return(ReturnClause),
    Create(CreateClause),
    Merge(MergeClause),
    SetProps(SetClause),
    Remove(RemoveClause),
    Delete(DeleteClause),
    Unwind(UnwindClause),
    Call(CallClause),
    Union(UnionClause),
    Foreach(ForeachClause),
}

/// An aggregate function of a projection.
#[derive(Debug)]
pub enum AggregateFunction {
    Count(Option<Expression>),
    Sum(Expression),
    Avg(Expression),
    Min(Expression),
    Max(Expression),
    Collect(Expression),
}

/// The set of variable names that an expression mentions through `Variable`,
/// `PropertyAccess`, and the arguments, operands and items of calls, operators,
/// lists and maps (the forms that a projection's dependency scan walks).
pub open spec fn expr_vars(e: Expression) -> Set<Seq<char>>
    decreases e,
{
    match e {
        Expression::Variable(v) => set![v@],
        Expression::PropertyAccess(pa) => set![pa.variable@],
        Expression::FunctionCall(f) => Set::new(|s: Seq<char>| exists|i: int| 0 <= i < f.args@.len() && #[trigger] expr_vars(f.args@[i]).contains(s)),
        Expression::Binary(b) => expr_vars(b.left).union(expr_vars(b.right)),
        Expression::Unary(u) => expr_vars(u.operand),
        Expression::List(l) => Set::new(|s: Seq<char>| exists|i: int| 0 <= i < l@.len() && #[trigger] expr_vars(l@[i]).contains(s)),
        Expression::MapLiteral(m) => Set::new(|s: Seq<char>| exists|i: int| 0 <= i < m.properties@.len() && #[trigger] expr_vars(m.properties@[i].value).contains(s)),
        _ => Set::empty(),
    }
}


} // verus!
