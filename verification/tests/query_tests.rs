use nervusdb::query::ast::{
    AggregateFunction, BinaryExpression, BinaryOperator, CallClause, Clause, CreateClause, Expression, FunctionCall,
    Literal, MatchClause, NodePattern, PathElement, Pattern, PropertyAccess, PropertyMap, PropertyPair, Query,
    RelationshipDirection, RelationshipPattern, ReturnClause, ReturnItem, UnwindClause, VariableLength, WhereClause,
    YieldItem, ProcedureCall,
};
use nervusdb::query::bindings::{BindingKind, Bindings};
use nervusdb::query::error::Error;
use nervusdb::query::identifiers::{parse_u32_identifier, strip_explain_prefix};
use nervusdb::query::plan::Plan;
use nervusdb::query::planner::{
    compile_m3_plan, compile_match_plan, extract_predicates, extract_variables_from_expr, parse_aggregate_function,
    try_optimize_nodescan_filter, WriteSemantics,
};
use nervusdb::query::prepared::prepare;
use nervusdb::query::render::render_plan;
use nervusdb::query::temporal::{duration_mode_from_name, DurationMode};
use nervusdb::query::where_validation::validate_where_expression_bindings;
use nervusdb::query::write_check::query_contains_write;
use nervusdb::strmap::StrMap;

fn var(name: &str) -> Expression {
    Expression::Variable(name.to_string())
}

fn prop(v: &str, p: &str) -> Expression {
    Expression::PropertyAccess(PropertyAccess { variable: v.to_string(), property: p.to_string() })
}

fn string_lit(s: &str) -> Expression {
    Expression::Literal(Literal::String(s.to_string()))
}

fn int_lit(i: i64) -> Expression {
    Expression::Literal(Literal::Integer(i))
}

fn binary(left: Expression, operator: BinaryOperator, right: Expression) -> Expression {
    Expression::Binary(Box::new(BinaryExpression { left, operator, right }))
}

fn call(name: &str, args: Vec<Expression>) -> FunctionCall {
    FunctionCall { name: name.to_string(), args }
}

fn node(variable: Option<&str>, labels: &[&str], props: Option<Vec<(&str, Expression)>>) -> NodePattern {
    NodePattern {
        variable: variable.map(|v| v.to_string()),
        labels: labels.iter().map(|l| l.to_string()).collect(),
        properties: props.map(|ps| PropertyMap {
            properties: ps.into_iter().map(|(k, v)| PropertyPair { key: k.to_string(), value: v }).collect(),
        }),
    }
}

fn rel(variable: Option<&str>, types: &[&str], direction: RelationshipDirection) -> RelationshipPattern {
    RelationshipPattern {
        variable: variable.map(|v| v.to_string()),
        types: types.iter().map(|t| t.to_string()).collect(),
        direction,
        properties: None,
        variable_length: None,
    }
}

fn pattern(elements: Vec<PathElement>) -> Pattern {
    Pattern { variable: None, elements }
}

fn return_items(items: Vec<(Expression, Option<&str>)>) -> Clause {
    Clause::Return(ReturnClause {
        distinct: false,
        items: items.into_iter().map(|(e, a)| ReturnItem { expression: e, alias: a.map(|s| s.to_string()) }).collect(),
        order_by: None,
        skip: None,
        limit: None,
    })
}

#[test]
fn quantifier_variable_is_scoped_inside_where_validation() {
    let expr = Expression::FunctionCall(FunctionCall {
        name: "__quant_any".to_string(),
        args: vec![
            Expression::Variable("x".to_string()),
            Expression::Variable("list".to_string()),
            Expression::Binary(Box::new(BinaryExpression {
                left: Expression::Variable("x".to_string()),
                operator: BinaryOperator::Equals,
                right: Expression::Literal(Literal::Integer(2)),
            })),
        ],
    });
    let mut known = Bindings::new();
    known.insert("list".to_string(), BindingKind::Unknown);
    validate_where_expression_bindings(&expr, &known).expect("quantifier variable should be treated as local scope");
}

#[test]
fn quantifier_predicate_still_rejects_unknown_outer_variable() {
    let expr = Expression::FunctionCall(FunctionCall {
        name: "__quant_any".to_string(),
        args: vec![
            Expression::Variable("x".to_string()),
            Expression::Variable("list".to_string()),
            Expression::Binary(Box::new(BinaryExpression {
                left: Expression::Variable("y".to_string()),
                operator: BinaryOperator::Equals,
                right: Expression::Literal(Literal::Integer(2)),
            })),
        ],
    });
    let mut known = Bindings::new();
    known.insert("list".to_string(), BindingKind::Unknown);
    let err = validate_where_expression_bindings(&expr, &known).expect_err("unknown variable should still be rejected");
    assert_eq!(err.to_string(), "syntax error: UndefinedVariable (y)");
}

#[test]
fn explain_prefix_is_stripped() {
    assert_eq!(strip_explain_prefix("  explain   MATCH (n) RETURN n"), Some("MATCH (n) RETURN n"));
    assert_eq!(strip_explain_prefix("EXPLAIN"), Some(""));
    assert_eq!(strip_explain_prefix("EXPLAINED"), None);
    assert_eq!(strip_explain_prefix("RETURN 1"), None);
}

#[test]
fn numeric_identifiers_parse() {
    assert_eq!(parse_u32_identifier("42").ok(), Some(42));
    assert_eq!(parse_u32_identifier("+7").ok(), Some(7));
    assert_eq!(parse_u32_identifier("4294967295").ok(), Some(4294967295));
    for bad in ["", "+", "KNOWS", "4294967296", "-1", "1 "] {
        match parse_u32_identifier(bad) {
            Err(Error::NotImplemented(m)) => assert_eq!(m, "non-numeric label/rel identifiers in M3"),
            other => panic!("unexpected result for {bad:?}: {other:?}"),
        }
    }
}

#[test]
fn durations_are_named() {
    assert_eq!(duration_mode_from_name("duration.between"), Some(DurationMode::Between));
    assert_eq!(duration_mode_from_name("duration.inmonths"), Some(DurationMode::InMonths));
    assert_eq!(duration_mode_from_name("duration.indays"), Some(DurationMode::InDays));
    assert_eq!(duration_mode_from_name("duration.inseconds"), Some(DurationMode::InSeconds));
    assert_eq!(duration_mode_from_name("duration.inyears"), None);
}

#[test]
fn aggregate_functions_are_recognised() {
    let mut c = call("COUNT", vec![string_lit("*")]);
    assert!(matches!(parse_aggregate_function(&mut c), Ok(Some(AggregateFunction::Count(None)))));
    let mut c = call("count", vec![var("n")]);
    match parse_aggregate_function(&mut c) {
        Ok(Some(AggregateFunction::Count(Some(Expression::Variable(v))))) => assert_eq!(v, "n"),
        other => panic!("unexpected {other:?}"),
    }
    assert!(c.args.is_empty());
    let mut c = call("Sum", vec![var("a"), var("b")]);
    match parse_aggregate_function(&mut c) {
        Err(Error::Other(m)) => assert_eq!(m, "SUM takes exactly 1 argument"),
        other => panic!("unexpected {other:?}"),
    }
    assert_eq!(c.args.len(), 2);
    let mut c = call("count", vec![var("a"), var("b")]);
    assert!(matches!(parse_aggregate_function(&mut c), Err(Error::Other(m)) if m == "COUNT takes 0 or 1 argument"));
    let mut c = call("collect", vec![var("x")]);
    assert!(matches!(parse_aggregate_function(&mut c), Ok(Some(AggregateFunction::Collect(_)))));
    let mut c = call("toUpper", vec![var("x")]);
    assert!(matches!(parse_aggregate_function(&mut c), Ok(None)));
    assert_eq!(c.args.len(), 1);
}

#[test]
fn variables_are_collected_once_in_order() {
    let e = Expression::FunctionCall(call(
        "f",
        vec![binary(prop("a", "x"), BinaryOperator::Add, var("b")), var("a"), Expression::List(vec![var("c")])],
    ));
    let mut vars: Vec<String> = vec!["c".to_string()];
    extract_variables_from_expr(&e, &mut vars);
    assert_eq!(vars, vec!["c".to_string(), "a".to_string(), "b".to_string()]);
}

#[test]
fn equality_predicates_are_extracted() {
    let w = binary(
        binary(prop("n", "name"), BinaryOperator::Equals, string_lit("Alice")),
        BinaryOperator::And,
        binary(Expression::Parameter("age".to_string()), BinaryOperator::Equals, prop("n", "age")),
    );
    let mut preds = StrMap::new();
    extract_predicates(&w, &mut preds);
    let n = preds.get("n").expect("predicates on n");
    assert!(matches!(n.get("name"), Some(Expression::Literal(Literal::String(s))) if s == "Alice"));
    assert!(matches!(n.get("age"), Some(Expression::Parameter(p)) if p == "age"));
    assert!(preds.get("m").is_none());
}

#[test]
fn match_uses_the_least_property_for_an_index_seek() {
    let m = MatchClause {
        optional: false,
        pattern: pattern(vec![PathElement::Node(node(
            Some("n"),
            &["Person"],
            Some(vec![("name", string_lit("Alice")), ("age", int_lit(30))]),
        ))]),
    };
    match compile_match_plan(None, m, StrMap::new()) {
        Ok(Plan::IndexSeek { alias, label, field, value_expr, fallback }) => {
            assert_eq!(alias, "n");
            assert_eq!(label, "Person");
            assert_eq!(field, "age");
            assert!(matches!(value_expr, Expression::Literal(Literal::Integer(30))));
            assert!(matches!(*fallback, Plan::NodeScan { ref alias, label: Some(ref l) } if alias == "n" && l == "Person"));
        },
        other => panic!("unexpected {other:?}"),
    }
}

#[test]
fn match_errors() {
    let anon = MatchClause { optional: false, pattern: pattern(vec![PathElement::Node(node(None, &[], None))]) };
    assert!(matches!(compile_match_plan(None, anon, StrMap::new()), Err(Error::NotImplemented(m)) if m == "anonymous node"));
    let two = MatchClause {
        optional: false,
        pattern: pattern(vec![PathElement::Node(node(Some("a"), &[], None)), PathElement::Node(node(Some("b"), &[], None))]),
    };
    assert!(matches!(compile_match_plan(None, two, StrMap::new()), Err(Error::NotImplemented(m)) if m == "pattern length must be 1 or 3 in v2 M3"));
    let left = MatchClause {
        optional: false,
        pattern: pattern(vec![
            PathElement::Node(node(Some("a"), &[], None)),
            PathElement::Relationship(rel(None, &["1"], RelationshipDirection::RightToLeft)),
            PathElement::Node(node(Some("b"), &[], None)),
        ]),
    };
    assert!(matches!(compile_match_plan(None, left, StrMap::new()), Err(Error::NotImplemented(m)) if m == "only -> direction in v2 M3"));
    let mut hop = rel(Some("r"), &["1"], RelationshipDirection::LeftToRight);
    hop.variable_length = Some(VariableLength { min: Some(3), max: Some(2) });
    let bad_range = MatchClause {
        optional: false,
        pattern: pattern(vec![
            PathElement::Node(node(Some("a"), &[], None)),
            PathElement::Relationship(hop),
            PathElement::Node(node(Some("b"), &[], None)),
        ]),
    };
    assert!(matches!(compile_match_plan(None, bad_range, StrMap::new()), Err(Error::Other(m)) if m == "invalid variable-length range: max < min"));
}

#[test]
fn query_with_match_where_return_compiles() {
    let q = Query {
        clauses: vec![
            Clause::Match(MatchClause {
                optional: false,
                pattern: pattern(vec![
                    PathElement::Node(node(Some("a"), &[], None)),
                    PathElement::Relationship(rel(Some("r"), &["1"], RelationshipDirection::LeftToRight)),
                    PathElement::Node(node(Some("b"), &[], None)),
                ]),
            }),
            Clause::Where(WhereClause { expression: binary(prop("a", "x"), BinaryOperator::Equals, int_lit(1)) }),
            return_items(vec![(var("b"), None), (prop("a", "x"), None), (Expression::FunctionCall(call("count", vec![var("r")])), None)]),
        ],
    };
    let compiled = compile_m3_plan(q).expect("compiles");
    assert_eq!(compiled.write, WriteSemantics::Default);
    match compiled.plan {
        Plan::Aggregate { input, group_by, aggregates } => {
            assert_eq!(group_by, vec!["b".to_string(), "a.x".to_string()]);
            assert_eq!(aggregates.len(), 1);
            assert_eq!(aggregates[0].1, "agg_2");
            match *input {
                Plan::Project { input, projections } => {
                    let names: Vec<&str> = projections.iter().map(|p| p.0.as_str()).collect();
                    assert_eq!(names, vec!["b", "a.x", "r"]);
                    match *input {
                        Plan::Filter { input, .. } => {
                            assert!(matches!(*input, Plan::MatchOut { input: None, ref src_alias, ref dst_alias, .. } if src_alias == "a" && dst_alias == "b"));
                        },
                        other => panic!("unexpected {other:?}"),
                    }
                },
                other => panic!("unexpected {other:?}"),
            }
        },
        other => panic!("unexpected {other:?}"),
    }
}

#[test]
fn query_errors_by_clause() {
    let empty = Query { clauses: vec![] };
    assert!(matches!(compile_m3_plan(empty), Err(Error::NotImplemented(m)) if m == "Empty query"));
    let where_first = Query { clauses: vec![Clause::Where(WhereClause { expression: var("x") })] };
    assert!(matches!(compile_m3_plan(where_first), Err(Error::Other(m)) if m == "WHERE cannot be the first clause"));
    let call_clause = Query {
        clauses: vec![Clause::Call(CallClause::Procedure(ProcedureCall {
            name: "db.labels".to_string(),
            arguments: vec![],
            yields: Some(vec![YieldItem { name: "label".to_string(), alias: None }]),
        }))],
    };
    assert!(matches!(compile_m3_plan(call_clause), Err(Error::NotImplemented(m)) if m == "CALL in v2 M3"));
    let after_return = Query { clauses: vec![return_items(vec![(int_lit(1), None)]), return_items(vec![(int_lit(2), None)])] };
    assert!(matches!(compile_m3_plan(after_return), Err(Error::NotImplemented(m)) if m == "Clauses after RETURN are not supported"));
    let chained_create = Query {
        clauses: vec![
            Clause::Unwind(UnwindClause { expression: Expression::List(vec![int_lit(1)]), alias: "x".to_string() }),
            Clause::Create(CreateClause { pattern: pattern(vec![PathElement::Node(node(Some("n"), &[], None))]) }),
        ],
    };
    assert!(matches!(compile_m3_plan(chained_create), Err(Error::NotImplemented(m)) if m == "Chained CREATE not supported yet (v2 M3)"));
}

#[test]
fn return_one_and_create() {
    let q = Query { clauses: vec![return_items(vec![(int_lit(1), None)])] };
    match compile_m3_plan(q).expect("compiles").plan {
        Plan::Project { input, projections } => {
            assert!(matches!(*input, Plan::ReturnOne));
            assert_eq!(projections[0].0, "expr_0");
        },
        other => panic!("unexpected {other:?}"),
    }
    let q = Query { clauses: vec![Clause::Create(CreateClause { pattern: pattern(vec![PathElement::Node(node(Some("n"), &["A"], None))]) })] };
    assert!(matches!(compile_m3_plan(q).expect("compiles").plan, Plan::Create { .. }));
    assert!(query_contains_write(&Query {
        clauses: vec![Clause::Create(CreateClause { pattern: pattern(vec![PathElement::Node(node(Some("n"), &[], None))]) })]
    }));
}

#[test]
fn nodescan_filter_becomes_index_seek() {
    let scan = Plan::NodeScan { alias: "n".to_string(), label: Some("Person".to_string()) };
    let filtered = Plan::Filter {
        input: Box::new(scan),
        predicate: binary(string_lit("Bob"), BinaryOperator::Equals, prop("n", "name")),
    };
    match try_optimize_nodescan_filter(filtered, var("unused")) {
        Plan::IndexSeek { alias, label, field, value_expr, fallback } => {
            assert_eq!((alias.as_str(), label.as_str(), field.as_str()), ("n", "Person", "name"));
            assert!(matches!(value_expr, Expression::Literal(Literal::String(s)) if s == "Bob"));
            assert!(matches!(*fallback, Plan::Filter { .. }));
        },
        other => panic!("unexpected {other:?}"),
    }
    let unlabelled = Plan::Filter {
        input: Box::new(Plan::NodeScan { alias: "n".to_string(), label: None }),
        predicate: binary(prop("n", "name"), BinaryOperator::Equals, string_lit("Bob")),
    };
    assert!(matches!(try_optimize_nodescan_filter(unlabelled, var("unused")), Plan::Filter { .. }));
}

fn return_one_query() -> Query {
    Query { clauses: vec![return_items(vec![(int_lit(1), None)])] }
}

#[test]
fn prepare_strips_explain_and_renders_the_plan() {
    let seen = std::cell::RefCell::new(Vec::<String>::new());
    let parse = |text: &str| {
        seen.borrow_mut().push(text.to_string());
        Ok(return_one_query())
    };
    let explained = prepare("  explain   RETURN 1", &parse).expect("prepares");
    assert!(explained.is_explain());
    assert_eq!(explained.explain_string(), Some("Project(len=1)\n  ReturnOne"));
    assert_eq!(explained.write_semantics(), WriteSemantics::Default);
    assert!(matches!(explained.plan(), Plan::Project { .. }));
    let plain = prepare("RETURN 1", &parse).expect("prepares");
    assert!(!plain.is_explain());
    assert_eq!(plain.explain_string(), None);
    assert_eq!(*seen.borrow(), vec!["RETURN 1".to_string(), "RETURN 1".to_string()]);
    let explained_word = prepare("EXPLAINED", &parse).expect("prepares");
    assert!(!explained_word.is_explain());
    assert_eq!(seen.borrow().last().map(|s| s.as_str()), Some("EXPLAINED"));
}

#[test]
fn prepare_refuses_explain_without_a_query_and_passes_errors_on() {
    let never = |_: &str| -> Result<Query, Error> { panic!("nothing to parse") };
    match prepare("EXPLAIN   ", never) {
        Err(Error::Other(m)) => assert_eq!(m, "EXPLAIN requires a query"),
        _ => panic!("an empty EXPLAIN is refused"),
    }
    let failing = |_: &str| -> Result<Query, Error> { Err(Error::Other("parse failed".to_string())) };
    assert!(matches!(prepare("MATCH", failing), Err(Error::Other(m)) if m == "parse failed"));
    let empty = |_: &str| -> Result<Query, Error> { Ok(Query { clauses: vec![] }) };
    assert!(matches!(prepare("x", empty), Err(Error::NotImplemented(m)) if m == "Empty query"));
}

#[test]
fn decimal_identifiers_read_back_as_themselves() {
    for n in [0u32, 7, 42, 1000, 4294967295] {
        assert_eq!(parse_u32_identifier(&n.to_string()).ok(), Some(n));
    }
    assert!(parse_u32_identifier("4294967296").is_err());
    assert!(parse_u32_identifier("-1").is_err());
    assert!(parse_u32_identifier("").is_err());
    assert!(parse_u32_identifier("KNOWS").is_err());
    assert_eq!(parse_u32_identifier("+17").ok(), Some(17));
}

#[test]
fn explain_text_shows_one_line_per_operator() {
    let scan = Plan::NodeScan { alias: "n".to_string(), label: Some("Person".to_string()) };
    let filtered = Plan::Filter { input: Box::new(scan), predicate: var("x") };
    let limited = Plan::Limit { input: Box::new(filtered), limit: 5 };
    assert_eq!(
        render_plan(&limited),
        "Limit(limit=5)\n  Filter(predicate=Variable(\"x\"))\n    NodeScan(alias=n, label=Some(\"Person\"))"
    );
    let union = Plan::Union { left: Box::new(Plan::ReturnOne), right: Box::new(Plan::ReturnOne), all: true };
    assert_eq!(render_plan(&union), "Union(all=true)\n  ReturnOne\n  ReturnOne");
    let agg = Plan::Aggregate { input: Box::new(Plan::ReturnOne), group_by: vec!["a".to_string(), "b".to_string()], aggregates: vec![] };
    assert_eq!(render_plan(&agg), "Aggregate(group_by=[\"a\", \"b\"], aggregates=[])\n  ReturnOne");
    let hop = Plan::MatchOut {
        input: None,
        src_alias: "a".to_string(),
        rel: None,
        edge_alias: Some("e".to_string()),
        dst_alias: "b".to_string(),
        limit: Some(3),
        project: vec![],
        project_external: false,
        optional: true,
    };
    assert_eq!(render_plan(&hop), "MatchOut OPTIONAL(src=a, rel=None, edge=Some(\"e\"), dst=b, limit=Some(3))");
}

#[test]
fn explain_text_prints_nested_syntax_trees() {
    let pred = binary(prop("n", "age"), BinaryOperator::GreaterThan, int_lit(-3));
    let filtered = Plan::Filter { input: Box::new(Plan::ReturnOne), predicate: pred };
    assert_eq!(
        render_plan(&filtered),
        "Filter(predicate=Binary(BinaryExpression { left: PropertyAccess(PropertyAccess { variable: \"n\", property: \"age\" }), operator: GreaterThan, right: Literal(Integer(-3)) }))\n  ReturnOne"
    );
    let pattern = Pattern {
        variable: None,
        elements: vec![PathElement::Node(NodePattern {
            variable: Some("a".to_string()),
            labels: vec!["L".to_string()],
            properties: None,
        })],
    };
    assert_eq!(
        render_plan(&Plan::Create { pattern }),
        "Create(pattern=Pattern { variable: None, elements: [Node(NodePattern { variable: Some(\"a\"), labels: [\"L\"], properties: None })] })"
    );
    let agg = Plan::Aggregate {
        input: Box::new(Plan::ReturnOne),
        group_by: vec![],
        aggregates: vec![(AggregateFunction::Count(None), "c".to_string()), (AggregateFunction::Sum(var("x")), "s".to_string())],
    };
    assert_eq!(
        render_plan(&agg),
        "Aggregate(group_by=[], aggregates=[(Count(None), \"c\"), (Sum(Variable(\"x\")), \"s\")])\n  ReturnOne"
    );
    let list = Plan::Unwind {
        input: Box::new(Plan::ReturnOne),
        expression: Expression::List(vec![Expression::Literal(Literal::Boolean(true)), Expression::Literal(Literal::Null)]),
        alias: "x".to_string(),
    };
    assert_eq!(render_plan(&list), "Unwind(alias=x, expression=List([Literal(Boolean(true)), Literal(Null)]))\n  ReturnOne");
}

#[test]
fn explain_prefix_of_non_ascii_text_is_absent() {
    assert_eq!(strip_explain_prefix("€€€"), None);
    assert_eq!(strip_explain_prefix("EXPLAIN€"), None);
    let failing = |s: &str| -> Result<Query, Error> { Err(Error::Other(format!("cannot parse {s}"))) };
    assert!(matches!(prepare("€€€", failing), Err(Error::Other(m)) if m == "cannot parse €€€"));
}

#[test]
fn pattern_predicates_need_a_hop_and_bound_variables() {
    let mut known = Bindings::new();
    known.insert("a".to_string(), BindingKind::Node);
    let short = Expression::Exists(Box::new(nervusdb::query::ast::ExistsExpression::Pattern(pattern(vec![
        PathElement::Node(node(Some("a"), &[], None)),
    ]))));
    match validate_where_expression_bindings(&short, &known) {
        Err(Error::Other(m)) => assert_eq!(m, "syntax error: InvalidArgumentType"),
        other => panic!("unexpected {other:?}"),
    }
    let hop = |dst: &str| {
        Expression::Exists(Box::new(nervusdb::query::ast::ExistsExpression::Pattern(pattern(vec![
            PathElement::Node(node(Some("a"), &[], None)),
            PathElement::Relationship(rel(None, &["R"], RelationshipDirection::LeftToRight)),
            PathElement::Node(node(Some(dst), &[], None)),
        ]))))
    };
    match validate_where_expression_bindings(&hop("b"), &known) {
        Err(Error::Other(m)) => assert_eq!(m, "syntax error: UndefinedVariable (b)"),
        other => panic!("unexpected {other:?}"),
    }
    known.insert("b".to_string(), BindingKind::Node);
    assert!(validate_where_expression_bindings(&hop("b"), &known).is_ok());
}

#[test]
fn where_expressions_use_only_bound_variables() {
    let mut known = Bindings::new();
    known.insert("n".to_string(), BindingKind::Node);
    let e = binary(prop("n", "age"), BinaryOperator::GreaterThan, var("m"));
    match validate_where_expression_bindings(&e, &known) {
        Err(Error::Other(m)) => assert_eq!(m, "syntax error: UndefinedVariable (m)"),
        other => panic!("unexpected {other:?}"),
    }
    match validate_where_expression_bindings(&var("n"), &known) {
        Err(Error::Other(m)) => assert_eq!(m, "syntax error: InvalidArgumentType"),
        other => panic!("unexpected {other:?}"),
    }
    known.insert("m".to_string(), BindingKind::Scalar);
    assert!(validate_where_expression_bindings(&e, &known).is_ok());
}

#[test]
fn explained_queries_yield_their_plan_and_refuse_to_write() {
    let parse = |_: &str| -> Result<Query, Error> { Ok(return_one_query()) };
    let explained = prepare("EXPLAIN RETURN 1", &parse).expect("prepares");
    let row = explained.explain_row().expect("an explained query yields a row");
    match row.columns() {
        [(name, nervusdb::query::value::Value::String(text))] => {
            assert_eq!(name, "plan");
            assert_eq!(text, "Project(len=1)\n  ReturnOne");
        },
        other => panic!("unexpected {other:?}"),
    }
    match explained.write_refusal() {
        Some(Error::Other(m)) => assert_eq!(m, "EXPLAIN cannot be executed as a write query"),
        other => panic!("unexpected {other:?}"),
    }
    let plain = prepare("RETURN 1", &parse).expect("prepares");
    assert!(plain.explain_row().is_none());
    assert!(plain.write_refusal().is_none());
}
