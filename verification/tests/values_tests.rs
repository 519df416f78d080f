use nervusdb::query::ast::{
    Expression, Literal, NodePattern, PathElement, Pattern, PropertyAccess, RelationshipDirection,
    RelationshipPattern, SetClause, SetItem,
};
use nervusdb::query::bindings::{BindingKind, Bindings};
use nervusdb::query::error::Error;
use nervusdb::query::match_anchor::{
    build_optional_unbind_aliases, first_relationship_is_bound, is_binding_compatible, maybe_reanchor_pattern,
    reverse_relationship_direction,
};
use nervusdb::query::merge_set::{compile_merge_set_items, extract_merge_pattern_vars};
use nervusdb::query::procedures::{execute_db_info, join_procedure_row, BuiltinProcedure, ProcedureRegistry};
use nervusdb::query::value::{Params, PathValue, Row, Value};
use nervusdb::query::write_check::{value_kind, NDB_COL_INT64, NDB_COL_NULL, NDB_COL_PATH, NDB_COL_STRING};
use nervusdb::storage::api::EdgeKey;
use std::hash::{Hash, Hasher};

fn node(variable: Option<&str>) -> PathElement {
    PathElement::Node(NodePattern { variable: variable.map(|v| v.to_string()), labels: vec![], properties: None })
}

fn rel(variable: Option<&str>, direction: RelationshipDirection) -> PathElement {
    PathElement::Relationship(RelationshipPattern {
        variable: variable.map(|v| v.to_string()),
        types: vec!["1".to_string()],
        direction,
        properties: None,
        variable_length: None,
    })
}

#[test]
fn row_columns_are_read_and_replaced() {
    let row = Row::new(vec![("n".to_string(), Value::NodeId(7)), ("s".to_string(), Value::String("x".to_string()))]);
    assert_eq!(row.get_node("n"), Some(7));
    assert_eq!(row.get_node("s"), None);
    assert_eq!(row.get_edge("n"), None);
    assert_eq!(row.get("s").and_then(|v| v.as_string()), Some("x"));
    let row = row.with("s", Value::Int(3));
    assert!(matches!(row.get("s"), Some(Value::Int(3))));
    assert_eq!(row.columns().len(), 2);
    let e = EdgeKey { src: 1, rel: 2, dst: 3 };
    let edged = Row::new(vec![("r".to_string(), Value::EdgeKey(e))]);
    assert_eq!(edged.get_edge("r"), Some(e));
    let projected = row.project(&["s"]);
    assert_eq!(projected.columns().len(), 1);
    let joined = projected.join(&edged);
    assert_eq!(joined.columns().len(), 2);
}

#[test]
fn paths_grow_one_hop_at_a_time() {
    let mut row = Row::empty();
    let e1 = EdgeKey { src: 1, rel: 9, dst: 2 };
    let e2 = EdgeKey { src: 2, rel: 9, dst: 3 };
    row.join_path("p", 1, e1, 2);
    row.join_path("p", 2, e2, 3);
    match row.get("p") {
        Some(Value::Path(PathValue { nodes, edges })) => {
            assert_eq!(nodes, &vec![1, 2, 3]);
            assert_eq!(edges, &vec![e1, e2]);
        },
        other => panic!("unexpected {other:?}"),
    }
}

#[test]
fn params_keep_the_last_value() {
    let mut p = Params::new();
    p.insert("a", Value::Int(1));
    p.insert("a", Value::Int(2));
    assert!(matches!(p.get("a"), Some(Value::Int(2))));
    assert!(p.get("b").is_none());
}

#[test]
fn value_kinds_follow_the_column_codes() {
    assert_eq!(value_kind(&Value::Null), NDB_COL_NULL);
    assert_eq!(value_kind(&Value::NodeId(1)), NDB_COL_INT64);
    assert_eq!(value_kind(&Value::String("s".to_string())), NDB_COL_STRING);
    assert_eq!(value_kind(&Value::EdgeKey(EdgeKey { src: 0, rel: 0, dst: 0 })), NDB_COL_PATH);
}

#[test]
fn reanchoring_starts_from_the_bound_end() {
    let mut known = Bindings::new();
    known.insert("b".to_string(), BindingKind::Node);
    let pattern = Pattern { variable: None, elements: vec![node(Some("a")), rel(Some("r"), RelationshipDirection::LeftToRight), node(Some("b"))] };
    assert!(!first_relationship_is_bound(&pattern, &known));
    let flipped = maybe_reanchor_pattern(pattern, &known);
    match (&flipped.elements[0], &flipped.elements[1], &flipped.elements[2]) {
        (PathElement::Node(first), PathElement::Relationship(r), PathElement::Node(last)) => {
            assert_eq!(first.variable.as_deref(), Some("b"));
            assert_eq!(r.direction, RelationshipDirection::RightToLeft);
            assert_eq!(last.variable.as_deref(), Some("a"));
        },
        other => panic!("unexpected {other:?}"),
    }
    assert_eq!(reverse_relationship_direction(&RelationshipDirection::Undirected), RelationshipDirection::Undirected);
    known.insert("r".to_string(), BindingKind::Relationship);
    let bound_rel = Pattern { variable: None, elements: vec![node(Some("a")), rel(Some("r"), RelationshipDirection::LeftToRight), node(Some("b"))] };
    assert!(first_relationship_is_bound(&bound_rel, &known));
}

#[test]
fn optional_match_unbinds_new_aliases_once() {
    let mut known = Bindings::new();
    known.insert("a".to_string(), BindingKind::Node);
    known.insert("x".to_string(), BindingKind::Unknown);
    assert!(is_binding_compatible(&known, "x", BindingKind::Path));
    let aliases = build_optional_unbind_aliases(&known, "a", "b", Some("b"), Some("p"));
    assert_eq!(aliases, vec!["b".to_string(), "p".to_string()]);
}

#[test]
fn merge_set_items_must_use_merge_variables() {
    let pattern = Pattern { variable: Some("path".to_string()), elements: vec![node(Some("n")), rel(Some("r"), RelationshipDirection::LeftToRight), node(None)] };
    let vars = extract_merge_pattern_vars(&pattern);
    let mut sorted = vars.clone();
    sorted.sort();
    assert_eq!(sorted, vec!["n".to_string(), "r".to_string()]);
    let item = |v: &str| SetItem {
        property: PropertyAccess { variable: v.to_string(), property: "k".to_string() },
        value: Expression::Literal(Literal::Integer(1)),
    };
    let ok = compile_merge_set_items(&vars, vec![SetClause { items: vec![item("n"), item("r")] }]).unwrap();
    assert_eq!(ok.len(), 2);
    assert_eq!((ok[1].0.as_str(), ok[1].1.as_str()), ("r", "k"));
    match compile_merge_set_items(&vars, vec![SetClause { items: vec![item("n")] }, SetClause { items: vec![item("m")] }]) {
        Err(e) => assert_eq!(e.to_string(), "syntax error: UndefinedVariable (m)"),
        Ok(_) => panic!("m is not a merge variable"),
    }
    assert!(matches!(Error::not_implemented("x").to_string().as_str(), "not implemented: x"));
}

#[test]
fn procedures_are_found_by_name() {
    let registry = ProcedureRegistry::new();
    assert_eq!(registry.get("db.info"), Some(BuiltinProcedure::DbInfo));
    assert_eq!(registry.get("math.add"), Some(BuiltinProcedure::MathAdd));
    assert_eq!(registry.get("db.labels"), None);
    let rows = execute_db_info();
    assert_eq!(rows.len(), 1);
    assert_eq!(rows[0].get("version").and_then(|v| v.as_string()), Some("2.0.0"));
}

fn hash_of(v: &Value) -> u64 {
    let mut h = std::collections::hash_map::DefaultHasher::new();
    v.hash(&mut h);
    h.finish()
}

#[test]
fn values_hash_by_content_and_floats_by_bit_pattern() {
    let half = 0.5f64.to_bits();
    assert_eq!(hash_of(&Value::Float(half)), hash_of(&Value::Float(0.5f64.to_bits())));
    assert_eq!(
        hash_of(&Value::List(vec![Value::Int(1), Value::String("a".to_string())])),
        hash_of(&Value::List(vec![Value::Int(1), Value::String("a".to_string())]))
    );
    assert_ne!(hash_of(&Value::Float(0.0f64.to_bits())), hash_of(&Value::Float((-0.0f64).to_bits())));
}

#[test]
fn procedure_rows_join_the_input_row_through_yield() {
    let outer = Row::new(vec![("x".to_string(), Value::Int(1)), ("version".to_string(), Value::Int(0))]);
    let proc_row = execute_db_info().remove(0);
    let all = join_procedure_row(&outer, &proc_row, &vec![]);
    assert_eq!(all.columns().iter().map(|c| c.0.as_str()).collect::<Vec<_>>(), vec!["x", "version"]);
    assert_eq!(all.get("version").and_then(|v| v.as_string()), Some("2.0.0"));
    let yields = vec![("version".to_string(), Some("v".to_string())), ("missing".to_string(), None)];
    let aliased = join_procedure_row(&outer, &proc_row, &yields);
    assert_eq!(aliased.columns().iter().map(|c| c.0.as_str()).collect::<Vec<_>>(), vec!["x", "version", "v"]);
    assert!(matches!(aliased.get("version"), Some(Value::Int(0))));
    assert_eq!(aliased.get("v").and_then(|v| v.as_string()), Some("2.0.0"));
    let plain = join_procedure_row(&outer, &proc_row, &vec![("version".to_string(), None)]);
    assert_eq!(plain.get("version").and_then(|v| v.as_string()), Some("2.0.0"));
}

use nervusdb::query::logic::{and_values, is_null_values, not_values, or_values, string_op_values, xor_values, StringOperator};

fn b(x: bool) -> Value {
    Value::Bool(x)
}

#[test]
fn three_valued_connectives() {
    assert!(matches!(and_values(&b(false), &Value::Null), Value::Bool(false)));
    assert!(matches!(and_values(&Value::Int(3), &b(false)), Value::Bool(false)));
    assert!(matches!(and_values(&b(true), &Value::Null), Value::Null));
    assert!(matches!(and_values(&b(true), &b(true)), Value::Bool(true)));
    assert!(matches!(or_values(&Value::Null, &b(true)), Value::Bool(true)));
    assert!(matches!(or_values(&b(false), &Value::Int(1)), Value::Null));
    assert!(matches!(or_values(&b(false), &b(false)), Value::Bool(false)));
    assert!(matches!(xor_values(&b(true), &b(false)), Value::Bool(true)));
    assert!(matches!(xor_values(&b(true), &Value::Null), Value::Null));
    assert!(matches!(not_values(&b(true)), Value::Bool(false)));
    assert!(matches!(not_values(&Value::Int(0)), Value::Null));
    // NOT (a AND b) is (NOT a) OR (NOT b)
    for (x, y) in [(b(true), Value::Null), (b(false), Value::Int(2)), (b(true), b(true))] {
        let left = not_values(&and_values(&x, &y));
        let right = or_values(&not_values(&x), &not_values(&y));
        assert_eq!(format!("{left:?}"), format!("{right:?}"));
    }
}

#[test]
fn null_tests_and_string_operators() {
    assert!(matches!(is_null_values(&Value::Null, false), Value::Bool(true)));
    assert!(matches!(is_null_values(&Value::Int(1), true), Value::Bool(true)));
    assert!(matches!(is_null_values(&Value::Null, true), Value::Bool(false)));
    let s = |t: &str| Value::String(t.to_string());
    assert!(matches!(string_op_values(StringOperator::StartsWith, &s("hello"), &s("he")), Value::Bool(true)));
    assert!(matches!(string_op_values(StringOperator::EndsWith, &s("hello"), &s("llo")), Value::Bool(true)));
    assert!(matches!(string_op_values(StringOperator::EndsWith, &s("lo"), &s("hello")), Value::Bool(false)));
    assert!(matches!(string_op_values(StringOperator::Contains, &s("hello"), &s("ell")), Value::Bool(true)));
    assert!(matches!(string_op_values(StringOperator::Contains, &s("hello"), &s("")), Value::Bool(true)));
    assert!(matches!(string_op_values(StringOperator::Contains, &s("hello"), &Value::Null), Value::Null));
}
