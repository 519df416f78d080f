use nervusdb::storage::api;
use nervusdb::storage::bulkload::{BulkEdge, BulkLoader, BulkNode, StorageError};
use nervusdb::storage::convert::{
    api_edge_to_internal, convert_property_map_to_api, convert_property_to_api, internal_edge_to_api, EdgeKey,
};
use nervusdb::storage::property::PropertyValue;
use std::collections::BTreeMap;

#[test]
fn convert_property_to_api_preserves_nested_list_and_map() {
    let inner_map = vec![
        ("x".to_string(), PropertyValue::Int(7)),
        ("y".to_string(), PropertyValue::List(vec![PropertyValue::Bool(true), PropertyValue::Null])),
    ];

    let value = PropertyValue::List(vec![PropertyValue::String("root".to_string()), PropertyValue::Dict(inner_map)]);

    let converted = convert_property_to_api(value);
    let expected = api::PropertyValue::List(vec![
        api::PropertyValue::String("root".to_string()),
        api::PropertyValue::Dict(vec![
            ("x".to_string(), api::PropertyValue::Int(7)),
            (
                "y".to_string(),
                api::PropertyValue::List(vec![api::PropertyValue::Bool(true), api::PropertyValue::Null]),
            ),
        ]),
    ]);

    assert_eq!(converted, expected);
}

#[test]
fn convert_property_map_to_api_preserves_scalars() {
    let props = vec![
        ("blob".to_string(), PropertyValue::Blob(vec![1, 2, 3])),
        ("dt".to_string(), PropertyValue::DateTime(1700000000)),
        ("n".to_string(), PropertyValue::Int(42)),
        ("s".to_string(), PropertyValue::String("ok".to_string())),
    ];

    let converted = convert_property_map_to_api(props);
    let expected = vec![
        ("blob".to_string(), api::PropertyValue::Blob(vec![1, 2, 3])),
        ("dt".to_string(), api::PropertyValue::DateTime(1700000000)),
        ("n".to_string(), api::PropertyValue::Int(42)),
        ("s".to_string(), api::PropertyValue::String("ok".to_string())),
    ];

    assert_eq!(converted, expected);
}

#[test]
fn api_edge_to_internal_keeps_all_fields() {
    let api_edge = api::EdgeKey { src: 11, rel: 22, dst: 33 };
    let internal = api_edge_to_internal(api_edge);
    assert_eq!(internal, EdgeKey { src: 11, rel: 22, dst: 33 });
}

#[test]
fn internal_edge_to_api_keeps_all_fields() {
    let internal = EdgeKey { src: 44, rel: 55, dst: 66 };
    let api = internal_edge_to_api(internal);
    assert_eq!(api, api::EdgeKey { src: 44, rel: 55, dst: 66 });
}

#[test]
fn edge_round_trip_is_identity() {
    let e = api::EdgeKey { src: 1, rel: 2, dst: 3 };
    assert_eq!(internal_edge_to_api(api_edge_to_internal(e)), e);
}

fn person(id: u64, label: &str) -> BulkNode {
    BulkNode { external_id: id, label: label.to_string(), properties: BTreeMap::new() }
}

fn knows(src: u64, dst: u64) -> BulkEdge {
    BulkEdge { src_external_id: src, rel_type: "KNOWS".to_string(), dst_external_id: dst, properties: BTreeMap::new() }
}

fn message(e: StorageError) -> String {
    match e {
        StorageError::WalProtocol(m) => m,
    }
}

#[test]
fn test_bulkloader_creation() {
    let loader = BulkLoader::new("/tmp/test.ndb".to_string(), false).unwrap();
    assert_eq!(loader.node_count(), 0);
    assert_eq!(loader.edge_count(), 0);
}

#[test]
fn test_bulkloader_rejects_existing_db() {
    let result = BulkLoader::new("/tmp/test.ndb".to_string(), true);
    assert!(result.is_err());
}

#[test]
fn test_add_node() {
    let mut loader = BulkLoader::new("/tmp/test.ndb".to_string(), false).unwrap();
    loader
        .add_node(BulkNode { external_id: 1, label: "Person".to_string(), properties: BTreeMap::new() })
        .unwrap();
    assert_eq!(loader.node_count(), 1);
}

#[test]
fn test_add_edge() {
    let mut loader = BulkLoader::new("/tmp/test.ndb".to_string(), false).unwrap();
    loader
        .add_edge(BulkEdge {
            src_external_id: 1,
            rel_type: "KNOWS".to_string(),
            dst_external_id: 2,
            properties: BTreeMap::new(),
        })
        .unwrap();
    assert_eq!(loader.edge_count(), 1);
}

#[test]
fn duplicate_node_is_refused() {
    let mut loader = BulkLoader::new("/tmp/dup.ndb".to_string(), false).unwrap();
    loader.add_node(person(1, "Person")).unwrap();
    let err = loader.add_node(person(1, "Robot")).unwrap_err();
    assert_eq!(message(err), "Duplicate external_id in bulk load");
    assert_eq!(loader.node_count(), 1);
}

#[test]
fn commit_checks_edges_and_assigns_ids() {
    let mut loader = BulkLoader::new("/tmp/ok.ndb".to_string(), false).unwrap();
    loader.add_node(person(10, "Person")).unwrap();
    loader.add_node(person(20, "Company")).unwrap();
    loader.add_node(person(30, "Person")).unwrap();
    loader.add_edge(knows(10, 30)).unwrap();
    let ids = loader.commit().unwrap();
    assert_eq!(ids.external_to_internal.get(&10), Some(&0));
    assert_eq!(ids.external_to_internal.get(&20), Some(&1));
    assert_eq!(ids.external_to_internal.get(&30), Some(&2));
    assert_eq!(ids.node_labels, vec![0, 1, 0]);
    assert_eq!(ids.label_names, vec!["Person".to_string(), "Company".to_string()]);

    let mut bad_src = BulkLoader::new("/tmp/bad.ndb".to_string(), false).unwrap();
    bad_src.add_node(person(1, "A")).unwrap();
    bad_src.add_edge(knows(2, 1)).unwrap();
    assert_eq!(message(bad_src.commit().err().unwrap()), "Edge src_external_id references non-existent node");

    let mut bad_dst = BulkLoader::new("/tmp/bad.ndb".to_string(), false).unwrap();
    bad_dst.add_node(person(1, "A")).unwrap();
    bad_dst.add_edge(knows(1, 1)).unwrap();
    bad_dst.add_edge(knows(1, 3)).unwrap();
    assert_eq!(message(bad_dst.commit().err().unwrap()), "Edge dst_external_id references non-existent node");
}

#[test]
fn existing_database_message() {
    let err = BulkLoader::new("/tmp/x.ndb".to_string(), true).err().unwrap();
    assert_eq!(message(err), "Database file already exists. BulkLoader only works with new databases.");
}


use nervusdb::query::ast::{RelationshipDirection, RelationshipPattern};
use nervusdb::query::expand::{candidate_edges, resolve_rel_type_ids};
use nervusdb::storage::api::GraphSnapshot;
use nervusdb::storage::read_path::{CsrSegment, IncomingNeighborsIter, L0Run, NeighborsIter};
use nervusdb::storage::snapshot::{NodeEntry, Snapshot};
use std::sync::Arc;

fn ek(src: u32, rel: u32, dst: u32) -> EdgeKey {
    EdgeKey { src, rel, dst }
}

fn ak(src: u32, rel: u32, dst: u32) -> api::EdgeKey {
    api::EdgeKey { src, rel, dst }
}

fn runs(list: Vec<L0Run>) -> Arc<Vec<Arc<L0Run>>> {
    Arc::new(list.into_iter().map(Arc::new).collect())
}

fn segments(list: Vec<Vec<EdgeKey>>) -> Arc<Vec<Arc<CsrSegment>>> {
    Arc::new(list.into_iter().map(|edges| Arc::new(CsrSegment { edges })).collect())
}

fn sample_runs() -> Arc<Vec<Arc<L0Run>>> {
    runs(vec![L0Run { edges: vec![ek(0, 1, 3)], tombstoned_nodes: vec![], tombstoned_edges: vec![ek(0, 2, 2)] }])
}

fn sample_segments() -> Arc<Vec<Arc<CsrSegment>>> {
    segments(vec![vec![ek(0, 1, 1), ek(0, 2, 2), ek(2, 1, 0), ek(1, 1, 2)]])
}

fn sample_snapshot() -> Snapshot {
    let mut label_names: Vec<String> = (0..7).map(|i| format!("L{i}")).collect();
    label_names.push("Person".to_string());
    Snapshot::new(
        sample_runs(),
        sample_segments(),
        vec!["KNOWS".to_string(), "LIKES".to_string()],
        label_names,
        vec![
            NodeEntry { iid: 0, external: 100, label: Some(7) },
            NodeEntry { iid: 1, external: 101, label: None },
            NodeEntry { iid: 2, external: 102, label: Some(8) },
        ],
        vec![
            (0, vec![("age".to_string(), PropertyValue::Int(42)), ("name".to_string(), PropertyValue::String("Ann".to_string()))]),
            (0, vec![("ignored".to_string(), PropertyValue::Null)]),
        ],
        vec![(ek(0, 1, 1), vec![("since".to_string(), PropertyValue::Int(2020))])],
    )
}

#[test]
fn neighbors_walk_runs_then_segments_and_skip_deleted_edges() {
    let mut it = NeighborsIter::new(sample_runs(), sample_segments(), 0, None);
    assert_eq!(it.next_edge(), Some(ek(0, 1, 3)));
    assert_eq!(it.next_edge(), Some(ek(0, 1, 1)));
    assert_eq!(it.next_edge(), None);
    assert_eq!(it.next_edge(), None);
    let mut typed = NeighborsIter::new(sample_runs(), sample_segments(), 0, Some(2));
    assert_eq!(typed.collect_remaining(), Vec::<EdgeKey>::new());
}

#[test]
fn incoming_neighbors_read_from_the_other_end() {
    let mut it = IncomingNeighborsIter::new(sample_runs(), sample_segments(), 2, None);
    assert_eq!(it.collect_remaining(), vec![ek(1, 1, 2)]);
    let deleted_source = runs(vec![L0Run { edges: vec![], tombstoned_nodes: vec![1], tombstoned_edges: vec![] }]);
    let mut it = IncomingNeighborsIter::new(deleted_source, sample_segments(), 2, None);
    assert_eq!(it.collect_remaining(), vec![ek(0, 2, 2)]);
}

#[test]
fn an_edge_deleted_by_an_older_run_comes_back_only_from_a_newer_run() {
    let layered = runs(vec![
        L0Run { edges: vec![ek(0, 2, 2)], tombstoned_nodes: vec![], tombstoned_edges: vec![] },
        L0Run { edges: vec![], tombstoned_nodes: vec![], tombstoned_edges: vec![ek(0, 2, 2)] },
    ]);
    let mut it = NeighborsIter::new(layered, sample_segments(), 0, None);
    assert_eq!(it.collect_remaining(), vec![ek(0, 2, 2), ek(0, 1, 1)]);
    let far_end_deleted = runs(vec![L0Run { edges: vec![], tombstoned_nodes: vec![1], tombstoned_edges: vec![] }]);
    let mut it = NeighborsIter::new(far_end_deleted, sample_segments(), 0, None);
    assert_eq!(it.collect_remaining(), vec![ek(0, 2, 2)]);
}

#[test]
fn a_deleted_start_node_ends_the_walk_after_at_most_one_segment_edge() {
    let deleted = runs(vec![
        L0Run { edges: vec![ek(0, 1, 5)], tombstoned_nodes: vec![0], tombstoned_edges: vec![] },
        L0Run { edges: vec![ek(0, 1, 6)], tombstoned_nodes: vec![], tombstoned_edges: vec![] },
    ]);
    let mut it = NeighborsIter::new(deleted, sample_segments(), 0, None);
    assert_eq!(it.next_edge(), Some(ek(0, 1, 1)));
    assert_eq!(it.next_edge(), None);
}

#[test]
fn snapshot_answers_from_runs_segments_and_catalog() {
    let s = sample_snapshot();
    assert_eq!(s.neighbors(0, None), vec![ak(0, 1, 3), ak(0, 1, 1)]);
    assert_eq!(s.incoming_neighbors(0, Some(1)), vec![ak(2, 1, 0)]);
    assert_eq!(s.resolve_rel_type_id("LIKES"), Some(1));
    assert_eq!(s.resolve_rel_type_id("HATES"), None);
    assert_eq!(s.nodes(), vec![0, 1, 2]);
    assert_eq!(s.resolve_external(2), Some(102));
    assert_eq!(s.resolve_external(9), None);
    assert_eq!(s.node_label(0), Some(7));
    assert_eq!(s.node_label(1), None);
    assert!(!s.is_tombstoned_node(1));
    let gone = Snapshot::new(
        runs(vec![L0Run { edges: vec![], tombstoned_nodes: vec![1], tombstoned_edges: vec![] }]),
        sample_segments(),
        vec![],
        vec![],
        vec![NodeEntry { iid: 0, external: 1, label: None }, NodeEntry { iid: 1, external: 2, label: None }],
        vec![],
        vec![],
    );
    assert!(gone.is_tombstoned_node(1));
    assert_eq!(gone.nodes(), vec![0]);
}

#[test]
fn candidate_edges_follow_direction_and_types() {
    let s = sample_snapshot();
    let out = candidate_edges(0, RelationshipDirection::LeftToRight, None, &s);
    assert_eq!(out, vec![(ak(0, 1, 3), 3), (ak(0, 1, 1), 1)]);
    let inc = candidate_edges(0, RelationshipDirection::RightToLeft, Some(&[1]), &s);
    assert_eq!(inc, vec![(ak(2, 1, 0), 2)]);
    let both = candidate_edges(0, RelationshipDirection::Undirected, Some(&[1]), &s);
    assert_eq!(both, vec![(ak(0, 1, 3), 3), (ak(0, 1, 1), 1), (ak(2, 1, 0), 2)]);
    assert!(candidate_edges(0, RelationshipDirection::LeftToRight, Some(&[]), &s).is_empty());
}

#[test]
fn relationship_types_resolve_when_known() {
    let s = sample_snapshot();
    let pattern = |types: &[&str]| RelationshipPattern {
        variable: None,
        types: types.iter().map(|t| t.to_string()).collect(),
        direction: RelationshipDirection::LeftToRight,
        properties: None,
        variable_length: None,
    };
    assert_eq!(resolve_rel_type_ids(&pattern(&[]), &s), None);
    assert_eq!(resolve_rel_type_ids(&pattern(&["LIKES", "HATES", "KNOWS"]), &s), Some(vec![1, 0]));
    assert_eq!(resolve_rel_type_ids(&pattern(&["HATES"]), &s), Some(vec![]));
}

#[test]
fn snapshot_names_labels_and_types_and_holds_properties() {
    let s = sample_snapshot();
    assert_eq!(s.resolve_node_labels(0), Some(vec![7]));
    assert_eq!(s.resolve_node_labels(1), Some(vec![]));
    assert_eq!(s.resolve_node_labels(9), None);
    assert_eq!(s.resolve_label_name(7), Some("Person".to_string()));
    assert_eq!(s.resolve_label_name(8), None);
    assert_eq!(s.resolve_rel_type_name(1), Some("LIKES".to_string()));
    assert_eq!(s.resolve_rel_type_name(5), None);
    assert_eq!(
        s.node_properties(0),
        Some(vec![("age".to_string(), api::PropertyValue::Int(42)), ("name".to_string(), api::PropertyValue::String("Ann".to_string()))])
    );
    assert_eq!(s.node_properties(1), None);
    assert_eq!(s.edge_properties(ak(0, 1, 1)), Some(vec![("since".to_string(), api::PropertyValue::Int(2020))]));
    assert_eq!(s.edge_properties(ak(0, 1, 3)), None);
}

use nervusdb::query::value::{PathValue, Row, Value};

#[test]
fn reify_reads_nodes_relationships_and_paths_from_the_snapshot() {
    let s = sample_snapshot();
    match Value::NodeId(0).reify(&s).unwrap() {
        Value::Node(n) => {
            assert_eq!(n.id, 0);
            assert_eq!(n.labels, vec!["Person".to_string()]);
            assert_eq!(n.properties.len(), 2);
            assert!(matches!(&n.properties[0], (k, Value::Int(42)) if k == "age"));
            assert!(matches!(&n.properties[1], (k, Value::String(v)) if k == "name" && v == "Ann"));
        },
        other => panic!("unexpected {other:?}"),
    }
    match Value::NodeId(2).reify(&s).unwrap() {
        Value::Node(n) => {
            assert!(n.labels.is_empty());
            assert!(n.properties.is_empty());
        },
        other => panic!("unexpected {other:?}"),
    }
    match Value::EdgeKey(ak(0, 1, 1)).reify(&s).unwrap() {
        Value::Relationship(r) => {
            assert_eq!(r.key, ak(0, 1, 1));
            assert_eq!(r.rel_type, "LIKES");
            assert!(matches!(&r.properties[..], [(k, Value::Int(2020))] if k == "since"));
        },
        other => panic!("unexpected {other:?}"),
    }
    match Value::EdgeKey(ak(1, 12, 0)).reify(&s).unwrap() {
        Value::Relationship(r) => {
            assert_eq!(r.rel_type, "<12>");
            assert!(r.properties.is_empty());
        },
        other => panic!("unexpected {other:?}"),
    }
    let path = Value::Path(PathValue { nodes: vec![0, 1], edges: vec![ak(0, 1, 1)] });
    match path.reify(&s).unwrap() {
        Value::ReifiedPath(p) => {
            assert_eq!(p.nodes.iter().map(|n| n.id).collect::<Vec<_>>(), vec![0, 1]);
            assert_eq!(p.relationships.len(), 1);
            assert_eq!(p.relationships[0].rel_type, "LIKES");
        },
        other => panic!("unexpected {other:?}"),
    }
    let nested = Value::List(vec![Value::Int(5), Value::Dict(vec![("who".to_string(), Value::NodeId(0))])]);
    match nested.reify(&s).unwrap() {
        Value::List(items) => {
            assert!(matches!(items[0], Value::Int(5)));
            assert!(matches!(&items[1], Value::Dict(e) if matches!(&e[0].1, Value::Node(n) if n.labels == vec!["Person".to_string()])));
        },
        other => panic!("unexpected {other:?}"),
    }
    let row = Row::new(vec![("n".to_string(), Value::NodeId(1)), ("x".to_string(), Value::Bool(true))]);
    let reified = row.reify(&s).unwrap();
    assert!(matches!(reified.get("n"), Some(Value::Node(n)) if n.id == 1 && n.labels.is_empty()));
    assert!(matches!(reified.get("x"), Some(Value::Bool(true))));
}

#[test]
fn reading_a_value_twice_changes_nothing() {
    let s = sample_snapshot();
    let v = Value::List(vec![
        Value::NodeId(0),
        Value::EdgeKey(ak(0, 1, 1)),
        Value::Path(PathValue { nodes: vec![2], edges: vec![] }),
        Value::Dict(vec![("k".to_string(), Value::NodeId(1))]),
    ]);
    let once = v.reify(&s).unwrap();
    let twice = once.reify(&s).unwrap();
    assert_eq!(format!("{once:?}"), format!("{twice:?}"));
}

use nervusdb::query::ast::NodePattern;
use nervusdb::query::evaluator::{evaluate_has_label, materialize_node_from_row_or_snapshot, resolve_node_binding};
use nervusdb::query::value::{NodeValue, RelationshipValue};

fn text(s: &str) -> Value {
    Value::String(s.to_string())
}

#[test]
fn label_tests_read_nodes_and_relationships() {
    let s = sample_snapshot();
    assert!(matches!(evaluate_has_label(&Value::NodeId(0), &text("Person"), &s), Value::Bool(true)));
    assert!(matches!(evaluate_has_label(&Value::NodeId(1), &text("Person"), &s), Value::Bool(false)));
    assert!(matches!(evaluate_has_label(&Value::NodeId(0), &text("Robot"), &s), Value::Bool(false)));
    let node = Value::Node(NodeValue { id: 9, labels: vec!["A".to_string()], properties: vec![] });
    assert!(matches!(evaluate_has_label(&node, &text("A"), &s), Value::Bool(true)));
    assert!(matches!(evaluate_has_label(&node, &text("B"), &s), Value::Bool(false)));
    assert!(matches!(evaluate_has_label(&Value::EdgeKey(ak(0, 1, 1)), &text("LIKES"), &s), Value::Bool(true)));
    assert!(matches!(evaluate_has_label(&Value::EdgeKey(ak(0, 1, 1)), &text("KNOWS"), &s), Value::Bool(false)));
    assert!(matches!(evaluate_has_label(&Value::EdgeKey(ak(0, 5, 1)), &text("LIKES"), &s), Value::Bool(false)));
    let rel = Value::Relationship(RelationshipValue { key: ak(0, 1, 1), rel_type: "LIKES".to_string(), properties: vec![] });
    assert!(matches!(evaluate_has_label(&rel, &text("LIKES"), &s), Value::Bool(true)));
    assert!(matches!(evaluate_has_label(&Value::Null, &text("A"), &s), Value::Null));
    assert!(matches!(evaluate_has_label(&Value::Int(1), &text("A"), &s), Value::Bool(false)));
    assert!(matches!(evaluate_has_label(&Value::Int(1), &Value::Null, &s), Value::Null));
    assert!(matches!(evaluate_has_label(&Value::Null, &Value::Int(2), &s), Value::Null));
    assert!(matches!(evaluate_has_label(&Value::NodeId(0), &Value::Int(2), &s), Value::Bool(false)));
}

#[test]
fn nodes_come_from_the_row_first_and_then_from_the_snapshot() {
    let s = sample_snapshot();
    let pattern = NodePattern { variable: Some("n".to_string()), labels: vec![], properties: None };
    let row = Row::new(vec![("m".to_string(), Value::Int(1)), ("n".to_string(), Value::NodeId(0))]);
    assert_eq!(resolve_node_binding(&pattern, &row), Some(0));
    assert_eq!(resolve_node_binding(&NodePattern { variable: None, labels: vec![], properties: None }, &row), None);
    assert!(matches!(materialize_node_from_row_or_snapshot(&row, &s, 0), Value::NodeId(0)));
    let empty = Row::new(vec![]);
    match materialize_node_from_row_or_snapshot(&empty, &s, 0) {
        Value::Node(n) => {
            assert_eq!(n.labels, vec!["Person".to_string()]);
            assert_eq!(n.properties.len(), 2);
        },
        other => panic!("unexpected {other:?}"),
    }
    assert!(matches!(materialize_node_from_row_or_snapshot(&empty, &s, 1), Value::NodeId(1)));
    assert!(matches!(materialize_node_from_row_or_snapshot(&empty, &s, 2), Value::NodeId(2)));
    let held = Row::new(vec![("x".to_string(), Value::Node(NodeValue { id: 1, labels: vec!["Kept".to_string()], properties: vec![] }))]);
    assert!(matches!(materialize_node_from_row_or_snapshot(&held, &s, 1), Value::Node(n) if n.labels == vec!["Kept".to_string()]));
}

use nervusdb::query::functions::evaluate_named_function;

fn fv_ints(v: &Value) -> Vec<i64> {
    match v {
        Value::List(items) => items
            .iter()
            .map(|x| match x {
                Value::Int(i) => *i,
                other => panic!("not an integer: {other:?}"),
            })
            .collect(),
        other => panic!("not a list: {other:?}"),
    }
}

fn fv_call(name: &str, args: Vec<Value>) -> Option<Value> {
    evaluate_named_function(name, &args, &Row::new(vec![]), &sample_snapshot())
}

fn fv_list(v: &[i64]) -> Value {
    Value::List(v.iter().map(|i| Value::Int(*i)).collect())
}

fn fv_text(v: &Value) -> String {
    match v {
        Value::String(s) => s.clone(),
        other => panic!("not a string: {other:?}"),
    }
}

#[test]
fn list_functions_take_and_count_elements() {
    assert!(matches!(fv_call("head", vec![fv_list(&[4, 5, 6])]), Some(Value::Int(4))));
    assert!(matches!(fv_call("HEAD", vec![fv_list(&[])]), Some(Value::Null)));
    assert!(matches!(fv_call("last", vec![fv_list(&[4, 5, 6])]), Some(Value::Int(6))));
    assert_eq!(fv_ints(&fv_call("tail", vec![fv_list(&[4, 5, 6])]).unwrap()), vec![5, 6]);
    assert_eq!(fv_ints(&fv_call("tail", vec![fv_list(&[4])]).unwrap()), Vec::<i64>::new());
    assert!(matches!(fv_call("tail", vec![Value::Int(1)]), Some(Value::Null)));
    assert!(matches!(fv_call("size", vec![fv_list(&[1, 2, 3])]), Some(Value::Int(3))));
    assert!(matches!(fv_call("size", vec![Value::String("héllo".to_string())]), Some(Value::Int(5))));
    assert!(matches!(fv_call("size", vec![Value::Null]), Some(Value::Null)));
    assert!(matches!(fv_call("coalesce", vec![Value::Null, Value::Int(2), Value::Int(3)]), Some(Value::Int(2))));
    assert!(matches!(fv_call("coalesce", vec![Value::Null]), Some(Value::Null)));
    assert_eq!(fv_ints(&fv_call("reverse", vec![fv_list(&[1, 2, 3])]).unwrap()), vec![3, 2, 1]);
    assert_eq!(fv_text(&fv_call("reverse", vec![Value::String("abc".to_string())]).unwrap()), "cba");
    assert!(fv_call("sqrt", vec![Value::Int(4)]).is_none());
    assert!(fv_call("date", vec![Value::String("2020-01-01".to_string())]).is_none());
}

#[test]
fn range_counts_by_its_step_and_stops_at_the_end() {
    assert_eq!(fv_ints(&fv_call("range", vec![Value::Int(1), Value::Int(4)]).unwrap()), vec![1, 2, 3, 4]);
    assert_eq!(fv_ints(&fv_call("range", vec![Value::Int(3), Value::Int(0)]).unwrap()), vec![3, 2, 1, 0]);
    assert_eq!(fv_ints(&fv_call("range", vec![Value::Int(0), Value::Int(10), Value::Int(4)]).unwrap()), vec![0, 4, 8]);
    assert_eq!(fv_ints(&fv_call("range", vec![Value::Int(0), Value::Int(5), Value::Int(-1)]).unwrap()), Vec::<i64>::new());
    assert!(matches!(fv_call("range", vec![Value::Int(0), Value::Int(5), Value::Int(0)]), Some(Value::Null)));
    assert!(matches!(fv_call("range", vec![Value::Int(0)]), Some(Value::Null)));
    let top = i64::MAX - 1;
    assert_eq!(fv_ints(&fv_call("range", vec![Value::Int(top), Value::Int(i64::MAX), Value::Int(5)]).unwrap()), vec![top]);
}

#[test]
fn slices_count_negative_bounds_from_the_end() {
    let l = || fv_list(&[10, 20, 30, 40]);
    assert_eq!(fv_ints(&fv_call("__slice", vec![l(), Value::Int(1), Value::Int(3)]).unwrap()), vec![20, 30]);
    assert_eq!(fv_ints(&fv_call("__slice", vec![l(), Value::Int(-2), Value::Null]).unwrap()), vec![30, 40]);
    assert_eq!(fv_ints(&fv_call("__slice", vec![l(), Value::Null, Value::Int(-3)]).unwrap()), vec![10]);
    assert_eq!(fv_ints(&fv_call("__slice", vec![l(), Value::Int(3), Value::Int(1)]).unwrap()), Vec::<i64>::new());
    assert_eq!(fv_ints(&fv_call("__slice", vec![l(), Value::Int(-10), Value::Int(10)]).unwrap()), vec![10, 20, 30, 40]);
    let s = Value::String("hello".to_string());
    assert_eq!(fv_text(&fv_call("__slice", vec![s, Value::Int(1), Value::Int(-1)]).unwrap()), "ell");
}

#[test]
fn paths_keys_and_properties() {
    let p = || Value::Path(PathValue { nodes: vec![0, 1, 2], edges: vec![ak(0, 1, 1), ak(1, 1, 2)] });
    assert!(matches!(fv_call("length", vec![p()]), Some(Value::Int(2))));
    match fv_call("nodes", vec![p()]).unwrap() {
        Value::List(items) => assert!(matches!(&items[..], [Value::NodeId(0), Value::NodeId(1), Value::NodeId(2)])),
        other => panic!("unexpected {other:?}"),
    }
    match fv_call("relationships", vec![p()]).unwrap() {
        Value::List(items) => assert_eq!(items.len(), 2),
        other => panic!("unexpected {other:?}"),
    }
    match fv_call("keys", vec![Value::NodeId(0)]).unwrap() {
        Value::List(items) => assert_eq!(items.iter().map(fv_text).collect::<Vec<_>>(), vec!["age", "name"]),
        other => panic!("unexpected {other:?}"),
    }
    match fv_call("keys", vec![Value::NodeId(1)]).unwrap() {
        Value::List(items) => assert!(items.is_empty()),
        other => panic!("unexpected {other:?}"),
    }
    match fv_call("properties", vec![Value::EdgeKey(ak(0, 1, 1))]).unwrap() {
        Value::Dict(entries) => assert!(matches!(&entries[..], [(k, Value::Int(2020))] if k == "since")),
        other => panic!("unexpected {other:?}"),
    }
    assert!(matches!(fv_call("properties", vec![Value::NodeId(1)]), Some(Value::Null)));
    let d = Value::Dict(vec![("a".to_string(), Value::Int(1))]);
    match fv_call("keys", vec![d]).unwrap() {
        Value::List(items) => assert_eq!(items.iter().map(fv_text).collect::<Vec<_>>(), vec!["a"]),
        other => panic!("unexpected {other:?}"),
    }
}

#[test]
fn graph_and_string_functions() {
    match fv_call("labels", vec![Value::NodeId(0)]).unwrap() {
        Value::List(items) => assert_eq!(items.iter().map(fv_text).collect::<Vec<_>>(), vec!["Person"]),
        other => panic!("unexpected {other:?}"),
    }
    assert!(matches!(fv_call("labels", vec![Value::NodeId(9)]), Some(Value::Null)));
    assert_eq!(fv_text(&fv_call("type", vec![Value::EdgeKey(ak(0, 1, 1))]).unwrap()), "LIKES");
    assert_eq!(fv_text(&fv_call("type", vec![Value::EdgeKey(ak(0, 7, 1))]).unwrap()), "<7>");
    assert!(matches!(fv_call("id", vec![Value::NodeId(2)]), Some(Value::Int(2))));
    assert!(matches!(fv_call("id", vec![Value::EdgeKey(ak(1, 0, 2))]), Some(Value::Int(1))));
    match fv_call("startNode", vec![Value::EdgeKey(ak(0, 1, 1))]).unwrap() {
        Value::Node(n) => assert_eq!(n.id, 0),
        other => panic!("unexpected {other:?}"),
    }
    assert!(matches!(fv_call("endnode", vec![Value::EdgeKey(ak(0, 1, 2))]), Some(Value::NodeId(2))));
    let s = |t: &str| Value::String(t.to_string());
    assert_eq!(fv_text(&fv_call("trim", vec![s("  a b \t")]).unwrap()), "a b");
    assert_eq!(fv_text(&fv_call("ltrim", vec![s("  a b \t")]).unwrap()), "a b \t");
    assert_eq!(fv_text(&fv_call("rtrim", vec![s("  a b \t")]).unwrap()), "  a b");
    assert_eq!(fv_text(&fv_call("trim", vec![s("   ")]).unwrap()), "");
    assert_eq!(fv_text(&fv_call("toLower", vec![s("ÀbC")]).unwrap()), "àbc");
    assert_eq!(fv_text(&fv_call("TOUPPER", vec![s("straße")]).unwrap()), "STRASSE");
    assert!(matches!(fv_call("trim", vec![Value::Int(3)]), Some(Value::Null)));
}

#[test]
fn reversing_twice_and_counting_up() {
    let once = fv_call("reverse", vec![fv_list(&[1, 2, 3])]).unwrap();
    assert_eq!(fv_ints(&fv_call("reverse", vec![once]).unwrap()), vec![1, 2, 3]);
    let once = fv_call("reverse", vec![Value::String("héllo".to_string())]).unwrap();
    assert_eq!(fv_text(&fv_call("reverse", vec![once]).unwrap()), "héllo");
    let r = fv_ints(&fv_call("range", vec![Value::Int(-2), Value::Int(3)]).unwrap());
    assert_eq!(r.len(), 6);
    for (i, x) in r.iter().enumerate() {
        assert_eq!(*x, -2 + i as i64);
    }
}
