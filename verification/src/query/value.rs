//! Runtime values of the query engine, result rows and query parameters.
use crate::storage::api;
use crate::query::error::Result;
use crate::storage::api::{
    api_dict_view, api_list_view, keys_ordered, prop_dict_keyed, prop_keyed, prop_list_keyed, prop_map_keyed, EdgeKey,
    ExternalId, GraphSnapshot, InternalNodeId, LabelId, PropView, RelTypeId,
};
use crate::text::{decimal, push_decimal, seq_less};
use vstd::prelude::*;

verus! {

/// A node with its labels and properties.
#[derive(Debug, Hash)]
pub struct NodeValue {
    pub id: InternalNodeId,
    pub labels: Vec<String>,
    pub properties: Vec<(String, Value)>,
}

/// A relationship with its type name and properties.
#[derive(Debug, Hash)]
pub struct RelationshipValue {
    pub key: EdgeKey,
    pub rel_type: String,
    pub properties: Vec<(String, Value)>,
}

/// A path as node ids and edge keys.
#[derive(Debug, Hash)]
pub struct PathValue {
    pub nodes: Vec<InternalNodeId>,
    pub edges: Vec<EdgeKey>,
}

/// A path whose nodes and relationships carry their labels and properties.
#[derive(Debug, Hash)]
pub struct ReifiedPathValue {
    pub nodes: Vec<NodeValue>,
    pub relationships: Vec<RelationshipValue>,
}

/// A runtime value; a float is carried by its IEEE-754 bit pattern and a map keeps its
/// entries in key order.
#[derive(Debug, Hash)]
pub enum Value {
    NodeId(InternalNodeId),
    ExternalId(ExternalId),
    EdgeKey(EdgeKey),
    Int(i64),
    Float(u64),
    String(String),
    Bool(bool),
    Null,
    List(Vec<Value>),
    DateTime(i64),
    Blob(Vec<u8>),
    Dict(Vec<(String, Value)>),
    Path(PathValue),
    Node(NodeValue),
    Relationship(RelationshipValue),
    ReifiedPath(ReifiedPathValue),
}

/// The mathematical form of a value.
pub enum ValueView {
    NodeId(InternalNodeId),
    ExternalId(ExternalId),
    EdgeKey(EdgeKey),
    Int(i64),
    Float(u64),
    String(Seq<char>),
    Bool(bool),
    Null,
    List(Seq<ValueView>),
    DateTime(i64),
    Blob(Seq<u8>),
    Dict(Seq<(Seq<char>, ValueView)>),
    Path(Seq<InternalNodeId>, Seq<EdgeKey>),
    Node(NodeView),
    Relationship(RelationshipView),
    ReifiedPath(Seq<NodeView>, Seq<RelationshipView>),
}

pub struct NodeView {
    pub id: InternalNodeId,
    pub labels: Seq<Seq<char>>,
    pub properties: Seq<(Seq<char>, ValueView)>,
}

pub struct RelationshipView {
    pub key: EdgeKey,
    pub rel_type: Seq<char>,
    pub properties: Seq<(Seq<char>, ValueView)>,
}

pub open spec fn labels_view(s: Seq<String>) -> Seq<Seq<char>> {
    s.map_values(|l: String| l@)
}

pub open spec fn value_view(v: Value) -> ValueView
    decreases v,
{
    match v {
        Value::NodeId(i) => ValueView::NodeId(i),
        Value::ExternalId(i) => ValueView::ExternalId(i),
        Value::EdgeKey(k) => ValueView::EdgeKey(k),
        Value::Int(i) => ValueView::Int(i),
        Value::Float(f) => ValueView::Float(f),
        Value::String(s) => ValueView::String(s@),
        Value::Bool(b) => ValueView::Bool(b),
        Value::Null => ValueView::Null,
        Value::List(items) => ValueView::List(value_list_view(items@)),
        Value::DateTime(t) => ValueView::DateTime(t),
        Value::Blob(b) => ValueView::Blob(b@),
        Value::Dict(entries) => ValueView::Dict(value_dict_view(entries@)),
        Value::Path(p) => ValueView::Path(p.nodes@, p.edges@),
        Value::Node(n) => ValueView::Node(node_view(n)),
        Value::Relationship(r) => ValueView::Relationship(relationship_view(r)),
        Value::ReifiedPath(p) => ValueView::ReifiedPath(node_list_view(p.nodes@), relationship_list_view(p.relationships@)),
    }
}

pub open spec fn node_view(n: NodeValue) -> NodeView
    decreases n,
{
    NodeView { id: n.id, labels: labels_view(n.labels@), properties: value_dict_view(n.properties@) }
}

pub open spec fn relationship_view(r: RelationshipValue) -> RelationshipView
    decreases r,
{
    RelationshipView { key: r.key, rel_type: r.rel_type@, properties: value_dict_view(r.properties@) }
}

pub open spec fn value_list_view(s: Seq<Value>) -> Seq<ValueView>
    decreases s,
{
    if s.len() == 0 {
        Seq::empty()
    } else {
        seq![value_view(s[0])] + value_list_view(s.drop_first())
    }
}

pub open spec fn value_dict_view(s: Seq<(String, Value)>) -> Seq<(Seq<char>, ValueView)>
    decreases s,
{
    if s.len() == 0 {
        Seq::empty()
    } else {
        seq![(s[0].0@, value_view(s[0].1))] + value_dict_view(s.drop_first())
    }
}

pub open spec fn node_list_view(s: Seq<NodeValue>) -> Seq<NodeView>
    decreases s,
{
    if s.len() == 0 {
        Seq::empty()
    } else {
        seq![node_view(s[0])] + node_list_view(s.drop_first())
    }
}

pub open spec fn relationship_list_view(s: Seq<RelationshipValue>) -> Seq<RelationshipView>
    decreases s,
{
    if s.len() == 0 {
        Seq::empty()
    } else {
        seq![relationship_view(s[0])] + relationship_list_view(s.drop_first())
    }
}

impl View for Value {
    type V = ValueView;

    open spec fn view(&self) -> ValueView {
        value_view(*self)
    }
}

/// The runtime value of a property value of the graph API.
pub open spec fn prop_to_value(p: PropView) -> ValueView
    decreases p,
{
    match p {
        PropView::Null => ValueView::Null,
        PropView::Bool(b) => ValueView::Bool(b),
        PropView::Int(i) => ValueView::Int(i),
        PropView::Float(f) => ValueView::Float(f),
        PropView::String(s) => ValueView::String(s),
        PropView::DateTime(t) => ValueView::DateTime(t),
        PropView::Blob(b) => ValueView::Blob(b),
        PropView::List(items) => ValueView::List(prop_list_to_value(items)),
        PropView::Dict(entries) => ValueView::Dict(prop_dict_to_value(entries)),
    }
}

pub open spec fn prop_list_to_value(s: Seq<PropView>) -> Seq<ValueView>
    decreases s,
{
    if s.len() == 0 {
        Seq::empty()
    } else {
        seq![prop_to_value(s[0])] + prop_list_to_value(s.drop_first())
    }
}

pub open spec fn prop_dict_to_value(s: Seq<(Seq<char>, PropView)>) -> Seq<(Seq<char>, ValueView)>
    decreases s,
{
    if s.len() == 0 {
        Seq::empty()
    } else {
        seq![(s[0].0, prop_to_value(s[0].1))] + prop_dict_to_value(s.drop_first())
    }
}

/// Every map in the value, at any depth (the properties of nodes and relationships
/// included), has its keys in order: sorted and distinct.
pub open spec fn value_keyed(v: ValueView) -> bool
    decreases v,
{
    match v {
        ValueView::List(items) => value_list_keyed(items),
        ValueView::Dict(entries) => keys_ordered(entries) && value_dict_keyed(entries),
        ValueView::Node(n) => keys_ordered(n.properties) && value_dict_keyed(n.properties),
        ValueView::Relationship(r) => keys_ordered(r.properties) && value_dict_keyed(r.properties),
        ValueView::ReifiedPath(nodes, rels) => node_list_keyed(nodes) && rel_list_keyed(rels),
        _ => true,
    }
}

pub open spec fn value_list_keyed(s: Seq<ValueView>) -> bool
    decreases s,
{
    s.len() == 0 || (value_keyed(s[0]) && value_list_keyed(s.drop_first()))
}

pub open spec fn value_dict_keyed(s: Seq<(Seq<char>, ValueView)>) -> bool
    decreases s,
{
    s.len() == 0 || (value_keyed(s[0].1) && value_dict_keyed(s.drop_first()))
}

pub open spec fn node_list_keyed(s: Seq<NodeView>) -> bool
    decreases s,
{
    s.len() == 0 || (keys_ordered(s[0].properties) && value_dict_keyed(s[0].properties) && node_list_keyed(s.drop_first()))
}

pub open spec fn rel_list_keyed(s: Seq<RelationshipView>) -> bool
    decreases s,
{
    s.len() == 0 || (keys_ordered(s[0].properties) && value_dict_keyed(s[0].properties) && rel_list_keyed(s.drop_first()))
}

proof fn lemma_prop_dict_keys(s: Seq<(Seq<char>, PropView)>)
    ensures
        prop_dict_to_value(s).len() == s.len(),
        forall|i: int| 0 <= i < s.len() ==> (#[trigger] prop_dict_to_value(s)[i]).0 == s[i].0,
    decreases s.len(),
{
    if s.len() > 0 {
        lemma_prop_dict_keys(s.drop_first());
        let r = prop_dict_to_value(s);
        assert forall|i: int| 0 <= i < s.len() implies (#[trigger] r[i]).0 == s[i].0 by {
            if i > 0 {
                assert(r[i] == prop_dict_to_value(s.drop_first())[i - 1]);
                assert(s.drop_first()[i - 1] == s[i]);
            }
        }
    }
}

proof fn lemma_keys_ordered_same_keys<V, W>(a: Seq<(Seq<char>, V)>, b: Seq<(Seq<char>, W)>)
    requires
        keys_ordered(a),
        a.len() == b.len(),
        forall|i: int| 0 <= i < a.len() ==> a[i].0 == b[i].0,
    ensures
        keys_ordered(b),
{
    assert forall|i: int, j: int| 0 <= i < j < b.len() implies seq_less(#[trigger] b[i].0, #[trigger] b[j].0) by {
        assert(seq_less(a[i].0, a[j].0));
    }
}

proof fn lemma_prop_keyed_value(p: PropView)
    requires
        prop_keyed(p),
    ensures
        value_keyed(prop_to_value(p)),
    decreases p,
{
    match p {
        PropView::List(items) => lemma_prop_list_keyed_value(items),
        PropView::Dict(entries) => {
            lemma_prop_dict_keyed_value(entries);
            lemma_prop_dict_keys(entries);
            lemma_keys_ordered_same_keys(entries, prop_dict_to_value(entries));
        },
        _ => {},
    }
}

proof fn lemma_prop_list_keyed_value(s: Seq<PropView>)
    requires
        prop_list_keyed(s),
    ensures
        value_list_keyed(prop_list_to_value(s)),
    decreases s,
{
    if s.len() > 0 {
        lemma_prop_keyed_value(s[0]);
        lemma_prop_list_keyed_value(s.drop_first());
        let r = prop_list_to_value(s);
        assert(r[0] == prop_to_value(s[0]));
        assert(r.drop_first() =~= prop_list_to_value(s.drop_first()));
    }
}

proof fn lemma_prop_dict_keyed_value(s: Seq<(Seq<char>, PropView)>)
    requires
        prop_dict_keyed(s),
    ensures
        value_dict_keyed(prop_dict_to_value(s)),
    decreases s,
{
    if s.len() > 0 {
        lemma_prop_keyed_value(s[0].1);
        lemma_prop_dict_keyed_value(s.drop_first());
        let r = prop_dict_to_value(s);
        assert(r[0] == (s[0].0, prop_to_value(s[0].1)));
        assert(r.drop_first() =~= prop_dict_to_value(s.drop_first()));
    }
}

/// A property map read as values keeps its keys, so its key order too.
proof fn lemma_prop_map_keyed_value(s: Seq<(Seq<char>, PropView)>)
    requires
        prop_map_keyed(s),
    ensures
        keys_ordered(prop_dict_to_value(s)),
        value_dict_keyed(prop_dict_to_value(s)),
{
    lemma_prop_dict_keyed_value(s);
    lemma_prop_dict_keys(s);
    lemma_keys_ordered_same_keys(s, prop_dict_to_value(s));
}

proof fn lemma_value_list_push(s: Seq<Value>, x: Value)
    ensures
        value_list_view(s.push(x)) == value_list_view(s) + seq![value_view(x)],
    decreases s.len(),
{
    if s.len() == 0 {
        assert(s.push(x).drop_first() =~= Seq::<Value>::empty());
        assert(value_list_view(s.push(x).drop_first()) =~= Seq::<ValueView>::empty());
        assert(value_list_view(s) =~= Seq::<ValueView>::empty());
        assert(s.push(x)[0] == x);
    } else {
        assert(s.push(x).drop_first() =~= s.drop_first().push(x));
        lemma_value_list_push(s.drop_first(), x);
        assert(s.push(x)[0] == s[0]);
    }
    assert(value_list_view(s.push(x)) =~= value_list_view(s) + seq![value_view(x)]);
}

proof fn lemma_value_dict_push(s: Seq<(String, Value)>, x: (String, Value))
    ensures
        value_dict_view(s.push(x)) == value_dict_view(s) + seq![(x.0@, value_view(x.1))],
    decreases s.len(),
{
    if s.len() == 0 {
        assert(s.push(x).drop_first() =~= Seq::<(String, Value)>::empty());
        assert(value_dict_view(s.push(x).drop_first()) =~= Seq::<(Seq<char>, ValueView)>::empty());
        assert(value_dict_view(s) =~= Seq::<(Seq<char>, ValueView)>::empty());
        assert(s.push(x)[0] == x);
    } else {
        assert(s.push(x).drop_first() =~= s.drop_first().push(x));
        lemma_value_dict_push(s.drop_first(), x);
        assert(s.push(x)[0] == s[0]);
    }
    assert(value_dict_view(s.push(x)) =~= value_dict_view(s) + seq![(x.0@, value_view(x.1))]);
}

proof fn lemma_node_list_push(s: Seq<NodeValue>, x: NodeValue)
    ensures
        node_list_view(s.push(x)) == node_list_view(s) + seq![node_view(x)],
    decreases s.len(),
{
    if s.len() == 0 {
        assert(s.push(x).drop_first() =~= Seq::<NodeValue>::empty());
        assert(node_list_view(s.push(x).drop_first()) =~= Seq::<NodeView>::empty());
        assert(node_list_view(s) =~= Seq::<NodeView>::empty());
        assert(s.push(x)[0] == x);
    } else {
        assert(s.push(x).drop_first() =~= s.drop_first().push(x));
        lemma_node_list_push(s.drop_first(), x);
        assert(s.push(x)[0] == s[0]);
    }
    assert(node_list_view(s.push(x)) =~= node_list_view(s) + seq![node_view(x)]);
}

proof fn lemma_relationship_list_push(s: Seq<RelationshipValue>, x: RelationshipValue)
    ensures
        relationship_list_view(s.push(x)) == relationship_list_view(s) + seq![relationship_view(x)],
    decreases s.len(),
{
    if s.len() == 0 {
        assert(s.push(x).drop_first() =~= Seq::<RelationshipValue>::empty());
        assert(relationship_list_view(s.push(x).drop_first()) =~= Seq::<RelationshipView>::empty());
        assert(relationship_list_view(s) =~= Seq::<RelationshipView>::empty());
        assert(s.push(x)[0] == x);
    } else {
        assert(s.push(x).drop_first() =~= s.drop_first().push(x));
        lemma_relationship_list_push(s.drop_first(), x);
        assert(s.push(x)[0] == s[0]);
    }
    assert(relationship_list_view(s.push(x)) =~= relationship_list_view(s) + seq![relationship_view(x)]);
}

fn copy_value_list(v: &Vec<Value>) -> (r: Vec<Value>)
    ensures
        value_list_view(r@) == value_list_view(v@),
    decreases v,
{
    let mut out: Vec<Value> = Vec::new();
    proof {
        assert(v@.subrange(0, v@.len() as int) =~= v@);
        assert(value_list_view(out@) + value_list_view(v@) =~= value_list_view(v@));
    }
    let mut i: usize = 0;
    while i < v.len()
        invariant
            i <= v.len(),
            value_list_view(v@) == value_list_view(out@) + value_list_view(v@.subrange(i as int, v@.len() as int)),
        decreases v.len() - i,
    {
        proof {
            assert(v@.subrange(i as int, v@.len() as int).drop_first() =~= v@.subrange(i + 1, v@.len() as int));
            assert(v@.subrange(i as int, v@.len() as int)[0] == v@[i as int]);
        }
        let c = copy_value(&v[i]);
        let ghost before = out@;
        out.push(c);
        proof {
            lemma_value_list_push(before, c);
        }
        i = i + 1;
    }
    proof {
        assert(v@.subrange(i as int, v@.len() as int).len() == 0);
    }
    out
}

pub(crate) fn copy_value_dict(v: &Vec<(String, Value)>) -> (r: Vec<(String, Value)>)
    ensures
        value_dict_view(r@) == value_dict_view(v@),
    decreases v,
{
    let mut out: Vec<(String, Value)> = Vec::new();
    proof {
        assert(v@.subrange(0, v@.len() as int) =~= v@);
        assert(value_dict_view(out@) + value_dict_view(v@) =~= value_dict_view(v@));
    }
    let mut i: usize = 0;
    while i < v.len()
        invariant
            i <= v.len(),
            value_dict_view(v@) == value_dict_view(out@) + value_dict_view(v@.subrange(i as int, v@.len() as int)),
        decreases v.len() - i,
    {
        proof {
            assert(v@.subrange(i as int, v@.len() as int).drop_first() =~= v@.subrange(i + 1, v@.len() as int));
            assert(v@.subrange(i as int, v@.len() as int)[0] == v@[i as int]);
        }
        let c = (v[i].0.clone(), copy_value(&v[i].1));
        let ghost before = out@;
        out.push(c);
        proof {
            lemma_value_dict_push(before, c);
        }
        i = i + 1;
    }
    proof {
        assert(v@.subrange(i as int, v@.len() as int).len() == 0);
    }
    out
}

fn copy_node_list(v: &Vec<NodeValue>) -> (r: Vec<NodeValue>)
    ensures
        node_list_view(r@) == node_list_view(v@),
    decreases v,
{
    let mut out: Vec<NodeValue> = Vec::new();
    proof {
        assert(v@.subrange(0, v@.len() as int) =~= v@);
        assert(node_list_view(out@) + node_list_view(v@) =~= node_list_view(v@));
    }
    let mut i: usize = 0;
    while i < v.len()
        invariant
            i <= v.len(),
            node_list_view(v@) == node_list_view(out@) + node_list_view(v@.subrange(i as int, v@.len() as int)),
        decreases v.len() - i,
    {
        proof {
            assert(v@.subrange(i as int, v@.len() as int).drop_first() =~= v@.subrange(i + 1, v@.len() as int));
            assert(v@.subrange(i as int, v@.len() as int)[0] == v@[i as int]);
        }
        let c = copy_node(&v[i]);
        let ghost before = out@;
        out.push(c);
        proof {
            lemma_node_list_push(before, c);
        }
        i = i + 1;
    }
    proof {
        assert(v@.subrange(i as int, v@.len() as int).len() == 0);
    }
    out
}

fn copy_relationship_list(v: &Vec<RelationshipValue>) -> (r: Vec<RelationshipValue>)
    ensures
        relationship_list_view(r@) == relationship_list_view(v@),
    decreases v,
{
    let mut out: Vec<RelationshipValue> = Vec::new();
    proof {
        assert(v@.subrange(0, v@.len() as int) =~= v@);
        assert(relationship_list_view(out@) + relationship_list_view(v@) =~= relationship_list_view(v@));
    }
    let mut i: usize = 0;
    while i < v.len()
        invariant
            i <= v.len(),
            relationship_list_view(v@) == relationship_list_view(out@) + relationship_list_view(v@.subrange(i as int, v@.len() as int)),
        decreases v.len() - i,
    {
        proof {
            assert(v@.subrange(i as int, v@.len() as int).drop_first() =~= v@.subrange(i + 1, v@.len() as int));
            assert(v@.subrange(i as int, v@.len() as int)[0] == v@[i as int]);
        }
        let c = copy_relationship(&v[i]);
        let ghost before = out@;
        out.push(c);
        proof {
            lemma_relationship_list_push(before, c);
        }
        i = i + 1;
    }
    proof {
        assert(v@.subrange(i as int, v@.len() as int).len() == 0);
    }
    out
}

/// A vector with the same elements (for element types whose copies are equal).
fn copy_vec<T: Copy>(v: &Vec<T>) -> (r: Vec<T>)
    ensures
        r@ == v@,
{
    let mut out: Vec<T> = Vec::new();
    let mut i: usize = 0;
    while i < v.len()
        invariant
            i <= v.len(),
            out@ == v@.subrange(0, i as int),
        decreases v.len() - i,
    {
        out.push(v[i]);
        i = i + 1;
    }
    proof {
        assert(out@ =~= v@);
    }
    out
}

fn copy_strings(v: &Vec<String>) -> (r: Vec<String>)
    ensures
        r@ == v@,
{
    let mut out: Vec<String> = Vec::new();
    let mut i: usize = 0;
    while i < v.len()
        invariant
            i <= v.len(),
            out@ == v@.subrange(0, i as int),
        decreases v.len() - i,
    {
        out.push(v[i].clone());
        i = i + 1;
    }
    proof {
        assert(out@ =~= v@);
    }
    out
}

fn copy_node(n: &NodeValue) -> (r: NodeValue)
    ensures
        node_view(r) == node_view(*n),
    decreases n,
{
    NodeValue { id: n.id, labels: copy_strings(&n.labels), properties: copy_value_dict(&n.properties) }
}

fn copy_relationship(rel: &RelationshipValue) -> (r: RelationshipValue)
    ensures
        relationship_view(r) == relationship_view(*rel),
    decreases rel,
{
    RelationshipValue { key: rel.key, rel_type: rel.rel_type.clone(), properties: copy_value_dict(&rel.properties) }
}

/// A deep copy of a value.
pub fn copy_value(v: &Value) -> (r: Value)
    ensures
        r@ == v@,
    decreases v,
{
    match v {
        Value::NodeId(i) => Value::NodeId(*i),
        Value::ExternalId(i) => Value::ExternalId(*i),
        Value::EdgeKey(k) => Value::EdgeKey(*k),
        Value::Int(i) => Value::Int(*i),
        Value::Float(f) => Value::Float(*f),
        Value::String(s) => Value::String(s.clone()),
        Value::Bool(b) => Value::Bool(*b),
        Value::Null => Value::Null,
        Value::List(items) => Value::List(copy_value_list(items)),
        Value::DateTime(t) => Value::DateTime(*t),
        Value::Blob(b) => Value::Blob(copy_vec(b)),
        Value::Dict(entries) => Value::Dict(copy_value_dict(entries)),
        Value::Path(p) => Value::Path(PathValue { nodes: copy_vec(&p.nodes), edges: copy_vec(&p.edges) }),
        Value::Node(n) => Value::Node(copy_node(n)),
        Value::Relationship(r) => Value::Relationship(copy_relationship(r)),
        Value::ReifiedPath(p) => Value::ReifiedPath(
            ReifiedPathValue { nodes: copy_node_list(&p.nodes), relationships: copy_relationship_list(&p.relationships) },
        ),
    }
}

fn api_list_to_values(items: &Vec<api::PropertyValue>) -> (r: Vec<Value>)
    ensures
        value_list_view(r@) == prop_list_to_value(api_list_view(items@)),
    decreases items,
{
    let mut out: Vec<Value> = Vec::new();
    proof {
        assert(items@.subrange(0, items@.len() as int) =~= items@);
        assert(value_list_view(out@) + prop_list_to_value(api_list_view(items@)) =~= prop_list_to_value(api_list_view(items@)));
    }
    let mut i: usize = 0;
    while i < items.len()
        invariant
            i <= items.len(),
            prop_list_to_value(api_list_view(items@)) == value_list_view(out@)
                + prop_list_to_value(api_list_view(items@.subrange(i as int, items@.len() as int))),
        decreases items.len() - i,
    {
        proof {
            let rest = items@.subrange(i as int, items@.len() as int);
            assert(rest.drop_first() =~= items@.subrange(i + 1, items@.len() as int));
            assert(rest[0] == items@[i as int]);
            assert(api_list_view(rest).drop_first() =~= api_list_view(rest.drop_first()));
            assert(api_list_view(rest)[0] == api::api_prop_view(rest[0]));
        }
        let c = convert_api_property_to_value(&items[i]);
        let ghost before = out@;
        out.push(c);
        proof {
            lemma_value_list_push(before, c);
        }
        i = i + 1;
    }
    proof {
        assert(items@.subrange(i as int, items@.len() as int).len() == 0);
        assert(api_list_view(items@.subrange(i as int, items@.len() as int)) =~= Seq::<PropView>::empty());
    }
    out
}

pub(crate) fn api_dict_to_values(entries: &Vec<(String, api::PropertyValue)>) -> (r: Vec<(String, Value)>)
    ensures
        value_dict_view(r@) == prop_dict_to_value(api_dict_view(entries@)),
    decreases entries,
{
    let mut out: Vec<(String, Value)> = Vec::new();
    proof {
        assert(entries@.subrange(0, entries@.len() as int) =~= entries@);
        assert(value_dict_view(out@) + prop_dict_to_value(api_dict_view(entries@)) =~= prop_dict_to_value(api_dict_view(entries@)));
    }
    let mut i: usize = 0;
    while i < entries.len()
        invariant
            i <= entries.len(),
            prop_dict_to_value(api_dict_view(entries@)) == value_dict_view(out@)
                + prop_dict_to_value(api_dict_view(entries@.subrange(i as int, entries@.len() as int))),
        decreases entries.len() - i,
    {
        proof {
            let rest = entries@.subrange(i as int, entries@.len() as int);
            assert(rest.drop_first() =~= entries@.subrange(i + 1, entries@.len() as int));
            assert(rest[0] == entries@[i as int]);
            assert(api_dict_view(rest).drop_first() =~= api_dict_view(rest.drop_first()));
            assert(api_dict_view(rest)[0] == (rest[0].0@, api::api_prop_view(rest[0].1)));
        }
        let c = (entries[i].0.clone(), convert_api_property_to_value(&entries[i].1));
        let ghost before = out@;
        out.push(c);
        proof {
            lemma_value_dict_push(before, c);
        }
        i = i + 1;
    }
    proof {
        assert(entries@.subrange(i as int, entries@.len() as int).len() == 0);
        assert(api_dict_view(entries@.subrange(i as int, entries@.len() as int)) =~= Seq::<(Seq<char>, PropView)>::empty());
    }
    out
}

/// The runtime value of a property value of the graph API.
pub fn convert_api_property_to_value(api_value: &api::PropertyValue) -> (r: Value)
    ensures
        r@ == prop_to_value(api_value@),
        prop_keyed(api_value@) ==> value_keyed(r@),
    decreases api_value,
{
    proof {
        if prop_keyed(api_value@) {
            lemma_prop_keyed_value(api_value@);
        }
    }
    match api_value {
        api::PropertyValue::Null => Value::Null,
        api::PropertyValue::Bool(b) => Value::Bool(*b),
        api::PropertyValue::Int(i) => Value::Int(*i),
        api::PropertyValue::Float(f) => Value::Float(*f),
        api::PropertyValue::String(s) => Value::String(s.clone()),
        api::PropertyValue::DateTime(i) => Value::DateTime(*i),
        api::PropertyValue::Blob(b) => Value::Blob(copy_vec(b)),
        api::PropertyValue::List(l) => Value::List(api_list_to_values(l)),
        api::PropertyValue::Dict(m) => Value::Dict(api_dict_to_values(m)),
    }
}

impl Value {
    /// The string, when the value is a string.
    pub fn as_string(&self) -> (r: Option<&str>)
        ensures
            match *self {
                Value::String(s) => r is Some && r->0@ == s@,
                _ => r is None,
            },
    {
        match self {
            Value::String(s) => Some(s.as_str()),
            _ => None,
        }
    }
}

// ---------------------------------------------------------------------------------------
// Reading node ids, edge keys and paths from a snapshot.
// ---------------------------------------------------------------------------------------

/// The names that the snapshot knows of the labels `ids`, in order; labels it cannot name
/// are left out.
pub open spec fn named_labels<S: GraphSnapshot>(s: &S, ids: Seq<LabelId>) -> Seq<Seq<char>>
    decreases ids.len(),
{
    if ids.len() == 0 {
        Seq::empty()
    } else {
        let p = named_labels(s, ids.drop_last());
        match s.label_name(ids.last()) {
            Some(n) => p.push(n),
            None => p,
        }
    }
}

/// A node id read from the snapshot: the node with its named labels and its properties.
pub open spec fn reified_node<S: GraphSnapshot>(s: &S, id: InternalNodeId) -> NodeView {
    NodeView {
        id,
        labels: match s.labels_of(id) {
            Some(ids) => named_labels(s, ids),
            None => Seq::empty(),
        },
        properties: match s.node_props(id) {
            Some(p) => prop_dict_to_value(p),
            None => Seq::empty(),
        },
    }
}

/// The type name of a relationship: the snapshot's name for it, or `<id>` when it has none.
pub open spec fn rel_type_text<S: GraphSnapshot>(s: &S, rel: RelTypeId) -> Seq<char> {
    match s.rel_type_name(rel) {
        Some(n) => n,
        None => "<"@ + decimal(rel as nat) + ">"@,
    }
}

/// An edge key read from the snapshot: the relationship with its type name and properties.
pub open spec fn reified_relationship<S: GraphSnapshot>(s: &S, key: EdgeKey) -> RelationshipView {
    RelationshipView {
        key,
        rel_type: rel_type_text(s, key.rel),
        properties: match s.edge_props(key) {
            Some(p) => prop_dict_to_value(p),
            None => Seq::empty(),
        },
    }
}

/// A value with its node ids, edge keys and paths read from the snapshot, inside lists and
/// maps too; any other value is unchanged.
pub open spec fn reified<S: GraphSnapshot>(v: ValueView, s: &S) -> ValueView
    decreases v,
{
    match v {
        ValueView::NodeId(id) => ValueView::Node(reified_node(s, id)),
        ValueView::EdgeKey(k) => ValueView::Relationship(reified_relationship(s, k)),
        ValueView::Path(nodes, edges) => ValueView::ReifiedPath(
            nodes.map_values(|n: InternalNodeId| reified_node(s, n)),
            edges.map_values(|e: EdgeKey| reified_relationship(s, e)),
        ),
        ValueView::List(items) => ValueView::List(reified_list(items, s)),
        ValueView::Dict(entries) => ValueView::Dict(reified_dict(entries, s)),
        _ => v,
    }
}

pub open spec fn reified_list<S: GraphSnapshot>(items: Seq<ValueView>, s: &S) -> Seq<ValueView>
    decreases items,
{
    if items.len() == 0 {
        Seq::empty()
    } else {
        seq![reified(items[0], s)] + reified_list(items.drop_first(), s)
    }
}

pub open spec fn reified_dict<S: GraphSnapshot>(entries: Seq<(Seq<char>, ValueView)>, s: &S) -> Seq<(Seq<char>, ValueView)>
    decreases entries,
{
    if entries.len() == 0 {
        Seq::empty()
    } else {
        seq![(entries[0].0, reified(entries[0].1, s))] + reified_dict(entries.drop_first(), s)
    }
}

proof fn lemma_reified_list_idem<S: GraphSnapshot>(items: Seq<ValueView>, s: &S)
    ensures
        reified_list(reified_list(items, s), s) == reified_list(items, s),
    decreases items,
{
    if items.len() > 0 {
        let r = reified_list(items, s);
        lemma_reified_idem(items[0], s);
        lemma_reified_list_idem(items.drop_first(), s);
        assert(r[0] == reified(items[0], s));
        assert(r.drop_first() =~= reified_list(items.drop_first(), s));
        assert(reified_list(r, s) =~= r);
    }
}

proof fn lemma_reified_dict_idem<S: GraphSnapshot>(entries: Seq<(Seq<char>, ValueView)>, s: &S)
    ensures
        reified_dict(reified_dict(entries, s), s) == reified_dict(entries, s),
    decreases entries,
{
    if entries.len() > 0 {
        let r = reified_dict(entries, s);
        lemma_reified_idem(entries[0].1, s);
        lemma_reified_dict_idem(entries.drop_first(), s);
        assert(r[0] == (entries[0].0, reified(entries[0].1, s)));
        assert(r.drop_first() =~= reified_dict(entries.drop_first(), s));
        assert(reified_dict(r, s) =~= r);
    }
}

proof fn lemma_reified_idem<S: GraphSnapshot>(v: ValueView, s: &S)
    ensures
        reified(reified(v, s), s) == reified(v, s),
    decreases v,
{
    match v {
        ValueView::List(items) => lemma_reified_list_idem(items, s),
        ValueView::Dict(entries) => lemma_reified_dict_idem(entries, s),
        _ => {},
    }
}

/// Reading a value from a snapshot a second time changes nothing: what a first read gives
/// holds nodes, relationships and paths already read, and no ids or keys.
pub proof fn law_reify_is_idempotent<S: GraphSnapshot>(v: ValueView, s: &S)
    ensures
        reified(reified(v, s), s) == reified(v, s),
{
    lemma_reified_idem(v, s);
}

proof fn lemma_value_list_keyed_push(a: Seq<ValueView>, x: ValueView)
    requires
        value_list_keyed(a),
        value_keyed(x),
    ensures
        value_list_keyed(a + seq![x]),
    decreases a.len(),
{
    if a.len() == 0 {
        let one = seq![x];
        assert((a + seq![x]) =~= one);
        assert(one.drop_first() =~= Seq::<ValueView>::empty());
        assert(one[0] == x);
        assert(one.len() == 1);
        assert(value_list_keyed(Seq::<ValueView>::empty()));
        assert(value_list_keyed(one.drop_first()));
        assert(value_keyed(one[0]));
        assert(value_list_keyed(one));
    } else {
        lemma_value_list_keyed_push(a.drop_first(), x);
        let whole = a + seq![x];
        assert(whole.drop_first() =~= a.drop_first() + seq![x]);
        assert(whole[0] == a[0]);
        assert(whole.len() > 0);
    }
}

proof fn lemma_value_dict_keyed_push(a: Seq<(Seq<char>, ValueView)>, x: (Seq<char>, ValueView))
    requires
        value_dict_keyed(a),
        value_keyed(x.1),
    ensures
        value_dict_keyed(a + seq![x]),
    decreases a.len(),
{
    if a.len() == 0 {
        let one = seq![x];
        assert((a + seq![x]) =~= one);
        assert(one.drop_first() =~= Seq::<(Seq<char>, ValueView)>::empty());
        assert(one[0] == x);
        assert(one.len() == 1);
        assert(value_dict_keyed(Seq::<(Seq<char>, ValueView)>::empty()));
        assert(value_dict_keyed(one.drop_first()));
        assert(value_keyed(one[0].1));
        assert(value_dict_keyed(one));
    } else {
        lemma_value_dict_keyed_push(a.drop_first(), x);
        let whole = a + seq![x];
        assert(whole.drop_first() =~= a.drop_first() + seq![x]);
        assert(whole[0] == a[0]);
        assert(whole.len() > 0);
    }
}

proof fn lemma_node_list_keyed_push(a: Seq<NodeView>, x: NodeView)
    requires
        node_list_keyed(a),
        keys_ordered(x.properties),
        value_dict_keyed(x.properties),
    ensures
        node_list_keyed(a + seq![x]),
    decreases a.len(),
{
    if a.len() == 0 {
        let one = seq![x];
        assert((a + seq![x]) =~= one);
        assert(one.drop_first() =~= Seq::<NodeView>::empty());
        assert(one[0] == x);
        assert(one.len() == 1);
        assert(node_list_keyed(Seq::<NodeView>::empty()));
        assert(node_list_keyed(one.drop_first()));
        assert(keys_ordered(one[0].properties));
        assert(node_list_keyed(one));
    } else {
        lemma_node_list_keyed_push(a.drop_first(), x);
        let whole = a + seq![x];
        assert(whole.drop_first() =~= a.drop_first() + seq![x]);
        assert(whole[0] == a[0]);
        assert(whole.len() > 0);
    }
}

proof fn lemma_rel_list_keyed_push(a: Seq<RelationshipView>, x: RelationshipView)
    requires
        rel_list_keyed(a),
        keys_ordered(x.properties),
        value_dict_keyed(x.properties),
    ensures
        rel_list_keyed(a + seq![x]),
    decreases a.len(),
{
    if a.len() == 0 {
        let one = seq![x];
        assert((a + seq![x]) =~= one);
        assert(one.drop_first() =~= Seq::<RelationshipView>::empty());
        assert(one[0] == x);
        assert(one.len() == 1);
        assert(rel_list_keyed(Seq::<RelationshipView>::empty()));
        assert(rel_list_keyed(one.drop_first()));
        assert(keys_ordered(one[0].properties));
        assert(rel_list_keyed(one));
    } else {
        lemma_rel_list_keyed_push(a.drop_first(), x);
        let whole = a + seq![x];
        assert(whole.drop_first() =~= a.drop_first() + seq![x]);
        assert(whole[0] == a[0]);
        assert(whole.len() > 0);
    }
}

proof fn lemma_reified_dict_keys<S: GraphSnapshot>(e: Seq<(Seq<char>, ValueView)>, s: &S)
    ensures
        reified_dict(e, s).len() == e.len(),
        forall|i: int| 0 <= i < e.len() ==> (#[trigger] reified_dict(e, s)[i]).0 == e[i].0,
    decreases e.len(),
{
    if e.len() > 0 {
        lemma_reified_dict_keys(e.drop_first(), s);
        let r = reified_dict(e, s);
        assert forall|i: int| 0 <= i < e.len() implies (#[trigger] r[i]).0 == e[i].0 by {
            if i > 0 {
                assert(r[i] == reified_dict(e.drop_first(), s)[i - 1]);
                assert(e.drop_first()[i - 1] == e[i]);
            }
        }
    }
}

/// The names that the snapshot knows of the labels `ids` (see `named_labels`).
pub(crate) fn label_names<S: GraphSnapshot>(snapshot: &S, ids: &Vec<LabelId>) -> (r: Vec<String>)
    ensures
        labels_view(r@) == named_labels(snapshot, ids@),
{
    let mut labels: Vec<String> = Vec::new();
    let mut i: usize = 0;
    proof {
        assert(labels_view(labels@) =~= Seq::<Seq<char>>::empty());
        assert(ids@.take(0) =~= Seq::<LabelId>::empty());
    }
    while i < ids.len()
        invariant
            i <= ids@.len(),
            labels_view(labels@) == named_labels(snapshot, ids@.take(i as int)),
        decreases ids.len() - i,
    {
        proof {
            assert(ids@.take(i + 1).drop_last() =~= ids@.take(i as int));
            assert(ids@.take(i + 1).last() == ids@[i as int]);
        }
        let ghost before = labels@;
        if let Some(name) = snapshot.resolve_label_name(ids[i]) {
            labels.push(name);
            proof {
                assert(labels_view(labels@) =~= labels_view(before).push(name@));
            }
        }
        i = i + 1;
    }
    proof {
        assert(ids@.take(i as int) =~= ids@);
    }
    labels
}

/// The type name of a relationship type (see `rel_type_text`).
pub(crate) fn rel_type_string<S: GraphSnapshot>(snapshot: &S, rel: RelTypeId) -> (r: String)
    ensures
        r@ == rel_type_text(snapshot, rel),
{
    match snapshot.resolve_rel_type_name(rel) {
        Some(name) => name,
        None => {
            let mut text = String::from_str("<");
            push_decimal(&mut text, rel as usize);
            text.append(">");
            text
        },
    }
}

pub(crate) fn reify_node<S: GraphSnapshot>(snapshot: &S, id: InternalNodeId) -> (r: NodeValue)
    ensures
        node_view(r) == reified_node(snapshot, id),
        keys_ordered(node_view(r).properties),
        value_dict_keyed(node_view(r).properties),
{
    let labels: Vec<String> = match snapshot.resolve_node_labels(id) {
        Some(ids) => label_names(snapshot, &ids),
        None => {
            let none: Vec<String> = Vec::new();
            proof {
                assert(labels_view(none@) =~= Seq::<Seq<char>>::empty());
            }
            none
        },
    };
    let properties = match snapshot.node_properties(id) {
        Some(p) => {
            let v = api_dict_to_values(&p);
            proof {
                lemma_prop_map_keyed_value(api_dict_view(p@));
            }
            v
        },
        None => Vec::new(),
    };
    proof {
        if properties@.len() == 0 {
            assert(value_dict_view(properties@) =~= Seq::<(Seq<char>, ValueView)>::empty());
        }
    }
    NodeValue { id, labels, properties }
}

fn reify_relationship<S: GraphSnapshot>(snapshot: &S, key: EdgeKey) -> (r: RelationshipValue)
    ensures
        relationship_view(r) == reified_relationship(snapshot, key),
        keys_ordered(relationship_view(r).properties),
        value_dict_keyed(relationship_view(r).properties),
{
    let rel_type = rel_type_string(snapshot, key.rel);
    let properties = match snapshot.edge_properties(key) {
        Some(p) => {
            let v = api_dict_to_values(&p);
            proof {
                lemma_prop_map_keyed_value(api_dict_view(p@));
            }
            v
        },
        None => Vec::new(),
    };
    proof {
        if properties@.len() == 0 {
            assert(value_dict_view(properties@) =~= Seq::<(Seq<char>, ValueView)>::empty());
        }
    }
    RelationshipValue { key, rel_type, properties }
}

fn reify_path<S: GraphSnapshot>(snapshot: &S, p: &PathValue) -> (r: ReifiedPathValue)
    ensures
        node_list_view(r.nodes@) == p.nodes@.map_values(|n: InternalNodeId| reified_node(snapshot, n)),
        relationship_list_view(r.relationships@) == p.edges@.map_values(|e: EdgeKey| reified_relationship(snapshot, e)),
        node_list_keyed(node_list_view(r.nodes@)),
        rel_list_keyed(relationship_list_view(r.relationships@)),
{
    let mut nodes: Vec<NodeValue> = Vec::new();
    let mut i: usize = 0;
    proof {
        assert(node_list_view(nodes@) =~= p.nodes@.take(0).map_values(|n: InternalNodeId| reified_node(snapshot, n)));
        assert(node_list_keyed(node_list_view(nodes@)));
    }
    while i < p.nodes.len()
        invariant
            i <= p.nodes@.len(),
            node_list_view(nodes@) == p.nodes@.take(i as int).map_values(|n: InternalNodeId| reified_node(snapshot, n)),
            node_list_keyed(node_list_view(nodes@)),
        decreases p.nodes.len() - i,
    {
        let n = reify_node(snapshot, p.nodes[i]);
        let ghost before = nodes@;
        nodes.push(n);
        proof {
            lemma_node_list_push(before, n);
            lemma_node_list_keyed_push(node_list_view(before), node_view(n));
            assert(p.nodes@.take(i + 1).map_values(|n: InternalNodeId| reified_node(snapshot, n))
                =~= p.nodes@.take(i as int).map_values(|n: InternalNodeId| reified_node(snapshot, n)).push(reified_node(snapshot, p.nodes@[i as int])));
            assert(node_list_view(nodes@) =~= p.nodes@.take(i + 1).map_values(|n: InternalNodeId| reified_node(snapshot, n)));
        }
        i = i + 1;
    }
    proof {
        assert(p.nodes@.take(i as int) =~= p.nodes@);
    }
    let mut relationships: Vec<RelationshipValue> = Vec::new();
    let mut j: usize = 0;
    proof {
        assert(relationship_list_view(relationships@) =~= p.edges@.take(0).map_values(|e: EdgeKey| reified_relationship(snapshot, e)));
        assert(rel_list_keyed(relationship_list_view(relationships@)));
    }
    while j < p.edges.len()
        invariant
            j <= p.edges@.len(),
            relationship_list_view(relationships@) == p.edges@.take(j as int).map_values(|e: EdgeKey| reified_relationship(snapshot, e)),
            node_list_keyed(node_list_view(nodes@)),
            rel_list_keyed(relationship_list_view(relationships@)),
        decreases p.edges.len() - j,
    {
        let rel = reify_relationship(snapshot, p.edges[j]);
        let ghost before = relationships@;
        relationships.push(rel);
        proof {
            lemma_relationship_list_push(before, rel);
            lemma_rel_list_keyed_push(relationship_list_view(before), relationship_view(rel));
            assert(p.edges@.take(j + 1).map_values(|e: EdgeKey| reified_relationship(snapshot, e))
                =~= p.edges@.take(j as int).map_values(|e: EdgeKey| reified_relationship(snapshot, e)).push(reified_relationship(snapshot, p.edges@[j as int])));
            assert(relationship_list_view(relationships@) =~= p.edges@.take(j + 1).map_values(|e: EdgeKey| reified_relationship(snapshot, e)));
        }
        j = j + 1;
    }
    proof {
        assert(p.edges@.take(j as int) =~= p.edges@);
    }
    ReifiedPathValue { nodes, relationships }
}

fn reify_list<S: GraphSnapshot>(items: &Vec<Value>, snapshot: &S) -> (r: Result<Vec<Value>>)
    ensures
        r matches Ok(out) && value_list_view(out@) == reified_list(value_list_view(items@), snapshot),
        r matches Ok(out) && (value_list_keyed(value_list_view(items@)) ==> value_list_keyed(value_list_view(out@))),
    decreases items,
{
    let ghost keyed = value_list_keyed(value_list_view(items@));
    let mut out: Vec<Value> = Vec::new();
    proof {
        assert(items@.subrange(0, items@.len() as int) =~= items@);
        assert(value_list_view(out@) + reified_list(value_list_view(items@), snapshot) =~= reified_list(value_list_view(items@), snapshot));
        assert(value_list_view(out@) =~= Seq::<ValueView>::empty());
    }
    let mut i: usize = 0;
    while i < items.len()
        invariant
            i <= items.len(),
            reified_list(value_list_view(items@), snapshot) == value_list_view(out@)
                + reified_list(value_list_view(items@.subrange(i as int, items@.len() as int)), snapshot),
            keyed == value_list_keyed(value_list_view(items@)),
            keyed ==> value_list_keyed(value_list_view(out@)),
            keyed ==> value_list_keyed(value_list_view(items@.subrange(i as int, items@.len() as int))),
        decreases items.len() - i,
    {
        proof {
            let rest = items@.subrange(i as int, items@.len() as int);
            assert(rest.drop_first() =~= items@.subrange(i + 1, items@.len() as int));
            assert(rest[0] == items@[i as int]);
            assert(value_list_view(rest).drop_first() =~= value_list_view(rest.drop_first()));
            assert(value_list_view(rest)[0] == value_view(rest[0]));
        }
        let c = match items[i].reify(snapshot) {
            Ok(v) => v,
            Err(e) => return Err(e),
        };
        let ghost before = out@;
        out.push(c);
        proof {
            lemma_value_list_push(before, c);
            if keyed {
                lemma_value_list_keyed_push(value_list_view(before), value_view(c));
            }
        }
        i = i + 1;
    }
    proof {
        assert(items@.subrange(i as int, items@.len() as int).len() == 0);
        assert(value_list_view(items@.subrange(i as int, items@.len() as int)) =~= Seq::<ValueView>::empty());
    }
    Ok(out)
}

fn reify_dict<S: GraphSnapshot>(entries: &Vec<(String, Value)>, snapshot: &S) -> (r: Result<Vec<(String, Value)>>)
    ensures
        r matches Ok(out) && value_dict_view(out@) == reified_dict(value_dict_view(entries@), snapshot),
        r matches Ok(out) && (value_dict_keyed(value_dict_view(entries@)) ==> value_dict_keyed(value_dict_view(out@))),
        r matches Ok(out) && (keys_ordered(value_dict_view(entries@)) ==> keys_ordered(value_dict_view(out@))),
    decreases entries,
{
    let ghost keyed = value_dict_keyed(value_dict_view(entries@));
    let mut out: Vec<(String, Value)> = Vec::new();
    proof {
        assert(entries@.subrange(0, entries@.len() as int) =~= entries@);
        assert(value_dict_view(out@) + reified_dict(value_dict_view(entries@), snapshot) =~= reified_dict(value_dict_view(entries@), snapshot));
        assert(value_dict_view(out@) =~= Seq::<(Seq<char>, ValueView)>::empty());
    }
    let mut i: usize = 0;
    while i < entries.len()
        invariant
            i <= entries.len(),
            reified_dict(value_dict_view(entries@), snapshot) == value_dict_view(out@)
                + reified_dict(value_dict_view(entries@.subrange(i as int, entries@.len() as int)), snapshot),
            keyed == value_dict_keyed(value_dict_view(entries@)),
            keyed ==> value_dict_keyed(value_dict_view(out@)),
            keyed ==> value_dict_keyed(value_dict_view(entries@.subrange(i as int, entries@.len() as int))),
        decreases entries.len() - i,
    {
        proof {
            let rest = entries@.subrange(i as int, entries@.len() as int);
            assert(rest.drop_first() =~= entries@.subrange(i + 1, entries@.len() as int));
            assert(rest[0] == entries@[i as int]);
            assert(value_dict_view(rest).drop_first() =~= value_dict_view(rest.drop_first()));
            assert(value_dict_view(rest)[0] == (rest[0].0@, value_view(rest[0].1)));
        }
        let v = match entries[i].1.reify(snapshot) {
            Ok(v) => v,
            Err(e) => return Err(e),
        };
        let c = (entries[i].0.clone(), v);
        let ghost before = out@;
        out.push(c);
        proof {
            lemma_value_dict_push(before, c);
            if keyed {
                lemma_value_dict_keyed_push(value_dict_view(before), (c.0@, value_view(c.1)));
            }
        }
        i = i + 1;
    }
    proof {
        assert(entries@.subrange(i as int, entries@.len() as int).len() == 0);
        assert(value_dict_view(entries@.subrange(i as int, entries@.len() as int)) =~= Seq::<(Seq<char>, ValueView)>::empty());
    }
    proof {
        assert(value_dict_view(out@) == reified_dict(value_dict_view(entries@), snapshot));
        lemma_reified_dict_keys(value_dict_view(entries@), snapshot);
        if keys_ordered(value_dict_view(entries@)) {
            lemma_keys_ordered_same_keys(value_dict_view(entries@), value_dict_view(out@));
        }
    }
    Ok(out)
}

impl Value {
    /// The value with its node ids, edge keys and paths read from the snapshot (see
    /// `reified`): a node gets its labels and properties, a relationship its type name and
    /// properties, a path its nodes and relationships; lists and maps are read through.
    pub fn reify<S: GraphSnapshot>(&self, snapshot: &S) -> (r: Result<Value>)
        ensures
            r matches Ok(v) && v@ == reified(self@, snapshot),
            r matches Ok(v) && (value_keyed(self@) ==> value_keyed(v@)),
        decreases self,
    {
        match self {
            Value::NodeId(id) => Ok(Value::Node(reify_node(snapshot, *id))),
            Value::EdgeKey(key) => Ok(Value::Relationship(reify_relationship(snapshot, *key))),
            Value::Path(p) => Ok(Value::ReifiedPath(reify_path(snapshot, p))),
            Value::List(items) => match reify_list(items, snapshot) {
                Ok(out) => Ok(Value::List(out)),
                Err(e) => Err(e),
            },
            Value::Dict(entries) => match reify_dict(entries, snapshot) {
                Ok(out) => Ok(Value::Dict(out)),
                Err(e) => Err(e),
            },
            _ => Ok(copy_value(self)),
        }
    }
}

// ---------------------------------------------------------------------------------------
// Rows and parameters.
// ---------------------------------------------------------------------------------------

/// The value of the first column named `name`.
pub open spec fn cols_get(s: Seq<(Seq<char>, ValueView)>, name: Seq<char>) -> Option<ValueView>
    decreases s.len(),
{
    if s.len() == 0 {
        None
    } else if s[0].0 == name {
        Some(s[0].1)
    } else {
        cols_get(s.drop_first(), name)
    }
}

/// The columns with the first column named `name` set to `v`, or with `(name, v)` appended
/// when there is no such column.
pub open spec fn cols_with(s: Seq<(Seq<char>, ValueView)>, name: Seq<char>, v: ValueView) -> Seq<(Seq<char>, ValueView)>
    decreases s.len(),
{
    if s.len() == 0 {
        seq![(name, v)]
    } else if s[0].0 == name {
        seq![(name, v)] + s.drop_first()
    } else {
        seq![s[0]] + cols_with(s.drop_first(), name, v)
    }
}

/// The node id that the value stands for: a node id or a node.
pub open spec fn node_id_of(v: ValueView) -> Option<InternalNodeId> {
    match v {
        ValueView::NodeId(i) => Some(i),
        ValueView::Node(n) => Some(n.id),
        _ => None,
    }
}

/// The edge key that the value stands for: an edge key or a relationship.
pub open spec fn edge_of(v: ValueView) -> Option<EdgeKey> {
    match v {
        ValueView::EdgeKey(k) => Some(k),
        ValueView::Relationship(r) => Some(r.key),
        _ => None,
    }
}

/// The node id of the first column named `name` whose value is a node.
pub open spec fn cols_node(s: Seq<(Seq<char>, ValueView)>, name: Seq<char>) -> Option<InternalNodeId>
    decreases s.len(),
{
    if s.len() == 0 {
        None
    } else if s[0].0 == name && node_id_of(s[0].1) is Some {
        node_id_of(s[0].1)
    } else {
        cols_node(s.drop_first(), name)
    }
}

/// The edge key of the first column named `name` whose value is an edge.
pub open spec fn cols_edge(s: Seq<(Seq<char>, ValueView)>, name: Seq<char>) -> Option<EdgeKey>
    decreases s.len(),
{
    if s.len() == 0 {
        None
    } else if s[0].0 == name && edge_of(s[0].1) is Some {
        edge_of(s[0].1)
    } else {
        cols_edge(s.drop_first(), name)
    }
}

proof fn lemma_value_dict_concat(a: Seq<(String, Value)>, b: Seq<(String, Value)>)
    ensures
        value_dict_view(a + b) == value_dict_view(a) + value_dict_view(b),
    decreases a.len(),
{
    if a.len() == 0 {
        assert(a + b =~= b);
        assert(value_dict_view(a) =~= Seq::<(Seq<char>, ValueView)>::empty());
    } else {
        assert((a + b).drop_first() =~= a.drop_first() + b);
        lemma_value_dict_concat(a.drop_first(), b);
        assert((a + b)[0] == a[0]);
    }
    assert(value_dict_view(a + b) =~= value_dict_view(a) + value_dict_view(b));
}

proof fn lemma_value_dict_index(s: Seq<(String, Value)>, i: int)
    requires
        0 <= i < s.len(),
    ensures
        value_dict_view(s).len() == s.len(),
        value_dict_view(s)[i] == (s[i].0@, value_view(s[i].1)),
    decreases s.len(),
{
    lemma_value_dict_len(s);
    if i > 0 {
        lemma_value_dict_index(s.drop_first(), i - 1);
    }
}

proof fn lemma_value_dict_len(s: Seq<(String, Value)>)
    ensures
        value_dict_view(s).len() == s.len(),
    decreases s.len(),
{
    if s.len() > 0 {
        lemma_value_dict_len(s.drop_first());
    }
}

proof fn lemma_value_dict_update(s: Seq<(String, Value)>, i: int, x: (String, Value))
    requires
        0 <= i < s.len(),
    ensures
        value_dict_view(s.update(i, x)) == value_dict_view(s).update(i, (x.0@, value_view(x.1))),
    decreases s.len(),
{
    lemma_value_dict_len(s);
    lemma_value_dict_len(s.update(i, x));
    assert forall|j: int| 0 <= j < s.len() implies #[trigger] value_dict_view(s.update(i, x))[j]
        == value_dict_view(s).update(i, (x.0@, value_view(x.1)))[j] by {
        lemma_value_dict_index(s.update(i, x), j);
        lemma_value_dict_index(s, j);
    }
    assert(value_dict_view(s.update(i, x)) =~= value_dict_view(s).update(i, (x.0@, value_view(x.1))));
}

/// Facts about the first column that has a given name.
proof fn lemma_cols_first(s: Seq<(String, Value)>, name: Seq<char>, i: int, v: Value)
    requires
        0 <= i <= s.len(),
        forall|j: int| 0 <= j < i ==> (#[trigger] s[j]).0@ != name,
        i < s.len() ==> s[i].0@ == name,
    ensures
        i < s.len() ==> cols_get(value_dict_view(s), name) == Some(value_view(s[i].1)),
        i == s.len() ==> cols_get(value_dict_view(s), name) is None,
        i < s.len() ==> cols_with(value_dict_view(s), name, value_view(v))
            == value_dict_view(s).update(i, (name, value_view(v))),
        i == s.len() ==> cols_with(value_dict_view(s), name, value_view(v))
            == value_dict_view(s).push((name, value_view(v))),
    decreases i,
{
    lemma_value_dict_len(s);
    if s.len() == 0 {
        assert(value_dict_view(s) =~= Seq::<(Seq<char>, ValueView)>::empty());
        assert(cols_with(value_dict_view(s), name, value_view(v)) =~= value_dict_view(s).push((name, value_view(v))));
    } else {
        let d = value_dict_view(s);
        assert(d[0] == (s[0].0@, value_view(s[0].1))) by {
            lemma_value_dict_index(s, 0);
        }
        assert(d.drop_first() == value_dict_view(s.drop_first()));
        if i == 0 {
            assert(cols_with(d, name, value_view(v)) =~= d.update(0, (name, value_view(v))));
        } else {
            assert forall|j: int| 0 <= j < i - 1 implies (#[trigger] s.drop_first()[j]).0@ != name by {
                assert(s.drop_first()[j] == s[j + 1]);
            }
            lemma_cols_first(s.drop_first(), name, i - 1, v);
            lemma_value_dict_len(s.drop_first());
            if i < s.len() {
                assert(cols_with(d, name, value_view(v)) =~= d.update(i, (name, value_view(v))));
            } else {
                assert(cols_with(d, name, value_view(v)) =~= d.push((name, value_view(v))));
            }
        }
    }
}

/// A result row: named columns in order.
#[derive(Debug)]
pub struct Row {
    cols: Vec<(String, Value)>,
}

impl View for Row {
    type V = Seq<(Seq<char>, ValueView)>;

    closed spec fn view(&self) -> Seq<(Seq<char>, ValueView)> {
        value_dict_view(self.cols@)
    }
}

impl Row {
    /// A row with the given columns.
    pub fn new(cols: Vec<(String, Value)>) -> (r: Row)
        ensures
            r@ == value_dict_view(cols@),
    {
        Row { cols }
    }

    /// The row with each column's value read from the snapshot (see `Value::reify`).
    pub fn reify<S: GraphSnapshot>(&self, snapshot: &S) -> (r: Result<Row>)
        ensures
            r matches Ok(row) && row@ == reified_dict(self@, snapshot),
            r matches Ok(row) && (value_dict_keyed(self@) ==> value_dict_keyed(row@)),
    {
        match reify_dict(&self.cols, snapshot) {
            Ok(cols) => Ok(Row { cols }),
            Err(e) => Err(e),
        }
    }

    /// The row without columns.
    pub fn empty() -> (r: Row)
        ensures
            r@ == Seq::<(Seq<char>, ValueView)>::empty(),
    {
        let r = Row { cols: Vec::new() };
        proof {
            assert(r@ =~= Seq::<(Seq<char>, ValueView)>::empty());
        }
        r
    }

    /// Where the first column named `name` is.
    fn position(&self, name: &str) -> (r: Option<usize>)
        ensures
            match r {
                Some(i) => i < self.cols@.len() && self.cols@[i as int].0@ == name@
                    && forall|j: int| 0 <= j < i ==> (#[trigger] self.cols@[j]).0@ != name@,
                None => forall|j: int| 0 <= j < self.cols@.len() ==> (#[trigger] self.cols@[j]).0@ != name@,
            },
    {
        let mut i: usize = 0;
        while i < self.cols.len()
            invariant
                i <= self.cols.len(),
                forall|j: int| 0 <= j < i ==> (#[trigger] self.cols@[j]).0@ != name@,
            decreases self.cols.len() - i,
        {
            if crate::text::str_equal(self.cols[i].0.as_str(), name) {
                return Some(i);
            }
            i = i + 1;
        }
        None
    }

    /// The value of the first column named `name`.
    pub fn get(&self, name: &str) -> (r: Option<&Value>)
        ensures
            match r {
                Some(v) => cols_get(self@, name@) == Some(v@),
                None => cols_get(self@, name@) is None,
            },
    {
        match self.position(name) {
            Some(i) => {
                proof {
                    lemma_cols_first(self.cols@, name@, i as int, Value::Null);
                }
                Some(&self.cols[i].1)
            },
            None => {
                proof {
                    lemma_cols_first(self.cols@, name@, self.cols@.len() as int, Value::Null);
                }
                None
            },
        }
    }

    fn with_mut(&mut self, name: &str, value: Value)
        ensures
            final(self)@ == cols_with(old(self)@, name@, value@),
    {
        match self.position(name) {
            Some(i) => {
                proof {
                    lemma_cols_first(self.cols@, name@, i as int, value);
                }
                let ghost before = self.cols@;
                let key = self.cols[i].0.clone();
                let ghost entry = (key, value);
                self.cols.set(i, (key, value));
                proof {
                    assert(self.cols@ == before.update(i as int, entry));
                    lemma_value_dict_update(before, i as int, entry);
                }
            },
            None => {
                proof {
                    lemma_cols_first(self.cols@, name@, self.cols@.len() as int, value);
                }
                let ghost before = self.cols@;
                let entry = (String::from_str(name), value);
                let ghost gentry = entry;
                self.cols.push(entry);
                proof {
                    lemma_value_dict_push(before, gentry);
                }
            },
        }
    }

    /// This row with column `name` set to `value` (replacing the first column of that name,
    /// or appended).
    pub fn with(self, name: &str, value: Value) -> (r: Row)
        ensures
            r@ == cols_with(self@, name@, value@),
    {
        let mut row = self;
        row.with_mut(name, value);
        row
    }

    /// The node id held by the first column named `name` that holds a node.
    pub fn get_node(&self, name: &str) -> (r: Option<InternalNodeId>)
        ensures
            r == cols_node(self@, name@),
    {
        let mut i: usize = 0;
        proof {
            assert(self.cols@.subrange(0, self.cols@.len() as int) =~= self.cols@);
        }
        while i < self.cols.len()
            invariant
                i <= self.cols.len(),
                cols_node(self@, name@) == cols_node(value_dict_view(self.cols@.subrange(i as int, self.cols@.len() as int)), name@),
            decreases self.cols.len() - i,
        {
            let ghost rest = self.cols@.subrange(i as int, self.cols@.len() as int);
            proof {
                assert(rest.drop_first() =~= self.cols@.subrange(i + 1, self.cols@.len() as int));
                lemma_value_dict_index(rest, 0);
                assert(rest[0] == self.cols@[i as int]);
                assert(value_dict_view(rest).drop_first() =~= value_dict_view(rest.drop_first()));
            }
            if crate::text::str_equal(self.cols[i].0.as_str(), name) {
                match &self.cols[i].1 {
                    Value::NodeId(iid) => {
                        return Some(*iid);
                    },
                    Value::Node(node) => {
                        return Some(node.id);
                    },
                    _ => {},
                }
            }
            i = i + 1;
        }
        proof {
            assert(value_dict_view(self.cols@.subrange(i as int, self.cols@.len() as int)) =~= Seq::<(Seq<char>, ValueView)>::empty());
        }
        None
    }

    /// The edge key held by the first column named `name` that holds an edge.
    pub fn get_edge(&self, name: &str) -> (r: Option<EdgeKey>)
        ensures
            r == cols_edge(self@, name@),
    {
        let mut i: usize = 0;
        proof {
            assert(self.cols@.subrange(0, self.cols@.len() as int) =~= self.cols@);
        }
        while i < self.cols.len()
            invariant
                i <= self.cols.len(),
                cols_edge(self@, name@) == cols_edge(value_dict_view(self.cols@.subrange(i as int, self.cols@.len() as int)), name@),
            decreases self.cols.len() - i,
        {
            let ghost rest = self.cols@.subrange(i as int, self.cols@.len() as int);
            proof {
                assert(rest.drop_first() =~= self.cols@.subrange(i + 1, self.cols@.len() as int));
                lemma_value_dict_index(rest, 0);
                assert(rest[0] == self.cols@[i as int]);
                assert(value_dict_view(rest).drop_first() =~= value_dict_view(rest.drop_first()));
            }
            if crate::text::str_equal(self.cols[i].0.as_str(), name) {
                match &self.cols[i].1 {
                    Value::EdgeKey(e) => {
                        return Some(*e);
                    },
                    Value::Relationship(rel) => {
                        return Some(rel.key);
                    },
                    _ => {},
                }
            }
            i = i + 1;
        }
        proof {
            assert(value_dict_view(self.cols@.subrange(i as int, self.cols@.len() as int)) =~= Seq::<(Seq<char>, ValueView)>::empty());
        }
        None
    }

    /// The columns of the row, in order.
    pub fn columns(&self) -> (r: &[(String, Value)])
        ensures
            value_dict_view(r@) == self@,
    {
        self.cols.as_slice()
    }

    /// A copy of this row followed by a copy of `other`'s columns.
    pub fn join(&self, other: &Row) -> (r: Row)
        ensures
            r@ == self@ + other@,
    {
        let mut out = copy_value_dict(&self.cols);
        let mut tail = copy_value_dict(&other.cols);
        let ghost a = out@;
        let ghost b = tail@;
        out.append(&mut tail);
        proof {
            lemma_value_dict_concat(a, b);
        }
        Row { cols: out }
    }

    /// A copy of this row.
    pub fn duplicate(&self) -> (r: Row)
        ensures
            r@ == self@,
    {
        Row { cols: copy_value_dict(&self.cols) }
    }

    /// A row with one column per name, in the order of `names`: a copy of the value of the
    /// first column of that name, or null.
    pub fn project(&self, names: &[&str]) -> (r: Row)
        ensures
            r@.len() == names@.len(),
            forall|i: int| 0 <= i < names@.len() ==> (#[trigger] r@[i]).0 == names@[i]@ && r@[i].1 == match cols_get(self@, names@[i]@) {
                Some(v) => v,
                None => ValueView::Null,
            },
    {
        let mut out: Vec<(String, Value)> = Vec::new();
        let mut i: usize = 0;
        while i < names.len()
            invariant
                i <= names@.len(),
                value_dict_view(out@).len() == i,
                forall|k: int| 0 <= k < i ==> (#[trigger] value_dict_view(out@)[k]).0 == names@[k]@
                    && value_dict_view(out@)[k].1 == match cols_get(self@, names@[k]@) {
                        Some(v) => v,
                        None => ValueView::Null,
                    },
            decreases names.len() - i,
        {
            let name = names[i];
            let value = match self.get(name) {
                Some(v) => copy_value(v),
                None => Value::Null,
            };
            let entry = (String::from_str(name), value);
            let ghost before = out@;
            let ghost gentry = entry;
            out.push(entry);
            proof {
                lemma_value_dict_push(before, gentry);
            }
            i = i + 1;
        }
        Row { cols: out }
    }

    /// Extends the path held by column `alias` with `edge` and `dst`, or, when that column
    /// does not hold a path, sets it to the one-hop path `src -edge-> dst`.
    pub fn join_path(&mut self, alias: &str, src: InternalNodeId, edge: EdgeKey, dst: InternalNodeId)
        ensures
            final(self)@ == cols_with(old(self)@, alias@, match cols_get(old(self)@, alias@) {
                Some(ValueView::Path(nodes, edges)) => ValueView::Path(nodes.push(dst), edges.push(edge)),
                _ => ValueView::Path(seq![src, dst], seq![edge]),
            }),
    {
        let path = match self.get(alias) {
            Some(Value::Path(p)) => {
                let mut nodes = copy_vec(&p.nodes);
                let mut edges = copy_vec(&p.edges);
                edges.push(edge);
                nodes.push(dst);
                Value::Path(PathValue { nodes, edges })
            },
            _ => {
                let mut nodes: Vec<InternalNodeId> = Vec::new();
                nodes.push(src);
                nodes.push(dst);
                let mut edges: Vec<EdgeKey> = Vec::new();
                edges.push(edge);
                proof {
                    assert(nodes@ =~= seq![src, dst]);
                    assert(edges@ =~= seq![edge]);
                }
                Value::Path(PathValue { nodes, edges })
            },
        };
        self.with_mut(alias, path);
    }
}

/// Named values that a query refers to as `$name`.
#[derive(Debug)]
pub struct Params {
    inner: Vec<(String, Value)>,
}

impl View for Params {
    type V = Seq<(Seq<char>, ValueView)>;

    closed spec fn view(&self) -> Seq<(Seq<char>, ValueView)> {
        value_dict_view(self.inner@)
    }
}

impl Params {
    /// No parameters.
    pub fn new() -> (p: Params)
        ensures
            p@ == Seq::<(Seq<char>, ValueView)>::empty(),
    {
        let p = Params { inner: Vec::new() };
        proof {
            assert(p@ =~= Seq::<(Seq<char>, ValueView)>::empty());
        }
        p
    }

    /// Sets parameter `name` to `value`, replacing an earlier value of it.
    pub fn insert(&mut self, name: &str, value: Value)
        ensures
            cols_get(final(self)@, name@) == Some(value@),
            final(self)@ == cols_with(old(self)@, name@, value@),
    {
        let mut row = Row { cols: Vec::new() };
        std::mem::swap(&mut row.cols, &mut self.inner);
        row.with_mut(name, value);
        std::mem::swap(&mut row.cols, &mut self.inner);
        proof {
            law_column_read_after_write(old(self)@, name@, value@);
        }
    }

    /// The value of parameter `name`.
    pub fn get(&self, name: &str) -> (r: Option<&Value>)
        ensures
            match r {
                Some(v) => cols_get(self@, name@) == Some(v@),
                None => cols_get(self@, name@) is None,
            },
    {
        let mut i: usize = 0;
        proof {
            assert(self.inner@.subrange(0, self.inner@.len() as int) =~= self.inner@);
        }
        while i < self.inner.len()
            invariant
                i <= self.inner.len(),
                cols_get(self@, name@) == cols_get(value_dict_view(self.inner@.subrange(i as int, self.inner@.len() as int)), name@),
            decreases self.inner.len() - i,
        {
            let ghost rest = self.inner@.subrange(i as int, self.inner@.len() as int);
            proof {
                assert(rest.drop_first() =~= self.inner@.subrange(i + 1, self.inner@.len() as int));
                lemma_value_dict_index(rest, 0);
                assert(rest[0] == self.inner@[i as int]);
                assert(value_dict_view(rest).drop_first() =~= value_dict_view(rest.drop_first()));
            }
            if crate::text::str_equal(self.inner[i].0.as_str(), name) {
                return Some(&self.inner[i].1);
            }
            i = i + 1;
        }
        proof {
            assert(value_dict_view(self.inner@.subrange(i as int, self.inner@.len() as int)) =~= Seq::<(Seq<char>, ValueView)>::empty());
        }
        None
    }
}

/// Setting a column and reading it back gives the value that was set.
pub proof fn law_column_read_after_write(s: Seq<(Seq<char>, ValueView)>, name: Seq<char>, v: ValueView)
    ensures
        cols_get(cols_with(s, name, v), name) == Some(v),
    decreases s.len(),
{
    if s.len() > 0 && s[0].0 != name {
        law_column_read_after_write(s.drop_first(), name, v);
        assert((seq![s[0]] + cols_with(s.drop_first(), name, v)).drop_first() =~= cols_with(s.drop_first(), name, v));
    }
}

} // verus!
