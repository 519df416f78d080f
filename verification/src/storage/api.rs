//! Types of the graph API that storage engines and the query engine share.
use crate::text::seq_less;
use vstd::prelude::*;

verus! {

pub type ExternalId = u64;

pub type InternalNodeId = u32;

pub type LabelId = u32;

pub type RelTypeId = u32;

/// A directed, typed edge: source node, relationship type, destination node.
#[derive(Debug, Clone, Copy, PartialEq, Eq, Structural, PartialOrd, Ord, Hash)]
pub struct EdgeKey {
    pub src: InternalNodeId,
    pub rel: RelTypeId,
    pub dst: InternalNodeId,
}

/// A read-only view of a graph at one point in time, as a storage engine provides it.
/// Each method is described by a spec function that the implementation fixes.
pub trait GraphSnapshot {
    /// The outgoing edges of `src` (only those of type `rel`, when given), in the order the
    /// snapshot yields them.
    spec fn out_edges(&self, src: InternalNodeId, rel: Option<RelTypeId>) -> Seq<EdgeKey>;

    /// The incoming edges of `dst` (only those of type `rel`, when given), in order.
    spec fn in_edges(&self, dst: InternalNodeId, rel: Option<RelTypeId>) -> Seq<EdgeKey>;

    /// The id of the relationship type with this name, if the snapshot knows it.
    spec fn rel_type_named(&self, name: Seq<char>) -> Option<RelTypeId>;

    /// The live nodes, in order.
    spec fn node_seq(&self) -> Seq<InternalNodeId>;

    /// The external id of a node, if it has one.
    spec fn external_of(&self, iid: InternalNodeId) -> Option<ExternalId>;

    /// The label of a node, if it has one.
    spec fn label_of(&self, iid: InternalNodeId) -> Option<LabelId>;

    /// Whether a node has been deleted.
    spec fn tombstoned(&self, iid: InternalNodeId) -> bool;

    /// The labels of a node, if the snapshot knows the node.
    spec fn labels_of(&self, iid: InternalNodeId) -> Option<Seq<LabelId>>;

    /// The name of a label, if the snapshot knows it.
    spec fn label_name(&self, id: LabelId) -> Option<Seq<char>>;

    /// The id of the label with this name, if the snapshot knows it.
    spec fn label_named(&self, name: Seq<char>) -> Option<LabelId>;

    /// The name of a relationship type, if the snapshot knows it.
    spec fn rel_type_name(&self, id: RelTypeId) -> Option<Seq<char>>;

    /// The properties of a node in key order, if the snapshot has any for it (what
    /// `node_properties` gives is a map: see `prop_map_keyed`).
    spec fn node_props(&self, iid: InternalNodeId) -> Option<Seq<(Seq<char>, PropView)>>;

    /// The properties of an edge in key order, if the snapshot has any for it.
    spec fn edge_props(&self, key: EdgeKey) -> Option<Seq<(Seq<char>, PropView)>>;

    /// The outgoing edges of `src`; each starts at `src` and has type `rel` when one is given.
    fn neighbors(&self, src: InternalNodeId, rel: Option<RelTypeId>) -> (r: Vec<EdgeKey>)
        ensures
            r@ == self.out_edges(src, rel),
            forall|i: int| 0 <= i < r@.len() ==> (#[trigger] r@[i]).src == src
                && (rel matches Some(t) ==> r@[i].rel == t),
    ;

    /// The incoming edges of `dst`; each ends at `dst` and has type `rel` when one is given.
    fn incoming_neighbors(&self, dst: InternalNodeId, rel: Option<RelTypeId>) -> (r: Vec<EdgeKey>)
        ensures
            r@ == self.in_edges(dst, rel),
            forall|i: int| 0 <= i < r@.len() ==> (#[trigger] r@[i]).dst == dst
                && (rel matches Some(t) ==> r@[i].rel == t),
    ;

    fn resolve_rel_type_id(&self, name: &str) -> (r: Option<RelTypeId>)
        ensures
            r == self.rel_type_named(name@),
    ;

    fn nodes(&self) -> (r: Vec<InternalNodeId>)
        ensures
            r@ == self.node_seq(),
    ;

    fn resolve_external(&self, iid: InternalNodeId) -> (r: Option<ExternalId>)
        ensures
            r == self.external_of(iid),
    ;

    fn node_label(&self, iid: InternalNodeId) -> (r: Option<LabelId>)
        ensures
            r == self.label_of(iid),
    ;

    fn is_tombstoned_node(&self, iid: InternalNodeId) -> (r: bool)
        ensures
            r == self.tombstoned(iid),
    ;

    fn resolve_node_labels(&self, iid: InternalNodeId) -> (r: Option<Vec<LabelId>>)
        ensures
            match r {
                Some(ids) => self.labels_of(iid) == Some(ids@),
                None => self.labels_of(iid) is None,
            },
    ;

    fn resolve_label_id(&self, name: &str) -> (r: Option<LabelId>)
        ensures
            r == self.label_named(name@),
    ;

    fn resolve_label_name(&self, id: LabelId) -> (r: Option<String>)
        ensures
            match r {
                Some(name) => self.label_name(id) == Some(name@),
                None => self.label_name(id) is None,
            },
    ;

    fn resolve_rel_type_name(&self, id: RelTypeId) -> (r: Option<String>)
        ensures
            match r {
                Some(name) => self.rel_type_name(id) == Some(name@),
                None => self.rel_type_name(id) is None,
            },
    ;

    fn node_properties(&self, iid: InternalNodeId) -> (r: Option<Vec<(String, PropertyValue)>>)
        ensures
            match r {
                Some(props) => self.node_props(iid) == Some(api_dict_view(props@)) && prop_map_keyed(api_dict_view(props@)),
                None => self.node_props(iid) is None,
            },
    ;

    fn edge_properties(&self, key: EdgeKey) -> (r: Option<Vec<(String, PropertyValue)>>)
        ensures
            match r {
                Some(props) => self.edge_props(key) == Some(api_dict_view(props@)) && prop_map_keyed(api_dict_view(props@)),
                None => self.edge_props(key) is None,
            },
    ;
}

/// A graph store that hands out snapshots.
pub trait GraphStore {
    type Snapshot: GraphSnapshot;

    fn snapshot(&self) -> Self::Snapshot;
}

/// The mathematical value of a property: scalars, lists and string-keyed maps (in key order).
/// A float is carried by its IEEE-754 bit pattern.
pub enum PropView {
    Null,
    Bool(bool),
    Int(i64),
    Float(u64),
    String(Seq<char>),
    DateTime(i64),
    Blob(Seq<u8>),
    List(Seq<PropView>),
    Dict(Seq<(Seq<char>, PropView)>),
}

/// A property value as the graph API hands it out.
#[derive(Debug, PartialEq)]
pub enum PropertyValue {
    Null,
    Bool(bool),
    Int(i64),
    /// A float, by its IEEE-754 bit pattern.
    Float(u64),
    String(String),
    DateTime(i64),
    Blob(Vec<u8>),
    List(Vec<PropertyValue>),
    /// A map from property key to value, in key order.
    Dict(Vec<(String, PropertyValue)>),
}

pub open spec fn api_prop_view(v: PropertyValue) -> PropView
    decreases v,
{
    match v {
        PropertyValue::Null => PropView::Null,
        PropertyValue::Bool(b) => PropView::Bool(b),
        PropertyValue::Int(i) => PropView::Int(i),
        PropertyValue::Float(f) => PropView::Float(f),
        PropertyValue::String(s) => PropView::String(s@),
        PropertyValue::DateTime(t) => PropView::DateTime(t),
        PropertyValue::Blob(b) => PropView::Blob(b@),
        PropertyValue::List(items) => PropView::List(api_list_view(items@)),
        PropertyValue::Dict(entries) => PropView::Dict(api_dict_view(entries@)),
    }
}

pub open spec fn api_list_view(s: Seq<PropertyValue>) -> Seq<PropView>
    decreases s,
{
    if s.len() == 0 {
        Seq::empty()
    } else {
        seq![api_prop_view(s[0])] + api_list_view(s.drop_first())
    }
}

pub open spec fn api_dict_view(s: Seq<(String, PropertyValue)>) -> Seq<(Seq<char>, PropView)>
    decreases s,
{
    if s.len() == 0 {
        Seq::empty()
    } else {
        seq![(s[0].0@, api_prop_view(s[0].1))] + api_dict_view(s.drop_first())
    }
}

/// The entries are in strictly increasing key order, so their keys are sorted and
/// distinct: the entries of a map.
pub open spec fn keys_ordered<V>(s: Seq<(Seq<char>, V)>) -> bool {
    forall|i: int, j: int| 0 <= i < j < s.len() ==> seq_less(#[trigger] s[i].0, #[trigger] s[j].0)
}

/// Every map inside the property value, at any depth, has its keys in order.
pub open spec fn prop_keyed(p: PropView) -> bool
    decreases p,
{
    match p {
        PropView::List(items) => prop_list_keyed(items),
        PropView::Dict(entries) => keys_ordered(entries) && prop_dict_keyed(entries),
        _ => true,
    }
}

pub open spec fn prop_list_keyed(s: Seq<PropView>) -> bool
    decreases s,
{
    s.len() == 0 || (prop_keyed(s[0]) && prop_list_keyed(s.drop_first()))
}

pub open spec fn prop_dict_keyed(s: Seq<(Seq<char>, PropView)>) -> bool
    decreases s,
{
    s.len() == 0 || (prop_keyed(s[0].1) && prop_dict_keyed(s.drop_first()))
}

/// A property map as a graph hands it out: keys in order, and every map inside it too.
pub open spec fn prop_map_keyed(s: Seq<(Seq<char>, PropView)>) -> bool {
    keys_ordered(s) && prop_dict_keyed(s)
}

impl View for PropertyValue {
    type V = PropView;

    open spec fn view(&self) -> PropView {
        api_prop_view(*self)
    }
}

} // verus!
