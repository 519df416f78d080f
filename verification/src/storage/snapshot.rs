//! A read snapshot of the storage engine: the runs and segments that edges are read from,
//! and the catalogs of relationship types and nodes.
use crate::storage::api::{
    self, api_dict_view, prop_map_keyed, ExternalId, GraphSnapshot, InternalNodeId, LabelId, PropView, RelTypeId,
};
use crate::storage::convert::{api_edge_to_internal, dict_to_api, internal_edge_to_api, EdgeKey};
use crate::storage::property::{storage_dict_view, PropertyValue};
use crate::storage::read_path::{
    law_walk_edges_fit, run_tomb_nodes, walk, CsrSegment, IncomingNeighborsIter, L0Run, NeighborsIter,
};
use crate::text::str_equal;
use std::sync::Arc;
use vstd::prelude::*;

verus! {

/// A node of the catalog: its internal id, its external id and its label.
#[derive(Debug, Clone, Copy, PartialEq, Eq, Structural)]
pub struct NodeEntry {
    pub iid: InternalNodeId,
    pub external: ExternalId,
    pub label: Option<LabelId>,
}

/// A read snapshot.
pub struct Snapshot {
    runs: Arc<Vec<Arc<L0Run>>>,
    segments: Arc<Vec<Arc<CsrSegment>>>,
    rel_types: Vec<String>,
    label_names: Vec<String>,
    nodes: Vec<NodeEntry>,
    node_props: Vec<(InternalNodeId, Vec<(String, PropertyValue)>)>,
    edge_props: Vec<(EdgeKey, Vec<(String, PropertyValue)>)>,
}

pub open spec fn to_api(e: EdgeKey) -> api::EdgeKey {
    api::EdgeKey { src: e.src, rel: e.rel, dst: e.dst }
}

/// The position of the first name equal to `name`.
pub open spec fn name_position(names: Seq<String>, name: Seq<char>) -> Option<int>
    decreases names.len(),
{
    if names.len() == 0 {
        None
    } else if names.last()@ == name && name_position(names.drop_last(), name) is None {
        Some(names.len() - 1)
    } else {
        name_position(names.drop_last(), name)
    }
}

/// The first catalog entry of a node.
pub open spec fn entry_of(nodes: Seq<NodeEntry>, iid: InternalNodeId) -> Option<NodeEntry>
    decreases nodes.len(),
{
    if nodes.len() == 0 {
        None
    } else if nodes[0].iid == iid {
        Some(nodes[0])
    } else {
        entry_of(nodes.drop_first(), iid)
    }
}

/// The catalog's nodes that no run deletes, in order.
pub open spec fn live_nodes(nodes: Seq<NodeEntry>, runs: Seq<Arc<L0Run>>) -> Seq<InternalNodeId>
    decreases nodes.len(),
{
    if nodes.len() == 0 {
        Seq::empty()
    } else {
        let p = live_nodes(nodes.drop_last(), runs);
        if deleted_in(runs, nodes.last().iid) { p } else { p.push(nodes.last().iid) }
    }
}

/// The properties of the first entry for `key` in a property table.
pub open spec fn props_of<K>(table: Seq<(K, Vec<(String, PropertyValue)>)>, key: K) -> Option<Seq<(Seq<char>, PropView)>>
    decreases table.len(),
{
    if table.len() == 0 {
        None
    } else if table[0].0 == key {
        Some(storage_dict_view(table[0].1@))
    } else {
        props_of(table.drop_first(), key)
    }
}

/// The name at position `id` of a catalog of names.
pub open spec fn name_at(names: Seq<String>, id: u32) -> Option<Seq<char>> {
    if id < names.len() {
        Some(names[id as int]@)
    } else {
        None
    }
}

/// Some run deletes the node.
pub open spec fn deleted_in(runs: Seq<Arc<L0Run>>, iid: InternalNodeId) -> bool {
    exists|k: int| 0 <= k < runs.len() && #[trigger] run_tomb_nodes(*runs[k]).contains(iid)
}

impl Snapshot {
    #[verifier::type_invariant]
    spec fn inv(self) -> bool {
        &&& self.rel_types@.len() <= u32::MAX
        &&& self.label_names@.len() <= u32::MAX
        &&& forall|i: int| 0 <= i < self.node_props@.len() ==> prop_map_keyed(storage_dict_view(#[trigger] self.node_props@[i].1@))
        &&& forall|i: int| 0 <= i < self.edge_props@.len() ==> prop_map_keyed(storage_dict_view(#[trigger] self.edge_props@[i].1@))
    }

    /// A snapshot of the given runs (newest first) and segments, with relationship type `i`
    /// named `rel_types[i]`, label `i` named `label_names[i]`, the given node catalog, and
    /// the properties of nodes and edges (the first entry of a node or edge counts).
    pub fn new(
        runs: Arc<Vec<Arc<L0Run>>>,
        segments: Arc<Vec<Arc<CsrSegment>>>,
        rel_types: Vec<String>,
        label_names: Vec<String>,
        nodes: Vec<NodeEntry>,
        node_props: Vec<(InternalNodeId, Vec<(String, PropertyValue)>)>,
        edge_props: Vec<(EdgeKey, Vec<(String, PropertyValue)>)>,
    ) -> (s: Snapshot)
        requires
            rel_types@.len() <= u32::MAX,
            label_names@.len() <= u32::MAX,
            forall|i: int| 0 <= i < node_props@.len() ==> prop_map_keyed(storage_dict_view(#[trigger] node_props@[i].1@)),
            forall|i: int| 0 <= i < edge_props@.len() ==> prop_map_keyed(storage_dict_view(#[trigger] edge_props@[i].1@)),
        ensures
            s.runs_view() == runs@,
            s.segments_view() == segments@,
            s.rel_types_view() == rel_types@,
            s.label_names_view() == label_names@,
            s.nodes_view() == nodes@,
            s.node_props_view() == node_props@,
            s.edge_props_view() == edge_props@,
    {
        Snapshot { runs, segments, rel_types, label_names, nodes, node_props, edge_props }
    }

    pub closed spec fn runs_view(&self) -> Seq<Arc<L0Run>> {
        self.runs@
    }

    pub closed spec fn segments_view(&self) -> Seq<Arc<CsrSegment>> {
        self.segments@
    }

    pub closed spec fn rel_types_view(&self) -> Seq<String> {
        self.rel_types@
    }

    pub closed spec fn nodes_view(&self) -> Seq<NodeEntry> {
        self.nodes@
    }

    pub closed spec fn label_names_view(&self) -> Seq<String> {
        self.label_names@
    }

    pub closed spec fn node_props_view(&self) -> Seq<(InternalNodeId, Vec<(String, PropertyValue)>)> {
        self.node_props@
    }

    pub closed spec fn edge_props_view(&self) -> Seq<(EdgeKey, Vec<(String, PropertyValue)>)> {
        self.edge_props@
    }
}

fn edges_to_api(edges: Vec<EdgeKey>) -> (r: Vec<api::EdgeKey>)
    ensures
        r@ == edges@.map_values(|e: EdgeKey| to_api(e)),
{
    let mut out: Vec<api::EdgeKey> = Vec::new();
    let mut i: usize = 0;
    while i < edges.len()
        invariant
            i <= edges@.len(),
            out@ == edges@.take(i as int).map_values(|e: EdgeKey| to_api(e)),
        decreases edges@.len() - i,
    {
        out.push(internal_edge_to_api(edges[i]));
        proof {
            assert(edges@.take(i + 1).map_values(|e: EdgeKey| to_api(e))
                =~= edges@.take(i as int).map_values(|e: EdgeKey| to_api(e)).push(to_api(edges@[i as int])));
        }
        i = i + 1;
    }
    proof {
        assert(edges@.take(i as int) =~= edges@);
    }
    out
}

impl GraphSnapshot for Snapshot {
    open spec fn out_edges(&self, src: InternalNodeId, rel: Option<RelTypeId>) -> Seq<api::EdgeKey> {
        walk(self.runs_view(), self.segments_view(), src, rel, false).map_values(|e: EdgeKey| to_api(e))
    }

    open spec fn in_edges(&self, dst: InternalNodeId, rel: Option<RelTypeId>) -> Seq<api::EdgeKey> {
        walk(self.runs_view(), self.segments_view(), dst, rel, true).map_values(|e: EdgeKey| to_api(e))
    }

    open spec fn rel_type_named(&self, name: Seq<char>) -> Option<RelTypeId> {
        match name_position(self.rel_types_view(), name) {
            Some(i) => Some(i as u32),
            None => None,
        }
    }

    open spec fn node_seq(&self) -> Seq<InternalNodeId> {
        live_nodes(self.nodes_view(), self.runs_view())
    }

    open spec fn external_of(&self, iid: InternalNodeId) -> Option<ExternalId> {
        match entry_of(self.nodes_view(), iid) {
            Some(n) => Some(n.external),
            None => None,
        }
    }

    open spec fn label_of(&self, iid: InternalNodeId) -> Option<LabelId> {
        match entry_of(self.nodes_view(), iid) {
            Some(n) => n.label,
            None => None,
        }
    }

    open spec fn tombstoned(&self, iid: InternalNodeId) -> bool {
        deleted_in(self.runs_view(), iid)
    }

    open spec fn labels_of(&self, iid: InternalNodeId) -> Option<Seq<LabelId>> {
        match entry_of(self.nodes_view(), iid) {
            Some(n) => Some(
                match n.label {
                    Some(l) => seq![l],
                    None => Seq::empty(),
                },
            ),
            None => None,
        }
    }

    open spec fn label_name(&self, id: LabelId) -> Option<Seq<char>> {
        name_at(self.label_names_view(), id)
    }

    open spec fn label_named(&self, name: Seq<char>) -> Option<LabelId> {
        match name_position(self.label_names_view(), name) {
            Some(i) => Some(i as u32),
            None => None,
        }
    }

    open spec fn rel_type_name(&self, id: RelTypeId) -> Option<Seq<char>> {
        name_at(self.rel_types_view(), id)
    }

    open spec fn node_props(&self, iid: InternalNodeId) -> Option<Seq<(Seq<char>, PropView)>> {
        props_of(self.node_props_view(), iid)
    }

    open spec fn edge_props(&self, key: api::EdgeKey) -> Option<Seq<(Seq<char>, PropView)>> {
        props_of(self.edge_props_view(), EdgeKey { src: key.src, rel: key.rel, dst: key.dst })
    }

    fn neighbors(&self, src: InternalNodeId, rel: Option<RelTypeId>) -> (r: Vec<api::EdgeKey>) {
        let mut it = NeighborsIter::new(self.runs.clone(), self.segments.clone(), src, rel);
        let edges = it.collect_remaining();
        proof {
            law_walk_edges_fit(self.runs@, self.segments@, src, rel, false);
        }
        edges_to_api(edges)
    }

    fn incoming_neighbors(&self, dst: InternalNodeId, rel: Option<RelTypeId>) -> (r: Vec<api::EdgeKey>) {
        let mut it = IncomingNeighborsIter::new(self.runs.clone(), self.segments.clone(), dst, rel);
        let edges = it.collect_remaining();
        proof {
            law_walk_edges_fit(self.runs@, self.segments@, dst, rel, true);
        }
        edges_to_api(edges)
    }

    fn resolve_rel_type_id(&self, name: &str) -> (r: Option<RelTypeId>) {
        proof {
            use_type_invariant(self);
        }
        position_of(&self.rel_types, name)
    }

    fn nodes(&self) -> (r: Vec<InternalNodeId>) {
        let mut out: Vec<InternalNodeId> = Vec::new();
        let mut i: usize = 0;
        while i < self.nodes.len()
            invariant
                i <= self.nodes@.len(),
                out@ == live_nodes(self.nodes@.take(i as int), self.runs@),
            decreases self.nodes@.len() - i,
        {
            proof {
                assert(self.nodes@.take(i + 1).drop_last() =~= self.nodes@.take(i as int));
            }
            let iid = self.nodes[i].iid;
            if !self.is_tombstoned_node(iid) {
                out.push(iid);
            }
            i = i + 1;
        }
        proof {
            assert(self.nodes@.take(i as int) =~= self.nodes@);
        }
        out
    }

    fn resolve_external(&self, iid: InternalNodeId) -> (r: Option<ExternalId>) {
        match find_entry(&self.nodes, iid) {
            Some(n) => Some(n.external),
            None => None,
        }
    }

    fn node_label(&self, iid: InternalNodeId) -> (r: Option<LabelId>) {
        match find_entry(&self.nodes, iid) {
            Some(n) => n.label,
            None => None,
        }
    }

    fn is_tombstoned_node(&self, iid: InternalNodeId) -> (r: bool) {
        let mut k: usize = 0;
        while k < self.runs.len()
            invariant
                k <= self.runs@.len(),
                forall|q: int| 0 <= q < k ==> !(#[trigger] run_tomb_nodes(*self.runs@[q])).contains(iid),
            decreases self.runs@.len() - k,
        {
            let run: &L0Run = &self.runs[k];
            let mut j: usize = 0;
            while j < run.tombstoned_nodes.len()
                invariant
                    j <= run.tombstoned_nodes@.len(),
                    k < self.runs@.len(),
                    *run == *self.runs@[k as int],
                    forall|q: int| 0 <= q < j ==> run.tombstoned_nodes@[q] != iid,
                decreases run.tombstoned_nodes@.len() - j,
            {
                if run.tombstoned_nodes[j] == iid {
                    proof {
                        assert(run.tombstoned_nodes@[j as int] == iid);
                        assert(run.tombstoned_nodes@.contains(iid));
                        assert(*run == *self.runs@[k as int]);
                        assert(run_tomb_nodes(*self.runs@[k as int]).contains(iid));
                    }
                    return true;
                }
                j = j + 1;
            }
            proof {
                assert(!run.tombstoned_nodes@.contains(iid)) by {
                    if run.tombstoned_nodes@.contains(iid) {
                        let q = choose|q: int| 0 <= q < run.tombstoned_nodes@.len() && run.tombstoned_nodes@[q] == iid;
                    }
                }
                assert(*run == *self.runs@[k as int]);
                assert(!run_tomb_nodes(*self.runs@[k as int]).contains(iid));
            }
            k = k + 1;
        }
        false
    }

    fn resolve_node_labels(&self, iid: InternalNodeId) -> (r: Option<Vec<LabelId>>) {
        match find_entry(&self.nodes, iid) {
            Some(n) => {
                let mut ids: Vec<LabelId> = Vec::new();
                if let Some(l) = n.label {
                    ids.push(l);
                }
                proof {
                    assert(ids@ =~= match n.label {
                        Some(l) => seq![l],
                        None => Seq::<LabelId>::empty(),
                    });
                }
                Some(ids)
            },
            None => None,
        }
    }

    fn resolve_label_id(&self, name: &str) -> (r: Option<LabelId>) {
        proof {
            use_type_invariant(self);
        }
        position_of(&self.label_names, name)
    }

    fn resolve_label_name(&self, id: LabelId) -> (r: Option<String>) {
        name_of(&self.label_names, id)
    }

    fn resolve_rel_type_name(&self, id: RelTypeId) -> (r: Option<String>) {
        name_of(&self.rel_types, id)
    }

    fn node_properties(&self, iid: InternalNodeId) -> (r: Option<Vec<(String, api::PropertyValue)>>) {
        proof {
            use_type_invariant(self);
        }
        let mut i: usize = 0;
        proof {
            assert(self.node_props@.skip(0) =~= self.node_props@);
        }
        while i < self.node_props.len()
            invariant
                i <= self.node_props@.len(),
                props_of(self.node_props@, iid) == props_of(self.node_props@.skip(i as int), iid),
                forall|j: int| 0 <= j < self.node_props@.len() ==> prop_map_keyed(storage_dict_view(#[trigger] self.node_props@[j].1@)),
            decreases self.node_props@.len() - i,
        {
            proof {
                assert(self.node_props@.skip(i as int).drop_first() =~= self.node_props@.skip(i + 1));
                assert(self.node_props@.skip(i as int)[0] == self.node_props@[i as int]);
            }
            if self.node_props[i].0 == iid {
                return Some(dict_to_api(&self.node_props[i].1));
            }
            i = i + 1;
        }
        None
    }

    fn edge_properties(&self, key: api::EdgeKey) -> (r: Option<Vec<(String, api::PropertyValue)>>) {
        proof {
            use_type_invariant(self);
        }
        let k = api_edge_to_internal(key);
        let ghost target = EdgeKey { src: key.src, rel: key.rel, dst: key.dst };
        let mut i: usize = 0;
        proof {
            assert(self.edge_props@.skip(0) =~= self.edge_props@);
        }
        while i < self.edge_props.len()
            invariant
                i <= self.edge_props@.len(),
                k == target,
                target == (EdgeKey { src: key.src, rel: key.rel, dst: key.dst }),
                props_of(self.edge_props@, target) == props_of(self.edge_props@.skip(i as int), target),
                forall|j: int| 0 <= j < self.edge_props@.len() ==> prop_map_keyed(storage_dict_view(#[trigger] self.edge_props@[j].1@)),
            decreases self.edge_props@.len() - i,
        {
            proof {
                assert(self.edge_props@.skip(i as int).drop_first() =~= self.edge_props@.skip(i + 1));
                assert(self.edge_props@.skip(i as int)[0] == self.edge_props@[i as int]);
            }
            let e = self.edge_props[i].0;
            if e.src == k.src && e.rel == k.rel && e.dst == k.dst {
                proof {
                    assert(self.edge_props@[i as int].0 == target);
                }
                return Some(dict_to_api(&self.edge_props[i].1));
            }
            i = i + 1;
        }
        None
    }
}

/// The position of the first name equal to `name` in a catalog of names.
fn position_of(names: &Vec<String>, name: &str) -> (r: Option<u32>)
    requires
        names@.len() <= u32::MAX,
    ensures
        r == match name_position(names@, name@) {
            Some(i) => Some(i as u32),
            None => None,
        },
{
    let mut i: usize = 0;
    while i < names.len()
        invariant
            i <= names@.len(),
            names@.len() <= u32::MAX,
            name_position(names@.take(i as int), name@) is None,
        decreases names@.len() - i,
    {
        proof {
            assert(names@.take(i + 1).drop_last() =~= names@.take(i as int));
        }
        if str_equal(names[i].as_str(), name) {
            proof {
                lemma_position_prefix(names@, name@, i as int);
            }
            return Some(i as u32);
        }
        i = i + 1;
    }
    proof {
        assert(names@.take(i as int) =~= names@);
    }
    None
}

/// The name at position `id` of a catalog of names.
fn name_of(names: &Vec<String>, id: u32) -> (r: Option<String>)
    ensures
        match r {
            Some(n) => name_at(names@, id) == Some(n@),
            None => name_at(names@, id) is None,
        },
{
    if (id as usize) < names.len() {
        Some(names[id as usize].clone())
    } else {
        None
    }
}

/// The first catalog entry of `iid`.
fn find_entry(nodes: &Vec<NodeEntry>, iid: InternalNodeId) -> (r: Option<NodeEntry>)
    ensures
        r == entry_of(nodes@, iid),
{
    let mut i: usize = 0;
    proof {
        assert(nodes@.skip(0) =~= nodes@);
    }
    while i < nodes.len()
        invariant
            i <= nodes@.len(),
            entry_of(nodes@, iid) == entry_of(nodes@.skip(i as int), iid),
        decreases nodes@.len() - i,
    {
        proof {
            assert(nodes@.skip(i as int).drop_first() =~= nodes@.skip(i + 1));
            assert(nodes@.skip(i as int)[0] == nodes@[i as int]);
        }
        if nodes[i].iid == iid {
            return Some(nodes[i]);
        }
        i = i + 1;
    }
    None
}

/// A name found at `i` with no earlier match is the first match.
proof fn lemma_position_prefix(names: Seq<String>, name: Seq<char>, i: int)
    requires
        0 <= i < names.len(),
        names[i]@ == name,
        name_position(names.take(i), name) is None,
    ensures
        name_position(names, name) == Some(i),
    decreases names.len(),
{
    if names.len() > i + 1 {
        assert(names.drop_last().take(i) =~= names.take(i));
        lemma_position_prefix(names.drop_last(), name, i);
    } else {
        assert(names.drop_last() =~= names.take(i));
    }
}

} // verus!
