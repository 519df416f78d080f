//! Offline bulk loading: nodes and edges are buffered, checked for consistency, and given
//! internal ids and label ids before they are written out.
use crate::storage::api::{ExternalId, InternalNodeId, LabelId};
use crate::storage::property::PropertyValue;
use crate::text::str_equal;
use std::collections::BTreeMap;
use vstd::prelude::*;

verus! {

broadcast use {vstd::std_specs::btree::group_btree_axioms, vstd::laws_cmp::group_laws_cmp};

/// The errors of the storage engine that bulk loading can report.
#[derive(Debug)]
pub enum StorageError {
    /// The data or the target violates the loading protocol; the text says how.
    WalProtocol(String),
}

/// The message of a storage error.
pub open spec fn storage_error_message(e: StorageError) -> Seq<char> {
    match e {
        StorageError::WalProtocol(m) => m@,
    }
}

/// A node to be bulk-loaded into the database.
#[derive(Debug)]
pub struct BulkNode {
    pub external_id: ExternalId,
    pub label: String,
    pub properties: BTreeMap<String, PropertyValue>,
}

/// An edge to be bulk-loaded into the database.
#[derive(Debug)]
pub struct BulkEdge {
    pub src_external_id: ExternalId,
    pub rel_type: String,
    pub dst_external_id: ExternalId,
    pub properties: BTreeMap<String, PropertyValue>,
}

pub open spec fn msg_exists() -> Seq<char> {
    "Database file already exists. BulkLoader only works with new databases."@
}

pub open spec fn msg_duplicate() -> Seq<char> {
    "Duplicate external_id in bulk load"@
}

pub open spec fn msg_bad_src() -> Seq<char> {
    "Edge src_external_id references non-existent node"@
}

pub open spec fn msg_bad_dst() -> Seq<char> {
    "Edge dst_external_id references non-existent node"@
}

/// The external ids of the nodes, in order.
pub open spec fn node_ids(nodes: Seq<BulkNode>) -> Seq<ExternalId> {
    nodes.map_values(|n: BulkNode| n.external_id)
}

/// The labels of the nodes, in order.
pub open spec fn node_labels(nodes: Seq<BulkNode>) -> Seq<Seq<char>> {
    nodes.map_values(|n: BulkNode| n.label@)
}

/// No id occurs twice.
pub open spec fn all_distinct(ids: Seq<ExternalId>) -> bool {
    forall|i: int, j: int| 0 <= i < j < ids.len() ==> ids[i] != ids[j]
}

/// The message of the first edge, in order, whose source or destination (checked in that
/// order) is not among `ids`; none if every edge is sound.
pub open spec fn first_edge_fault(ids: Seq<ExternalId>, edges: Seq<BulkEdge>) -> Option<Seq<char>>
    decreases edges.len(),
{
    if edges.len() == 0 {
        None
    } else if !ids.contains(edges[0].src_external_id) {
        Some(msg_bad_src())
    } else if !ids.contains(edges[0].dst_external_id) {
        Some(msg_bad_dst())
    } else {
        first_edge_fault(ids, edges.drop_first())
    }
}

/// What validation finds wrong with a batch, if anything: duplicate node ids first, then
/// the first edge that references a missing node.
pub open spec fn batch_fault(nodes: Seq<BulkNode>, edges: Seq<BulkEdge>) -> Option<Seq<char>> {
    if !all_distinct(node_ids(nodes)) {
        Some(msg_duplicate())
    } else {
        first_edge_fault(node_ids(nodes), edges)
    }
}

/// The labels in order of first occurrence, each once.
pub open spec fn first_occurrences(labels: Seq<Seq<char>>) -> Seq<Seq<char>>
    decreases labels.len(),
{
    if labels.len() == 0 {
        Seq::empty()
    } else {
        let d = first_occurrences(labels.drop_last());
        if d.contains(labels.last()) {
            d
        } else {
            d.push(labels.last())
        }
    }
}

/// The first occurrences of a sequence hold exactly its elements, each once.
pub proof fn lemma_first_occurrences(labels: Seq<Seq<char>>)
    ensures
        first_occurrences(labels).no_duplicates(),
        forall|x: Seq<char>| #[trigger] first_occurrences(labels).contains(x) <==> labels.contains(x),
        first_occurrences(labels).len() <= labels.len(),
    decreases labels.len(),
{
    if labels.len() > 0 {
        let init = labels.drop_last();
        lemma_first_occurrences(init);
        assert forall|x: Seq<char>| #[trigger] labels.contains(x) <==> init.contains(x) || x == labels.last() by {
            if labels.contains(x) {
                let j = choose|j: int| 0 <= j < labels.len() && labels[j] == x;
                if j < labels.len() - 1 {
                    assert(init[j] == x);
                }
            }
            if init.contains(x) {
                let j = choose|j: int| 0 <= j < init.len() && init[j] == x;
                assert(labels[j] == x);
            }
            if x == labels.last() {
                assert(labels[labels.len() - 1] == x);
            }
        }
        let d = first_occurrences(init);
        if !d.contains(labels.last()) {
            assert forall|x: Seq<char>| #[trigger] d.push(labels.last()).contains(x) <==> d.contains(x) || x == labels.last() by {
                if d.push(labels.last()).contains(x) {
                    let j = choose|j: int| 0 <= j < d.push(labels.last()).len() && d.push(labels.last())[j] == x;
                    if j < d.len() {
                        assert(d[j] == x);
                    }
                }
                if d.contains(x) {
                    let j = choose|j: int| 0 <= j < d.len() && d[j] == x;
                    assert(d.push(labels.last())[j] == x);
                }
                if x == labels.last() {
                    assert(d.push(labels.last())[d.len() as int] == x);
                }
            }
        }
    }
}

/// The ids that a committed batch receives: node `i` gets internal id `i`; labels are
/// numbered in order of first occurrence.
pub struct BulkIdAssignment {
    pub external_to_internal: BTreeMap<ExternalId, InternalNodeId>,
    pub node_labels: Vec<LabelId>,
    pub label_names: Vec<String>,
}

impl BulkIdAssignment {
    /// The assignment for the nodes `nodes` (whose ids are distinct).
    pub open spec fn assigns(&self, nodes: Seq<BulkNode>) -> bool {
        &&& forall|k: ExternalId| #[trigger] self.external_to_internal@.contains_key(k) <==> node_ids(nodes).contains(k)
        &&& forall|i: int| 0 <= i < nodes.len() ==> self.external_to_internal@[#[trigger] nodes[i].external_id] == i
        &&& self.label_names@.map_values(|s: String| s@) == first_occurrences(node_labels(nodes))
        &&& self.node_labels@.len() == nodes.len()
        &&& forall|i: int| 0 <= i < nodes.len() ==> {
            &&& #[trigger] self.node_labels@[i] < self.label_names@.len()
            &&& self.label_names@[self.node_labels@[i] as int]@ == nodes[i].label@
        }
    }
}

/// Offline bulk loader: buffers nodes and edges for a database that does not exist yet.
pub struct BulkLoader {
    db_path: String,
    wal_path: String,
    nodes: Vec<BulkNode>,
    edges: Vec<BulkEdge>,
}

/// Calls `Path::with_extension` and returns the path as text. `PathBuf::set_extension`,
/// which it uses, panics on an extension that holds a path separator, so the extension
/// holds neither `/` nor `\`. Which part of the text is the file name depends on the
/// platform's path separators, so nothing is stated of the result.
#[verifier::external_body]
fn with_extension(path: &str, extension: &str) -> (r: String)
    requires
        !extension@.contains('/'),
        !extension@.contains('\\'),
{
    std::path::Path::new(path).with_extension(extension).to_string_lossy().into_owned()
}

impl BulkLoader {
    /// The buffered nodes, in the order added.
    pub closed spec fn nodes_view(&self) -> Seq<BulkNode> {
        self.nodes@
    }

    /// The buffered edges, in the order added.
    pub closed spec fn edges_view(&self) -> Seq<BulkEdge> {
        self.edges@
    }

    /// The path of the log of the database to create.
    pub closed spec fn wal_path_view(&self) -> Seq<char> {
        self.wal_path@
    }

    /// The path of the database to create.
    pub closed spec fn db_path_view(&self) -> Seq<char> {
        self.db_path@
    }

    /// Creates a loader for a new database at `db_path`; `db_exists` says whether something
    /// already exists at that path, in which case the loader is refused. The WAL goes next
    /// to the database, under the extension `wal`.
    pub fn new(db_path: String, db_exists: bool) -> (r: Result<BulkLoader, StorageError>)
        ensures
            db_exists <==> r is Err,
            r matches Err(e) ==> storage_error_message(e) == msg_exists(),
            r matches Ok(l) ==> l.nodes_view().len() == 0 && l.edges_view().len() == 0
                && l.db_path_view() == db_path@,
    {
        if db_exists {
            return Err(StorageError::WalProtocol(String::from_str(
                "Database file already exists. BulkLoader only works with new databases.",
            )));
        }
        proof {
            reveal_strlit("Database file already exists. BulkLoader only works with new databases.");
            reveal_strlit("wal");
        }
        let wal_path = with_extension(db_path.as_str(), "wal");
        Ok(BulkLoader { db_path, wal_path, nodes: Vec::new(), edges: Vec::new() })
    }

    /// Buffers a node until `commit`. A node whose external id is already buffered is
    /// refused, and the batch is left as it was.
    pub fn add_node(&mut self, node: BulkNode) -> (r: Result<(), StorageError>)
        ensures
            node_ids(old(self).nodes_view()).contains(node.external_id) <==> r is Err,
            r matches Err(e) ==> storage_error_message(e) == msg_duplicate()
                && final(self).nodes_view() == old(self).nodes_view(),
            r is Ok ==> final(self).nodes_view() == old(self).nodes_view().push(node),
            final(self).edges_view() == old(self).edges_view(),
            final(self).db_path_view() == old(self).db_path_view(),
    {
        let mut i: usize = 0;
        while i < self.nodes.len()
            invariant
                i <= self.nodes@.len(),
                forall|j: int| 0 <= j < i ==> self.nodes@[j].external_id != node.external_id,
            decreases self.nodes@.len() - i,
        {
            if self.nodes[i].external_id == node.external_id {
                proof {
                    assert(node_ids(self.nodes@)[i as int] == node.external_id);
                }
                return Err(StorageError::WalProtocol(String::from_str("Duplicate external_id in bulk load")));
            }
            i = i + 1;
        }
        proof {
            reveal_strlit("Duplicate external_id in bulk load");
            assert(!node_ids(self.nodes@).contains(node.external_id)) by {
                if node_ids(self.nodes@).contains(node.external_id) {
                    let j = choose|j: int| 0 <= j < node_ids(self.nodes@).len() && node_ids(self.nodes@)[j] == node.external_id;
                    assert(self.nodes@[j].external_id == node.external_id);
                }
            }
        }
        self.nodes.push(node);
        Ok(())
    }

    /// Buffers an edge until `commit`, which checks that its end points are nodes of the
    /// batch.
    pub fn add_edge(&mut self, edge: BulkEdge) -> (r: Result<(), StorageError>)
        ensures
            r is Ok,
            final(self).edges_view() == old(self).edges_view().push(edge),
            final(self).nodes_view() == old(self).nodes_view(),
            final(self).db_path_view() == old(self).db_path_view(),
    {
        self.edges.push(edge);
        Ok(())
    }

    /// Gives node `i` the internal id `i`, and each label the id of its first occurrence
    /// among the labels of the batch.
    fn build_idmap_and_labels(&self) -> (r: BulkIdAssignment)
        requires
            all_distinct(node_ids(self.nodes_view())),
            self.nodes_view().len() <= u32::MAX + 1,
        ensures
            r.assigns(self.nodes_view()),
    {
        let ghost labels = node_labels(self.nodes@);
        let ghost ids = node_ids(self.nodes@);
        let mut external_to_internal: BTreeMap<ExternalId, InternalNodeId> = BTreeMap::new();
        let mut label_ids: Vec<LabelId> = Vec::new();
        let mut names: Vec<String> = Vec::new();
        let mut i: usize = 0;
        proof {
            assert(labels.take(0) =~= Seq::<Seq<char>>::empty());
            assert(names@.map_values(|s: String| s@) =~= Seq::<Seq<char>>::empty());
        }
        while i < self.nodes.len()
            invariant
                i <= self.nodes@.len(),
                self.nodes@.len() <= u32::MAX + 1,
                labels == node_labels(self.nodes@),
                ids == node_ids(self.nodes@),
                all_distinct(ids),
                forall|k: ExternalId| #[trigger] external_to_internal@.contains_key(k) <==> ids.take(i as int).contains(k),
                forall|j: int| 0 <= j < i ==> external_to_internal@[#[trigger] self.nodes@[j].external_id] == j,
                names@.map_values(|s: String| s@) == first_occurrences(labels.take(i as int)),
                label_ids@.len() == i,
                forall|j: int| 0 <= j < i ==> {
                    &&& #[trigger] label_ids@[j] < names@.len()
                    &&& names@[label_ids@[j] as int]@ == self.nodes@[j].label@
                },
            decreases self.nodes@.len() - i,
        {
            let node = &self.nodes[i];
            let ghost before = names@.map_values(|s: String| s@);
            proof {
                lemma_first_occurrences(labels.take(i as int));
                assert(labels.take(i + 1).drop_last() =~= labels.take(i as int));
                assert(labels.take(i + 1).last() == node.label@);
                assert(ids[i as int] == node.external_id);
            }
            let mut j: usize = 0;
            let mut found: bool = false;
            while j < names.len()
                invariant_except_break
                    !found,
                invariant
                    j <= names@.len(),
                    forall|q: int| 0 <= q < j ==> names@[q]@ != node.label@,
                ensures
                    found ==> j < names@.len() && names@[j as int]@ == node.label@,
                    !found ==> j == names@.len(),
                decreases names@.len() - j,
            {
                if str_equal(names[j].as_str(), node.label.as_str()) {
                    found = true;
                    break;
                }
                j = j + 1;
            }
            let label_id: LabelId;
            if found {
                label_id = j as LabelId;
                proof {
                    assert(before[j as int] == node.label@);
                    assert(before.contains(node.label@));
                }
            } else {
                proof {
                    assert(!before.contains(node.label@)) by {
                        if before.contains(node.label@) {
                            let q = choose|q: int| 0 <= q < before.len() && before[q] == node.label@;
                            assert(names@[q]@ == node.label@);
                        }
                    }
                    assert(before.len() <= labels.take(i as int).len());
                }
                label_id = names.len() as LabelId;
                names.push(node.label.clone());
                proof {
                    assert(names@.map_values(|s: String| s@) =~= before.push(node.label@));
                }
            }
            label_ids.push(label_id);
            let ghost old_map = external_to_internal@;
            external_to_internal.insert(node.external_id, i as InternalNodeId);
            proof {
                assert forall|k: ExternalId| #[trigger] external_to_internal@.contains_key(k) <==> ids.take(i + 1).contains(k) by {
                    if ids.take(i + 1).contains(k) && k != node.external_id {
                        let q = choose|q: int| 0 <= q < i + 1 && #[trigger] ids.take(i + 1)[q] == k;
                        assert(ids.take(i as int)[q] == k);
                    }
                    if ids.take(i as int).contains(k) {
                        let q = choose|q: int| 0 <= q < i && #[trigger] ids.take(i as int)[q] == k;
                        assert(ids.take(i + 1)[q] == k);
                    }
                    if k == node.external_id {
                        assert(ids.take(i + 1)[i as int] == k);
                    }
                }
                assert forall|q: int| 0 <= q < i + 1 implies external_to_internal@[#[trigger] self.nodes@[q].external_id] == q by {
                    if q < i {
                        assert(ids[q] == self.nodes@[q].external_id);
                        assert(ids[q] != ids[i as int]);
                    }
                }
            }
            i = i + 1;
        }
        proof {
            assert(labels.take(i as int) =~= labels);
            assert(ids.take(i as int) =~= ids);
        }
        BulkIdAssignment { external_to_internal, node_labels: label_ids, label_names: names }
    }

    /// Commits the batch: validates it, then assigns internal ids and label ids, which the
    /// caller writes out with the data.
    pub fn commit(self) -> (r: Result<BulkIdAssignment, StorageError>)
        requires
            self.nodes_view().len() <= u32::MAX + 1,
        ensures
            match batch_fault(self.nodes_view(), self.edges_view()) {
                None => r matches Ok(a) && a.assigns(self.nodes_view()),
                Some(m) => r matches Err(e) && storage_error_message(e) == m,
            },
    {
        let checked = self.validate();
        if let Err(e) = checked {
            return Err(e);
        }
        Ok(self.build_idmap_and_labels())
    }

    /// Where the log of the new database goes: the database path with the extension `wal`.
    pub fn wal_path(&self) -> (r: &str)
        ensures
            r@ == self.wal_path_view(),
    {
        self.wal_path.as_str()
    }

    /// The number of buffered nodes.
    pub fn node_count(&self) -> (n: usize)
        ensures
            n == self.nodes_view().len(),
    {
        self.nodes.len()
    }

    /// The number of buffered edges.
    pub fn edge_count(&self) -> (n: usize)
        ensures
            n == self.edges_view().len(),
    {
        self.edges.len()
    }

    /// Checks the batch: external ids are unique, and every edge's source and destination
    /// are nodes of the batch.
    pub fn validate(&self) -> (r: Result<(), StorageError>)
        ensures
            match batch_fault(self.nodes_view(), self.edges_view()) {
                None => r is Ok,
                Some(m) => r matches Err(e) && storage_error_message(e) == m,
            },
    {
        let ghost ids = node_ids(self.nodes@);
        let mut seen: BTreeMap<ExternalId, usize> = BTreeMap::new();
        let mut i: usize = 0;
        while i < self.nodes.len()
            invariant
                i <= self.nodes@.len(),
                ids == node_ids(self.nodes@),
                forall|k: ExternalId| #[trigger] seen@.contains_key(k) <==> exists|j: int| 0 <= j < i && ids[j] == k,
                forall|a: int, b: int| 0 <= a < b < i ==> ids[a] != ids[b],
            decreases self.nodes@.len() - i,
        {
            let id = self.nodes[i].external_id;
            proof {
                assert(ids[i as int] == id);
            }
            let prev = seen.insert(id, i);
            if prev.is_some() {
                proof {
                    reveal_strlit("Duplicate external_id in bulk load");
                    let j = choose|j: int| 0 <= j < i && ids[j] == id;
                    assert(ids[j] == ids[i as int]);
                    assert(!all_distinct(ids));
                }
                return Err(StorageError::WalProtocol(String::from_str("Duplicate external_id in bulk load")));
            }
            proof {
                assert forall|k: ExternalId| #[trigger] seen@.contains_key(k) <==> exists|j: int| 0 <= j < i + 1 && ids[j] == k by {
                    if k == id {
                        assert(ids[i as int] == k);
                    } else if seen@.contains_key(k) {
                        let j = choose|j: int| 0 <= j < i && ids[j] == k;
                        assert(0 <= j < i + 1 && ids[j] == k);
                    } else if exists|j: int| 0 <= j < i + 1 && ids[j] == k {
                        let j = choose|j: int| 0 <= j < i + 1 && ids[j] == k;
                        assert(j != i);
                    }
                }
            }
            i = i + 1;
        }
        proof {
            assert(all_distinct(ids));
            assert(self.edges@.subrange(0, self.edges@.len() as int) =~= self.edges@);
            assert forall|k: ExternalId| #[trigger] seen@.contains_key(k) <==> ids.contains(k) by {
                if seen@.contains_key(k) {
                    let j = choose|j: int| 0 <= j < i && ids[j] == k;
                    assert(ids[j] == k);
                }
                if ids.contains(k) {
                    let j = choose|j: int| 0 <= j < ids.len() && ids[j] == k;
                    assert(0 <= j < i && ids[j] == k);
                }
            }
        }
        let mut e: usize = 0;
        while e < self.edges.len()
            invariant
                e <= self.edges@.len(),
                ids == node_ids(self.nodes@),
                all_distinct(ids),
                forall|k: ExternalId| #[trigger] seen@.contains_key(k) <==> ids.contains(k),
                batch_fault(self.nodes@, self.edges@) == first_edge_fault(ids, self.edges@.subrange(e as int, self.edges@.len() as int)),
            decreases self.edges@.len() - e,
        {
            let ghost rest = self.edges@.subrange(e as int, self.edges@.len() as int);
            proof {
                assert(rest[0] == self.edges@[e as int]);
                assert(rest.drop_first() =~= self.edges@.subrange(e + 1, self.edges@.len() as int));
            }
            if !seen.contains_key(&self.edges[e].src_external_id) {
                proof {
                    reveal_strlit("Edge src_external_id references non-existent node");
                }
                return Err(StorageError::WalProtocol(String::from_str("Edge src_external_id references non-existent node")));
            }
            if !seen.contains_key(&self.edges[e].dst_external_id) {
                proof {
                    reveal_strlit("Edge dst_external_id references non-existent node");
                }
                return Err(StorageError::WalProtocol(String::from_str("Edge dst_external_id references non-existent node")));
            }
            e = e + 1;
        }
        Ok(())
    }
}

/// A committed batch gives distinct nodes distinct internal ids, and each node the label id
/// of its own label.
pub proof fn law_bulk_ids_are_distinct(a: BulkIdAssignment, nodes: Seq<BulkNode>, i: int, j: int)
    requires
        a.assigns(nodes),
        0 <= i < nodes.len(),
        0 <= j < nodes.len(),
        i != j,
    ensures
        a.external_to_internal@[nodes[i].external_id] != a.external_to_internal@[nodes[j].external_id],
        a.label_names@[a.node_labels@[i] as int]@ == nodes[i].label@,
{
}

} // verus!
