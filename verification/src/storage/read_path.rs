//! The read path of the storage engine: walking the edges of a node through the recent
//! in-memory runs (newest first) and then the compacted segments, skipping what the runs
//! delete.
use crate::storage::api::{InternalNodeId, RelTypeId};
use crate::storage::convert::EdgeKey;
use std::collections::BTreeSet;
use std::sync::Arc;
use vstd::prelude::*;

verus! {

broadcast use {vstd::std_specs::btree::group_btree_axioms, vstd::laws_cmp::group_laws_cmp};

/// A run of recent changes: the edges it creates and the nodes and edges it deletes.
#[derive(Debug)]
pub struct L0Run {
    pub edges: Vec<EdgeKey>,
    pub tombstoned_nodes: Vec<InternalNodeId>,
    pub tombstoned_edges: Vec<EdgeKey>,
}

/// A compacted segment of edges.
#[derive(Debug)]
pub struct CsrSegment {
    pub edges: Vec<EdgeKey>,
}

/// The key by which an edge is found among deleted edges.
pub open spec fn edge_key(e: EdgeKey) -> (u32, u32, u32) {
    (e.src, e.rel, e.dst)
}

/// The edge is at `node`: leaves it (outgoing) or arrives at it (incoming).
pub open spec fn anchored(e: EdgeKey, node: InternalNodeId, incoming: bool) -> bool {
    if incoming { e.dst == node } else { e.src == node }
}

/// The edge has the type asked for, if one is.
pub open spec fn rel_ok(e: EdgeKey, rel: Option<RelTypeId>) -> bool {
    match rel {
        Some(t) => e.rel == t,
        None => true,
    }
}

/// The edge is deleted, or the node at its far end is.
pub open spec fn blocked(e: EdgeKey, nodes: Set<u32>, edges: Set<(u32, u32, u32)>, incoming: bool) -> bool {
    edges.contains(edge_key(e)) || nodes.contains(if incoming { e.src } else { e.dst })
}

/// The edges of a run that are at `node`, in order.
pub open spec fn run_load(s: Seq<EdgeKey>, node: InternalNodeId, incoming: bool) -> Seq<EdgeKey>
    decreases s.len(),
{
    if s.len() == 0 {
        Seq::empty()
    } else {
        let p = run_load(s.drop_last(), node, incoming);
        if anchored(s.last(), node, incoming) { p.push(s.last()) } else { p }
    }
}

/// The edges of a segment that are at `node` and of the type asked for, in order.
pub open spec fn seg_load(s: Seq<EdgeKey>, node: InternalNodeId, rel: Option<RelTypeId>, incoming: bool) -> Seq<EdgeKey>
    decreases s.len(),
{
    if s.len() == 0 {
        Seq::empty()
    } else {
        let p = seg_load(s.drop_last(), node, rel, incoming);
        if anchored(s.last(), node, incoming) && rel_ok(s.last(), rel) { p.push(s.last()) } else { p }
    }
}

/// The loaded edges that are yielded: of the type asked for and not blocked.
pub open spec fn emit(s: Seq<EdgeKey>, rel: Option<RelTypeId>, nodes: Set<u32>, edges: Set<(u32, u32, u32)>, incoming: bool) -> Seq<EdgeKey>
    decreases s.len(),
{
    if s.len() == 0 {
        Seq::empty()
    } else {
        (if rel_ok(s[0], rel) && !blocked(s[0], nodes, edges, incoming) { seq![s[0]] } else { Seq::empty() })
            + emit(s.drop_first(), rel, nodes, edges, incoming)
    }
}

pub open spec fn run_tomb_nodes(r: L0Run) -> Set<u32> {
    r.tombstoned_nodes@.to_set()
}

pub open spec fn run_tomb_edges(r: L0Run) -> Set<(u32, u32, u32)> {
    r.tombstoned_edges@.map_values(|e: EdgeKey| edge_key(e)).to_set()
}

/// `nodes` with the nodes that the runs from `k` on delete.
pub open spec fn tomb_nodes_from(runs: Seq<Arc<L0Run>>, k: int, nodes: Set<u32>) -> Set<u32>
    decreases runs.len() - k,
{
    if k < 0 || k >= runs.len() {
        nodes
    } else {
        tomb_nodes_from(runs, k + 1, nodes.union(run_tomb_nodes(*runs[k])))
    }
}

/// `edges` with the edges that the runs from `k` on delete.
pub open spec fn tomb_edges_from(runs: Seq<Arc<L0Run>>, k: int, edges: Set<(u32, u32, u32)>) -> Set<(u32, u32, u32)>
    decreases runs.len() - k,
{
    if k < 0 || k >= runs.len() {
        edges
    } else {
        tomb_edges_from(runs, k + 1, edges.union(run_tomb_edges(*runs[k])))
    }
}

/// What the segments from `j` on yield.
pub open spec fn segs_from(
    segs: Seq<Arc<CsrSegment>>,
    j: int,
    node: InternalNodeId,
    rel: Option<RelTypeId>,
    nodes: Set<u32>,
    edges: Set<(u32, u32, u32)>,
    incoming: bool,
) -> Seq<EdgeKey>
    decreases segs.len() - j,
{
    if j < 0 || j >= segs.len() {
        Seq::empty()
    } else {
        emit(seg_load(segs[j].edges@, node, rel, incoming), None, nodes, edges, incoming)
            + segs_from(segs, j + 1, node, rel, nodes, edges, incoming)
    }
}

/// The first element of a sequence, if any.
pub open spec fn first_only(s: Seq<EdgeKey>) -> Seq<EdgeKey> {
    if s.len() == 0 { s } else { seq![s[0]] }
}

/// Where a walk stands in the segments: the loaded edges of the current segment, the
/// position in them, and the next segment to load.
pub struct SegPos {
    pub current: Seq<EdgeKey>,
    pub pos: int,
    pub next: int,
}

/// What the segment phase yields from `p` on.
pub open spec fn seg_phase(
    segs: Seq<Arc<CsrSegment>>,
    p: SegPos,
    node: InternalNodeId,
    rel: Option<RelTypeId>,
    nodes: Set<u32>,
    edges: Set<(u32, u32, u32)>,
    incoming: bool,
) -> Seq<EdgeKey> {
    emit(p.current.skip(p.pos), None, nodes, edges, incoming) + segs_from(segs, p.next, node, rel, nodes, edges, incoming)
}

/// What the runs from `k` on, and then the segments, yield. A run applies its deletions
/// before its edges are read. Once the runs delete `node` itself, nothing more comes from
/// the runs, and the segments yield at most one more edge.
pub open spec fn runs_from(
    runs: Seq<Arc<L0Run>>,
    k: int,
    segs: Seq<Arc<CsrSegment>>,
    p: SegPos,
    node: InternalNodeId,
    rel: Option<RelTypeId>,
    nodes: Set<u32>,
    edges: Set<(u32, u32, u32)>,
    incoming: bool,
) -> Seq<EdgeKey>
    decreases runs.len() - k,
{
    if k < 0 || k >= runs.len() {
        seg_phase(segs, p, node, rel, nodes, edges, incoming)
    } else {
        let nodes2 = nodes.union(run_tomb_nodes(*runs[k]));
        let edges2 = edges.union(run_tomb_edges(*runs[k]));
        if nodes2.contains(node) {
            first_only(seg_phase(segs, p, node, rel, tomb_nodes_from(runs, k + 1, nodes2), tomb_edges_from(runs, k + 1, edges2), incoming))
        } else {
            emit(run_load(runs[k].edges@, node, incoming), rel, nodes2, edges2, incoming)
                + runs_from(runs, k + 1, segs, p, node, rel, nodes2, edges2, incoming)
        }
    }
}

/// All the edges that a walk from `node` yields, in order.
pub open spec fn walk(
    runs: Seq<Arc<L0Run>>,
    segs: Seq<Arc<CsrSegment>>,
    node: InternalNodeId,
    rel: Option<RelTypeId>,
    incoming: bool,
) -> Seq<EdgeKey> {
    runs_from(runs, 0, segs, SegPos { current: Seq::empty(), pos: 0, next: 0 }, node, rel, Set::empty(), Set::empty(), incoming)
}

pub open spec fn run_at(runs: Seq<Arc<L0Run>>, k: int) -> L0Run {
    *runs[k]
}

/// Every edge at the node and of the type asked for, in `s`.
pub open spec fn all_fit(s: Seq<EdgeKey>, node: InternalNodeId, rel: Option<RelTypeId>, incoming: bool) -> bool {
    forall|i: int| 0 <= i < s.len() ==> anchored(#[trigger] s[i], node, incoming) && rel_ok(s[i], rel)
}

proof fn lemma_concat_fit(a: Seq<EdgeKey>, b: Seq<EdgeKey>, node: InternalNodeId, rel: Option<RelTypeId>, incoming: bool)
    requires
        all_fit(a, node, rel, incoming),
        all_fit(b, node, rel, incoming),
    ensures
        all_fit(a + b, node, rel, incoming),
{
    assert forall|i: int| 0 <= i < (a + b).len() implies anchored(#[trigger] (a + b)[i], node, incoming) && rel_ok((a + b)[i], rel) by {
        if i < a.len() {
            assert((a + b)[i] == a[i]);
        } else {
            assert((a + b)[i] == b[i - a.len()]);
        }
    }
}

pub open spec fn all_anchored(s: Seq<EdgeKey>, node: InternalNodeId, incoming: bool) -> bool {
    forall|i: int| 0 <= i < s.len() ==> anchored(#[trigger] s[i], node, incoming)
}

proof fn lemma_run_load_anchored(s: Seq<EdgeKey>, node: InternalNodeId, incoming: bool)
    ensures
        all_anchored(run_load(s, node, incoming), node, incoming),
    decreases s.len(),
{
    if s.len() > 0 {
        lemma_run_load_anchored(s.drop_last(), node, incoming);
        let p = run_load(s.drop_last(), node, incoming);
        if anchored(s.last(), node, incoming) {
            assert forall|i: int| 0 <= i < p.push(s.last()).len() implies anchored(#[trigger] p.push(s.last())[i], node, incoming) by {
                if i < p.len() {
                    assert(p.push(s.last())[i] == p[i]);
                }
            }
        }
    }
}

proof fn lemma_seg_load_fit(s: Seq<EdgeKey>, node: InternalNodeId, rel: Option<RelTypeId>, incoming: bool)
    ensures
        all_fit(seg_load(s, node, rel, incoming), node, rel, incoming),
    decreases s.len(),
{
    if s.len() > 0 {
        lemma_seg_load_fit(s.drop_last(), node, rel, incoming);
    }
}

/// What `emit` yields comes from its input and has the type asked for.
proof fn lemma_emit_from(s: Seq<EdgeKey>, rel: Option<RelTypeId>, nodes: Set<u32>, edges: Set<(u32, u32, u32)>, incoming: bool)
    ensures
        forall|i: int| 0 <= i < emit(s, rel, nodes, edges, incoming).len() ==> s.contains(#[trigger] emit(s, rel, nodes, edges, incoming)[i])
            && rel_ok(emit(s, rel, nodes, edges, incoming)[i], rel),
    decreases s.len(),
{
    if s.len() > 0 {
        lemma_emit_from(s.drop_first(), rel, nodes, edges, incoming);
        let head = if rel_ok(s[0], rel) && !blocked(s[0], nodes, edges, incoming) { seq![s[0]] } else { Seq::<EdgeKey>::empty() };
        let tail = emit(s.drop_first(), rel, nodes, edges, incoming);
        assert forall|i: int| 0 <= i < (head + tail).len() implies s.contains(#[trigger] (head + tail)[i]) && rel_ok((head + tail)[i], rel) by {
            if i < head.len() {
                assert((head + tail)[i] == s[0]);
            } else {
                assert((head + tail)[i] == tail[i - head.len()]);
                let x = tail[i - head.len()];
                let j = choose|j: int| 0 <= j < s.drop_first().len() && s.drop_first()[j] == x;
                assert(s[j + 1] == x);
            }
        }
    }
}

proof fn lemma_emit_fit(s: Seq<EdgeKey>, rel: Option<RelTypeId>, rel2: Option<RelTypeId>, nodes: Set<u32>, edges: Set<(u32, u32, u32)>, node: InternalNodeId, incoming: bool)
    requires
        forall|i: int| 0 <= i < s.len() ==> anchored(#[trigger] s[i], node, incoming) && (rel matches None ==> rel_ok(s[i], rel2)),
        rel matches Some(t) ==> rel == rel2,
    ensures
        all_fit(emit(s, rel, nodes, edges, incoming), node, rel2, incoming),
{
    lemma_emit_from(s, rel, nodes, edges, incoming);
    let out = emit(s, rel, nodes, edges, incoming);
    assert forall|i: int| 0 <= i < out.len() implies anchored(#[trigger] out[i], node, incoming) && rel_ok(out[i], rel2) by {
        assert(s.contains(out[i]));
        let j = choose|j: int| 0 <= j < s.len() && s[j] == out[i];
    }
}

proof fn lemma_segs_fit(segs: Seq<Arc<CsrSegment>>, j: int, node: InternalNodeId, rel: Option<RelTypeId>, nodes: Set<u32>, edges: Set<(u32, u32, u32)>, incoming: bool)
    ensures
        all_fit(segs_from(segs, j, node, rel, nodes, edges, incoming), node, rel, incoming),
    decreases segs.len() - j,
{
    if 0 <= j < segs.len() {
        lemma_segs_fit(segs, j + 1, node, rel, nodes, edges, incoming);
        let loaded = seg_load(segs[j].edges@, node, rel, incoming);
        lemma_seg_load_fit(segs[j].edges@, node, rel, incoming);
        lemma_emit_fit(loaded, None, rel, nodes, edges, node, incoming);
        lemma_concat_fit(emit(loaded, None, nodes, edges, incoming), segs_from(segs, j + 1, node, rel, nodes, edges, incoming), node, rel, incoming);
    }
}

proof fn lemma_runs_fit(
    runs: Seq<Arc<L0Run>>,
    k: int,
    segs: Seq<Arc<CsrSegment>>,
    p: SegPos,
    node: InternalNodeId,
    rel: Option<RelTypeId>,
    nodes: Set<u32>,
    edges: Set<(u32, u32, u32)>,
    incoming: bool,
)
    requires
        all_fit(p.current, node, rel, incoming),
        0 <= p.pos <= p.current.len(),
    ensures
        all_fit(runs_from(runs, k, segs, p, node, rel, nodes, edges, incoming), node, rel, incoming),
    decreases runs.len() - k,
{
    let cur = p.current.skip(p.pos);
    assert forall|i: int| 0 <= i < cur.len() implies anchored(#[trigger] cur[i], node, incoming) && rel_ok(cur[i], rel) by {
        assert(cur[i] == p.current[i + p.pos]);
    }
    if k < 0 || k >= runs.len() {
        lemma_emit_fit(cur, None, rel, nodes, edges, node, incoming);
        lemma_segs_fit(segs, p.next, node, rel, nodes, edges, incoming);
        lemma_concat_fit(emit(cur, None, nodes, edges, incoming), segs_from(segs, p.next, node, rel, nodes, edges, incoming), node, rel, incoming);
    } else {
        let nodes2 = nodes.union(run_tomb_nodes(run_at(runs, k)));
        let edges2 = edges.union(run_tomb_edges(run_at(runs, k)));
        if nodes2.contains(node) {
            let n3 = tomb_nodes_from(runs, k + 1, nodes2);
            let e3 = tomb_edges_from(runs, k + 1, edges2);
            lemma_emit_fit(cur, None, rel, n3, e3, node, incoming);
            lemma_segs_fit(segs, p.next, node, rel, n3, e3, incoming);
            lemma_concat_fit(emit(cur, None, n3, e3, incoming), segs_from(segs, p.next, node, rel, n3, e3, incoming), node, rel, incoming);
        } else {
            let loaded = run_load(runs[k].edges@, node, incoming);
            lemma_run_load_anchored(runs[k].edges@, node, incoming);
            lemma_emit_fit(loaded, rel, rel, nodes2, edges2, node, incoming);
            lemma_runs_fit(runs, k + 1, segs, p, node, rel, nodes2, edges2, incoming);
            lemma_concat_fit(emit(loaded, rel, nodes2, edges2, incoming), runs_from(runs, k + 1, segs, p, node, rel, nodes2, edges2, incoming), node, rel, incoming);
        }
    }
}

/// Every edge that a walk yields is at the node the walk is from, and of the type asked
/// for when one is.
pub proof fn law_walk_edges_fit(runs: Seq<Arc<L0Run>>, segs: Seq<Arc<CsrSegment>>, node: InternalNodeId, rel: Option<RelTypeId>, incoming: bool)
    ensures
        all_fit(walk(runs, segs, node, rel, incoming), node, rel, incoming),
{
    lemma_runs_fit(runs, 0, segs, SegPos { current: Seq::empty(), pos: 0, next: 0 }, node, rel, Set::empty(), Set::empty(), incoming);
}

/// Run `k` deletes the edge `e`, or the node at its far end.
pub open spec fn deleted_by(runs: Seq<Arc<L0Run>>, k: int, e: EdgeKey, incoming: bool) -> bool {
    blocked(e, run_tomb_nodes(*runs[k]), run_tomb_edges(*runs[k]), incoming)
}

/// Run `j` holds the edge `e`.
pub open spec fn created_by(runs: Seq<Arc<L0Run>>, j: int, e: EdgeKey) -> bool {
    runs[j].edges@.contains(e)
}

/// Every run from `k0` on that deletes `e` has a newer run, from `k0` on, that holds it.
pub open spec fn renewed(runs: Seq<Arc<L0Run>>, k0: int, e: EdgeKey, incoming: bool) -> bool {
    forall|k: int|
        k0 <= k < runs.len() && #[trigger] deleted_by(runs, k, e, incoming) ==> exists|j: int|
            k0 <= j < k && #[trigger] created_by(runs, j, e)
}

/// Nothing in `out` is blocked by `nodes` and `edges`, and each deletion from run `k0` on
/// of an edge in `out` is undone by a newer run.
spec fn survives(
    out: Seq<EdgeKey>,
    runs: Seq<Arc<L0Run>>,
    k0: int,
    nodes: Set<u32>,
    edges: Set<(u32, u32, u32)>,
    incoming: bool,
) -> bool {
    forall|i: int|
        0 <= i < out.len() ==> !blocked(#[trigger] out[i], nodes, edges, incoming) && renewed(runs, k0, out[i], incoming)
}

proof fn lemma_run_load_from(s: Seq<EdgeKey>, node: InternalNodeId, incoming: bool)
    ensures
        forall|i: int| 0 <= i < run_load(s, node, incoming).len() ==> s.contains(#[trigger] run_load(s, node, incoming)[i]),
    decreases s.len(),
{
    if s.len() > 0 {
        lemma_run_load_from(s.drop_last(), node, incoming);
        let p = run_load(s.drop_last(), node, incoming);
        assert forall|i: int| 0 <= i < run_load(s, node, incoming).len() implies s.contains(#[trigger] run_load(s, node, incoming)[i]) by {
            if i < p.len() {
                assert(run_load(s, node, incoming)[i] == p[i]);
                let j = choose|j: int| 0 <= j < s.drop_last().len() && s.drop_last()[j] == p[i];
                assert(s[j] == p[i]);
            } else {
                assert(run_load(s, node, incoming)[i] == s[s.len() - 1]);
            }
        }
    }
}

proof fn lemma_emit_unblocked(s: Seq<EdgeKey>, rel: Option<RelTypeId>, nodes: Set<u32>, edges: Set<(u32, u32, u32)>, incoming: bool)
    ensures
        forall|i: int| 0 <= i < emit(s, rel, nodes, edges, incoming).len() ==> !blocked(#[trigger] emit(s, rel, nodes, edges, incoming)[i], nodes, edges, incoming),
    decreases s.len(),
{
    if s.len() > 0 {
        lemma_emit_unblocked(s.drop_first(), rel, nodes, edges, incoming);
        let head = if rel_ok(s[0], rel) && !blocked(s[0], nodes, edges, incoming) { seq![s[0]] } else { Seq::<EdgeKey>::empty() };
        let tail = emit(s.drop_first(), rel, nodes, edges, incoming);
        assert forall|i: int| 0 <= i < (head + tail).len() implies !blocked(#[trigger] (head + tail)[i], nodes, edges, incoming) by {
            if i >= head.len() {
                assert((head + tail)[i] == tail[i - head.len()]);
            }
        }
    }
}

proof fn lemma_segs_unblocked(segs: Seq<Arc<CsrSegment>>, j: int, node: InternalNodeId, rel: Option<RelTypeId>, nodes: Set<u32>, edges: Set<(u32, u32, u32)>, incoming: bool)
    ensures
        forall|i: int| 0 <= i < segs_from(segs, j, node, rel, nodes, edges, incoming).len()
            ==> !blocked(#[trigger] segs_from(segs, j, node, rel, nodes, edges, incoming)[i], nodes, edges, incoming),
    decreases segs.len() - j,
{
    if 0 <= j < segs.len() {
        lemma_segs_unblocked(segs, j + 1, node, rel, nodes, edges, incoming);
        let a = emit(seg_load(segs[j].edges@, node, rel, incoming), None, nodes, edges, incoming);
        let b = segs_from(segs, j + 1, node, rel, nodes, edges, incoming);
        lemma_emit_unblocked(seg_load(segs[j].edges@, node, rel, incoming), None, nodes, edges, incoming);
        assert forall|i: int| 0 <= i < (a + b).len() implies !blocked(#[trigger] (a + b)[i], nodes, edges, incoming) by {
            if i < a.len() {
                assert((a + b)[i] == a[i]);
            } else {
                assert((a + b)[i] == b[i - a.len()]);
            }
        }
    }
}

proof fn lemma_seg_phase_unblocked(segs: Seq<Arc<CsrSegment>>, p: SegPos, node: InternalNodeId, rel: Option<RelTypeId>, nodes: Set<u32>, edges: Set<(u32, u32, u32)>, incoming: bool)
    ensures
        forall|i: int| 0 <= i < seg_phase(segs, p, node, rel, nodes, edges, incoming).len()
            ==> !blocked(#[trigger] seg_phase(segs, p, node, rel, nodes, edges, incoming)[i], nodes, edges, incoming),
{
    let a = emit(p.current.skip(p.pos), None, nodes, edges, incoming);
    let b = segs_from(segs, p.next, node, rel, nodes, edges, incoming);
    lemma_emit_unblocked(p.current.skip(p.pos), None, nodes, edges, incoming);
    lemma_segs_unblocked(segs, p.next, node, rel, nodes, edges, incoming);
    assert forall|i: int| 0 <= i < (a + b).len() implies !blocked(#[trigger] (a + b)[i], nodes, edges, incoming) by {
        if i < a.len() {
            assert((a + b)[i] == a[i]);
        } else {
            assert((a + b)[i] == b[i - a.len()]);
        }
    }
}

/// The blocked sets after the runs from `k` on cover what they started with and every
/// deletion of those runs.
proof fn lemma_tomb_covers(runs: Seq<Arc<L0Run>>, k: int, nodes: Set<u32>, edges: Set<(u32, u32, u32)>, e: EdgeKey, incoming: bool)
    requires
        0 <= k,
    ensures
        blocked(e, nodes, edges, incoming) ==> blocked(e, tomb_nodes_from(runs, k, nodes), tomb_edges_from(runs, k, edges), incoming),
        forall|kk: int| k <= kk < runs.len() && #[trigger] deleted_by(runs, kk, e, incoming)
            ==> blocked(e, tomb_nodes_from(runs, k, nodes), tomb_edges_from(runs, k, edges), incoming),
    decreases runs.len() - k,
{
    if k < runs.len() {
        let n2 = nodes.union(run_tomb_nodes(run_at(runs, k)));
        let e2 = edges.union(run_tomb_edges(run_at(runs, k)));
        lemma_tomb_covers(runs, k + 1, n2, e2, e, incoming);
    }
}

proof fn lemma_runs_survive(
    runs: Seq<Arc<L0Run>>,
    k0: int,
    segs: Seq<Arc<CsrSegment>>,
    p: SegPos,
    node: InternalNodeId,
    rel: Option<RelTypeId>,
    nodes: Set<u32>,
    edges: Set<(u32, u32, u32)>,
    incoming: bool,
)
    requires
        0 <= k0,
    ensures
        survives(runs_from(runs, k0, segs, p, node, rel, nodes, edges, incoming), runs, k0, nodes, edges, incoming),
    decreases runs.len() - k0,
{
    let out = runs_from(runs, k0, segs, p, node, rel, nodes, edges, incoming);
    if k0 >= runs.len() {
        lemma_seg_phase_unblocked(segs, p, node, rel, nodes, edges, incoming);
    } else {
        let nodes2 = nodes.union(run_tomb_nodes(run_at(runs, k0)));
        let edges2 = edges.union(run_tomb_edges(run_at(runs, k0)));
        if nodes2.contains(node) {
            let n3 = tomb_nodes_from(runs, k0 + 1, nodes2);
            let e3 = tomb_edges_from(runs, k0 + 1, edges2);
            let sp = seg_phase(segs, p, node, rel, n3, e3, incoming);
            lemma_seg_phase_unblocked(segs, p, node, rel, n3, e3, incoming);
            assert forall|i: int| 0 <= i < out.len() implies !blocked(#[trigger] out[i], nodes, edges, incoming) && renewed(runs, k0, out[i], incoming) by {
                let x = out[i];
                assert(x == sp[0]);
                lemma_tomb_covers(runs, k0 + 1, nodes2, edges2, x, incoming);
                assert forall|k: int| k0 <= k < runs.len() && #[trigger] deleted_by(runs, k, x, incoming) implies exists|j: int|
                    k0 <= j < k && #[trigger] created_by(runs, j, x) by {
                    assert(!blocked(x, n3, e3, incoming));
                }
            }
        } else {
            let loaded = run_load(runs[k0].edges@, node, incoming);
            let a = emit(loaded, rel, nodes2, edges2, incoming);
            let b = runs_from(runs, k0 + 1, segs, p, node, rel, nodes2, edges2, incoming);
            assert(out == a + b);
            lemma_emit_unblocked(loaded, rel, nodes2, edges2, incoming);
            lemma_emit_from(loaded, rel, nodes2, edges2, incoming);
            lemma_run_load_from(runs[k0].edges@, node, incoming);
            lemma_runs_survive(runs, k0 + 1, segs, p, node, rel, nodes2, edges2, incoming);
            assert forall|i: int| 0 <= i < out.len() implies !blocked(#[trigger] out[i], nodes, edges, incoming) && renewed(runs, k0, out[i], incoming) by {
                let x = out[i];
                if i < a.len() {
                    assert(x == a[i]);
                    assert(!blocked(x, nodes2, edges2, incoming));
                    assert(loaded.contains(x));
                    let li = choose|li: int| 0 <= li < loaded.len() && loaded[li] == x;
                    assert(runs[k0].edges@.contains(loaded[li]));
                    assert(created_by(runs, k0, x));
                    assert forall|k: int| k0 <= k < runs.len() && #[trigger] deleted_by(runs, k, x, incoming) implies exists|j: int|
                        k0 <= j < k && #[trigger] created_by(runs, j, x) by {
                        assert(k != k0);
                    }
                } else {
                    assert(x == b[i - a.len()]);
                    assert(!blocked(x, nodes2, edges2, incoming) && renewed(runs, k0 + 1, x, incoming));
                    assert forall|k: int| k0 <= k < runs.len() && #[trigger] deleted_by(runs, k, x, incoming) implies exists|j: int|
                        k0 <= j < k && #[trigger] created_by(runs, j, x) by {
                        assert(k != k0);
                        let j = choose|j: int| k0 + 1 <= j < k && #[trigger] created_by(runs, j, x);
                    }
                }
            }
        }
    }
}

/// Deletions hold: an edge that a run deletes, or whose far end it deletes, comes out of a
/// walk only if a newer run holds it again. In particular nothing that the newest run
/// deletes comes out.
pub proof fn law_walk_skips_deleted(
    runs: Seq<Arc<L0Run>>,
    segs: Seq<Arc<CsrSegment>>,
    node: InternalNodeId,
    rel: Option<RelTypeId>,
    incoming: bool,
    e: EdgeKey,
    k: int,
)
    requires
        0 <= k < runs.len(),
        walk(runs, segs, node, rel, incoming).contains(e),
        deleted_by(runs, k, e, incoming),
    ensures
        exists|j: int| 0 <= j < k && #[trigger] created_by(runs, j, e),
{
    let w = walk(runs, segs, node, rel, incoming);
    lemma_runs_survive(runs, 0, segs, SegPos { current: Seq::empty(), pos: 0, next: 0 }, node, rel, Set::empty(), Set::empty(), incoming);
    let i = choose|i: int| 0 <= i < w.len() && w[i] == e;
    assert(renewed(runs, 0, w[i], incoming));
}

/// A walk over the outgoing edges of a node (of one type, when given).
pub struct NeighborsIter {
    runs: Arc<Vec<Arc<L0Run>>>,
    segments: Arc<Vec<Arc<CsrSegment>>>,
    node: InternalNodeId,
    rel: Option<RelTypeId>,
    incoming: bool,
    run_idx: usize,
    edge_idx: usize,
    current_edges: Vec<EdgeKey>,
    segment_idx: usize,
    segment_edge_idx: usize,
    current_segment_edges: Vec<EdgeKey>,
    blocked_nodes: BTreeSet<InternalNodeId>,
    blocked_edges: BTreeSet<(u32, u32, u32)>,
    terminated: bool,
}

impl NeighborsIter {
    pub closed spec fn seg_pos(&self) -> SegPos {
        SegPos { current: self.current_segment_edges@, pos: self.segment_edge_idx as int, next: self.segment_idx as int }
    }

    /// Everything but the blocked sets is as in `other`.
    spec fn same_but_blocked(&self, other: &NeighborsIter) -> bool {
        &&& self.runs == other.runs
        &&& self.segments == other.segments
        &&& self.node == other.node
        &&& self.rel == other.rel
        &&& self.incoming == other.incoming
        &&& self.run_idx == other.run_idx
        &&& self.edge_idx == other.edge_idx
        &&& self.current_edges == other.current_edges
        &&& self.segment_idx == other.segment_idx
        &&& self.segment_edge_idx == other.segment_edge_idx
        &&& self.current_segment_edges == other.current_segment_edges
        &&& self.terminated == other.terminated
    }

    /// The structural invariant of a walk.
    pub closed spec fn wf(&self) -> bool {
        &&& self.run_idx <= self.runs@.len()
        &&& self.edge_idx <= self.current_edges@.len()
        &&& self.segment_idx <= self.segments@.len()
        &&& self.segment_edge_idx <= self.current_segment_edges@.len()
    }

    /// What the walk still yields, including what the call in progress is looking for.
    pub closed spec fn pending(&self) -> Seq<EdgeKey> {
        if self.terminated {
            first_only(seg_phase(
                self.segments@,
                self.seg_pos(),
                self.node,
                self.rel,
                tomb_nodes_from(self.runs@, self.run_idx as int, self.blocked_nodes@),
                tomb_edges_from(self.runs@, self.run_idx as int, self.blocked_edges@),
                self.incoming,
            ))
        } else {
            emit(self.current_edges@.skip(self.edge_idx as int), self.rel, self.blocked_nodes@, self.blocked_edges@, self.incoming)
                + runs_from(
                self.runs@,
                self.run_idx as int,
                self.segments@,
                self.seg_pos(),
                self.node,
                self.rel,
                self.blocked_nodes@,
                self.blocked_edges@,
                self.incoming,
            )
        }
    }

    /// The edges that the walk will still yield, in order.
    pub closed spec fn remaining(&self) -> Seq<EdgeKey> {
        if self.terminated { Seq::empty() } else { self.pending() }
    }

    /// The node the walk is at.
    pub closed spec fn anchor(&self) -> InternalNodeId {
        self.node
    }

    /// A walk from `src` along its outgoing edges.
    pub fn new(
        runs: Arc<Vec<Arc<L0Run>>>,
        segments: Arc<Vec<Arc<CsrSegment>>>,
        src: InternalNodeId,
        rel: Option<RelTypeId>,
    ) -> (it: NeighborsIter)
        ensures
            it.wf(),
            it.remaining() == walk(runs@, segments@, src, rel, false),
    {
        Self::with_direction(runs, segments, src, rel, false)
    }

    fn with_direction(
        runs: Arc<Vec<Arc<L0Run>>>,
        segments: Arc<Vec<Arc<CsrSegment>>>,
        node: InternalNodeId,
        rel: Option<RelTypeId>,
        incoming: bool,
    ) -> (it: NeighborsIter)
        ensures
            it.wf(),
            it.remaining() == walk(runs@, segments@, node, rel, incoming),
    {
        let it = NeighborsIter {
            runs,
            segments,
            node,
            rel,
            incoming,
            run_idx: 0,
            edge_idx: 0,
            current_edges: Vec::new(),
            segment_idx: 0,
            segment_edge_idx: 0,
            current_segment_edges: Vec::new(),
            blocked_nodes: BTreeSet::new(),
            blocked_edges: BTreeSet::new(),
            terminated: false,
        };
        proof {
            assert(it.current_edges@.skip(0) =~= Seq::<EdgeKey>::empty());
            assert(it.seg_pos() == SegPos { current: Seq::<EdgeKey>::empty(), pos: 0, next: 0 });
            assert(emit(Seq::<EdgeKey>::empty(), rel, Set::<u32>::empty(), Set::<(u32, u32, u32)>::empty(), incoming) =~= Seq::<EdgeKey>::empty());
            assert(it.pending() =~= walk(it.runs@, it.segments@, node, rel, incoming));
        }
        it
    }

    /// Whether the edge is deleted or leads to a deleted node, by what the walk has seen.
    fn is_blocked(&self, e: EdgeKey) -> (r: bool)
        ensures
            r == blocked(e, self.blocked_nodes@, self.blocked_edges@, self.incoming),
    {
        let far = if self.incoming { e.src } else { e.dst };
        self.blocked_edges.contains(&(e.src, e.rel, e.dst)) || self.blocked_nodes.contains(&far)
    }

    /// Loads the run at `run_idx`: its deletions join the blocked sets; if they delete the
    /// node itself the walk terminates, otherwise the run's edges at the node are loaded.
    fn load_run(&mut self)
        requires
            old(self).wf(),
        ensures
            final(self).wf(),
            final(self).runs == old(self).runs,
            final(self).segments == old(self).segments,
            final(self).node == old(self).node,
            final(self).rel == old(self).rel,
            final(self).incoming == old(self).incoming,
            final(self).run_idx == old(self).run_idx,
            final(self).segment_idx == old(self).segment_idx,
            final(self).segment_edge_idx == old(self).segment_edge_idx,
            final(self).current_segment_edges == old(self).current_segment_edges,
            final(self).edge_idx == 0,
            old(self).run_idx >= old(self).runs@.len() ==> {
                &&& final(self).terminated
                &&& final(self).current_edges@.len() == 0
                &&& final(self).blocked_nodes@ == old(self).blocked_nodes@
                &&& final(self).blocked_edges@ == old(self).blocked_edges@
            },
            old(self).run_idx < old(self).runs@.len() ==> {
                let run = *old(self).runs@[old(self).run_idx as int];
                &&& final(self).blocked_nodes@ == old(self).blocked_nodes@.union(run_tomb_nodes(run))
                &&& final(self).blocked_edges@ == old(self).blocked_edges@.union(run_tomb_edges(run))
                &&& if final(self).blocked_nodes@.contains(old(self).node) {
                    final(self).terminated && final(self).current_edges@.len() == 0
                } else {
                    final(self).terminated == old(self).terminated
                        && final(self).current_edges@ == run_load(run.edges@, old(self).node, old(self).incoming)
                }
            },
    {
        self.current_edges.clear();
        self.edge_idx = 0;
        if self.run_idx >= self.runs.len() {
            self.terminated = true;
            return;
        }
        let ghost start = *self;
        let run: &L0Run = &self.runs[self.run_idx];
        let ghost nodes0 = self.blocked_nodes@;
        let ghost edges0 = self.blocked_edges@;
        let mut i: usize = 0;
        while i < run.tombstoned_nodes.len()
            invariant
                i <= run.tombstoned_nodes@.len(),
                self.same_but_blocked(&start),
                *run == *start.runs@[start.run_idx as int],
                self.blocked_edges@ == edges0,
                forall|x: u32| #[trigger] self.blocked_nodes@.contains(x) <==> nodes0.contains(x)
                    || exists|j: int| 0 <= j < i && run.tombstoned_nodes@[j] == x,
            decreases run.tombstoned_nodes@.len() - i,
        {
            self.blocked_nodes.insert(run.tombstoned_nodes[i]);
            proof {
                assert forall|x: u32| #[trigger] self.blocked_nodes@.contains(x) <==> nodes0.contains(x)
                    || exists|j: int| 0 <= j < i + 1 && run.tombstoned_nodes@[j] == x by {
                    if x == run.tombstoned_nodes@[i as int] {
                        assert(0 <= i < i + 1 && run.tombstoned_nodes@[i as int] == x);
                    }
                }
            }
            i = i + 1;
        }
        let mut i: usize = 0;
        while i < run.tombstoned_edges.len()
            invariant
                i <= run.tombstoned_edges@.len(),
                self.same_but_blocked(&start),
                *run == *start.runs@[start.run_idx as int],
                forall|x: u32| #[trigger] self.blocked_nodes@.contains(x) <==> nodes0.contains(x)
                    || exists|j: int| 0 <= j < run.tombstoned_nodes@.len() && run.tombstoned_nodes@[j] == x,
                forall|x: (u32, u32, u32)| #[trigger] self.blocked_edges@.contains(x) <==> edges0.contains(x)
                    || exists|j: int| 0 <= j < i && edge_key(run.tombstoned_edges@[j]) == x,
            decreases run.tombstoned_edges@.len() - i,
        {
            let e = run.tombstoned_edges[i];
            self.blocked_edges.insert((e.src, e.rel, e.dst));
            proof {
                assert forall|x: (u32, u32, u32)| #[trigger] self.blocked_edges@.contains(x) <==> edges0.contains(x)
                    || exists|j: int| 0 <= j < i + 1 && edge_key(run.tombstoned_edges@[j]) == x by {
                    if x == edge_key(e) {
                        assert(0 <= i < i + 1 && edge_key(run.tombstoned_edges@[i as int]) == x);
                    }
                }
            }
            i = i + 1;
        }
        proof {
            assert forall|x: u32| #[trigger] self.blocked_nodes@.contains(x) <==> nodes0.union(run_tomb_nodes(*run)).contains(x) by {
                if exists|j: int| 0 <= j < run.tombstoned_nodes@.len() && run.tombstoned_nodes@[j] == x {
                    let j = choose|j: int| 0 <= j < run.tombstoned_nodes@.len() && run.tombstoned_nodes@[j] == x;
                    assert(run.tombstoned_nodes@.contains(x));
                }
                if run.tombstoned_nodes@.contains(x) {
                    let j = choose|j: int| 0 <= j < run.tombstoned_nodes@.len() && run.tombstoned_nodes@[j] == x;
                }
            }
            assert(self.blocked_nodes@ =~= nodes0.union(run_tomb_nodes(*run)));
            let keys = run.tombstoned_edges@.map_values(|e: EdgeKey| edge_key(e));
            assert forall|x: (u32, u32, u32)| #[trigger] self.blocked_edges@.contains(x) <==> edges0.union(run_tomb_edges(*run)).contains(x) by {
                if exists|j: int| 0 <= j < run.tombstoned_edges@.len() && edge_key(run.tombstoned_edges@[j]) == x {
                    let j = choose|j: int| 0 <= j < run.tombstoned_edges@.len() && edge_key(run.tombstoned_edges@[j]) == x;
                    assert(keys[j] == x);
                    assert(keys.contains(x));
                }
                if keys.contains(x) {
                    let j = choose|j: int| 0 <= j < keys.len() && keys[j] == x;
                    assert(edge_key(run.tombstoned_edges@[j]) == x);
                }
            }
            assert(self.blocked_edges@ =~= edges0.union(run_tomb_edges(*run)));
        }
        if self.blocked_nodes.contains(&self.node) {
            self.terminated = true;
            return;
        }
        let mut k: usize = 0;
        proof {
            assert(run.edges@.take(0) =~= Seq::<EdgeKey>::empty());
            assert(self.current_edges@ =~= run_load(run.edges@.take(0), self.node, self.incoming));
        }
        let ghost mid = *self;
        while k < run.edges.len()
            invariant
                k <= run.edges@.len(),
                self.runs == mid.runs,
                self.segments == mid.segments,
                self.node == mid.node,
                self.rel == mid.rel,
                self.incoming == mid.incoming,
                self.run_idx == mid.run_idx,
                self.edge_idx == 0,
                self.segment_idx == mid.segment_idx,
                self.segment_edge_idx == mid.segment_edge_idx,
                self.current_segment_edges == mid.current_segment_edges,
                self.blocked_nodes == mid.blocked_nodes,
                self.blocked_edges == mid.blocked_edges,
                self.terminated == mid.terminated,
                *run == *mid.runs@[mid.run_idx as int],
                self.current_edges@ == run_load(run.edges@.take(k as int), self.node, self.incoming),
            decreases run.edges@.len() - k,
        {
            let e = run.edges[k];
            proof {
                assert(run.edges@.take(k + 1).drop_last() =~= run.edges@.take(k as int));
                assert(run.edges@.take(k + 1).last() == e);
            }
            let at = if self.incoming { e.dst == self.node } else { e.src == self.node };
            if at {
                self.current_edges.push(e);
            }
            k = k + 1;
        }
        proof {
            assert(run.edges@.take(k as int) =~= run.edges@);
        }
    }

    /// Loads the edges at the node (of the type asked for) of the segment at `segment_idx`.
    fn load_segment(&mut self)
        requires
            old(self).wf(),
            old(self).segment_idx < old(self).segments@.len(),
        ensures
            final(self).wf(),
            final(self).runs == old(self).runs,
            final(self).segments == old(self).segments,
            final(self).node == old(self).node,
            final(self).rel == old(self).rel,
            final(self).incoming == old(self).incoming,
            final(self).run_idx == old(self).run_idx,
            final(self).edge_idx == old(self).edge_idx,
            final(self).current_edges == old(self).current_edges,
            final(self).segment_idx == old(self).segment_idx,
            final(self).blocked_nodes == old(self).blocked_nodes,
            final(self).blocked_edges == old(self).blocked_edges,
            final(self).terminated == old(self).terminated,
            final(self).segment_edge_idx == 0,
            final(self).current_segment_edges@ == seg_load(
                old(self).segments@[old(self).segment_idx as int].edges@,
                old(self).node,
                old(self).rel,
                old(self).incoming,
            ),
    {
        self.current_segment_edges.clear();
        self.segment_edge_idx = 0;
        let ghost mid = *self;
        let seg: &CsrSegment = &self.segments[self.segment_idx];
        let mut k: usize = 0;
        proof {
            assert(seg.edges@.take(0) =~= Seq::<EdgeKey>::empty());
            assert(self.current_segment_edges@ =~= seg_load(seg.edges@.take(0), self.node, self.rel, self.incoming));
        }
        while k < seg.edges.len()
            invariant
                k <= seg.edges@.len(),
                self.runs == mid.runs,
                self.segments == mid.segments,
                self.node == mid.node,
                self.rel == mid.rel,
                self.incoming == mid.incoming,
                self.run_idx == mid.run_idx,
                self.edge_idx == mid.edge_idx,
                self.current_edges == mid.current_edges,
                self.segment_idx == mid.segment_idx,
                self.segment_edge_idx == 0,
                self.blocked_nodes == mid.blocked_nodes,
                self.blocked_edges == mid.blocked_edges,
                self.terminated == mid.terminated,
                *seg == *mid.segments@[mid.segment_idx as int],
                mid.wf(),
                mid.segment_idx < mid.segments@.len(),
                self.current_segment_edges@ == seg_load(seg.edges@.take(k as int), self.node, self.rel, self.incoming),
            decreases seg.edges@.len() - k,
        {
            let e = seg.edges[k];
            proof {
                assert(seg.edges@.take(k + 1).drop_last() =~= seg.edges@.take(k as int));
                assert(seg.edges@.take(k + 1).last() == e);
            }
            let at = if self.incoming { e.dst == self.node } else { e.src == self.node };
            let typed = match self.rel {
                Some(t) => e.rel == t,
                None => true,
            };
            if at && typed {
                self.current_segment_edges.push(e);
            }
            k = k + 1;
        }
        proof {
            assert(seg.edges@.take(k as int) =~= seg.edges@);
        }
    }

    /// The next edge of the walk, if any (the iterator's `next`).
    #[verifier::spinoff_prover]
    #[verifier::rlimit(80)]
    pub fn next_edge(&mut self) -> (r: Option<EdgeKey>)
        requires
            old(self).wf(),
        ensures
            final(self).wf(),
            final(self).anchor() == old(self).anchor(),
            match r {
                Some(e) => old(self).remaining().len() > 0 && e == old(self).remaining()[0]
                    && final(self).remaining() == old(self).remaining().drop_first(),
                None => old(self).remaining().len() == 0 && final(self).remaining().len() == 0,
            },
    {
        if self.terminated {
            return None;
        }
        let ghost p0 = self.pending();
        let ghost start = *self;
        loop
            invariant
                self.wf(),
                self.pending() == p0,
                p0 == start.remaining(),
                p0 == old(self).remaining(),
                self.node == old(self).node,
                self.runs == start.runs,
                self.segments == start.segments,
                self.node == start.node,
                self.rel == start.rel,
                self.incoming == start.incoming,
                self.terminated ==> self.blocked_nodes@.contains(self.node),
                self.terminated ==> self.edge_idx >= self.current_edges@.len(),
            decreases
                self.runs@.len() - self.run_idx,
                self.current_edges@.len() - self.edge_idx,
                self.segments@.len() - self.segment_idx,
                self.current_segment_edges@.len() - self.segment_edge_idx,
        {
            let ghost before = *self;
            if self.edge_idx >= self.current_edges.len() {
                if self.run_idx < self.runs.len() {
                    proof {
                        assert(self.current_edges@.skip(self.edge_idx as int) =~= Seq::<EdgeKey>::empty());
                    }
                    self.load_run();
                    self.run_idx = self.run_idx + 1;
                    proof {
                        let k = before.run_idx as int;
                        let run = *before.runs@[k];
                        let n2 = before.blocked_nodes@.union(run_tomb_nodes(run));
                        let e2 = before.blocked_edges@.union(run_tomb_edges(run));
                        assert(self.seg_pos() == before.seg_pos());
                        if before.terminated {
                            assert(tomb_nodes_from(before.runs@, k, before.blocked_nodes@) == tomb_nodes_from(before.runs@, k + 1, n2));
                            assert(tomb_edges_from(before.runs@, k, before.blocked_edges@) == tomb_edges_from(before.runs@, k + 1, e2));
                        } else {
                            assert(before.pending() =~= runs_from(before.runs@, k, before.segments@, before.seg_pos(), before.node,
                                before.rel, before.blocked_nodes@, before.blocked_edges@, before.incoming));
                            if n2.contains(before.node) {
                                assert(self.terminated);
                            } else {
                                assert(self.current_edges@.skip(0) =~= self.current_edges@);
                            }
                        }
                        assert(self.pending() == before.pending());
                    }
                    continue;
                }
                if self.segment_edge_idx >= self.current_segment_edges.len() {
                    proof {
                        assert(self.current_segment_edges@.skip(self.segment_edge_idx as int) =~= Seq::<EdgeKey>::empty());
                        assert(self.current_edges@.skip(self.edge_idx as int) =~= Seq::<EdgeKey>::empty());
                    }
                    if self.segment_idx >= self.segments.len() {
                        self.terminated = true;
                        proof {
                            assert(segs_from(self.segments@, self.segment_idx as int, self.node, self.rel,
                                tomb_nodes_from(self.runs@, self.run_idx as int, self.blocked_nodes@),
                                tomb_edges_from(self.runs@, self.run_idx as int, self.blocked_edges@), self.incoming)
                                =~= Seq::<EdgeKey>::empty());
                            assert(before.pending().len() == 0);
                        }
                        return None;
                    }
                    self.load_segment();
                    self.segment_idx = self.segment_idx + 1;
                    proof {
                        let j = before.segment_idx as int;
                        assert(self.current_segment_edges@.skip(0) =~= self.current_segment_edges@);
                        assert(self.current_edges@.skip(self.edge_idx as int) =~= Seq::<EdgeKey>::empty());
                        assert(self.pending() == before.pending());
                    }
                    continue;
                }
                let edge = self.current_segment_edges[self.segment_edge_idx];
                let ghost pos = self.segment_edge_idx as int;
                self.segment_edge_idx = self.segment_edge_idx + 1;
                proof {
                    let cur = before.current_segment_edges@;
                    assert(cur.skip(pos).drop_first() =~= cur.skip(pos + 1));
                    assert(cur.skip(pos)[0] == edge);
                    assert(self.current_edges@.skip(self.edge_idx as int) =~= Seq::<EdgeKey>::empty());
                }
                if self.is_blocked(edge) {
                    proof {
                        assert(self.pending() == before.pending());
                    }
                    continue;
                }
                proof {
                    assert(before.pending() == seq![edge] + self.pending() || (self.terminated && before.pending() == seq![edge]));
                }
                return Some(edge);
            }
            let edge = self.current_edges[self.edge_idx];
            let ghost pos = self.edge_idx as int;
            self.edge_idx = self.edge_idx + 1;
            proof {
                let cur = before.current_edges@;
                assert(cur.skip(pos).drop_first() =~= cur.skip(pos + 1));
                assert(cur.skip(pos)[0] == edge);
            }
            let typed = match self.rel {
                Some(t) => edge.rel == t,
                None => true,
            };
            if !typed {
                proof {
                    assert(self.pending() == before.pending());
                }
                continue;
            }
            if self.is_blocked(edge) {
                proof {
                    assert(self.pending() == before.pending());
                }
                continue;
            }
            proof {
                assert(before.pending() == seq![edge] + self.pending());
            }
            return Some(edge);
        }
    }

    /// The rest of the walk, in order.
    pub fn collect_remaining(&mut self) -> (r: Vec<EdgeKey>)
        requires
            old(self).wf(),
        ensures
            r@ == old(self).remaining(),
            final(self).remaining().len() == 0,
    {
        let mut out: Vec<EdgeKey> = Vec::new();
        let ghost all = self.remaining();
        loop
            invariant
                self.wf(),
                all == old(self).remaining(),
                all == out@ + self.remaining(),
            decreases self.remaining().len(),
        {
            let next = self.next_edge();
            match next {
                Some(e) => {
                    let ghost before = out@;
                    out.push(e);
                    proof {
                        assert(all =~= out@ + self.remaining());
                    }
                },
                None => {
                    proof {
                        assert(all =~= out@);
                    }
                    return out;
                },
            }
        }
    }
}

/// A walk over the incoming edges of a node (of one type, when given): the same runs and
/// segments, read from the other end.
pub struct IncomingNeighborsIter {
    inner: NeighborsIter,
}

impl IncomingNeighborsIter {
    pub closed spec fn wf(&self) -> bool {
        self.inner.wf()
    }

    /// The edges that the walk will still yield, in order.
    pub closed spec fn remaining(&self) -> Seq<EdgeKey> {
        self.inner.remaining()
    }

    /// A walk to `dst_node` along its incoming edges.
    pub fn new(
        runs: Arc<Vec<Arc<L0Run>>>,
        segments: Arc<Vec<Arc<CsrSegment>>>,
        dst_node: InternalNodeId,
        rel: Option<RelTypeId>,
    ) -> (it: IncomingNeighborsIter)
        ensures
            it.wf(),
            it.remaining() == walk(runs@, segments@, dst_node, rel, true),
    {
        IncomingNeighborsIter { inner: NeighborsIter::with_direction(runs, segments, dst_node, rel, true) }
    }

    /// The next edge of the walk, if any (the iterator's `next`).
    pub fn next_edge(&mut self) -> (r: Option<EdgeKey>)
        requires
            old(self).wf(),
        ensures
            final(self).wf(),
            match r {
                Some(e) => old(self).remaining().len() > 0 && e == old(self).remaining()[0]
                    && final(self).remaining() == old(self).remaining().drop_first(),
                None => old(self).remaining().len() == 0 && final(self).remaining().len() == 0,
            },
    {
        self.inner.next_edge()
    }

    /// The rest of the walk, in order.
    pub fn collect_remaining(&mut self) -> (r: Vec<EdgeKey>)
        requires
            old(self).wf(),
        ensures
            r@ == old(self).remaining(),
            final(self).remaining().len() == 0,
    {
        self.inner.collect_remaining()
    }
}

} // verus!
