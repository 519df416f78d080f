//! Expanding a node along a relationship pattern: which relationship types the pattern names,
//! and which edges (with the node at their far end) leave a node in a given direction.
use crate::query::ast::{RelationshipDirection, RelationshipPattern};
use crate::storage::api::{EdgeKey, GraphSnapshot, InternalNodeId, RelTypeId};
use vstd::prelude::*;

verus! {

/// The ids of the named relationship types that the snapshot knows, in the order named;
/// names that it does not know are left out.
pub open spec fn known_rel_types<S: GraphSnapshot>(snapshot: &S, names: Seq<Seq<char>>) -> Seq<RelTypeId>
    decreases names.len(),
{
    if names.len() == 0 {
        Seq::empty()
    } else {
        let init = known_rel_types(snapshot, names.drop_last());
        match snapshot.rel_type_named(names.last()) {
            Some(id) => init.push(id),
            None => init,
        }
    }
}

/// The relationship types a pattern restricts to: none when it names no type (any type
/// matches); otherwise the known ones among those named.
pub fn resolve_rel_type_ids<S: GraphSnapshot>(rel_pattern: &RelationshipPattern, snapshot: &S) -> (r: Option<Vec<RelTypeId>>)
    ensures
        rel_pattern.types@.len() == 0 <==> r is None,
        r matches Some(ids) ==> ids@ == known_rel_types(snapshot, rel_pattern.types@.map_values(|s: String| s@)),
{
    if rel_pattern.types.len() == 0 {
        return None;
    }
    let ghost names = rel_pattern.types@.map_values(|s: String| s@);
    let mut out: Vec<RelTypeId> = Vec::new();
    let mut i: usize = 0;
    while i < rel_pattern.types.len()
        invariant
            i <= rel_pattern.types@.len(),
            names == rel_pattern.types@.map_values(|s: String| s@),
            out@ == known_rel_types(snapshot, names.take(i as int)),
        decreases rel_pattern.types@.len() - i,
    {
        proof {
            assert(names.take(i + 1).drop_last() =~= names.take(i as int));
            assert(names.take(i + 1).last() == rel_pattern.types@[i as int]@);
        }
        match snapshot.resolve_rel_type_id(rel_pattern.types[i].as_str()) {
            Some(id) => out.push(id),
            None => {},
        }
        i = i + 1;
    }
    proof {
        assert(names.take(i as int) =~= names);
    }
    Some(out)
}

/// Each edge paired with its far end: the destination when leaving along it, the source when
/// arriving along it.
pub open spec fn with_far_end(edges: Seq<EdgeKey>, outgoing: bool) -> Seq<(EdgeKey, InternalNodeId)> {
    edges.map_values(|e: EdgeKey| (e, if outgoing { e.dst } else { e.src }))
}

/// The edges at `src` of one type (or of any type), in the given direction; an undirected
/// expansion takes the outgoing edges, then the incoming ones.
pub open spec fn edges_in_direction<S: GraphSnapshot>(
    snapshot: &S,
    src: InternalNodeId,
    direction: RelationshipDirection,
    rel: Option<RelTypeId>,
) -> Seq<(EdgeKey, InternalNodeId)> {
    match direction {
        RelationshipDirection::LeftToRight => with_far_end(snapshot.out_edges(src, rel), true),
        RelationshipDirection::RightToLeft => with_far_end(snapshot.in_edges(src, rel), false),
        RelationshipDirection::Undirected => with_far_end(snapshot.out_edges(src, rel), true)
            + with_far_end(snapshot.in_edges(src, rel), false),
    }
}

/// The expansion over each of the types `ids` in turn.
pub open spec fn edges_of_types<S: GraphSnapshot>(
    snapshot: &S,
    src: InternalNodeId,
    direction: RelationshipDirection,
    ids: Seq<RelTypeId>,
) -> Seq<(EdgeKey, InternalNodeId)>
    decreases ids.len(),
{
    if ids.len() == 0 {
        Seq::empty()
    } else {
        edges_of_types(snapshot, src, direction, ids.drop_last()) + edges_in_direction(snapshot, src, direction, Some(ids.last()))
    }
}

/// The candidate edges for expanding `src`: over every type when no types are given,
/// otherwise over each given type in turn (none at all for an empty list).
pub open spec fn candidates<S: GraphSnapshot>(
    snapshot: &S,
    src: InternalNodeId,
    direction: RelationshipDirection,
    rel_type_ids: Option<Seq<RelTypeId>>,
) -> Seq<(EdgeKey, InternalNodeId)> {
    match rel_type_ids {
        None => edges_in_direction(snapshot, src, direction, None),
        Some(ids) => edges_of_types(snapshot, src, direction, ids),
    }
}

fn push_with_far_end(out: &mut Vec<(EdgeKey, InternalNodeId)>, edges: Vec<EdgeKey>, outgoing: bool)
    ensures
        final(out)@ == old(out)@ + with_far_end(edges@, outgoing),
{
    let ghost start = out@;
    let mut i: usize = 0;
    while i < edges.len()
        invariant
            i <= edges@.len(),
            out@ == start + with_far_end(edges@.take(i as int), outgoing),
        decreases edges@.len() - i,
    {
        let e = edges[i];
        let far = if outgoing { e.dst } else { e.src };
        out.push((e, far));
        proof {
            assert(with_far_end(edges@.take(i + 1), outgoing) =~= with_far_end(edges@.take(i as int), outgoing).push((e, far)));
        }
        i = i + 1;
    }
    proof {
        assert(edges@.take(i as int) =~= edges@);
    }
}

fn push_direction<S: GraphSnapshot>(
    out: &mut Vec<(EdgeKey, InternalNodeId)>,
    snapshot: &S,
    src: InternalNodeId,
    direction: RelationshipDirection,
    rel: Option<RelTypeId>,
)
    ensures
        final(out)@ == old(out)@ + edges_in_direction(snapshot, src, direction, rel),
{
    match direction {
        RelationshipDirection::LeftToRight => {
            push_with_far_end(out, snapshot.neighbors(src, rel), true);
        },
        RelationshipDirection::RightToLeft => {
            push_with_far_end(out, snapshot.incoming_neighbors(src, rel), false);
        },
        RelationshipDirection::Undirected => {
            let ghost start = out@;
            push_with_far_end(out, snapshot.neighbors(src, rel), true);
            push_with_far_end(out, snapshot.incoming_neighbors(src, rel), false);
            proof {
                assert(out@ =~= start + edges_in_direction(snapshot, src, direction, rel));
            }
        },
    }
}

/// The edges along which `src` can be expanded, each with the node at its far end.
pub fn candidate_edges<S: GraphSnapshot>(
    src: InternalNodeId,
    direction: RelationshipDirection,
    rel_type_ids: Option<&[RelTypeId]>,
    snapshot: &S,
) -> (r: Vec<(EdgeKey, InternalNodeId)>)
    ensures
        r@ == candidates(snapshot, src, direction, match rel_type_ids {
            None => None,
            Some(ids) => Some(ids@),
        }),
{
    let mut out: Vec<(EdgeKey, InternalNodeId)> = Vec::new();
    match rel_type_ids {
        None => {
            push_direction(&mut out, snapshot, src, direction, None);
            proof {
                assert(out@ =~= candidates(snapshot, src, direction, None));
            }
        },
        Some(ids) => {
            let mut i: usize = 0;
            proof {
                assert(ids@.take(0) =~= Seq::<RelTypeId>::empty());
            }
            while i < ids.len()
                invariant
                    i <= ids@.len(),
                    out@ == edges_of_types(snapshot, src, direction, ids@.take(i as int)),
                decreases ids@.len() - i,
            {
                proof {
                    assert(ids@.take(i + 1).drop_last() =~= ids@.take(i as int));
                    assert(ids@.take(i + 1).last() == ids@[i as int]);
                }
                push_direction(&mut out, snapshot, src, direction, Some(ids[i]));
                i = i + 1;
            }
            proof {
                assert(ids@.take(i as int) =~= ids@);
            }
        },
    }
    out
}


proof fn lemma_edges_of_types_concat<S: GraphSnapshot>(
    snapshot: &S,
    src: InternalNodeId,
    direction: RelationshipDirection,
    a: Seq<RelTypeId>,
    b: Seq<RelTypeId>,
)
    ensures
        edges_of_types(snapshot, src, direction, a + b) == edges_of_types(snapshot, src, direction, a) + edges_of_types(
            snapshot,
            src,
            direction,
            b,
        ),
    decreases b.len(),
{
    if b.len() == 0 {
        assert(a + b =~= a);
        assert(edges_of_types(snapshot, src, direction, a) + Seq::empty() =~= edges_of_types(snapshot, src, direction, a));
    } else {
        assert((a + b).drop_last() =~= a + b.drop_last());
        assert((a + b).last() == b.last());
        lemma_edges_of_types_concat(snapshot, src, direction, a, b.drop_last());
        let x = edges_of_types(snapshot, src, direction, a);
        let y = edges_of_types(snapshot, src, direction, b.drop_last());
        let z = edges_in_direction(snapshot, src, direction, Some(b.last()));
        assert((x + y) + z =~= x + (y + z));
    }
}

/// Expanding over a list of relationship types gives, for each type in the order listed, the
/// edges of that type in the given direction, one type after another: a single type gives
/// just its own edges, no types give none, and the expansion over two lists joined is the
/// expansion over the first followed by that over the second.
pub proof fn law_candidates_concatenate_types<S: GraphSnapshot>(
    snapshot: &S,
    src: InternalNodeId,
    direction: RelationshipDirection,
    a: Seq<RelTypeId>,
    b: Seq<RelTypeId>,
    t: RelTypeId,
)
    ensures
        candidates(snapshot, src, direction, Some(Seq::empty())) == Seq::<(EdgeKey, InternalNodeId)>::empty(),
        candidates(snapshot, src, direction, Some(seq![t])) == edges_in_direction(snapshot, src, direction, Some(t)),
        candidates(snapshot, src, direction, Some(a + b)) == candidates(snapshot, src, direction, Some(a))
            + candidates(snapshot, src, direction, Some(b)),
{
    let e = Seq::<RelTypeId>::empty();
    assert(seq![t].drop_last() =~= e);
    assert(edges_of_types(snapshot, src, direction, e) + edges_in_direction(snapshot, src, direction, Some(t))
        =~= edges_in_direction(snapshot, src, direction, Some(t)));
    lemma_edges_of_types_concat(snapshot, src, direction, a, b);
}

/// Every edge of every listed type, in the given direction, is a candidate: none is dropped.
pub proof fn law_candidates_include_every_listed_type<S: GraphSnapshot>(
    snapshot: &S,
    src: InternalNodeId,
    direction: RelationshipDirection,
    ids: Seq<RelTypeId>,
    i: int,
    j: int,
)
    requires
        0 <= i < ids.len(),
        0 <= j < edges_in_direction(snapshot, src, direction, Some(ids[i])).len(),
    ensures
        candidates(snapshot, src, direction, Some(ids)).contains(
            edges_in_direction(snapshot, src, direction, Some(ids[i]))[j],
        ),
{
    let before = ids.take(i);
    let rest = ids.skip(i + 1);
    assert(ids =~= before + seq![ids[i]] + rest);
    lemma_edges_of_types_concat(snapshot, src, direction, before + seq![ids[i]], rest);
    lemma_edges_of_types_concat(snapshot, src, direction, before, seq![ids[i]]);
    law_candidates_concatenate_types(snapshot, src, direction, before, rest, ids[i]);
    let x = edges_of_types(snapshot, src, direction, before);
    let y = edges_in_direction(snapshot, src, direction, Some(ids[i]));
    let z = edges_of_types(snapshot, src, direction, rest);
    let all = edges_of_types(snapshot, src, direction, ids);
    assert(all == x + y + z);
    assert(all[x.len() + j] == y[j]);
}

} // verus!
