//! In-memory index from canonical SPO triples to the partition that holds them.
use crate::core_db::partition::PartitionId;
use crate::core_db::triple::Triple;
use std::collections::BTreeMap;
use vstd::prelude::*;
use vstd::std_specs::btree::{increasing_seq, key_obeys_cmp_spec, spec_btree_map_iter};
use vstd::laws_cmp::obeys_cmp;
use vstd::std_specs::iter::IteratorSpec;
use vstd::std_specs::cmp::OrdSpec;

verus! {

broadcast use {vstd::std_specs::btree::group_btree_axioms, vstd::laws_cmp::group_laws_cmp, vstd::std_specs::btree::axiom_increasing_seq_meaning, vstd::std_specs::btree::axiom_key_obeys_cmp_spec_meaning, vstd::std_specs::btree::axiom_spec_btree_map_iter};

/// The key of a triple in the index: (subject, predicate, object).
pub open spec fn spo(t: Triple) -> (u64, u64, u64) {
    (t.subject_id, t.predicate_id, t.object_id)
}

/// The order of index keys: by subject, then predicate, then object.
pub open spec fn key_less(a: (u64, u64, u64), b: (u64, u64, u64)) -> bool {
    a.0 < b.0 || (a.0 == b.0 && (a.1 < b.1 || (a.1 == b.1 && a.2 < b.2)))
}

/// Stores the partition id for each canonical SPO triple.
#[derive(Debug)]
pub struct GlobalIndex {
    spo: BTreeMap<(u64, u64, u64), PartitionId>,
}

impl View for GlobalIndex {
    type V = Map<(u64, u64, u64), PartitionId>;

    closed spec fn view(&self) -> Map<(u64, u64, u64), PartitionId> {
        self.spo@
    }
}

impl GlobalIndex {
    /// An empty index.
    pub fn new() -> (r: GlobalIndex)
        ensures
            r@ == Map::<(u64, u64, u64), PartitionId>::empty(),
    {
        GlobalIndex { spo: BTreeMap::new() }
    }

    /// Records that `triple` lives in `partition`.
    pub fn insert(&mut self, triple: Triple, partition: PartitionId)
        ensures
            final(self)@ == old(self)@.insert(spo(triple), partition),
    {
        self.spo.insert((triple.subject_id, triple.predicate_id, triple.object_id), partition);
    }

    /// The partition of `triple`, if it is indexed.
    pub fn lookup(&self, triple: &Triple) -> (r: Option<PartitionId>)
        ensures
            r == if self@.contains_key(spo(*triple)) {
                Some(self@[spo(*triple)])
            } else {
                None
            },
    {
        match self.spo.get(&(triple.subject_id, triple.predicate_id, triple.object_id)) {
            Some(p) => Some(*p),
            None => None,
        }
    }

    /// The indexed triples with their partitions, in increasing key order.
    pub fn iter(&self) -> (r: Vec<((u64, u64, u64), PartitionId)>)
        ensures
            r@.len() == self@.len(),
            forall|i: int| 0 <= i < r@.len() ==> self@.contains_key(#[trigger] r@[i].0) && self@[r@[i].0] == r@[i].1,
            forall|k: (u64, u64, u64)| self@.contains_key(k) ==> exists|i: int| 0 <= i < r@.len() && #[trigger] r@[i].0 == k,
            forall|i: int, j: int| 0 <= i < j < r@.len() ==> key_less(#[trigger] r@[i].0, #[trigger] r@[j].0),
    {
        let mut out: Vec<((u64, u64, u64), PartitionId)> = Vec::new();
        let ghost v = IteratorSpec::remaining(&spec_btree_map_iter(&self.spo));
        proof {
            assert(obeys_cmp::<(u64, u64, u64)>());
            assert(key_obeys_cmp_spec::<(u64, u64, u64)>());
        }
        for kv in it: self.spo.iter()
            invariant
                it.seq() == v,
                out@.len() == it.index(),
                forall|i: int| 0 <= i < it.index() ==> #[trigger] out@[i] == (*it.seq()[i].0, *it.seq()[i].1),
        {
            out.push((*kv.0, *kv.1));
        }
        proof {
            assert(obeys_cmp::<(u64, u64, u64)>());
            assert forall|k: (u64, u64, u64)| self@.contains_key(k) implies exists|i: int| 0 <= i < out@.len() && #[trigger] out@[i].0 == k by {
                assert(v.contains((&k, &self.spo@[k])));
                let i = choose|i: int| 0 <= i < v.len() && v[i] == (&k, &self.spo@[k]);
                assert(out@[i].0 == k);
            }
            let keys = v.map_values(|kv: (&(u64, u64, u64), &PartitionId)| *kv.0);
            assert(increasing_seq(keys));
            assert forall|i: int, j: int| 0 <= i < j < out@.len() implies key_less(#[trigger] out@[i].0, #[trigger] out@[j].0) by {
                assert(keys[i].cmp_spec(&keys[j]) is Less);
                assert(keys[i] == out@[i].0);
                assert(keys[j] == out@[j].0);
            }
        }
        out
    }

    /// The number of indexed triples.
    pub fn len(&self) -> (n: usize)
        ensures
            n == self@.len(),
    {
        self.spo.len()
    }
}

/// Looking up a triple right after inserting it gives the partition inserted, and leaves
/// the other triples' partitions as they were.
pub proof fn law_index_insert_lookup(m: Map<(u64, u64, u64), PartitionId>, t: Triple, p: PartitionId, other: (u64, u64, u64))
    ensures
        m.insert(spo(t), p)[spo(t)] == p,
        other != spo(t) ==> m.insert(spo(t), p).contains_key(other) == m.contains_key(other)
            && (m.contains_key(other) ==> m.insert(spo(t), p)[other] == m[other]),
{
}

} // verus!
