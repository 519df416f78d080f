//! Partitioning of canonical SPO triples.
use vstd::prelude::*;

verus! {

/// Identifier of a partition.
pub type PartitionId = u32;

/// Identifier handed out by the string dictionary.
pub type StringId = u64;

/// How many partitions the triples are spread over.
#[derive(Debug, Clone)]
pub struct PartitionConfig {
    pub partitions: PartitionId,
}

/// The mixing hash of a triple: `s*31 ^ p*131 ^ o*997`, each product wrapping at 2^64.
pub open spec fn spo_hash(subject: u64, predicate: u64, object: u64) -> u64 {
    ((subject as int * 31) % 0x1_0000_0000_0000_0000) as u64
        ^ ((predicate as int * 131) % 0x1_0000_0000_0000_0000) as u64
        ^ ((object as int * 997) % 0x1_0000_0000_0000_0000) as u64
}

/// The partition that a triple falls into under a configuration of `partitions` partitions.
pub open spec fn spec_partition_for(partitions: u32, subject: u64, predicate: u64, object: u64) -> u32 {
    if partitions == 1 {
        0
    } else {
        (spo_hash(subject, predicate, object) % (partitions as u64)) as u32
    }
}

impl PartitionConfig {
    /// A configuration with `partitions` partitions; there must be at least one.
    pub fn new(partitions: PartitionId) -> (cfg: Self)
        requires
            partitions > 0,
        ensures
            cfg.partitions == partitions,
    {
        Self { partitions }
    }

    /// The single-partition configuration.
    pub fn default_config() -> (cfg: Self)
        ensures
            cfg.partitions == 1,
    {
        Self { partitions: 1 }
    }

    pub open spec fn wf(&self) -> bool {
        self.partitions > 0
    }

    /// The partition of the triple `(subject, predicate, object)`.
    pub fn partition_for(&self, subject: StringId, predicate: StringId, object: StringId) -> (p: PartitionId)
        requires
            self.wf(),
        ensures
            p == spec_partition_for(self.partitions, subject, predicate, object),
            p < self.partitions,
    {
        if self.partitions == 1 {
            return 0;
        }
        let hash = subject.wrapping_mul(31) ^ predicate.wrapping_mul(131) ^ object.wrapping_mul(997);
        (hash % self.partitions as u64) as PartitionId
    }
}

/// Every triple is placed in one of the configured partitions.
pub proof fn law_partition_in_range(partitions: u32, s: u64, p: u64, o: u64)
    requires
        partitions > 0,
    ensures
        spec_partition_for(partitions, s, p, o) < partitions,
{
}

} // verus!
