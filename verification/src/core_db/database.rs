//! The triple store: options, facts in, triples out.
use crate::core_db::dictionary::{distinct, id_of, lemma_id_of_distinct, Dictionary};
use crate::core_db::global_index::{spo, GlobalIndex};
use crate::core_db::partition::{spec_partition_for, PartitionConfig};
use crate::core_db::triple::{Fact, Triple};
use crate::core_db::wal::{WalEntry, WalRecordType, WriteAheadLog};
use vstd::prelude::*;

verus! {

/// Database configuration used when opening an instance.
#[derive(Debug)]
pub struct Options {
    data_path: String,
    partition: PartitionConfig,
}

impl Options {
    pub closed spec fn data_path_view(&self) -> Seq<char> {
        self.data_path@
    }

    pub closed spec fn partitions(&self) -> u32 {
        self.partition.partitions
    }

    /// Options for a database under `path`, with one partition.
    pub fn new(path: &str) -> (o: Options)
        ensures
            o.data_path_view() == path@,
            o.partitions() == 1,
    {
        Options { data_path: String::from_str(path), partition: PartitionConfig::default_config() }
    }

    /// These options with the given partition configuration.
    pub fn with_partition_config(self, config: PartitionConfig) -> (o: Options)
        ensures
            o.data_path_view() == self.data_path_view(),
            o.partitions() == config.partitions,
    {
        let mut s = self;
        s.partition = config;
        s
    }
}

/// The WAL file of a database directory: `wal.log` joined to the directory as a path, with
/// `/` as the separator: no separator is added after an empty directory or one that
/// already ends with `/`.
pub open spec fn wal_path_of(dir: Seq<char>) -> Seq<char> {
    if dir.len() == 0 || dir.last() == '/' {
        dir + "wal.log"@
    } else {
        dir + "/wal.log"@
    }
}

/// An open triple store.
#[derive(Debug)]
pub struct Database {
    options: Options,
    dictionary: Dictionary,
    index: GlobalIndex,
    wal: WriteAheadLog,
    triples: Vec<Triple>,
}

impl Database {
    /// The invariant of an open database: every stored triple is indexed under its partition
    /// and logged, and the dictionary is well formed.
    pub closed spec fn wf(&self) -> bool {
        &&& self.dictionary.wf()
        &&& forall|i: int| 0 <= i < self.triples@.len() ==> #[trigger] self.index@.contains_key(spo(self.triples@[i]))
            && self.index@[spo(self.triples@[i])] == spec_partition_for(
                self.options.partition.partitions,
                self.triples@[i].subject_id,
                self.triples@[i].predicate_id,
                self.triples@[i].object_id,
            )
        &&& self.wal.pending().len() == self.triples@.len()
        &&& forall|i: int| 0 <= i < self.triples@.len() ==> #[trigger] self.wal.pending()[i] == (WalEntry {
            record_type: WalRecordType::AddTriple,
            triple: self.triples@[i],
        })
    }

    /// The triples added so far, in order.
    pub closed spec fn triples_view(&self) -> Seq<Triple> {
        self.triples@
    }

    /// The strings of the dictionary, by id - 1.
    pub closed spec fn strings(&self) -> Seq<Seq<char>> {
        self.dictionary@
    }

    /// The number of partitions.
    pub closed spec fn partitions(&self) -> u32 {
        self.options.partition.partitions
    }

    /// The partition that the index records for a triple key.
    pub closed spec fn indexed(&self) -> Map<(u64, u64, u64), u32> {
        self.index@
    }

    /// The log entries not yet flushed.
    pub closed spec fn logged(&self) -> Seq<WalEntry> {
        self.wal.pending()
    }

    /// The location of the log.
    pub closed spec fn wal_location(&self) -> Seq<char> {
        self.wal.location()
    }

    /// Opens an empty database with the given options: no triples, no strings, an empty
    /// index, and the log `wal.log` in the data directory (see `wal_path_of`).
    pub fn open(options: Options) -> (r: Result<Database, ()>)
        ensures
            r matches Ok(db) && db.wf() && db.triples_view() == Seq::<Triple>::empty()
                && db.strings() == Seq::<Seq<char>>::empty() && db.partitions() == options.partitions()
                && db.indexed() == Map::<(u64, u64, u64), u32>::empty()
                && db.logged() == Seq::<WalEntry>::empty()
                && db.wal_location() == wal_path_of(options.data_path_view()),
    {
        let mut wal_path = options.data_path.clone();
        let n = options.data_path.unicode_len();
        if n == 0 || options.data_path.as_str().get_char(n - 1) == '/' {
            wal_path.append("wal.log");
        } else {
            wal_path.append("/wal.log");
        }
        let db = Database {
            wal: WriteAheadLog::new(wal_path),
            options,
            dictionary: Dictionary::new(),
            index: GlobalIndex::new(),
            triples: Vec::new(),
        };
        Ok(db)
    }

    /// Interns the three parts of the fact, stores the triple of their ids, indexes it under
    /// its partition and logs it.
    pub fn add_fact(&mut self, fact: Fact<'_>) -> (r: Result<Triple, ()>)
        requires
            old(self).wf(),
            old(self).partitions() > 0,
            old(self).strings().len() + 3 < usize::MAX,
            old(self).triples_view().len() < usize::MAX,
        ensures
            final(self).wf(),
            r matches Ok(t) && {
                &&& final(self).triples_view() == old(self).triples_view().push(t)
                &&& final(self).strings()[t.subject_id - 1] == fact.subject@
                &&& final(self).strings()[t.predicate_id - 1] == fact.predicate@
                &&& final(self).strings()[t.object_id - 1] == fact.object@
                &&& 1 <= t.subject_id <= final(self).strings().len()
                &&& 1 <= t.predicate_id <= final(self).strings().len()
                &&& 1 <= t.object_id <= final(self).strings().len()
                &&& final(self).indexed() == old(self).indexed().insert(
                    spo(t),
                    spec_partition_for(old(self).partitions(), t.subject_id, t.predicate_id, t.object_id),
                )
                &&& final(self).logged() == old(self).logged().push(WalEntry { record_type: WalRecordType::AddTriple, triple: t })
            },
            final(self).partitions() == old(self).partitions(),
            final(self).wal_location() == old(self).wal_location(),
            old(self).strings().is_prefix_of(final(self).strings()),
            distinct(final(self).strings()),
            r matches Ok(t) && {
                &&& id_of(old(self).strings(), fact.subject@) matches Some(id) ==> t.subject_id == id
                &&& id_of(old(self).strings(), fact.predicate@) matches Some(id) ==> t.predicate_id == id
                &&& id_of(old(self).strings(), fact.object@) matches Some(id) ==> t.object_id == id
            },
    {
        let subject = self.dictionary.get_or_insert(fact.subject);
        let ghost s1 = self.dictionary@;
        let predicate = self.dictionary.get_or_insert(fact.predicate);
        let ghost s2 = self.dictionary@;
        let object = self.dictionary.get_or_insert(fact.object);
        let triple = Triple::new(subject, predicate, object);
        let partition = self.options.partition.partition_for(subject, predicate, object);
        let ghost old_index = self.index@;
        self.index.insert(triple, partition);
        self.wal.append(WalEntry { record_type: WalRecordType::AddTriple, triple });
        self.triples.push(triple);
        proof {
            assert(s1.is_prefix_of(s2));
            assert(s2.is_prefix_of(self.dictionary@));
            let s0 = old(self).dictionary@;
            if let Some(id) = id_of(s0, fact.predicate@) {
                let k = choose|k: int| 0 <= k < s0.len() && s0[k] == fact.predicate@;
                assert(s1[k] == s0[k]);
                lemma_id_of_distinct(s1, k);
            }
            if let Some(id) = id_of(s0, fact.object@) {
                let k = choose|k: int| 0 <= k < s0.len() && s0[k] == fact.object@;
                assert(s1[k] == s0[k]);
                assert(s2[k] == s1[k]);
                lemma_id_of_distinct(s2, k);
            }
            assert(self.dictionary@[subject - 1] == s1[subject - 1]);
            assert(self.dictionary@[predicate - 1] == s2[predicate - 1]);
            assert forall|i: int| 0 <= i < self.triples@.len() implies #[trigger] self.index@.contains_key(spo(self.triples@[i]))
                && self.index@[spo(self.triples@[i])] == spec_partition_for(
                    self.options.partition.partitions,
                    self.triples@[i].subject_id,
                    self.triples@[i].predicate_id,
                    self.triples@[i].object_id,
                ) by {
                if i < self.triples@.len() - 1 {
                    assert(self.triples@[i] == old(self).triples@[i]);
                    assert(old(self).index@.contains_key(spo(old(self).triples@[i])));
                }
            }
        }
        Ok(triple)
    }

    /// All triples added so far, in order.
    pub fn all_triples(&self) -> (r: &[Triple])
        ensures
            r@ == self.triples_view(),
    {
        self.triples.as_slice()
    }

    /// The dictionary of interned strings.
    pub fn dictionary(&self) -> (r: &Dictionary)
        ensures
            r@ == self.strings(),
    {
        &self.dictionary
    }

    /// The partition that the index records for `triple`.
    pub fn indexed_partition(&self, triple: &Triple) -> (r: Option<u32>)
        ensures
            r == if self.indexed().contains_key(spo(*triple)) {
                Some(self.indexed()[spo(*triple)])
            } else {
                None
            },
    {
        self.index.lookup(triple)
    }
}

/// Every triple that the database holds is indexed under the partition that the
/// partitioning function gives for it (the invariant `wf`, seen from outside).
pub proof fn law_stored_triples_are_indexed(db: &Database, i: int)
    requires
        db.wf(),
        0 <= i < db.triples_view().len(),
    ensures
        db.indexed().contains_key(spo(db.triples_view()[i])),
        db.indexed()[spo(db.triples_view()[i])] == spec_partition_for(
            db.partitions(),
            db.triples_view()[i].subject_id,
            db.triples_view()[i].predicate_id,
            db.triples_view()[i].object_id,
        ),
        db.logged()[i] == (WalEntry { record_type: WalRecordType::AddTriple, triple: db.triples_view()[i] }),
{
}

/// A string is interned once: two ids of a well-formed database that name the same string
/// are the same id, so equal strings in facts get equal ids in their triples.
pub proof fn law_equal_strings_equal_ids(db: &Database, a: int, b: int)
    requires
        db.wf(),
        1 <= a <= db.strings().len(),
        1 <= b <= db.strings().len(),
        db.strings()[a - 1] == db.strings()[b - 1],
    ensures
        a == b,
{
    if a < b {
        assert(db.strings()[a - 1] != db.strings()[b - 1]);
    } else if b < a {
        assert(db.strings()[b - 1] != db.strings()[a - 1]);
    }
}

} // verus!
