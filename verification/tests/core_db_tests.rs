use nervusdb::core_db::database::{Database, Options};
use nervusdb::core_db::dictionary::Dictionary;
use nervusdb::core_db::ffi::{
    criteria_from_ffi, nervusdb_query_criteria, status_from_error, Error, NERVUSDB_ERR_INTERNAL,
};
use nervusdb::core_db::global_index::GlobalIndex;
use nervusdb::core_db::partition::PartitionConfig;
use nervusdb::core_db::triple::{Fact, Triple};
use nervusdb::core_db::wal::{WalEntry, WalRecordType, WriteAheadLog};

#[test]
fn insert_and_lookup() {
    let mut index = GlobalIndex::new();
    let triple = Triple::new(1, 2, 3);
    index.insert(triple, 42);
    assert_eq!(index.lookup(&triple), Some(42));
}

#[test]
fn hashing_is_stable() {
    let cfg = PartitionConfig::new(8);
    assert_eq!(cfg.partition_for(1, 2, 3), cfg.partition_for(1, 2, 3));
}

#[test]
fn open_and_insert() {
    let mut db = Database::open(Options::new("/tmp/nervusdb-open-and-insert")).unwrap();
    let triple = db.add_fact(Fact::new("alice", "knows", "bob")).unwrap();
    assert_eq!(db.all_triples(), &[triple]);
    assert_eq!(db.dictionary().lookup_value(triple.subject_id).unwrap(), "alice");
}

#[test]
fn partition_formula_exact_value() {
    let cfg = PartitionConfig::new(8);
    // (1*31) ^ (2*131) ^ (3*997) = 31 ^ 262 ^ 2991 = 2742, and 2742 % 8 = 6
    assert_eq!(cfg.partition_for(1, 2, 3), 6);
    assert_eq!(PartitionConfig::new(1).partition_for(5, 6, 7), 0);
}

#[test]
fn partition_wraps_on_overflow() {
    let cfg = PartitionConfig::new(7);
    let s = u64::MAX;
    let expected = (s.wrapping_mul(31) ^ 0u64.wrapping_mul(131) ^ 0u64.wrapping_mul(997)) % 7;
    assert_eq!(cfg.partition_for(s, 0, 0) as u64, expected);
}

#[test]
fn global_index_iterates_in_key_order() {
    let mut index = GlobalIndex::new();
    index.insert(Triple::new(2, 1, 1), 7);
    index.insert(Triple::new(1, 9, 9), 3);
    index.insert(Triple::new(1, 2, 3), 5);
    index.insert(Triple::new(1, 2, 3), 6);
    assert_eq!(index.len(), 3);
    let entries = index.iter();
    assert_eq!(entries, vec![((1, 2, 3), 6), ((1, 9, 9), 3), ((2, 1, 1), 7)]);
    assert_eq!(index.lookup(&Triple::new(4, 4, 4)), None);
}

#[test]
fn dictionary_interns_each_string_once() {
    let mut d = Dictionary::new();
    let a = d.get_or_insert("alice");
    let b = d.get_or_insert("bob");
    let a2 = d.get_or_insert("alice");
    assert_eq!(a, 1);
    assert_eq!(b, 2);
    assert_eq!(a2, a);
    assert_eq!(d.len(), 2);
    assert_eq!(d.lookup_value(b), Some("bob"));
    assert_eq!(d.lookup_value(0), None);
    assert_eq!(d.lookup_value(3), None);
}

#[test]
fn database_indexes_and_logs_every_fact() {
    let options = Options::new("/data/db").with_partition_config(PartitionConfig::new(4));
    let mut db = Database::open(options).unwrap();
    let t1 = db.add_fact(Fact::new("alice", "knows", "bob")).unwrap();
    let t2 = db.add_fact(Fact::new("bob", "knows", "alice")).unwrap();
    assert_eq!(t1, Triple::new(1, 2, 3));
    assert_eq!(t2, Triple::new(3, 2, 1));
    assert_eq!(db.all_triples(), &[t1, t2]);
    let cfg = PartitionConfig::new(4);
    assert_eq!(db.indexed_partition(&t1), Some(cfg.partition_for(1, 2, 3)));
    assert_eq!(db.indexed_partition(&t2), Some(cfg.partition_for(3, 2, 1)));
    assert_eq!(db.indexed_partition(&Triple::new(9, 9, 9)), None);
}

#[test]
fn wal_buffers_until_flush() {
    let mut wal = WriteAheadLog::new("/tmp/wal.log".to_string());
    let entry = WalEntry { record_type: WalRecordType::AddTriple, triple: Triple::new(1, 2, 3) };
    wal.append(entry);
    wal.append(entry);
    assert_eq!(wal.pending_len(), 2);
    assert!(wal.flush().is_ok());
    assert_eq!(wal.pending_len(), 0);
    assert_eq!(wal.path(), "/tmp/wal.log");
}

#[test]
fn criteria_follow_the_flags() {
    let ffi = nervusdb_query_criteria {
        subject_id: 1,
        predicate_id: 2,
        object_id: 3,
        has_subject: true,
        has_predicate: false,
        has_object: true,
    };
    let c = criteria_from_ffi(&ffi);
    assert_eq!(c.subject_id, Some(1));
    assert_eq!(c.predicate_id, None);
    assert_eq!(c.object_id, Some(3));
}

#[test]
fn every_store_error_is_internal() {
    assert_eq!(status_from_error(&Error::NotFound), NERVUSDB_ERR_INTERNAL);
    assert_eq!(status_from_error(&Error::InvalidCursor(4)), NERVUSDB_ERR_INTERNAL);
    assert_eq!(status_from_error(&Error::Other("x".to_string())), NERVUSDB_ERR_INTERNAL);
}

#[test]
fn equal_strings_get_equal_ids_and_new_databases_start_empty() {
    let mut db = Database::open(Options::new("")).unwrap();
    let t = Triple::new(1, 2, 3);
    assert_eq!(db.indexed_partition(&t), None);
    let first = db.add_fact(Fact::new("alice", "knows", "bob")).unwrap();
    let second = db.add_fact(Fact::new("bob", "knows", "alice")).unwrap();
    assert_eq!((first.subject_id, first.predicate_id, first.object_id), (1, 2, 3));
    assert_eq!((second.subject_id, second.predicate_id, second.object_id), (3, 2, 1));
    assert_eq!(db.indexed_partition(&first), Some(0));
}

#[test]
fn open_accepts_any_partition_count() {
    let options = Options::new("/tmp/nervusdb-zero-partitions").with_partition_config(PartitionConfig { partitions: 0 });
    let db = Database::open(options).unwrap();
    assert!(db.all_triples().is_empty());
    assert_eq!(db.indexed_partition(&Triple::new(1, 1, 1)), None);
}
