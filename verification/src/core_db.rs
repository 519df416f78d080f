//! Low level storage primitives: triples, dictionary, partitions, index and log.
pub mod database;
pub mod dictionary;
pub mod ffi;
pub mod global_index;
pub mod partition;
pub mod triple;
pub mod wal;
