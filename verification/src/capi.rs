//! The opaque handles of the C API (`ndb_*`): C callers only ever hold pointers to them.
use vstd::prelude::*;

verus! {

/// An open database.
#[allow(non_camel_case_types)]
pub struct ndb_db_t {
    _private: [u8; 0],
}

/// A prepared statement.
#[allow(non_camel_case_types)]
pub struct ndb_stmt_t {
    _private: [u8; 0],
}

/// A write transaction.
#[allow(non_camel_case_types)]
pub struct ndb_txn_t {
    _private: [u8; 0],
}

/// A query result in JSON form.
#[allow(non_camel_case_types)]
pub struct ndb_result_t {
    _private: [u8; 0],
}

} // verus!
