//! The plain-data side of the C interface of the triple store: status codes, the opaque
//! handle, query criteria as C passes them, and the mapping of store errors to statuses.
use vstd::prelude::*;

verus! {

pub const NERVUSDB_OK: i32 = 0;
pub const NERVUSDB_ERR_INVALID_ARGUMENT: i32 = 1;
pub const NERVUSDB_ERR_OPEN: i32 = 2;
pub const NERVUSDB_ERR_INTERNAL: i32 = 3;
pub const NERVUSDB_ERR_CALLBACK: i32 = 4;

/// The opaque database handle that C callers hold a pointer to.
#[allow(non_camel_case_types)]
pub struct nervusdb_db {
    _private: [u8; 0],
}

/// Triple-pattern criteria as C passes them: an id and a flag per position.
#[allow(non_camel_case_types)]
#[derive(Debug, Clone, Copy)]
pub struct nervusdb_query_criteria {
    pub subject_id: u64,
    pub predicate_id: u64,
    pub object_id: u64,
    pub has_subject: bool,
    pub has_predicate: bool,
    pub has_object: bool,
}

/// A triple pattern: each position is either fixed to an id or left open.
#[derive(Debug, Clone, Copy, PartialEq, Eq, Structural)]
pub struct QueryCriteria {
    pub subject_id: Option<u64>,
    pub predicate_id: Option<u64>,
    pub object_id: Option<u64>,
}

/// The errors of the triple store.
#[derive(Debug)]
pub enum Error {
    InvalidCursor(u64),
    NotFound,
    Other(String),
}

/// An id when its flag is set.
pub open spec fn flagged(has: bool, id: u64) -> Option<u64> {
    if has { Some(id) } else { None }
}

/// The criteria that the C struct describes: a position is fixed exactly when its flag is set.
pub fn criteria_from_ffi(ffi: &nervusdb_query_criteria) -> (r: QueryCriteria)
    ensures
        r.subject_id == flagged(ffi.has_subject, ffi.subject_id),
        r.predicate_id == flagged(ffi.has_predicate, ffi.predicate_id),
        r.object_id == flagged(ffi.has_object, ffi.object_id),
{
    QueryCriteria {
        subject_id: if ffi.has_subject { Some(ffi.subject_id) } else { None },
        predicate_id: if ffi.has_predicate { Some(ffi.predicate_id) } else { None },
        object_id: if ffi.has_object { Some(ffi.object_id) } else { None },
    }
}

/// The status that C callers see for a store error: every store error is internal.
pub fn status_from_error(err: &Error) -> (r: i32)
    ensures
        r == NERVUSDB_ERR_INTERNAL,
{
    match err {
        Error::InvalidCursor(_) | Error::NotFound | Error::Other(_) => NERVUSDB_ERR_INTERNAL,
    }
}

} // verus!
