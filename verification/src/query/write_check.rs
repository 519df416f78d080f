//! Whether a parsed query writes to the graph, and the column kinds of result values.
use crate::query::ast::{CallClause, Clause, Query};
use crate::query::value::{Value, ValueView};
use vstd::prelude::*;

verus! {

/// The clause writes: CREATE, MERGE, SET, REMOVE, DELETE or FOREACH, or a CALL subquery or a
/// UNION part that writes.
pub open spec fn clause_writes(c: Clause) -> bool
    decreases c,
{
    match c {
        Clause::Create(_) | Clause::Merge(_) | Clause::SetProps(_) | Clause::Remove(_) | Clause::Delete(_)
        | Clause::Foreach(_) => true,
        Clause::Call(CallClause::Subquery(q)) => clauses_write(q.clauses@),
        Clause::Union(u) => clauses_write(u.query.clauses@),
        _ => false,
    }
}

/// Some clause of the sequence writes.
pub open spec fn clauses_write(s: Seq<Clause>) -> bool
    decreases s,
{
    s.len() > 0 && (clause_writes(s[0]) || clauses_write(s.drop_first()))
}

/// Whether some clause of the query writes.
pub fn query_contains_write(query: &Query) -> (r: bool)
    ensures
        r == clauses_write(query.clauses@),
    decreases query,
{
    proof {
        assert(query.clauses@.subrange(0, query.clauses@.len() as int) =~= query.clauses@);
    }
    let mut i: usize = 0;
    while i < query.clauses.len()
        invariant
            i <= query.clauses.len(),
            clauses_write(query.clauses@) == clauses_write(query.clauses@.subrange(i as int, query.clauses@.len() as int)),
        decreases query.clauses.len() - i,
    {
        proof {
            let rest = query.clauses@.subrange(i as int, query.clauses@.len() as int);
            assert(rest.drop_first() =~= query.clauses@.subrange(i + 1, query.clauses@.len() as int));
            assert(rest[0] == query.clauses@[i as int]);
        }
        if clause_contains_write(&query.clauses[i]) {
            return true;
        }
        i = i + 1;
    }
    false
}

/// Whether the clause writes (see `clause_writes`).
pub fn clause_contains_write(clause: &Clause) -> (r: bool)
    ensures
        r == clause_writes(*clause),
    decreases clause,
{
    match clause {
        Clause::Create(_) | Clause::Merge(_) | Clause::SetProps(_) | Clause::Remove(_) | Clause::Delete(_)
        | Clause::Foreach(_) => true,
        Clause::Call(CallClause::Subquery(q)) => query_contains_write(q),
        Clause::Union(union_clause) => query_contains_write(&union_clause.query),
        _ => false,
    }
}

pub const NDB_COL_NULL: i32 = 0;
pub const NDB_COL_BOOL: i32 = 1;
pub const NDB_COL_INT64: i32 = 2;
pub const NDB_COL_DOUBLE: i32 = 3;
pub const NDB_COL_STRING: i32 = 4;
pub const NDB_COL_LIST: i32 = 5;
pub const NDB_COL_MAP: i32 = 6;
pub const NDB_COL_NODE: i32 = 7;
pub const NDB_COL_RELATIONSHIP: i32 = 8;
pub const NDB_COL_PATH: i32 = 9;
pub const NDB_COL_OTHER: i32 = 10;

/// The column type code of a value in the C API.
pub open spec fn kind_of(v: ValueView) -> i32 {
    match v {
        ValueView::Null => NDB_COL_NULL,
        ValueView::Bool(_) => NDB_COL_BOOL,
        ValueView::Int(_) | ValueView::DateTime(_) | ValueView::NodeId(_) | ValueView::ExternalId(_) => NDB_COL_INT64,
        ValueView::Float(_) => NDB_COL_DOUBLE,
        ValueView::String(_) => NDB_COL_STRING,
        ValueView::List(_) => NDB_COL_LIST,
        ValueView::Dict(_) => NDB_COL_MAP,
        ValueView::Node(_) => NDB_COL_NODE,
        ValueView::Relationship(_) => NDB_COL_RELATIONSHIP,
        ValueView::Path(_, _) | ValueView::ReifiedPath(_, _) | ValueView::EdgeKey(_) => NDB_COL_PATH,
        ValueView::Blob(_) => NDB_COL_OTHER,
    }
}

/// The column type code of a value (see `kind_of`).
pub fn value_kind(v: &Value) -> (r: i32)
    ensures
        r == kind_of(v@),
{
    match v {
        Value::Null => NDB_COL_NULL,
        Value::Bool(_) => NDB_COL_BOOL,
        Value::Int(_) | Value::DateTime(_) | Value::NodeId(_) => NDB_COL_INT64,
        Value::ExternalId(_) => NDB_COL_INT64,
        Value::Float(_) => NDB_COL_DOUBLE,
        Value::String(_) => NDB_COL_STRING,
        Value::List(_) => NDB_COL_LIST,
        Value::Dict(_) => NDB_COL_MAP,
        Value::Node(_) => NDB_COL_NODE,
        Value::Relationship(_) => NDB_COL_RELATIONSHIP,
        Value::Path(_) | Value::ReifiedPath(_) | Value::EdgeKey(_) => NDB_COL_PATH,
        Value::Blob(_) => NDB_COL_OTHER,
    }
}

} // verus!
