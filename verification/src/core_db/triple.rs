//! Subject-predicate-object triples.
use crate::core_db::partition::StringId;
use vstd::prelude::*;

verus! {

/// A triple of dictionary ids.
#[derive(Debug, Clone, Copy, PartialEq, Eq, Structural)]
pub struct Triple {
    pub subject_id: StringId,
    pub predicate_id: StringId,
    pub object_id: StringId,
}

impl Triple {
    pub fn new(subject_id: StringId, predicate_id: StringId, object_id: StringId) -> (t: Triple)
        ensures
            t.subject_id == subject_id,
            t.predicate_id == predicate_id,
            t.object_id == object_id,
    {
        Triple { subject_id, predicate_id, object_id }
    }
}

/// A fact in text form, before its parts are interned.
#[derive(Debug, Clone, Copy)]
pub struct Fact<'a> {
    pub subject: &'a str,
    pub predicate: &'a str,
    pub object: &'a str,
}

impl<'a> Fact<'a> {
    pub fn new(subject: &'a str, predicate: &'a str, object: &'a str) -> (f: Fact<'a>)
        ensures
            f.subject == subject,
            f.predicate == predicate,
            f.object == object,
    {
        Fact { subject, predicate, object }
    }
}

} // verus!
