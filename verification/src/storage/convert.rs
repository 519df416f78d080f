//! Conversions between the storage engine's types and the graph API's types.
use crate::storage::api;
use crate::storage::api::{api_dict_view, api_list_view, PropView};
use crate::storage::property::{storage_dict_view, storage_list_view, PropertyValue};
use vstd::prelude::*;

verus! {

/// The storage engine's own edge key (the same three fields as the API's).
#[derive(Debug, Clone, Copy, PartialEq, Eq, Structural)]
pub struct EdgeKey {
    pub src: api::InternalNodeId,
    pub rel: api::RelTypeId,
    pub dst: api::InternalNodeId,
}

/// A byte vector equal to `b`.
fn copy_bytes(b: &Vec<u8>) -> (r: Vec<u8>)
    ensures
        r@ == b@,
{
    let mut out: Vec<u8> = Vec::new();
    let mut i: usize = 0;
    while i < b.len()
        invariant
            i <= b.len(),
            out@ == b@.subrange(0, i as int),
        decreases b.len() - i,
    {
        out.push(b[i]);
        i = i + 1;
    }
    proof {
        assert(out@ =~= b@);
    }
    out
}

fn list_to_api(values: &Vec<PropertyValue>) -> (r: Vec<api::PropertyValue>)
    ensures
        api_list_view(r@) == storage_list_view(values@),
    decreases values,
{
    let mut out: Vec<api::PropertyValue> = Vec::new();
    proof {
        assert(values@.subrange(0, values@.len() as int) =~= values@);
        assert(api_list_view(out@) =~= Seq::<PropView>::empty());
        assert(api_list_view(out@) + storage_list_view(values@) =~= storage_list_view(values@));
    }
    let mut i: usize = 0;
    while i < values.len()
        invariant
            i <= values.len(),
            storage_list_view(values@) == api_list_view(out@) + storage_list_view(values@.subrange(i as int, values@.len() as int)),
        decreases values.len() - i,
    {
        proof {
            assert(values@.subrange(i as int, values@.len() as int).drop_first()
                =~= values@.subrange(i + 1, values@.len() as int));
            assert(values@.subrange(i as int, values@.len() as int)[0] == values@[i as int]);
        }
        let converted = property_to_api(&values[i]);
        let ghost before = out@;
        out.push(converted);
        proof {
            lemma_api_list_push(before, converted);
        }
        i = i + 1;
    }
    proof {
        assert(values@.subrange(i as int, values@.len() as int).len() == 0);
    }
    out
}

pub(crate) fn dict_to_api(entries: &Vec<(String, PropertyValue)>) -> (r: Vec<(String, api::PropertyValue)>)
    ensures
        api_dict_view(r@) == storage_dict_view(entries@),
    decreases entries,
{
    let mut out: Vec<(String, api::PropertyValue)> = Vec::new();
    proof {
        assert(entries@.subrange(0, entries@.len() as int) =~= entries@);
        assert(api_dict_view(out@) =~= Seq::<(Seq<char>, PropView)>::empty());
        assert(api_dict_view(out@) + storage_dict_view(entries@) =~= storage_dict_view(entries@));
    }
    let mut i: usize = 0;
    while i < entries.len()
        invariant
            i <= entries.len(),
            storage_dict_view(entries@) == api_dict_view(out@) + storage_dict_view(entries@.subrange(i as int, entries@.len() as int)),
        decreases entries.len() - i,
    {
        proof {
            assert(entries@.subrange(i as int, entries@.len() as int).drop_first()
                =~= entries@.subrange(i + 1, entries@.len() as int));
            assert(entries@.subrange(i as int, entries@.len() as int)[0] == entries@[i as int]);
        }
        let converted = property_to_api(&entries[i].1);
        let ghost before = out@;
        let entry = (entries[i].0.clone(), converted);
        out.push(entry);
        proof {
            lemma_api_dict_push(before, entry);
        }
        i = i + 1;
    }
    proof {
        assert(entries@.subrange(i as int, entries@.len() as int).len() == 0);
    }
    out
}

proof fn lemma_api_list_push(s: Seq<api::PropertyValue>, x: api::PropertyValue)
    ensures
        api_list_view(s.push(x)) == api_list_view(s) + seq![api::api_prop_view(x)],
    decreases s.len(),
{
    if s.len() == 0 {
        assert(s.push(x).drop_first() =~= Seq::<api::PropertyValue>::empty());
        assert(api_list_view(s.push(x).drop_first()) =~= Seq::<PropView>::empty());
        assert(api_list_view(s) =~= Seq::<PropView>::empty());
        assert(s.push(x)[0] == x);
        assert(api_list_view(s.push(x)) =~= api_list_view(s) + seq![api::api_prop_view(x)]);
    } else {
        assert(s.push(x).drop_first() =~= s.drop_first().push(x));
        lemma_api_list_push(s.drop_first(), x);
        assert(s.push(x)[0] == s[0]);
        assert(api_list_view(s.push(x)) =~= api_list_view(s) + seq![api::api_prop_view(x)]);
    }
}

proof fn lemma_api_dict_push(s: Seq<(String, api::PropertyValue)>, x: (String, api::PropertyValue))
    ensures
        api_dict_view(s.push(x)) == api_dict_view(s) + seq![(x.0@, api::api_prop_view(x.1))],
    decreases s.len(),
{
    if s.len() == 0 {
        assert(s.push(x).drop_first() =~= Seq::<(String, api::PropertyValue)>::empty());
        assert(api_dict_view(s.push(x).drop_first()) =~= Seq::<(Seq<char>, PropView)>::empty());
        assert(api_dict_view(s) =~= Seq::<(Seq<char>, PropView)>::empty());
        assert(s.push(x)[0] == x);
        assert(api_dict_view(s.push(x)) =~= api_dict_view(s) + seq![(x.0@, api::api_prop_view(x.1))]);
    } else {
        assert(s.push(x).drop_first() =~= s.drop_first().push(x));
        lemma_api_dict_push(s.drop_first(), x);
        assert(s.push(x)[0] == s[0]);
        assert(api_dict_view(s.push(x)) =~= api_dict_view(s) + seq![(x.0@, api::api_prop_view(x.1))]);
    }
}

fn property_to_api(value: &PropertyValue) -> (r: api::PropertyValue)
    ensures
        r@ == value@,
    decreases value,
{
    match value {
        PropertyValue::Null => api::PropertyValue::Null,
        PropertyValue::Bool(v) => api::PropertyValue::Bool(*v),
        PropertyValue::Int(v) => api::PropertyValue::Int(*v),
        PropertyValue::Float(v) => api::PropertyValue::Float(*v),
        PropertyValue::String(v) => api::PropertyValue::String(v.clone()),
        PropertyValue::DateTime(v) => api::PropertyValue::DateTime(*v),
        PropertyValue::Blob(v) => api::PropertyValue::Blob(copy_bytes(v)),
        PropertyValue::List(values) => api::PropertyValue::List(list_to_api(values)),
        PropertyValue::Dict(entries) => api::PropertyValue::Dict(dict_to_api(entries)),
    }
}

/// The API form of a storage property value; the value itself is unchanged.
pub fn convert_property_to_api(value: PropertyValue) -> (r: api::PropertyValue)
    ensures
        r@ == value@,
{
    property_to_api(&value)
}

/// The API form of a storage property map; keys, order and values are unchanged.
pub fn convert_property_map_to_api(props: Vec<(String, PropertyValue)>) -> (r: Vec<(String, api::PropertyValue)>)
    ensures
        api_dict_view(r@) == storage_dict_view(props@),
{
    dict_to_api(&props)
}

/// The storage engine's edge key with the fields of the API's.
pub fn api_edge_to_internal(edge: api::EdgeKey) -> (r: EdgeKey)
    ensures
        r.src == edge.src && r.rel == edge.rel && r.dst == edge.dst,
{
    EdgeKey { src: edge.src, rel: edge.rel, dst: edge.dst }
}

/// The API's edge key with the fields of the storage engine's.
pub fn internal_edge_to_api(edge: EdgeKey) -> (r: api::EdgeKey)
    ensures
        r.src == edge.src && r.rel == edge.rel && r.dst == edge.dst,
{
    api::EdgeKey { src: edge.src, rel: edge.rel, dst: edge.dst }
}

/// Converting an edge key to the API and back gives the key back, and the other way round.
pub proof fn law_edge_key_round_trip(internal: EdgeKey, external: api::EdgeKey)
    ensures
        ({
            let there = api::EdgeKey { src: internal.src, rel: internal.rel, dst: internal.dst };
            EdgeKey { src: there.src, rel: there.rel, dst: there.dst } == internal
        }),
        ({
            let there = EdgeKey { src: external.src, rel: external.rel, dst: external.dst };
            api::EdgeKey { src: there.src, rel: there.rel, dst: there.dst } == external
        }),
{
}

} // verus!
