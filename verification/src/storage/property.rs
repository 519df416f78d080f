//! Property values as the storage engine keeps them.
use crate::storage::api::PropView;
use vstd::prelude::*;

verus! {

/// A property value of a node or an edge.
#[derive(Debug, PartialEq)]
pub enum PropertyValue {
    Null,
    Bool(bool),
    Int(i64),
    /// A float, by its IEEE-754 bit pattern.
    Float(u64),
    String(String),
    DateTime(i64),
    Blob(Vec<u8>),
    List(Vec<PropertyValue>),
    /// A map from property key to value, in key order.
    Dict(Vec<(String, PropertyValue)>),
}

pub open spec fn storage_prop_view(v: PropertyValue) -> PropView
    decreases v,
{
    match v {
        PropertyValue::Null => PropView::Null,
        PropertyValue::Bool(b) => PropView::Bool(b),
        PropertyValue::Int(i) => PropView::Int(i),
        PropertyValue::Float(f) => PropView::Float(f),
        PropertyValue::String(s) => PropView::String(s@),
        PropertyValue::DateTime(t) => PropView::DateTime(t),
        PropertyValue::Blob(b) => PropView::Blob(b@),
        PropertyValue::List(items) => PropView::List(storage_list_view(items@)),
        PropertyValue::Dict(entries) => PropView::Dict(storage_dict_view(entries@)),
    }
}

pub open spec fn storage_list_view(s: Seq<PropertyValue>) -> Seq<PropView>
    decreases s,
{
    if s.len() == 0 {
        Seq::empty()
    } else {
        seq![storage_prop_view(s[0])] + storage_list_view(s.drop_first())
    }
}

pub open spec fn storage_dict_view(s: Seq<(String, PropertyValue)>) -> Seq<(Seq<char>, PropView)>
    decreases s,
{
    if s.len() == 0 {
        Seq::empty()
    } else {
        seq![(s[0].0@, storage_prop_view(s[0].1))] + storage_dict_view(s.drop_first())
    }
}

impl View for PropertyValue {
    type V = PropView;

    open spec fn view(&self) -> PropView {
        storage_prop_view(*self)
    }
}

} // verus!
