//! Evaluation helpers that read rows and snapshots: label tests, node bindings and the
//! materialization of nodes.
use crate::query::ast::NodePattern;
use crate::query::value::{
    cols_node, copy_value, labels_view, reified_node, reify_node, value_dict_view, value_view, NodeView,
    Row, Value, ValueView,
};
use crate::storage::api::{GraphSnapshot, InternalNodeId, LabelId};
use crate::text::str_equal;
use vstd::prelude::*;

verus! {

/// The labels of a node as the snapshot gives them, none when it does not know the node.
pub open spec fn labels_or_none<S: GraphSnapshot>(s: &S, id: InternalNodeId) -> Seq<LabelId> {
    match s.labels_of(id) {
        Some(ids) => ids,
        None => Seq::empty(),
    }
}

/// The value of `left:right`, a label test: on a node (by id or materialized) whether it has
/// the label, on a relationship whether it has that type; null when either side is null and
/// the test cannot be made, false otherwise.
pub open spec fn has_label_value<S: GraphSnapshot>(left: ValueView, right: ValueView, s: &S) -> ValueView {
    match right {
        ValueView::String(label) => match left {
            ValueView::NodeId(id) => match s.label_named(label) {
                Some(lid) => ValueView::Bool(labels_or_none(s, id).contains(lid)),
                None => ValueView::Bool(false),
            },
            ValueView::Node(n) => ValueView::Bool(n.labels.contains(label)),
            ValueView::EdgeKey(k) => ValueView::Bool(s.rel_type_name(k.rel) == Some(label)),
            ValueView::Relationship(r) => ValueView::Bool(r.rel_type == label),
            ValueView::Null => ValueView::Null,
            _ => ValueView::Bool(false),
        },
        _ => if left is Null || right is Null {
            ValueView::Null
        } else {
            ValueView::Bool(false)
        },
    }
}

fn contains_label(ids: &Vec<LabelId>, id: LabelId) -> (r: bool)
    ensures
        r == ids@.contains(id),
{
    let mut i: usize = 0;
    while i < ids.len()
        invariant
            i <= ids@.len(),
            forall|j: int| 0 <= j < i ==> ids@[j] != id,
        decreases ids.len() - i,
    {
        if ids[i] == id {
            return true;
        }
        i = i + 1;
    }
    false
}

fn contains_name(names: &Vec<String>, name: &str) -> (r: bool)
    ensures
        r == labels_view(names@).contains(name@),
{
    let mut i: usize = 0;
    while i < names.len()
        invariant
            i <= names@.len(),
            forall|j: int| 0 <= j < i ==> names@[j]@ != name@,
        decreases names.len() - i,
    {
        if str_equal(names[i].as_str(), name) {
            proof {
                assert(labels_view(names@)[i as int] == name@);
            }
            return true;
        }
        i = i + 1;
    }
    proof {
        if labels_view(names@).contains(name@) {
            let j = choose|j: int| 0 <= j < labels_view(names@).len() && labels_view(names@)[j] == name@;
            assert(names@[j]@ == name@);
        }
    }
    false
}

/// The label test `left:right` (see `has_label_value`).
pub fn evaluate_has_label<S: GraphSnapshot>(left: &Value, right: &Value, snapshot: &S) -> (r: Value)
    ensures
        r@ == has_label_value(left@, right@, snapshot),
{
    let label: &str = match right {
        Value::String(l) => l.as_str(),
        _ => {
            return if matches!(left, Value::Null) || matches!(right, Value::Null) {
                Value::Null
            } else {
                Value::Bool(false)
            };
        },
    };
    match left {
        Value::NodeId(node_id) => match snapshot.resolve_label_id(label) {
            Some(label_id) => {
                let labels = match snapshot.resolve_node_labels(*node_id) {
                    Some(ids) => ids,
                    None => Vec::new(),
                };
                proof {
                    assert(labels@ == labels_or_none(snapshot, *node_id));
                }
                Value::Bool(contains_label(&labels, label_id))
            },
            None => Value::Bool(false),
        },
        Value::Node(node) => Value::Bool(contains_name(&node.labels, label)),
        Value::EdgeKey(edge_key) => match snapshot.resolve_rel_type_name(edge_key.rel) {
            Some(name) => Value::Bool(str_equal(name.as_str(), label)),
            None => Value::Bool(false),
        },
        Value::Relationship(rel) => Value::Bool(str_equal(rel.rel_type.as_str(), label)),
        Value::Null => Value::Null,
        _ => Value::Bool(false),
    }
}

/// The node that the pattern's variable is bound to in the row, if any.
pub fn resolve_node_binding(node_pattern: &NodePattern, row: &Row) -> (r: Option<InternalNodeId>)
    ensures
        r == match node_pattern.variable {
            Some(name) => cols_node(row@, name@),
            None => None,
        },
{
    match &node_pattern.variable {
        Some(name) => row.get_node(name.as_str()),
        None => None,
    }
}

/// The first column of the row that holds the node `id`, by id or materialized.
pub open spec fn first_node_value(cols: Seq<(Seq<char>, ValueView)>, id: InternalNodeId) -> Option<ValueView>
    decreases cols.len(),
{
    if cols.len() == 0 {
        None
    } else {
        match cols[0].1 {
            ValueView::Node(n) if n.id == id => Some(cols[0].1),
            ValueView::NodeId(x) if x == id => Some(cols[0].1),
            _ => first_node_value(cols.drop_first(), id),
        }
    }
}

/// The node `id` as a value: as the row holds it when a column does, else read from the
/// snapshot, and as a bare id when the snapshot knows no labels or properties of it.
pub open spec fn materialized_node<S: GraphSnapshot>(cols: Seq<(Seq<char>, ValueView)>, s: &S, id: InternalNodeId) -> ValueView {
    match first_node_value(cols, id) {
        Some(v) => v,
        None => {
            let n: NodeView = reified_node(s, id);
            if n.labels.len() == 0 && n.properties.len() == 0 {
                ValueView::NodeId(id)
            } else {
                ValueView::Node(n)
            }
        },
    }
}

proof fn lemma_value_dict_len(s: Seq<(String, Value)>)
    ensures
        value_dict_view(s).len() == s.len(),
    decreases s.len(),
{
    if s.len() > 0 {
        lemma_value_dict_len(s.drop_first());
    }
}

/// The node `id` (see `materialized_node`).
pub fn materialize_node_from_row_or_snapshot<S: GraphSnapshot>(row: &Row, snapshot: &S, node_id: InternalNodeId) -> (r: Value)
    ensures
        r@ == materialized_node(row@, snapshot, node_id),
{
    let cols = row.columns();
    let mut i: usize = 0;
    proof {
        assert(cols@.skip(0) =~= cols@);
    }
    while i < cols.len()
        invariant
            i <= cols@.len(),
            value_dict_view(cols@) == row@,
            first_node_value(row@, node_id) == first_node_value(value_dict_view(cols@.skip(i as int)), node_id),
        decreases cols.len() - i,
    {
        proof {
            let rest = cols@.skip(i as int);
            assert(rest.drop_first() =~= cols@.skip(i + 1));
            assert(value_dict_view(rest).drop_first() =~= value_dict_view(rest.drop_first()));
            assert(value_dict_view(rest)[0] == (cols@[i as int].0@, value_view(cols@[i as int].1)));
        }
        match &cols[i].1 {
            Value::Node(node) => {
                if node.id == node_id {
                    return copy_value(&cols[i].1);
                }
            },
            Value::NodeId(id) => {
                if *id == node_id {
                    return Value::NodeId(*id);
                }
            },
            _ => {},
        }
        i = i + 1;
    }
    proof {
        assert(cols@.skip(i as int) =~= Seq::<(String, Value)>::empty());
        assert(value_dict_view(cols@.skip(i as int)) =~= Seq::<(Seq<char>, ValueView)>::empty());
    }
    let node = reify_node(snapshot, node_id);
    proof {
        lemma_value_dict_len(node.properties@);
        assert(labels_view(node.labels@).len() == node.labels@.len());
    }
    if node.labels.len() == 0 && node.properties.len() == 0 {
        Value::NodeId(node_id)
    } else {
        Value::Node(node)
    }
}

} // verus!
