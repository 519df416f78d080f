//! Anchoring of single-hop MATCH patterns on the variables that are already bound.
use crate::query::ast::{NodePattern, PathElement, Pattern, RelationshipDirection, RelationshipPattern};
use crate::query::bindings::{BindingKind, Bindings};
use vstd::prelude::*;

verus! {

/// The binding of `alias` is of the `expected` kind, or of a kind not yet known.
pub open spec fn binding_compatible(known: Map<Seq<char>, BindingKind>, alias: Seq<char>, expected: BindingKind) -> bool {
    known.contains_key(alias) && (known[alias] == expected || known[alias] == BindingKind::Unknown)
}

/// The optional variable is bound, to a node or to a value of unknown kind.
pub open spec fn node_bound(known: Map<Seq<char>, BindingKind>, var: Option<String>) -> bool {
    var is Some && known.contains_key(var->0@) && (known[var->0@] == BindingKind::Node
        || known[var->0@] == BindingKind::Unknown)
}

/// The second element of the pattern is a fixed-length relationship whose variable is
/// already bound to a relationship (or to a value of unknown kind).
pub open spec fn first_relationship_bound_spec(p: Pattern, known: Map<Seq<char>, BindingKind>) -> bool {
    p.elements@.len() > 1 && match p.elements@[1] {
        PathElement::Relationship(rel) => rel.variable_length is None && rel.variable is Some
            && known.contains_key(rel.variable->0@) && (known[rel.variable->0@] == BindingKind::Relationship
            || known[rel.variable->0@] == BindingKind::Unknown),
        _ => false,
    }
}

/// Whether the pattern's first relationship is already bound.
pub fn first_relationship_is_bound(pattern: &Pattern, known_bindings: &Bindings) -> (r: bool)
    ensures
        r == first_relationship_bound_spec(*pattern, known_bindings@),
{
    if pattern.elements.len() < 2 {
        return false;
    }
    match &pattern.elements[1] {
        PathElement::Relationship(rel) => {
            if rel.variable_length.is_some() {
                return false;
            }
            match &rel.variable {
                Some(name) => match known_bindings.get(name.as_str()) {
                    Some(kind) => kind == BindingKind::Relationship || kind == BindingKind::Unknown,
                    None => false,
                },
                None => false,
            }
        },
        _ => false,
    }
}

/// Whether `alias` is bound to a value of kind `expected` or of unknown kind.
pub fn is_binding_compatible(known_bindings: &Bindings, alias: &str, expected: BindingKind) -> (r: bool)
    ensures
        r == binding_compatible(known_bindings@, alias@, expected),
{
    match known_bindings.get(alias) {
        Some(kind) => kind == expected || kind == BindingKind::Unknown,
        None => false,
    }
}

/// Whether the node pattern's variable is already bound to a node (or to an unknown kind).
pub fn is_bound_node_alias(node: &NodePattern, known_bindings: &Bindings) -> (r: bool)
    ensures
        r == node_bound(known_bindings@, node.variable),
{
    match &node.variable {
        Some(name) => match known_bindings.get(name.as_str()) {
            Some(kind) => kind == BindingKind::Node || kind == BindingKind::Unknown,
            None => false,
        },
        None => false,
    }
}

/// The opposite direction of a relationship; undirected stays undirected.
pub open spec fn reversed(d: RelationshipDirection) -> RelationshipDirection {
    match d {
        RelationshipDirection::LeftToRight => RelationshipDirection::RightToLeft,
        RelationshipDirection::RightToLeft => RelationshipDirection::LeftToRight,
        RelationshipDirection::Undirected => RelationshipDirection::Undirected,
    }
}

pub fn reverse_relationship_direction(direction: &RelationshipDirection) -> (r: RelationshipDirection)
    ensures
        r == reversed(*direction),
{
    match direction {
        RelationshipDirection::LeftToRight => RelationshipDirection::RightToLeft,
        RelationshipDirection::RightToLeft => RelationshipDirection::LeftToRight,
        RelationshipDirection::Undirected => RelationshipDirection::Undirected,
    }
}

/// The aliases that an OPTIONAL MATCH has to unbind on rows where it does not match: each
/// of source, destination, edge and path alias (in that order, without repetition) that is not
/// already bound to a value of its kind.
pub open spec fn unbind_aliases_spec(
    known: Map<Seq<char>, BindingKind>,
    src: Seq<char>,
    dst: Seq<char>,
    edge: Option<Seq<char>>,
    path: Option<Seq<char>>,
) -> Seq<Seq<char>> {
    let s0 = Seq::<Seq<char>>::empty();
    let s1 = if !binding_compatible(known, src, BindingKind::Node) { push_unique(s0, src) } else { s0 };
    let s2 = if !binding_compatible(known, dst, BindingKind::Node) { push_unique(s1, dst) } else { s1 };
    let s3 = if edge is Some && !binding_compatible(known, edge->0, BindingKind::Relationship) {
        push_unique(s2, edge->0)
    } else {
        s2
    };
    if path is Some && !binding_compatible(known, path->0, BindingKind::Path) {
        push_unique(s3, path->0)
    } else {
        s3
    }
}

/// `s` with `x` appended unless `s` holds it already.
pub open spec fn push_unique(s: Seq<Seq<char>>, x: Seq<char>) -> Seq<Seq<char>> {
    if s.contains(x) {
        s
    } else {
        s.push(x)
    }
}

/// The view of a vector of strings as a sequence of character sequences.
pub open spec fn strings_view(v: Seq<String>) -> Seq<Seq<char>> {
    v.map_values(|s: String| s@)
}

fn push_alias(out: &mut Vec<String>, alias: &str)
    ensures
        strings_view(final(out)@) == push_unique(strings_view(old(out)@), alias@),
{
    let mut i: usize = 0;
    while i < out.len()
        invariant
            i <= out.len(),
            forall|j: int| 0 <= j < i ==> (#[trigger] out@[j])@ != alias@,
        decreases out.len() - i,
    {
        if crate::text::str_equal(out[i].as_str(), alias) {
            proof {
                assert(strings_view(out@)[i as int] == alias@);
            }
            return;
        }
        i = i + 1;
    }
    proof {
        assert(!strings_view(out@).contains(alias@)) by {
            if strings_view(out@).contains(alias@) {
                let j = choose|j: int| 0 <= j < strings_view(out@).len() && strings_view(out@)[j] == alias@;
                assert(out@[j]@ == alias@);
            }
        }
    }
    out.push(String::from_str(alias));
    proof {
        assert(strings_view(out@) =~= strings_view(old(out)@).push(alias@));
    }
}

/// The aliases that an OPTIONAL MATCH unbinds where it does not match (see
/// `unbind_aliases_spec`).
pub fn build_optional_unbind_aliases(
    known_bindings: &Bindings,
    src_alias: &str,
    dst_alias: &str,
    edge_alias: Option<&str>,
    path_alias: Option<&str>,
) -> (r: Vec<String>)
    ensures
        strings_view(r@) == unbind_aliases_spec(
            known_bindings@,
            src_alias@,
            dst_alias@,
            match edge_alias {
                Some(e) => Some(e@),
                None => None,
            },
            match path_alias {
                Some(p) => Some(p@),
                None => None,
            },
        ),
{
    let mut out: Vec<String> = Vec::new();
    proof {
        assert(strings_view(out@) =~= Seq::<Seq<char>>::empty());
    }
    if !is_binding_compatible(known_bindings, src_alias, BindingKind::Node) {
        push_alias(&mut out, src_alias);
    }
    if !is_binding_compatible(known_bindings, dst_alias, BindingKind::Node) {
        push_alias(&mut out, dst_alias);
    }
    if let Some(alias) = edge_alias {
        if !is_binding_compatible(known_bindings, alias, BindingKind::Relationship) {
            push_alias(&mut out, alias);
        }
    }
    if let Some(alias) = path_alias {
        if !is_binding_compatible(known_bindings, alias, BindingKind::Path) {
            push_alias(&mut out, alias);
        }
    }
    out
}

/// The pattern `(a)-[r]->(b)` is turned around to `(b)<-[r]-(a)` when `b` is already bound to
/// a node and `a` is not; any other pattern is returned as it is.
pub open spec fn reanchors(p: Pattern, known: Map<Seq<char>, BindingKind>) -> bool {
    &&& p.elements@.len() == 3
    &&& p.elements@[0] is Node
    &&& p.elements@[1] is Relationship
    &&& p.elements@[2] is Node
    &&& !node_bound(known, p.elements@[0]->Node_0.variable)
    &&& node_bound(known, p.elements@[2]->Node_0.variable)
}

/// Reorders a single-hop pattern so that it starts from its bound end (see `reanchors`).
pub fn maybe_reanchor_pattern(pattern: Pattern, known_bindings: &Bindings) -> (r: Pattern)
    ensures
        reanchors(pattern, known_bindings@) ==> ({
            let rel = pattern.elements@[1]->Relationship_0;
            &&& r.variable == pattern.variable
            &&& r.elements@.len() == 3
            &&& r.elements@[0] == pattern.elements@[2]
            &&& r.elements@[1] == PathElement::Relationship(RelationshipPattern { direction: reversed(rel.direction), ..rel })
            &&& r.elements@[2] == pattern.elements@[0]
        }),
        !reanchors(pattern, known_bindings@) ==> r == pattern,
{
    if pattern.elements.len() != 3 {
        return pattern;
    }
    let shape_ok = match (&pattern.elements[0], &pattern.elements[1], &pattern.elements[2]) {
        (PathElement::Node(first), PathElement::Relationship(_), PathElement::Node(last)) => {
            !is_bound_node_alias(first, known_bindings) && is_bound_node_alias(last, known_bindings)
        },
        _ => false,
    };
    if !shape_ok {
        return pattern;
    }
    let ghost old_elements = pattern.elements@;
    let Pattern { variable, elements } = pattern;
    let mut elements = elements;
    let last = elements.pop().unwrap();
    let rel = elements.pop().unwrap();
    let first = elements.pop().unwrap();
    let flipped = match rel {
        PathElement::Relationship(mut rp) => {
            rp.direction = reverse_relationship_direction(&rp.direction);
            PathElement::Relationship(rp)
        },
        other => other,
    };
    let mut out: Vec<PathElement> = Vec::new();
    out.push(last);
    out.push(flipped);
    out.push(first);
    Pattern { variable, elements: out }
}

} // verus!
