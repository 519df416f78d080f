//! The ON CREATE / ON MATCH SET items of a MERGE clause.
use crate::query::ast::{Expression, PathElement, Pattern, SetClause, SetItem};
use crate::query::error::{undefined_variable, Result};
use crate::query::where_validation::{element_variable, names_of, undefined};
use crate::query::error::ErrorView;
use crate::text::str_equal;
use vstd::prelude::*;

verus! {

/// The variables that the nodes and relationships of a MERGE pattern bind.
pub open spec fn merge_pattern_vars(p: Pattern) -> Set<Seq<char>> {
    Set::new(
        |v: Seq<char>| exists|i: int|
            0 <= i < p.elements@.len() && (#[trigger] element_variable(p.elements@[i])) is Some
                && element_variable(p.elements@[i])->0@ == v,
    )
}

/// The variables of the nodes and relationships of a MERGE pattern.
pub fn extract_merge_pattern_vars(pattern: &Pattern) -> (r: Vec<String>)
    ensures
        names_of(r@) == merge_pattern_vars(*pattern),
{
    let mut vars: Vec<String> = Vec::new();
    let mut i: usize = 0;
    while i < pattern.elements.len()
        invariant
            i <= pattern.elements@.len(),
            forall|v: Seq<char>| #[trigger] names_of(vars@).contains(v) <==> exists|k: int|
                0 <= k < i && (#[trigger] element_variable(pattern.elements@[k])) is Some
                    && element_variable(pattern.elements@[k])->0@ == v,
        decreases pattern.elements.len() - i,
    {
        let var = match &pattern.elements[i] {
            PathElement::Node(n) => &n.variable,
            PathElement::Relationship(r) => &r.variable,
        };
        proof {
            assert(*var == element_variable(pattern.elements@[i as int]));
        }
        let ghost before = vars@;
        if let Some(v) = var {
            vars.push(v.clone());
        }
        proof {
            assert forall|v: Seq<char>| #[trigger] names_of(vars@).contains(v) <==> exists|k: int|
                0 <= k < i + 1 && (#[trigger] element_variable(pattern.elements@[k])) is Some
                    && element_variable(pattern.elements@[k])->0@ == v by {
                if names_of(vars@).contains(v) {
                    let j = choose|j: int| 0 <= j < vars@.len() && #[trigger] vars@[j]@ == v;
                    if j < before.len() {
                        assert(before[j]@ == v);
                        assert(names_of(before).contains(v));
                    } else {
                        assert(element_variable(pattern.elements@[i as int]) is Some);
                    }
                }
                if exists|k: int| 0 <= k < i + 1 && (#[trigger] element_variable(pattern.elements@[k])) is Some
                    && element_variable(pattern.elements@[k])->0@ == v {
                    let k = choose|k: int| 0 <= k < i + 1 && (#[trigger] element_variable(pattern.elements@[k])) is Some
                        && element_variable(pattern.elements@[k])->0@ == v;
                    if k < i {
                        assert(names_of(before).contains(v));
                        let j = choose|j: int| 0 <= j < before.len() && #[trigger] before[j]@ == v;
                        assert(vars@[j] == before[j]);
                    } else {
                        assert(vars@[vars@.len() - 1]@ == v);
                    }
                }
            }
        }
        i = i + 1;
    }
    proof {
        assert(names_of(vars@) =~= merge_pattern_vars(*pattern));
    }
    vars
}

/// The SET items of a sequence of SET clauses, clause after clause.
pub open spec fn flat_set_items(s: Seq<SetClause>) -> Seq<SetItem>
    decreases s.len(),
{
    if s.len() == 0 {
        Seq::empty()
    } else {
        s[0].items@ + flat_set_items(s.drop_first())
    }
}

/// The first SET item whose variable is not bound by the MERGE pattern.
pub open spec fn first_unbound_item(items: Seq<SetItem>, vars: Set<Seq<char>>) -> Option<SetItem>
    decreases items.len(),
{
    if items.len() == 0 {
        None
    } else if !vars.contains(items[0].property.variable@) {
        Some(items[0])
    } else {
        first_unbound_item(items.drop_first(), vars)
    }
}

/// A SET item as (variable, property key, value expression).
pub open spec fn item_triple(it: SetItem) -> (String, String, Expression) {
    (it.property.variable, it.property.property, it.value)
}

fn contains_name(names: &Vec<String>, name: &String) -> (r: bool)
    ensures
        r == names_of(names@).contains(name@),
{
    let mut i: usize = 0;
    while i < names.len()
        invariant
            i <= names.len(),
            forall|j: int| 0 <= j < i ==> (#[trigger] names@[j])@ != name@,
        decreases names.len() - i,
    {
        if str_equal(names[i].as_str(), name.as_str()) {
            return true;
        }
        i = i + 1;
    }
    false
}

proof fn lemma_flat_push(s: Seq<SetClause>, c: SetClause)
    ensures
        flat_set_items(s.push(c)) == flat_set_items(s) + c.items@,
    decreases s.len(),
{
    if s.len() == 0 {
        assert(s.push(c).drop_first() =~= Seq::<SetClause>::empty());
        assert(flat_set_items(s.push(c).drop_first()) =~= Seq::<SetItem>::empty());
        assert(flat_set_items(s.push(c)) =~= c.items@);
    } else {
        assert(s.push(c).drop_first() =~= s.drop_first().push(c));
        lemma_flat_push(s.drop_first(), c);
        assert(flat_set_items(s.push(c)) =~= flat_set_items(s) + c.items@);
    }
}

proof fn lemma_flat_concat(a: Seq<SetClause>, b: Seq<SetClause>)
    ensures
        flat_set_items(a + b) == flat_set_items(a) + flat_set_items(b),
    decreases a.len(),
{
    if a.len() == 0 {
        assert(a + b =~= b);
        assert(flat_set_items(a) =~= Seq::<SetItem>::empty());
        assert(flat_set_items(a + b) =~= flat_set_items(a) + flat_set_items(b));
    } else {
        assert((a + b).drop_first() =~= a.drop_first() + b);
        lemma_flat_concat(a.drop_first(), b);
        assert((a + b)[0] == a[0]);
        assert(flat_set_items(a + b) =~= flat_set_items(a) + flat_set_items(b));
    }
}

proof fn lemma_first_unbound_append(a: Seq<SetItem>, b: Seq<SetItem>, vars: Set<Seq<char>>)
    requires
        first_unbound_item(a, vars) is None,
    ensures
        first_unbound_item(a + b, vars) == first_unbound_item(b, vars),
    decreases a.len(),
{
    if a.len() > 0 {
        assert((a + b).drop_first() =~= a.drop_first() + b);
        lemma_first_unbound_append(a.drop_first(), b, vars);
    } else {
        assert(a + b =~= b);
    }
}

/// The (variable, key, value) triples of the SET items of ON CREATE / ON MATCH, each of whose
/// variable must be bound by the MERGE pattern ("syntax error: UndefinedVariable (<name>)"
/// for the first that is not).
pub fn compile_merge_set_items(merge_vars: &Vec<String>, set_clauses: Vec<SetClause>) -> (r: Result<
    Vec<(String, String, Expression)>,
>)
    ensures
        match first_unbound_item(flat_set_items(set_clauses@), names_of(merge_vars@)) {
            Some(it) => r matches Err(e) && e@ == undefined(it.property.variable@),
            None => r matches Ok(items) && items@ == flat_set_items(set_clauses@).map_values(
                |it: SetItem| item_triple(it),
            ),
        },
{
    let ghost vars = names_of(merge_vars@);
    let mut items: Vec<(String, String, Expression)> = Vec::new();
    let mut clauses = set_clauses;
    let ghost mut done: Seq<SetClause> = Seq::empty();
    proof {
        assert(set_clauses@ =~= done + clauses@);
        assert(flat_set_items(done) =~= Seq::<SetItem>::empty());
        assert(items@ =~= flat_set_items(done).map_values(|it: SetItem| item_triple(it)));
    }
    while clauses.len() > 0
        invariant
            vars == names_of(merge_vars@),
            set_clauses@ == done + clauses@,
            first_unbound_item(flat_set_items(done), vars) is None,
            items@ == flat_set_items(done).map_values(|it: SetItem| item_triple(it)),
        decreases clauses.len(),
    {
        let ghost before = clauses@;
        let clause = clauses.remove(0);
        let ghost gclause = clause;
        proof {
            assert(before =~= seq![gclause] + clauses@);
            assert(set_clauses@ =~= (done + seq![gclause]) + clauses@);
        }
        let mut its = clause.items;
        let ghost mut taken: Seq<SetItem> = Seq::empty();
        proof {
            assert(gclause.items@ =~= taken + its@);
            assert(flat_set_items(done) + taken =~= flat_set_items(done));
        }
        while its.len() > 0
            invariant
                vars == names_of(merge_vars@),
                set_clauses@ == (done + seq![gclause]) + clauses@,
                gclause.items@ == taken + its@,
                first_unbound_item(flat_set_items(done) + taken, vars) is None,
                items@ == (flat_set_items(done) + taken).map_values(|it: SetItem| item_triple(it)),
            decreases its.len(),
        {
            let ghost its_before = its@;
            let item = its.remove(0);
            proof {
                assert(its_before =~= seq![item] + its@);
                assert(gclause.items@ =~= (taken + seq![item]) + its@);
            }
            if !contains_name(merge_vars, &item.property.variable) {
                proof {
                    let a = flat_set_items(done) + taken;
                    let rest = (seq![item] + its@) + flat_set_items(clauses@);
                    lemma_flat_concat(done + seq![gclause], clauses@);
                    lemma_flat_concat(done, seq![gclause]);
                    assert(seq![gclause].drop_first() =~= Seq::<SetClause>::empty());
                    assert(flat_set_items(seq![gclause].drop_first()) =~= Seq::<SetItem>::empty());
                    assert(seq![gclause][0] == gclause);
                    assert(flat_set_items(seq![gclause]) =~= gclause.items@);
                    assert(flat_set_items(set_clauses@) =~= a + rest);
                    lemma_first_unbound_append(a, rest, vars);
                    assert(rest[0] == item);
                }
                return Err(undefined_variable(&item.property.variable));
            }
            let ghost it = item;
            items.push((item.property.variable, item.property.property, item.value));
            proof {
                lemma_first_unbound_append(flat_set_items(done) + taken, seq![it], vars);
                assert(seq![it].drop_first() =~= Seq::<SetItem>::empty());
                assert(seq![it][0] == it);
                assert(first_unbound_item(seq![it].drop_first(), vars) is None);
                assert(first_unbound_item(seq![it], vars) is None);
                assert((flat_set_items(done) + taken) + seq![it] =~= flat_set_items(done) + (taken + seq![it]));
                taken = taken + seq![it];
                assert(items@ =~= (flat_set_items(done) + taken).map_values(|x: SetItem| item_triple(x)));
            }
        }
        proof {
            assert(its@ =~= Seq::<SetItem>::empty());
            assert(taken =~= gclause.items@);
            lemma_flat_push(done, gclause);
            done = done.push(gclause);
            assert(set_clauses@ =~= done + clauses@);
        }
    }
    proof {
        assert(clauses@ =~= Seq::<SetClause>::empty());
        assert(done =~= set_clauses@);
    }
    Ok(items)
}

} // verus!
