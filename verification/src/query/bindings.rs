//! What the planner knows about each variable that is in scope.
use crate::text::str_equal;
use vstd::prelude::*;

verus! {

/// The kind of value that a variable is bound to.
#[derive(Debug, Clone, Copy, PartialEq, Eq, Structural)]
pub enum BindingKind {
    Node,
    Relationship,
    Path,
    Scalar,
    Unknown,
}

/// The kind bound to `name` in an association list: its first entry for that name.
pub open spec fn assoc_lookup(s: Seq<(String, BindingKind)>, name: Seq<char>) -> Option<BindingKind>
    decreases s.len(),
{
    if s.len() == 0 {
        None
    } else if s[0].0@ == name {
        Some(s[0].1)
    } else {
        assoc_lookup(s.drop_first(), name)
    }
}

/// A map from variable names to the kind of value each is bound to.
#[derive(Debug)]
pub struct Bindings {
    entries: Vec<(String, BindingKind)>,
}

impl View for Bindings {
    type V = Map<Seq<char>, BindingKind>;

    closed spec fn view(&self) -> Map<Seq<char>, BindingKind> {
        Map::new(
            |name: Seq<char>| assoc_lookup(self.entries@, name) is Some,
            |name: Seq<char>| assoc_lookup(self.entries@, name).unwrap(),
        )
    }
}

proof fn lemma_lookup_push(s: Seq<(String, BindingKind)>, entry: (String, BindingKind), name: Seq<char>)
    ensures
        assoc_lookup(s.push(entry), name) == if assoc_lookup(s, name) is Some {
            assoc_lookup(s, name)
        } else if entry.0@ == name {
            Some(entry.1)
        } else {
            None
        },
    decreases s.len(),
{
    if s.len() == 0 {
        assert(s.push(entry).drop_first() =~= Seq::<(String, BindingKind)>::empty());
        assert(assoc_lookup(s.push(entry).drop_first(), name) is None);
        assert(s.push(entry)[0] == entry);
    } else {
        assert(s.push(entry).drop_first() =~= s.drop_first().push(entry));
        assert(s.push(entry)[0] == s[0]);
        lemma_lookup_push(s.drop_first(), entry, name);
    }
}

proof fn lemma_lookup_update(s: Seq<(String, BindingKind)>, i: int, kind: BindingKind, name: Seq<char>)
    requires
        0 <= i < s.len(),
        forall|j: int| 0 <= j < i ==> #[trigger] s[j].0@ != s[i].0@,
    ensures
        assoc_lookup(s.update(i, (s[i].0, kind)), name) == if s[i].0@ == name {
            Some(kind)
        } else {
            assoc_lookup(s, name)
        },
    decreases s.len(),
{
    if i == 0 {
        assert(s.update(i, (s[i].0, kind)).drop_first() =~= s.drop_first());
    } else {
        assert(s.update(i, (s[i].0, kind)).drop_first() =~= s.drop_first().update(i - 1, (s[i].0, kind)));
        assert forall|j: int| 0 <= j < i - 1 implies #[trigger] s.drop_first()[j].0@ != s.drop_first()[i - 1].0@ by {
            assert(s.drop_first()[j] == s[j + 1]);
        }
        lemma_lookup_update(s.drop_first(), i - 1, kind, name);
    }
}

impl Bindings {
    /// No variable is bound.
    pub fn new() -> (b: Bindings)
        ensures
            b@ == Map::<Seq<char>, BindingKind>::empty(),
    {
        let b = Bindings { entries: Vec::new() };
        proof {
            assert(b@ =~= Map::<Seq<char>, BindingKind>::empty());
        }
        b
    }

    /// Where `name` sits in the list: the first entry for it, if any.
    fn position(&self, name: &str) -> (r: Option<usize>)
        ensures
            match r {
                Some(i) => i < self.entries@.len() && self.entries@[i as int].0@ == name@
                    && forall|j: int| 0 <= j < i ==> #[trigger] self.entries@[j].0@ != name@,
                None => forall|j: int| 0 <= j < self.entries@.len() ==> #[trigger] self.entries@[j].0@ != name@,
            },
    {
        let mut i: usize = 0;
        while i < self.entries.len()
            invariant
                i <= self.entries.len(),
                forall|j: int| 0 <= j < i ==> #[trigger] self.entries@[j].0@ != name@,
            decreases self.entries.len() - i,
        {
            if str_equal(self.entries[i].0.as_str(), name) {
                return Some(i);
            }
            i = i + 1;
        }
        None
    }

    proof fn lemma_lookup_position(s: Seq<(String, BindingKind)>, name: Seq<char>, i: int)
        requires
            0 <= i <= s.len(),
            forall|j: int| 0 <= j < i ==> #[trigger] s[j].0@ != name,
        ensures
            i < s.len() && s[i].0@ == name ==> assoc_lookup(s, name) == Some(s[i].1),
            i == s.len() ==> assoc_lookup(s, name) is None,
        decreases i,
    {
        if i > 0 {
            assert forall|j: int| 0 <= j < i - 1 implies #[trigger] s.drop_first()[j].0@ != name by {
                assert(s.drop_first()[j] == s[j + 1]);
            }
            Self::lemma_lookup_position(s.drop_first(), name, i - 1);
        }
    }

    /// The kind bound to `name`, if it is bound.
    pub fn get(&self, name: &str) -> (r: Option<BindingKind>)
        ensures
            r == if self@.contains_key(name@) {
                Some(self@[name@])
            } else {
                None
            },
    {
        let pos = self.position(name);
        match pos {
            Some(i) => {
                proof {
                    Self::lemma_lookup_position(self.entries@, name@, i as int);
                }
                Some(self.entries[i].1)
            },
            None => {
                proof {
                    Self::lemma_lookup_position(self.entries@, name@, self.entries@.len() as int);
                }
                None
            },
        }
    }

    /// Whether `name` is bound.
    pub fn contains_key(&self, name: &str) -> (r: bool)
        ensures
            r == self@.contains_key(name@),
    {
        self.get(name).is_some()
    }

    /// Binds `name` to `kind`, replacing an earlier binding of it.
    pub fn insert(&mut self, name: String, kind: BindingKind)
        ensures
            final(self)@ == old(self)@.insert(name@, kind),
    {
        let pos = self.position(name.as_str());
        match pos {
            Some(i) => {
                let ghost old_entries = self.entries@;
                let key = self.entries[i].0.clone();
                self.entries.set(i, (key, kind));
                proof {
                    assert(self.entries@ == old_entries.update(i as int, (old_entries[i as int].0, kind)));
                    assert forall|n: Seq<char>| #![auto] true implies assoc_lookup(self.entries@, n)
                        == if old_entries[i as int].0@ == n { Some(kind) } else { assoc_lookup(old_entries, n) } by {
                        lemma_lookup_update(old_entries, i as int, kind, n);
                    }
                    assert(self@ =~= old(self)@.insert(name@, kind));
                }
            },
            None => {
                let ghost old_entries = self.entries@;
                let ghost key = name@;
                self.entries.push((name, kind));
                proof {
                    Self::lemma_lookup_position(old_entries, key, old_entries.len() as int);
                    assert forall|n: Seq<char>| #![auto] true implies assoc_lookup(self.entries@, n)
                        == if assoc_lookup(old_entries, n) is Some { assoc_lookup(old_entries, n) }
                        else if key == n { Some(kind) } else { None } by {
                        lemma_lookup_push(old_entries, self.entries@.last(), n);
                        assert(old_entries.push(self.entries@.last()) == self.entries@);
                    }
                    assert(self@ =~= old(self)@.insert(key, kind));
                }
            },
        }
    }

    /// Binds `name` to `kind` unless it is bound already (`entry(name).or_insert(kind)`).
    pub fn insert_if_absent(&mut self, name: String, kind: BindingKind)
        ensures
            final(self)@ == if old(self)@.contains_key(name@) {
                old(self)@
            } else {
                old(self)@.insert(name@, kind)
            },
    {
        if !self.contains_key(name.as_str()) {
            self.insert(name, kind);
        }
    }

    /// A copy of these bindings.
    pub fn duplicate(&self) -> (r: Bindings)
        ensures
            r@ == self@,
    {
        let mut out: Vec<(String, BindingKind)> = Vec::new();
        let mut i: usize = 0;
        while i < self.entries.len()
            invariant
                i <= self.entries.len(),
                out@ == self.entries@.subrange(0, i as int),
            decreases self.entries.len() - i,
        {
            out.push((self.entries[i].0.clone(), self.entries[i].1));
            i = i + 1;
        }
        proof {
            assert(out@ =~= self.entries@);
        }
        Bindings { entries: out }
    }
}

} // verus!
