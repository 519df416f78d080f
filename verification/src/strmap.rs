//! A small map keyed by strings, kept as a list of distinct keys with their values.
use crate::text::{lemma_seq_less_order, seq_less, str_equal, str_less};
use vstd::prelude::*;

verus! {

/// The value of the first entry for `key`.
pub open spec fn entry_lookup<V>(s: Seq<(String, V)>, key: Seq<char>) -> Option<V>
    decreases s.len(),
{
    if s.len() == 0 {
        None
    } else if s[0].0@ == key {
        Some(s[0].1)
    } else {
        entry_lookup(s.drop_first(), key)
    }
}

/// A map from strings to values.
pub struct StrMap<V> {
    entries: Vec<(String, V)>,
}

impl<V> View for StrMap<V> {
    type V = Map<Seq<char>, V>;

    closed spec fn view(&self) -> Map<Seq<char>, V> {
        Map::new(
            |k: Seq<char>| entry_lookup(self.entries@, k) is Some,
            |k: Seq<char>| entry_lookup(self.entries@, k).unwrap(),
        )
    }
}

proof fn lemma_lookup_at<V>(s: Seq<(String, V)>, key: Seq<char>, i: int)
    requires
        0 <= i <= s.len(),
        forall|j: int| 0 <= j < i ==> #[trigger] s[j].0@ != key,
    ensures
        i < s.len() && s[i].0@ == key ==> entry_lookup(s, key) == Some(s[i].1),
        i == s.len() ==> entry_lookup(s, key) is None,
    decreases i,
{
    if i > 0 {
        assert forall|j: int| 0 <= j < i - 1 implies #[trigger] s.drop_first()[j].0@ != key by {
            assert(s.drop_first()[j] == s[j + 1]);
        }
        lemma_lookup_at(s.drop_first(), key, i - 1);
    }
}

proof fn lemma_lookup_push<V>(s: Seq<(String, V)>, entry: (String, V), key: Seq<char>)
    ensures
        entry_lookup(s.push(entry), key) == if entry_lookup(s, key) is Some {
            entry_lookup(s, key)
        } else if entry.0@ == key {
            Some(entry.1)
        } else {
            None
        },
    decreases s.len(),
{
    if s.len() == 0 {
        assert(s.push(entry).drop_first() =~= Seq::<(String, V)>::empty());
        assert(entry_lookup(s.push(entry).drop_first(), key) is None);
        assert(s.push(entry)[0] == entry);
    } else {
        assert(s.push(entry).drop_first() =~= s.drop_first().push(entry));
        assert(s.push(entry)[0] == s[0]);
        lemma_lookup_push(s.drop_first(), entry, key);
    }
}

proof fn lemma_lookup_update<V>(s: Seq<(String, V)>, i: int, value: V, key: Seq<char>)
    requires
        0 <= i < s.len(),
        forall|j: int| 0 <= j < i ==> #[trigger] s[j].0@ != s[i].0@,
    ensures
        entry_lookup(s.update(i, (s[i].0, value)), key) == if s[i].0@ == key {
            Some(value)
        } else {
            entry_lookup(s, key)
        },
    decreases s.len(),
{
    if i == 0 {
        assert(s.update(i, (s[i].0, value)).drop_first() =~= s.drop_first());
    } else {
        assert(s.update(i, (s[i].0, value)).drop_first() =~= s.drop_first().update(i - 1, (s[i].0, value)));
        assert forall|j: int| 0 <= j < i - 1 implies #[trigger] s.drop_first()[j].0@ != s.drop_first()[i - 1].0@ by {
            assert(s.drop_first()[j] == s[j + 1]);
        }
        lemma_lookup_update(s.drop_first(), i - 1, value, key);
    }
}

/// With distinct keys, the keys of the map are those of the entries, each mapped to the
/// value of its entry.
proof fn lemma_lookup_distinct<V>(s: Seq<(String, V)>, i: int)
    requires
        0 <= i < s.len(),
        forall|a: int, b: int| 0 <= a < b < s.len() ==> s[a].0@ != s[b].0@,
    ensures
        entry_lookup(s, s[i].0@) == Some(s[i].1),
{
    lemma_lookup_at(s, s[i].0@, i);
}

proof fn lemma_lookup_some<V>(s: Seq<(String, V)>, key: Seq<char>)
    requires
        entry_lookup(s, key) is Some,
    ensures
        exists|j: int| 0 <= j < s.len() && s[j].0@ == key && s[j].1 == entry_lookup(s, key).unwrap(),
    decreases s.len(),
{
    if s[0].0@ != key {
        lemma_lookup_some(s.drop_first(), key);
        let j = choose|j: int| 0 <= j < s.drop_first().len() && s.drop_first()[j].0@ == key
            && s.drop_first()[j].1 == entry_lookup(s.drop_first(), key).unwrap();
        assert(s[j + 1] == s.drop_first()[j]);
    }
}

proof fn lemma_lookup_remove<V>(s: Seq<(String, V)>, i: int, key: Seq<char>)
    requires
        0 <= i < s.len(),
        forall|a: int, b: int| 0 <= a < b < s.len() ==> s[a].0@ != s[b].0@,
    ensures
        entry_lookup(s.remove(i), key) == if s[i].0@ == key {
            None
        } else {
            entry_lookup(s, key)
        },
{
    let r = s.remove(i);
    if s[i].0@ == key {
        assert forall|j: int| 0 <= j < r.len() implies #[trigger] r[j].0@ != key by {
            if j < i {
                assert(r[j] == s[j]);
            } else {
                assert(r[j] == s[j + 1]);
            }
        }
        lemma_lookup_at(r, key, r.len() as int);
    } else {
        if entry_lookup(s, key) is Some {
            lemma_lookup_some(s, key);
            let j = choose|j: int| 0 <= j < s.len() && s[j].0@ == key && s[j].1 == entry_lookup(s, key).unwrap();
            let jr = if j < i { j } else { j - 1 };
            assert(r[jr] == s[j]);
            assert forall|q: int| 0 <= q < jr implies #[trigger] r[q].0@ != key by {
                if q < i {
                    assert(r[q] == s[q]);
                } else {
                    assert(r[q] == s[q + 1]);
                }
            }
            lemma_lookup_at(r, key, jr);
        } else {
            if entry_lookup(r, key) is Some {
                lemma_lookup_some(r, key);
                let j = choose|j: int| 0 <= j < r.len() && r[j].0@ == key && r[j].1 == entry_lookup(r, key).unwrap();
                let js = if j < i { j } else { j + 1 };
                assert(s[js] == r[j]);
                assert forall|q: int| 0 <= q < js implies #[trigger] s[q].0@ != key by {
                    if q < js {
                        assert(s[q].0@ != s[js].0@);
                    }
                }
                lemma_lookup_at(s, key, js);
            }
        }
    }
}

impl<V> StrMap<V> {
    /// The keys of the entries are distinct.
    pub closed spec fn wf(&self) -> bool {
        forall|a: int, b: int| 0 <= a < b < self.entries@.len() ==> self.entries@[a].0@ != self.entries@[b].0@
    }

    /// An empty map.
    pub fn new() -> (m: StrMap<V>)
        ensures
            m.wf(),
            m@ == Map::<Seq<char>, V>::empty(),
    {
        let m = StrMap { entries: Vec::new() };
        proof {
            assert(m@ =~= Map::<Seq<char>, V>::empty());
        }
        m
    }

    fn position(&self, key: &str) -> (r: Option<usize>)
        ensures
            match r {
                Some(i) => i < self.entries@.len() && self.entries@[i as int].0@ == key@
                    && forall|j: int| 0 <= j < i ==> #[trigger] self.entries@[j].0@ != key@,
                None => forall|j: int| 0 <= j < self.entries@.len() ==> #[trigger] self.entries@[j].0@ != key@,
            },
    {
        let mut i: usize = 0;
        while i < self.entries.len()
            invariant
                i <= self.entries@.len(),
                forall|j: int| 0 <= j < i ==> #[trigger] self.entries@[j].0@ != key@,
            decreases self.entries@.len() - i,
        {
            if str_equal(self.entries[i].0.as_str(), key) {
                return Some(i);
            }
            i = i + 1;
        }
        None
    }

    /// Whether `key` has a value.
    pub fn contains_key(&self, key: &str) -> (r: bool)
        ensures
            r == self@.contains_key(key@),
    {
        let p = self.position(key);
        proof {
            match p {
                Some(i) => lemma_lookup_at(self.entries@, key@, i as int),
                None => lemma_lookup_at(self.entries@, key@, self.entries@.len() as int),
            }
        }
        p.is_some()
    }

    /// The value of `key`, if it has one.
    pub fn get(&self, key: &str) -> (r: Option<&V>)
        ensures
            match r {
                Some(v) => self@.contains_key(key@) && *v == self@[key@],
                None => !self@.contains_key(key@),
            },
    {
        let p = self.position(key);
        match p {
            Some(i) => {
                proof {
                    lemma_lookup_at(self.entries@, key@, i as int);
                }
                Some(&self.entries[i].1)
            },
            None => {
                proof {
                    lemma_lookup_at(self.entries@, key@, self.entries@.len() as int);
                }
                None
            },
        }
    }

    /// Sets the value of `key`, replacing the one it had.
    pub fn insert(&mut self, key: String, value: V)
        requires
            old(self).wf(),
        ensures
            final(self).wf(),
            final(self)@ == old(self)@.insert(key@, value),
    {
        let p = self.position(key.as_str());
        let ghost old_entries = self.entries@;
        match p {
            Some(i) => {
                let k_old = self.entries[i].0.clone();
                self.entries.set(i, (k_old, value));
                proof {
                    assert(self.entries@ == old_entries.update(i as int, (old_entries[i as int].0, value)));
                    assert forall|k: Seq<char>| #![auto] entry_lookup(self.entries@, k)
                        == if key@ == k { Some(value) } else { entry_lookup(old_entries, k) } by {
                        lemma_lookup_update(old_entries, i as int, value, k);
                    }
                    assert(self@ =~= old(self)@.insert(key@, value));
                    assert forall|a: int, b: int| 0 <= a < b < self.entries@.len() implies self.entries@[a].0@ != self.entries@[b].0@ by {
                        assert(self.entries@[a].0@ == old_entries[a].0@);
                        assert(self.entries@[b].0@ == old_entries[b].0@);
                    }
                }
            },
            None => {
                let ghost k0 = key@;
                self.entries.push((key, value));
                proof {
                    lemma_lookup_at(old_entries, k0, old_entries.len() as int);
                    assert forall|k: Seq<char>| #![auto] entry_lookup(self.entries@, k)
                        == if k0 == k { Some(value) } else { entry_lookup(old_entries, k) } by {
                        lemma_lookup_push(old_entries, self.entries@.last(), k);
                        assert(old_entries.push(self.entries@.last()) == self.entries@);
                        if k0 == k {
                            lemma_lookup_at(old_entries, k, old_entries.len() as int);
                        }
                    }
                    assert(self@ =~= old(self)@.insert(k0, value));
                }
            },
        }
    }

    /// Removes `key` and hands back its value, if it had one.
    pub fn remove(&mut self, key: &str) -> (r: Option<V>)
        requires
            old(self).wf(),
        ensures
            final(self).wf(),
            final(self)@ == old(self)@.remove(key@),
            match r {
                Some(v) => old(self)@.contains_key(key@) && v == old(self)@[key@],
                None => !old(self)@.contains_key(key@),
            },
    {
        let p = self.position(key);
        match p {
            Some(i) => {
                let ghost old_entries = self.entries@;
                proof {
                    lemma_lookup_at(old_entries, key@, i as int);
                }
                let (_, v) = self.entries.remove(i);
                proof {
                    assert forall|k: Seq<char>| #![auto] entry_lookup(self.entries@, k)
                        == if key@ == k { None } else { entry_lookup(old_entries, k) } by {
                        lemma_lookup_remove(old_entries, i as int, k);
                    }
                    assert(self@ =~= old(self)@.remove(key@));
                    assert forall|a: int, b: int| 0 <= a < b < self.entries@.len() implies self.entries@[a].0@ != self.entries@[b].0@ by {
                        let sa = if a < i { a } else { a + 1 };
                        let sb = if b < i { b } else { b + 1 };
                        assert(self.entries@[a] == old_entries[sa]);
                        assert(self.entries@[b] == old_entries[sb]);
                    }
                }
                Some(v)
            },
            None => {
                proof {
                    lemma_lookup_at(self.entries@, key@, self.entries@.len() as int);
                    assert(self@ =~= old(self)@.remove(key@));
                }
                None
            },
        }
    }

    /// The entry with the least key in the order of sorted string keys, if the map is not
    /// empty: the first entry that a sorted map would yield.
    pub fn into_first(self) -> (r: Option<(String, V)>)
        requires
            self.wf(),
        ensures
            match r {
                Some((k, v)) => self@.contains_key(k@) && v == self@[k@]
                    && forall|k2: Seq<char>| #[trigger] self@.contains_key(k2) ==> !seq_less(k2, k@),
                None => self@ == Map::<Seq<char>, V>::empty(),
            },
    {
        let mut entries = self.entries;
        let ghost all = entries@;
        if entries.len() == 0 {
            proof {
                assert(self@ =~= Map::<Seq<char>, V>::empty());
            }
            return None;
        }
        let mut best: usize = 0;
        let mut i: usize = 1;
        proof {
            lemma_seq_less_order(all[0].0@, all[0].0@, all[0].0@);
        }
        while i < entries.len()
            invariant
                entries@ == all,
                0 <= best < i <= all.len(),
                forall|j: int| 0 <= j < i ==> !seq_less(#[trigger] all[j].0@, all[best as int].0@),
            decreases all.len() - i,
        {
            if str_less(entries[i].0.as_str(), entries[best].0.as_str()) {
                proof {
                    assert forall|j: int| 0 <= j < i + 1 implies !seq_less(#[trigger] all[j].0@, all[i as int].0@) by {
                        lemma_seq_less_order(all[j].0@, all[i as int].0@, all[best as int].0@);
                        lemma_seq_less_order(all[i as int].0@, all[i as int].0@, all[i as int].0@);
                    }
                }
                best = i;
            }
            i = i + 1;
        }
        proof {
            lemma_lookup_distinct(all, best as int);
            assert forall|k2: Seq<char>| #[trigger] self@.contains_key(k2) implies !seq_less(k2, all[best as int].0@) by {
                lemma_lookup_some(all, k2);
            }
        }
        let entry = entries.remove(best);
        Some(entry)
    }
}

} // verus!
