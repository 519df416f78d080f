//! The string dictionary: interns strings as ids.
use crate::core_db::partition::StringId;
use vstd::prelude::*;

verus! {

/// Interned strings; the string with id `i` is the `i`-th string interned (ids start at 1).
#[derive(Debug)]
pub struct Dictionary {
    values: Vec<String>,
}

impl View for Dictionary {
    type V = Seq<Seq<char>>;

    closed spec fn view(&self) -> Seq<Seq<char>> {
        self.values@.map_values(|s: String| s@)
    }
}

/// No string occurs twice.
pub open spec fn distinct(s: Seq<Seq<char>>) -> bool {
    forall|i: int, j: int| 0 <= i < j < s.len() ==> s[i] != s[j]
}

/// The id of `value` in the dictionary whose strings are `s`, if it is interned.
pub open spec fn id_of(s: Seq<Seq<char>>, value: Seq<char>) -> Option<StringId> {
    if exists|i: int| 0 <= i < s.len() && s[i] == value {
        Some(((choose|i: int| 0 <= i < s.len() && s[i] == value) + 1) as StringId)
    } else {
        None
    }
}

impl Dictionary {
    /// The well-formedness of a dictionary: interned strings are distinct and ids fit.
    pub open spec fn wf(&self) -> bool {
        distinct(self@) && self@.len() < u64::MAX
    }

    /// An empty dictionary.
    pub fn new() -> (d: Dictionary)
        ensures
            d@ == Seq::<Seq<char>>::empty(),
            d.wf(),
    {
        let d = Dictionary { values: Vec::new() };
        proof {
            assert(d@ =~= Seq::<Seq<char>>::empty());
        }
        d
    }

    /// The number of interned strings.
    pub fn len(&self) -> (n: usize)
        ensures
            n == self@.len(),
    {
        self.values.len()
    }

    fn find(&self, value: &str) -> (r: Option<usize>)
        ensures
            match r {
                Some(i) => i < self@.len() && self@[i as int] == value@,
                None => forall|j: int| 0 <= j < self@.len() ==> self@[j] != value@,
            },
    {
        let mut i: usize = 0;
        while i < self.values.len()
            invariant
                i <= self.values.len(),
                forall|j: int| 0 <= j < i ==> self@[j] != value@,
            decreases self.values.len() - i,
        {
            if crate::text::str_equal(self.values[i].as_str(), value) {
                return Some(i);
            }
            i = i + 1;
        }
        None
    }

    /// The id of `value`, interning it first if it is new. Ids are 1-based.
    pub fn get_or_insert(&mut self, value: &str) -> (id: StringId)
        requires
            old(self).wf(),
            old(self)@.len() < usize::MAX,
            old(self)@.len() + 1 < u64::MAX,
        ensures
            final(self).wf(),
            1 <= id <= final(self)@.len(),
            final(self)@[id - 1] == value@,
            id_of(old(self)@, value@) is Some ==> final(self)@ == old(self)@ && id == id_of(old(self)@, value@)->0,
            id_of(old(self)@, value@) is None ==> final(self)@ == old(self)@.push(value@) && id == final(self)@.len(),
    {
        match self.find(value) {
            Some(i) => {
                proof {
                    assert(id_of(self@, value@) == Some((i + 1) as StringId)) by {
                        let k = choose|k: int| 0 <= k < self@.len() && self@[k] == value@;
                        if k != i as int {
                            assert(!distinct(self@)) by {
                                if k < i { assert(self@[k] == self@[i as int]); } else { assert(self@[i as int] == self@[k]); }
                            }
                        }
                    }
                }
                (i as u64) + 1
            },
            None => {
                let ghost before = self@;
                self.values.push(String::from_str(value));
                proof {
                    assert(self@ =~= before.push(value@));
                    assert(id_of(before, value@) is None);
                }
                self.values.len() as u64
            },
        }
    }

    /// The string with id `id`, if there is one.
    pub fn lookup_value(&self, id: StringId) -> (r: Option<&str>)
        ensures
            1 <= id <= self@.len() ==> r is Some && r->0@ == self@[id - 1],
            !(1 <= id <= self@.len()) ==> r is None,
    {
        if id == 0 || id > self.values.len() as u64 {
            return None;
        }
        let i = (id - 1) as usize;
        Some(self.values[i].as_str())
    }
}

/// What interning gives is what looking up gives back: an interned string sits at its id,
/// and a new string is interned at the next id without disturbing the others.
pub proof fn law_interned_string_round_trip(d: Seq<Seq<char>>, v: Seq<char>)
    requires
        distinct(d),
        d.len() + 1 < u64::MAX,
    ensures
        id_of(d, v) matches Some(id) ==> 1 <= id <= d.len() && d[id - 1] == v,
        id_of(d, v) is None ==> id_of(d.push(v), v) == Some((d.len() + 1) as u64) && distinct(d.push(v)),
{
    if id_of(d, v) is None {
        let e = d.push(v);
        assert(e[d.len() as int] == v);
        assert(distinct(e)) by {
            assert forall|i: int, j: int| 0 <= i < j < e.len() implies e[i] != e[j] by {
                if j == d.len() {
                    assert(e[i] == d[i]);
                } else {
                    assert(e[i] == d[i] && e[j] == d[j]);
                }
            }
        }
        let k = choose|k: int| 0 <= k < e.len() && e[k] == v;
        assert(k == d.len()) by {
            if k < d.len() {
                assert(d[k] == v);
            }
        }
    }
}

/// In a dictionary without duplicates, a string that sits at position `k` has id `k + 1`.
pub proof fn lemma_id_of_distinct(d: Seq<Seq<char>>, k: int)
    requires
        distinct(d),
        0 <= k < d.len(),
        d.len() < u64::MAX,
    ensures
        id_of(d, d[k]) == Some((k + 1) as StringId),
{
    let j = choose|j: int| 0 <= j < d.len() && d[j] == d[k];
    if j != k {
        if j < k {
            assert(d[j] != d[k]);
        } else {
            assert(d[k] != d[j]);
        }
    }
}

} // verus!
