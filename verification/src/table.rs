//! A small map from names to values, kept as a list that is searched in order.
use vstd::prelude::*;

verus! {

/// A finite map keyed by text. Names are compared by their characters.
pub struct Table<V> {
    entries: Vec<(String, V)>,
}

/// `i` is the first position of `entries` whose key reads `key`.
pub closed spec fn leads<V>(entries: Seq<(String, V)>, key: Seq<char>, i: int) -> bool {
    &&& 0 <= i < entries.len()
    &&& entries[i].0@ == key
    &&& forall|j: int| 0 <= j < i ==> (#[trigger] entries[j]).0@ != key
}

pub closed spec fn holds<V>(entries: Seq<(String, V)>, key: Seq<char>) -> bool {
    exists|i: int| leads(entries, key, i)
}

pub closed spec fn place<V>(entries: Seq<(String, V)>, key: Seq<char>) -> int {
    choose|i: int| leads(entries, key, i)
}

proof fn lemma_place<V>(entries: Seq<(String, V)>, key: Seq<char>, i: int)
    requires
        leads(entries, key, i),
    ensures
        holds(entries, key),
        place(entries, key) == i,
{
    let p = place(entries, key);
    assert(leads(entries, key, p));
    if p < i {
        assert(entries[p].0@ != key);
    }
    if i < p {
        assert(entries[i].0@ != key);
    }
}

impl<V> View for Table<V> {
    type V = Map<Seq<char>, V>;

    closed spec fn view(&self) -> Map<Seq<char>, V> {
        Map::new(
            |k: Seq<char>| holds(self.entries@, k),
            |k: Seq<char>| self.entries@[place(self.entries@, k)].1,
        )
    }
}

impl<V> Table<V> {
    /// The empty table.
    pub fn new() -> (t: Self)
        ensures
            t@ == Map::<Seq<char>, V>::empty(),
    {
        let t = Table { entries: Vec::new() };
        assert(t@ =~= Map::<Seq<char>, V>::empty());
        t
    }

    fn find(&self, key: &String) -> (r: Option<usize>)
        ensures
            match r {
                Some(i) => leads(self.entries@, key@, i as int),
                None => !holds(self.entries@, key@) && forall|j: int|
                    0 <= j < self.entries@.len() ==> (#[trigger] self.entries@[j]).0@ != key@,
            },
    {
        let mut i: usize = 0;
        while i < self.entries.len()
            invariant
                i <= self.entries@.len(),
                forall|j: int| 0 <= j < i ==> (#[trigger] self.entries@[j]).0@ != key@,
            decreases self.entries@.len() - i,
        {
            if self.entries[i].0 == *key {
                return Some(i);
            }
            i += 1;
        }
        None
    }

    /// Whether `key` has a value.
    pub fn contains_key(&self, key: &String) -> (r: bool)
        ensures
            r == self@.contains_key(key@),
    {
        let found = self.find(key);
        proof {
            if let Some(i) = found {
                lemma_place(self.entries@, key@, i as int);
            }
        }
        found.is_some()
    }

    /// The value stored under `key`, if there is one.
    pub fn get(&self, key: &String) -> (r: Option<&V>)
        ensures
            match r {
                Some(v) => self@.contains_key(key@) && *v == self@[key@],
                None => !self@.contains_key(key@),
            },
    {
        match self.find(key) {
            Some(i) => {
                proof {
                    lemma_place(self.entries@, key@, i as int);
                }
                Some(&self.entries[i].1)
            },
            None => None,
        }
    }

    /// Stores `value` under `key`, replacing what was there.
    pub fn insert(&mut self, key: String, value: V)
        ensures
            final(self)@ == old(self)@.insert(key@, value),
    {
        let ghost before = self.entries@;
        let found = self.find(&key);
        let ghost at: int = match found {
            Some(i) => i as int,
            None => before.len() as int,
        };
        match found {
            Some(i) => {
                self.entries.set(i, (key, value));
            },
            None => {
                self.entries.push((key, value));
            },
        }
        proof {
            let after = self.entries@;
            assert(after.len() >= before.len());
            assert(forall|j: int| 0 <= j < before.len() && j != at ==> after[j] == before[j]);
            assert(forall|j: int| 0 <= j < at ==> (#[trigger] before[j]).0@ != key@);
            assert(at < before.len() ==> before[at].0@ == key@);
            assert(after[at].0@ == key@);
            assert forall|j: int| 0 <= j < at implies (#[trigger] after[j]).0@ != key@ by {
                assert(after[j] == before[j]);
            }
            assert(leads(after, key@, at));
            lemma_place(after, key@, at);
            assert forall|k: Seq<char>| k != key@ implies (holds(after, k) == holds(before, k)) && (
            holds(before, k) ==> after[place(after, k)].1 == before[place(before, k)].1) by {
                if holds(before, k) {
                    let j = place(before, k);
                    assert(leads(before, k, j));
                    assert(j != at);
                    assert forall|h: int| 0 <= h < j implies (#[trigger] after[h]).0@ != k by {
                        if h != at {
                            assert(after[h] == before[h]);
                        }
                    }
                    assert(leads(after, k, j));
                    lemma_place(after, k, j);
                }
                if holds(after, k) {
                    let j = place(after, k);
                    assert(leads(after, k, j));
                    assert(j != at);
                    assert forall|h: int| 0 <= h < j implies (#[trigger] before[h]).0@ != k by {
                        if h != at {
                            assert(after[h] == before[h]);
                        }
                    }
                    assert(leads(before, k, j));
                    lemma_place(before, k, j);
                }
            }
            assert(self@ =~= old(self)@.insert(key@, value));
        }
    }
}

} // verus!
