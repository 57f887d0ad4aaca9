//! A small map from names to values, kept in the order in which the names
//! first came in.
//!
//! The hash map of the standard library is specified only for keys that
//! have a key model, and strings have none; so the names are held in a
//! list, with the invariant that a hash map would give: no name twice.

use vstd::prelude::*;

verus! {

/// A map keyed by name. No name occurs twice.
pub struct NameMap<V> {
    entries: Vec<(String, V)>,
}

impl<V> NameMap<V> {
    /// No name occurs twice.
    pub closed spec fn wf(&self) -> bool {
        forall|i: int, j: int|
            0 <= i < j < self.entries@.len() ==> (#[trigger] self.entries@[i]).0@ != (
            #[trigger] self.entries@[j]).0@
    }

    spec fn position(&self, name: Seq<char>) -> int {
        choose|i: int| 0 <= i < self.entries@.len() && self.entries@[i].0@ == name
    }

    /// The map that the entries stand for.
    pub closed spec fn map(&self) -> Map<Seq<char>, V> {
        Map::new(
            |name: Seq<char>|
                exists|i: int| 0 <= i < self.entries@.len() && self.entries@[i].0@ == name,
            |name: Seq<char>| self.entries@[self.position(name)].1,
        )
    }

    proof fn lemma_entry(&self, i: int)
        requires
            self.wf(),
            0 <= i < self.entries@.len(),
        ensures
            self.map().contains_key(self.entries@[i].0@),
            self.map()[self.entries@[i].0@] == self.entries@[i].1,
            self.position(self.entries@[i].0@) == i,
    {
        let name = self.entries@[i].0@;
        let p = self.position(name);
        assert(0 <= p < self.entries@.len() && self.entries@[p].0@ == name);
        if p < i {
            assert(self.entries@[p].0@ != self.entries@[i].0@);
        } else if i < p {
            assert(self.entries@[i].0@ != self.entries@[p].0@);
        }
    }

    proof fn lemma_replace(before: Self, after: Self, i: int)
        requires
            before.wf(),
            0 <= i < before.entries@.len(),
            after.entries@.len() == before.entries@.len(),
            after.entries@[i].0@ == before.entries@[i].0@,
            forall|k: int|
                0 <= k < before.entries@.len() && k != i ==> after.entries@[k]
                    == before.entries@[k],
        ensures
            after.wf(),
            after.map() == before.map().insert(before.entries@[i].0@, after.entries@[i].1),
    {
        let name = before.entries@[i].0@;
        let value = after.entries@[i].1;
        assert forall|a: int, b: int| 0 <= a < b < after.entries@.len() implies (
        #[trigger] after.entries@[a]).0@ != (#[trigger] after.entries@[b]).0@ by {
            assert(before.entries@[a].0@ != before.entries@[b].0@);
        }
        assert forall|k: Seq<char>| #[trigger]
            after.map().contains_key(k) == before.map().insert(name, value).contains_key(k) by {
            if before.map().contains_key(k) || k == name {
                let p = if k == name {
                    i
                } else {
                    before.position(k)
                };
                assert(after.entries@[p].0@ == k);
            }
            if after.map().contains_key(k) {
                let p = after.position(k);
                assert(before.entries@[p].0@ == k);
            }
        }
        assert forall|k: Seq<char>| #[trigger]
            after.map().contains_key(k) implies after.map()[k] == before.map().insert(
            name,
            value,
        )[k] by {
            let p = after.position(k);
            after.lemma_entry(p);
            before.lemma_entry(p);
        }
        assert(after.map() =~= before.map().insert(name, value));
    }

    /// An empty map.
    pub fn new() -> (m: Self)
        ensures
            m.wf(),
            m.map() == Map::<Seq<char>, V>::empty(),
    {
        let m = NameMap { entries: Vec::new() };
        assert(m.map() =~= Map::<Seq<char>, V>::empty());
        m
    }

    /// Where `name` stands among the entries, if it does.
    fn find(&self, name: &str) -> (r: Option<usize>)
        requires
            self.wf(),
        ensures
            match r {
                Some(i) => i < self.entries@.len() && self.entries@[i as int].0@ == name@,
                None => !self.map().contains_key(name@),
            },
    {
        let key = name.to_owned();
        let mut i: usize = 0;
        while i < self.entries.len()
            invariant
                i <= self.entries@.len(),
                key@ == name@,
                forall|k: int| 0 <= k < i ==> self.entries@[k].0@ != name@,
            decreases self.entries@.len() - i,
        {
            if self.entries[i].0 == key {
                return Some(i);
            }
            i += 1;
        }
        None
    }

    /// The value under `name`, if there is one.
    pub fn get(&self, name: &str) -> (r: Option<&V>)
        requires
            self.wf(),
        ensures
            match r {
                Some(v) => self.map().contains_key(name@) && *v == self.map()[name@],
                None => !self.map().contains_key(name@),
            },
    {
        match self.find(name) {
            Some(i) => {
                proof {
                    self.lemma_entry(i as int);
                }
                Some(&self.entries[i].1)
            },
            None => None,
        }
    }

    /// Puts `value` under `name`, in place of what was there.
    pub fn insert(&mut self, name: String, value: V)
        requires
            old(self).wf(),
        ensures
            final(self).wf(),
            final(self).map() == old(self).map().insert(name@, value),
    {
        let ghost before = *self;
        match self.find(name.as_str()) {
            Some(i) => {
                self.entries[i] = (name, value);
                proof {
                    Self::lemma_replace(before, *self, i as int);
                }
            },
            None => {
                self.entries.push((name, value));
                proof {
                    let n = before.entries@.len() as int;
                    assert forall|a: int, b: int| 0 <= a < b < self.entries@.len() implies (
                    #[trigger] self.entries@[a]).0@ != (#[trigger] self.entries@[b]).0@ by {
                        if b < n {
                            assert(before.entries@[a].0@ != before.entries@[b].0@);
                        } else {
                            assert(before.entries@[a].0@ == self.entries@[a].0@);
                            if self.entries@[a].0@ == name@ {
                                assert(before.map().contains_key(name@));
                            }
                        }
                    }
                    assert forall|k: Seq<char>| #[trigger]
                        self.map().contains_key(k) == before.map().insert(
                            name@,
                            value,
                        ).contains_key(k) by {
                        if before.map().contains_key(k) || k == name@ {
                            let p = if k == name@ {
                                n
                            } else {
                                before.position(k)
                            };
                            assert(self.entries@[p].0@ == k);
                        }
                        if self.map().contains_key(k) {
                            let p = self.position(k);
                            if p < n {
                                assert(before.entries@[p].0@ == k);
                            }
                        }
                    }
                    assert forall|k: Seq<char>| #[trigger]
                        self.map().contains_key(k) implies self.map()[k] == before.map().insert(
                        name@,
                        value,
                    )[k] by {
                        let p = self.position(k);
                        self.lemma_entry(p);
                        if p < n {
                            before.lemma_entry(p);
                        }
                    }
                    assert(self.map() =~= before.map().insert(name@, value));
                }
            },
        }
    }

    /// The value under `name`, to be changed in place, if there is one.
    pub fn get_mut(&mut self, name: &str) -> (r: Option<&mut V>)
        requires
            old(self).wf(),
        ensures
            final(self).wf(),
            match r {
                Some(v) => old(self).map().contains_key(name@) && *v == old(self).map()[name@]
                    && final(self).map() == old(self).map().insert(name@, *final(v)),
                None => !old(self).map().contains_key(name@) && final(self).map() == old(
                    self,
                ).map(),
            },
    {
        match self.find(name) {
            Some(i) => {
                proof {
                    self.lemma_entry(i as int);
                }
                let ghost after = *final(self);
                let r = &mut self.entries[i].1;
                proof {
                    Self::lemma_replace(*old(self), after, i as int);
                }
                Some(r)
            },
            None => None,
        }
    }
}

} // verus!
