//! A table of values by name, in which no name occurs twice.
use vstd::prelude::*;

use crate::text::str_eq;

verus! {

/// Values by name; no name occurs twice.
#[derive(Clone, Debug)]
pub struct NameTable<T> {
    entries: Vec<(String, T)>,
}

impl<T: Copy> View for NameTable<T> {
    type V = Map<Seq<char>, T>;

    closed spec fn view(&self) -> Map<Seq<char>, T> {
        Map::new(
            |k: Seq<char>| exists|i: int| 0 <= i < self.entries@.len() && self.entries@[i].0@ == k,
            |k: Seq<char>|
                self.entries@[choose|i: int|
                    0 <= i < self.entries@.len() && self.entries@[i].0@ == k].1,
        )
    }
}

impl<T: Copy> NameTable<T> {
    /// No name occurs twice.
    pub closed spec fn wf(&self) -> bool {
        forall|i: int, j: int|
            0 <= i < j < self.entries@.len() ==> self.entries@[i].0@ != self.entries@[j].0@
    }

    /// The names, in the order they were first inserted.
    pub closed spec fn names(&self) -> Seq<Seq<char>> {
        self.entries@.map_values(|e: (String, T)| e.0@)
    }

    /// An empty table.
    pub fn new() -> (t: Self)
        ensures
            t.wf(),
            t@ == Map::<Seq<char>, T>::empty(),
    {
        let t = NameTable { entries: Vec::new() };
        assert(t@ =~= Map::<Seq<char>, T>::empty());
        t
    }

    /// The number of names.
    pub fn len(&self) -> (r: usize)
        requires
            self.wf(),
        ensures
            r == self@.len(),
    {
        proof {
            self.lemma_len();
        }
        self.entries.len()
    }

    proof fn lemma_len(&self)
        requires
            self.wf(),
        ensures
            self@.dom().finite(),
            self@.len() == self.entries@.len(),
        decreases self.entries@.len(),
    {
        let keys = self.entries@.map_values(|e: (String, T)| e.0@);
        assert forall|k: Seq<char>| self@.dom().contains(k) <==> keys.to_set().contains(k) by {
            if self@.dom().contains(k) {
                let i = choose|i: int| 0 <= i < self.entries@.len() && self.entries@[i].0@ == k;
                assert(keys[i] == k);
            }
            if keys.to_set().contains(k) {
                let i = choose|i: int| 0 <= i < keys.len() && keys[i] == k;
                assert(self.entries@[i].0@ == k);
            }
        }
        assert(self@.dom() =~= keys.to_set());
        assert(keys.no_duplicates());
        keys.unique_seq_to_set();
    }

    fn find(&self, name: &str) -> (r: Option<usize>)
        requires
            self.wf(),
        ensures
            r matches Some(i) ==> i < self.entries@.len() && self.entries@[i as int].0@ == name@,
            r is None ==> !self@.contains_key(name@),
    {
        let mut i: usize = 0;
        while i < self.entries.len()
            invariant
                i <= self.entries@.len(),
                forall|k: int| 0 <= k < i ==> self.entries@[k].0@ != name@,
            decreases self.entries@.len() - i,
        {
            if str_eq(self.entries[i].0.as_str(), name) {
                return Some(i);
            }
            i = i + 1;
        }
        None
    }

    /// The value of that name.
    pub fn get(&self, name: &str) -> (r: Option<T>)
        requires
            self.wf(),
        ensures
            r is Some <==> self@.contains_key(name@),
            r matches Some(p) ==> p == self@[name@],
    {
        match self.find(name) {
            Some(i) => {
                proof {
                    let j = choose|j: int|
                        0 <= j < self.entries@.len() && self.entries@[j].0@ == name@;
                    if j != i {
                        if j < i {
                            assert(self.entries@[j].0@ != self.entries@[i as int].0@);
                        } else {
                            assert(self.entries@[i as int].0@ != self.entries@[j].0@);
                        }
                    }
                }
                Some(self.entries[i].1)
            },
            None => None,
        }
    }

    /// Sets the value of that name, adding the name where it is new.
    pub fn insert(&mut self, name: String, value: T)
        requires
            old(self).wf(),
        ensures
            final(self).wf(),
            final(self)@ == old(self)@.insert(name@, value),
    {
        match self.find(name.as_str()) {
            Some(i) => {
                let ghost before = self.entries@;
                self.entries.set(i, (name, value));
                proof {
                    assert forall|a: int, b: int|
                        0 <= a < b < self.entries@.len() implies self.entries@[a].0@
                        != self.entries@[b].0@ by {
                        assert(before[a].0@ != before[b].0@);
                    }
                    assert(self@ =~= old(self)@.insert(name@, value)) by {
                        assert forall|k: Seq<char>| #[trigger]
                            self@.contains_key(k) == old(self)@.insert(
                                name@,
                                value,
                            ).contains_key(k) by {
                            if k != name@ && self@.contains_key(k) {
                                let j = choose|j: int|
                                    0 <= j < self.entries@.len() && self.entries@[j].0@ == k;
                                assert(before[j].0@ == k);
                            }
                            if k != name@ && old(self)@.contains_key(k) {
                                let j = choose|j: int|
                                    0 <= j < before.len() && before[j].0@ == k;
                                assert(self.entries@[j].0@ == k);
                            }
                            if k == name@ {
                                assert(self.entries@[i as int].0@ == k);
                            }
                        }
                        assert forall|k: Seq<char>| #[trigger]
                            self@.contains_key(k) implies self@[k] == old(self)@.insert(
                                name@,
                                value,
                            )[k] by {
                            let j = choose|j: int|
                                0 <= j < self.entries@.len() && self.entries@[j].0@ == k;
                            if k == name@ {
                                if j != i {
                                    if j < i {
                                        assert(self.entries@[j].0@ != self.entries@[i as int].0@);
                                    } else {
                                        assert(self.entries@[i as int].0@ != self.entries@[j].0@);
                                    }
                                }
                            } else {
                                assert(before[j].0@ == k);
                                let j0 = choose|j0: int|
                                    0 <= j0 < before.len() && before[j0].0@ == k;
                                if j0 != j {
                                    if j0 < j {
                                        assert(before[j0].0@ != before[j].0@);
                                    } else {
                                        assert(before[j].0@ != before[j0].0@);
                                    }
                                }
                            }
                        }
                    }
                }
            },
            None => {
                let ghost before = self.entries@;
                let ghost key = name@;
                self.entries.push((name, value));
                proof {
                    let n = before.len() as int;
                    assert(self.entries@[n].0@ == key);
                    assert forall|a: int, b: int|
                        0 <= a < b < self.entries@.len() implies self.entries@[a].0@
                        != self.entries@[b].0@ by {
                        if b < n {
                            assert(before[a].0@ != before[b].0@);
                        } else {
                            assert(before[a].0@ != key) by {
                                if before[a].0@ == key {
                                    assert(old(self)@.contains_key(key));
                                }
                            }
                        }
                    }
                    assert(self@ =~= old(self)@.insert(key, value)) by {
                        assert forall|k: Seq<char>| #[trigger]
                            self@.contains_key(k) == old(self)@.insert(key, value).contains_key(
                                k,
                            ) by {
                            if k != key && self@.contains_key(k) {
                                let j = choose|j: int|
                                    0 <= j < self.entries@.len() && self.entries@[j].0@ == k;
                                assert(j < n);
                                assert(before[j].0@ == k);
                            }
                            if k != key && old(self)@.contains_key(k) {
                                let j = choose|j: int| 0 <= j < before.len() && before[j].0@ == k;
                                assert(self.entries@[j].0@ == k);
                            }
                        }
                        assert forall|k: Seq<char>| #[trigger]
                            self@.contains_key(k) implies self@[k] == old(self)@.insert(
                                key,
                                value,
                            )[k] by {
                            let j = choose|j: int|
                                0 <= j < self.entries@.len() && self.entries@[j].0@ == k;
                            if k == key {
                                if j != n {
                                    assert(self.entries@[j].0@ != self.entries@[n].0@);
                                }
                            } else {
                                assert(j < n);
                                let j0 = choose|j0: int|
                                    0 <= j0 < before.len() && before[j0].0@ == k;
                                if j0 != j {
                                    if j0 < j {
                                        assert(before[j0].0@ != before[j].0@);
                                    } else {
                                        assert(before[j].0@ != before[j0].0@);
                                    }
                                }
                            }
                        }
                    }
                }
            },
        }
    }


    /// Every name of the table stands in `names`, and only those.
    pub proof fn lemma_names(&self)
        ensures
            forall|k: Seq<char>|
                self@.contains_key(k) <==> exists|i: int|
                    0 <= i < self.names().len() && #[trigger] self.names()[i] == k,
    {
        assert forall|k: Seq<char>|
            self@.contains_key(k) <==> exists|i: int|
                0 <= i < self.names().len() && #[trigger] self.names()[i] == k by {
            if self@.contains_key(k) {
                let i = choose|i: int| 0 <= i < self.entries@.len() && self.entries@[i].0@ == k;
                assert(self.names()[i] == k);
            }
            if exists|i: int| 0 <= i < self.names().len() && #[trigger] self.names()[i] == k {
                let i = choose|i: int| 0 <= i < self.names().len() && #[trigger] self.names()[i] == k;
                assert(self.entries@[i].0@ == k);
            }
        }
    }

    /// The name and value at `index`, in insertion order.
    pub fn entry(&self, index: usize) -> (r: (&String, T))
        requires
            index < self.names().len(),
        ensures
            r.0@ == self.names()[index as int],
            self@.contains_key(r.0@),
            self.wf() ==> self@[r.0@] == r.1,
    {
        proof {
            let k = self.entries@[index as int].0@;
            assert(self@.contains_key(k));
            if self.wf() {
                let j = choose|j: int| 0 <= j < self.entries@.len() && self.entries@[j].0@ == k;
                if j != index {
                    if j < index {
                        assert(self.entries@[j].0@ != self.entries@[index as int].0@);
                    } else {
                        assert(self.entries@[index as int].0@ != self.entries@[j].0@);
                    }
                }
            }
        }
        (&self.entries[index].0, self.entries[index].1)
    }

    /// How many entries `entry` can be asked for.
    pub fn entry_count(&self) -> (r: usize)
        ensures
            r == self.names().len(),
    {
        self.entries.len()
    }
}

} // verus!
