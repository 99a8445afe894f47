//! A table of named counters: how many requests each model served, how
//! often each route was taken. Each name occurs once.

use vstd::prelude::*;

verus! {

/// Named counters, each name at most once.
#[derive(Debug)]
pub struct CountTable {
    entries: Vec<(String, u64)>,
}

impl CountTable {
    #[verifier::type_invariant]
    spec fn names_distinct(self) -> bool {
        forall|i: int, j: int|
            0 <= i < j < self.entries@.len() ==> (#[trigger] self.entries@[i]).0@
                != (#[trigger] self.entries@[j]).0@
    }

    spec fn holds_name(self, name: Seq<char>) -> bool {
        exists|i: int| 0 <= i < self.entries@.len() && (#[trigger] self.entries@[i]).0@ == name
    }

    spec fn index_of(self, name: Seq<char>) -> int {
        choose|i: int| 0 <= i < self.entries@.len() && (#[trigger] self.entries@[i]).0@ == name
    }

    /// Each name and its count.
    pub closed spec fn counts(self) -> Map<Seq<char>, u64> {
        Map::new(|name: Seq<char>| self.holds_name(name), |name: Seq<char>| self.entries@[self.index_of(name)].1)
    }

    proof fn lemma_found_at(self, i: int)
        requires
            self.names_distinct(),
            0 <= i < self.entries@.len(),
        ensures
            self.counts().contains_key(self.entries@[i].0@),
            self.counts()[self.entries@[i].0@] == self.entries@[i].1,
    {
        let name = self.entries@[i].0@;
        assert(self.holds_name(name));
        let j = self.index_of(name);
        if j != i {
            if j < i {
                assert(self.entries@[j].0@ != self.entries@[i].0@);
            } else {
                assert(self.entries@[i].0@ != self.entries@[j].0@);
            }
        }
    }

    /// An empty table.
    pub fn new() -> (t: CountTable)
        ensures
            t@ == Map::<Seq<char>, u64>::empty(),
    {
        let t = CountTable { entries: Vec::new() };
        assert(t.counts() =~= Map::<Seq<char>, u64>::empty());
        t
    }

    fn position(&self, name: &str) -> (r: Option<usize>)
        ensures
            match r {
                Some(i) => i < self.entries@.len() && self.entries@[i as int].0@ == name@,
                None => !self.holds_name(name@),
            },
    {
        let wanted = name.to_owned();
        let mut i: usize = 0;
        while i < self.entries.len()
            invariant
                i <= self.entries@.len(),
                wanted@ == name@,
                forall|j: int| 0 <= j < i ==> (#[trigger] self.entries@[j]).0@ != name@,
            decreases self.entries@.len() - i,
        {
            if self.entries[i].0 == wanted {
                return Some(i);
            }
            i += 1;
        }
        None
    }

    /// The count under `name`, if the table holds that name.
    pub fn get(&self, name: &str) -> (r: Option<u64>)
        ensures
            r == (if self@.contains_key(name@) {
                Some(self@[name@])
            } else {
                None
            }),
    {
        proof {
            use_type_invariant(self);
        }
        match self.position(name) {
            Some(i) => {
                proof {
                    self.lemma_found_at(i as int);
                }
                Some(self.entries[i].1)
            },
            None => None,
        }
    }

    /// Sets the count under `name`, replacing the one it had.
    pub fn insert(&mut self, name: String, count: u64)
        ensures
            final(self)@ == old(self)@.insert(name@, count),
    {
        proof {
            use_type_invariant(&*self);
        }
        let ghost before = *self;
        let found = self.position(name.as_str());
        let mut entries: Vec<(String, u64)> = Vec::new();
        std::mem::swap(&mut entries, &mut self.entries);
        match found {
            Some(i) => {
                let ghost key = name@;
                entries.set(i, (name, count));
                self.entries = entries;
                proof {
                    assert(self.entries@ == before.entries@.update(i as int, (self.entries@[i as int].0, count)));
                    assert forall|a: int, b: int|
                        0 <= a < b < self.entries@.len() implies (#[trigger] self.entries@[a]).0@
                            != (#[trigger] self.entries@[b]).0@ by {
                        if a != i && b != i {
                            assert(self.entries@[a] == before.entries@[a]);
                            assert(self.entries@[b] == before.entries@[b]);
                        } else if a == i {
                            assert(self.entries@[b] == before.entries@[b]);
                        } else {
                            assert(self.entries@[a] == before.entries@[a]);
                        }
                    }
                    self.lemma_views_after_set(before, i as int, key, count);
                }
            },
            None => {
                let ghost key = name@;
                entries.push((name, count));
                self.entries = entries;
                proof {
                    assert forall|a: int, b: int|
                        0 <= a < b < self.entries@.len() implies (#[trigger] self.entries@[a]).0@
                            != (#[trigger] self.entries@[b]).0@ by {
                        assert(self.entries@[a] == before.entries@[a]);
                        if b < before.entries@.len() {
                            assert(self.entries@[b] == before.entries@[b]);
                        } else {
                            assert(!before.holds_name(key));
                        }
                    }
                    self.lemma_views_after_push(before, key, count);
                }
            },
        }
    }

    /// The names in the table, each once.
    pub fn names(&self) -> (r: Vec<String>)
        ensures
            forall|i: int| 0 <= i < r@.len() ==> self@.contains_key(#[trigger] r@[i]@),
            forall|name: Seq<char>| #[trigger] self@.contains_key(name) ==> exists|i: int|
                0 <= i < r@.len() && (#[trigger] r@[i])@ == name,
            forall|i: int, j: int| 0 <= i < j < r@.len() ==> (#[trigger] r@[i])@ != (#[trigger] r@[j])@,
    {
        proof {
            use_type_invariant(self);
        }
        let mut r: Vec<String> = Vec::new();
        let mut i: usize = 0;
        while i < self.entries.len()
            invariant
                self.names_distinct(),
                i <= self.entries@.len(),
                r@.len() == i,
                forall|j: int| 0 <= j < i ==> (#[trigger] r@[j])@ == self.entries@[j].0@,
            decreases self.entries@.len() - i,
        {
            r.push(self.entries[i].0.clone());
            i += 1;
        }
        proof {
            assert forall|k: int| 0 <= k < r@.len() implies self.counts().contains_key(#[trigger] r@[k]@) by {
                self.lemma_found_at(k);
            }
            assert forall|name: Seq<char>| #[trigger] self.counts().contains_key(name) implies exists|k: int|
                0 <= k < r@.len() && (#[trigger] r@[k])@ == name by {
                let k = self.index_of(name);
                assert(r@[k]@ == name);
            }
            assert forall|a: int, b: int| 0 <= a < b < r@.len() implies (#[trigger] r@[a])@ != (#[trigger] r@[b])@ by {
                assert(self.entries@[a].0@ != self.entries@[b].0@);
            }
        }
        r
    }

    proof fn lemma_views_after_set(self, before: CountTable, i: int, key: Seq<char>, count: u64)
        requires
            self.names_distinct(),
            before.names_distinct(),
            0 <= i < before.entries@.len(),
            before.entries@[i].0@ == key,
            self.entries@.len() == before.entries@.len(),
            self.entries@[i].0@ == key,
            self.entries@[i].1 == count,
            forall|j: int| 0 <= j < self.entries@.len() && j != i ==> self.entries@[j] == before.entries@[j],
        ensures
            self.counts() == before.counts().insert(key, count),
    {
        assert forall|name: Seq<char>| #[trigger] self.counts().contains_key(name)
            <==> before.counts().insert(key, count).contains_key(name) by {
            if self.holds_name(name) {
                let j = choose|j: int| 0 <= j < self.entries@.len() && (#[trigger] self.entries@[j]).0@ == name;
                if j != i {
                    assert(before.entries@[j].0@ == name);
                }
            }
            if before.holds_name(name) {
                let j = choose|j: int| 0 <= j < before.entries@.len() && (#[trigger] before.entries@[j]).0@ == name;
                if j != i {
                    assert(self.entries@[j].0@ == name);
                } else {
                    assert(self.entries@[i].0@ == name);
                }
            }
            if name == key {
                assert(self.entries@[i].0@ == name);
            }
        }
        assert forall|name: Seq<char>| #[trigger] self.counts().contains_key(name)
            implies self.counts()[name] == before.counts().insert(key, count)[name] by {
            let j = choose|j: int| 0 <= j < self.entries@.len() && (#[trigger] self.entries@[j]).0@ == name;
            self.lemma_found_at(j);
            if j != i {
                before.lemma_found_at(j);
            }
        }
        assert(self.counts() =~= before.counts().insert(key, count));
    }

    proof fn lemma_views_after_push(self, before: CountTable, key: Seq<char>, count: u64)
        requires
            self.names_distinct(),
            before.names_distinct(),
            self.entries@ == before.entries@.push((self.entries@.last().0, count)),
            self.entries@.last().0@ == key,
        ensures
            self.counts() == before.counts().insert(key, count),
    {
        let n = before.entries@.len() as int;
        assert forall|name: Seq<char>| #[trigger] self.counts().contains_key(name)
            <==> before.counts().insert(key, count).contains_key(name) by {
            if self.holds_name(name) {
                let j = choose|j: int| 0 <= j < self.entries@.len() && (#[trigger] self.entries@[j]).0@ == name;
                if j < n {
                    assert(before.entries@[j].0@ == name);
                }
            }
            if before.holds_name(name) {
                let j = choose|j: int| 0 <= j < before.entries@.len() && (#[trigger] before.entries@[j]).0@ == name;
                assert(self.entries@[j].0@ == name);
            }
            if name == key {
                assert(self.entries@[n].0@ == name);
            }
        }
        assert forall|name: Seq<char>| #[trigger] self.counts().contains_key(name)
            implies self.counts()[name] == before.counts().insert(key, count)[name] by {
            let j = choose|j: int| 0 <= j < self.entries@.len() && (#[trigger] self.entries@[j]).0@ == name;
            self.lemma_found_at(j);
            if j < n {
                assert(self.entries@[j] == before.entries@[j]);
                before.lemma_found_at(j);
            }
        }
        assert(self.counts() =~= before.counts().insert(key, count));
    }
}

impl View for CountTable {
    type V = Map<Seq<char>, u64>;

    open spec fn view(&self) -> Map<Seq<char>, u64> {
        self.counts()
    }
}

} // verus!
