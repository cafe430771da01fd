//! A small map from unique names to values, kept in insertion order.
use vstd::prelude::*;

verus! {

broadcast use vstd::string::group_string_axioms;

/// Values looked up by name; no two entries share a name.
pub struct NameMap<V> {
    entries: Vec<(String, V)>,
}

impl<V> NameMap<V> {
    /// Whether entry `i` is named `k`.
    pub closed spec fn named(&self, i: int, k: Seq<char>) -> bool {
        0 <= i < self.entries@.len() && self.entries@[i].0@ == k
    }

    /// The names are pairwise distinct.
    pub closed spec fn wf(&self) -> bool {
        forall|i: int, j: int|
            0 <= i < self.entries@.len() && 0 <= j < self.entries@.len() && i != j
                ==> self.entries@[i].0@ != self.entries@[j].0@
    }

    /// The map from each name to its value.
    pub closed spec fn view(&self) -> Map<Seq<char>, V> {
        Map::new(
            |k: Seq<char>| exists|i: int| self.named(i, k),
            |k: Seq<char>| self.entries@[choose|i: int| self.named(i, k)].1,
        )
    }

    /// The names in insertion order.
    pub closed spec fn names(&self) -> Seq<Seq<char>> {
        self.entries@.map_values(|e: (String, V)| e.0@)
    }

    proof fn lemma_found(&self, i: int, k: Seq<char>)
        requires
            self.wf(),
            self.named(i, k),
        ensures
            self@.contains_key(k),
            self@[k] == self.entries@[i].1,
    {
        assert(exists|j: int| self.named(j, k));
        let j = choose|j: int| self.named(j, k);
        assert(i == j);
    }

    proof fn lemma_replace(&self, i: int, v: V, after: Self)
        requires
            self.wf(),
            0 <= i < self.entries@.len(),
            after.entries@ == self.entries@.update(i, (self.entries@[i].0, v)),
        ensures
            after.wf(),
            after@ == self@.insert(self.entries@[i].0@, v),
    {
        let name = self.entries@[i].0@;
        assert forall|j: int| 0 <= j < self.entries@.len() && j != i implies #[trigger] after.entries@[j]
            == self.entries@[j] by {}
        assert forall|k: Seq<char>| #[trigger] after@.contains_key(k) == self@.insert(name, v).contains_key(k) by {
            if k == name {
                assert(after.named(i, k));
            } else if after@.contains_key(k) {
                let j = choose|j: int| after.named(j, k);
                assert(self.named(j, k));
            } else if self@.contains_key(k) {
                let j = choose|j: int| self.named(j, k);
                assert(after.named(j, k));
            }
        }
        assert forall|k: Seq<char>| #[trigger] after@.contains_key(k) implies after@[k] == self@.insert(name, v)[k] by {
            let j = choose|j: int| after.named(j, k);
            after.lemma_found(j, k);
            if k == name {
                self.lemma_found(i, k);
                if j != i {
                    assert(self.entries@[j].0@ == self.entries@[i].0@);
                }
            } else {
                assert(self.named(j, k));
                self.lemma_found(j, k);
            }
        }
        assert(after@ =~= self@.insert(name, v));
    }

    /// An empty map.
    pub fn new() -> (r: Self)
        ensures
            r.wf(),
            r@ == Map::<Seq<char>, V>::empty(),
            r.names() == Seq::<Seq<char>>::empty(),
    {
        let r = NameMap { entries: Vec::new() };
        assert(r@ =~= Map::<Seq<char>, V>::empty());
        assert(r.names() =~= Seq::<Seq<char>>::empty());
        r
    }

    /// The position of the entry named `name`, if any.
    fn find(&self, name: &str) -> (r: Option<usize>)
        requires
            self.wf(),
        ensures
            r is Some ==> self.named(r->0 as int, name@),
            r is None ==> !self@.contains_key(name@),
    {
        let key = name.to_string();
        let mut i: usize = 0;
        while i < self.entries.len()
            invariant
                i <= self.entries@.len(),
                key@ == name@,
                forall|j: int| 0 <= j < i ==> !self.named(j, name@),
            decreases self.entries@.len() - i,
        {
            if self.entries[i].0 == key {
                return Some(i);
            }
            i += 1;
        }
        None
    }

    /// Whether some entry is named `name`.
    pub fn contains(&self, name: &str) -> (r: bool)
        requires
            self.wf(),
        ensures
            r == self@.contains_key(name@),
    {
        match self.find(name) {
            Some(i) => {
                proof {
                    self.lemma_found(i as int, name@);
                }
                true
            },
            None => false,
        }
    }

    /// The value named `name`, if any.
    pub fn get(&self, name: &str) -> (r: Option<&V>)
        requires
            self.wf(),
        ensures
            r is Some == self@.contains_key(name@),
            r is Some ==> *r->0 == self@[name@],
    {
        match self.find(name) {
            Some(i) => {
                proof {
                    self.lemma_found(i as int, name@);
                }
                Some(&self.entries[i].1)
            },
            None => None,
        }
    }

    /// Adds `value` under `name` unless that name is taken; says whether it was added.
    pub fn insert_new(&mut self, name: &str, value: V) -> (r: bool)
        requires
            old(self).wf(),
        ensures
            final(self).wf(),
            r == !old(self)@.contains_key(name@),
            r ==> final(self)@ == old(self)@.insert(name@, value),
            !r ==> final(self)@ == old(self)@,
    {
        match self.find(name) {
            Some(i) => {
                proof {
                    self.lemma_found(i as int, name@);
                }
                false
            },
            None => {
                self.push_unique(name, value);
                true
            },
        }
    }

    /// Adds `value` under `name`, replacing the value that name had.
    pub fn insert(&mut self, name: &str, value: V)
        requires
            old(self).wf(),
        ensures
            final(self).wf(),
            final(self)@ == old(self)@.insert(name@, value),
    {
        match self.find(name) {
            Some(i) => {
                let ghost before = *self;
                let key = name.to_string();
                self.entries.set(i, (key, value));
                proof {
                    assert forall|j: int| 0 <= j < self.entries@.len() && j != i implies #[trigger] self.entries@[j]
                        == before.entries@[j] by {}
                    assert forall|k: Seq<char>| #[trigger] self@.contains_key(k) == before@.insert(name@, value).contains_key(k) by {
                        if k == name@ {
                            assert(self.named(i as int, k));
                        } else if self@.contains_key(k) {
                            let j = choose|j: int| self.named(j, k);
                            assert(before.named(j, k));
                        } else if before@.contains_key(k) {
                            let j = choose|j: int| before.named(j, k);
                            assert(self.named(j, k));
                        }
                    }
                    assert forall|k: Seq<char>| #[trigger] self@.contains_key(k) implies self@[k] == before@.insert(name@, value)[k] by {
                        let j = choose|j: int| self.named(j, k);
                        self.lemma_found(j, k);
                        if k == name@ {
                            assert(j == i);
                        } else {
                            assert(before.named(j, k));
                            before.lemma_found(j, k);
                        }
                    }
                    assert(self@ =~= before@.insert(name@, value));
                }
            },
            None => {
                self.push_unique(name, value);
            },
        }
    }

    fn push_unique(&mut self, name: &str, value: V)
        requires
            old(self).wf(),
            !old(self)@.contains_key(name@),
        ensures
            final(self).wf(),
            final(self)@ == old(self)@.insert(name@, value),
    {
        let ghost before = *self;
        let key = name.to_string();
        self.entries.push((key, value));
        proof {
            let n = before.entries@.len() as int;
            assert forall|j: int| 0 <= j < n implies before.entries@[j].0@ != name@ by {
                if before.entries@[j].0@ == name@ {
                    assert(before.named(j, name@));
                }
            }
            assert forall|j: int| 0 <= j < n implies #[trigger] self.entries@[j] == before.entries@[j] by {}
            assert forall|k: Seq<char>| #[trigger] self@.contains_key(k) == before@.insert(name@, value).contains_key(k) by {
                if k == name@ {
                    assert(self.named(n, k));
                } else if self@.contains_key(k) {
                    let j = choose|j: int| self.named(j, k);
                    assert(before.named(j, k));
                } else if before@.contains_key(k) {
                    let j = choose|j: int| before.named(j, k);
                    assert(self.named(j, k));
                }
            }
            assert forall|k: Seq<char>| #[trigger] self@.contains_key(k) implies self@[k] == before@.insert(name@, value)[k] by {
                let j = choose|j: int| self.named(j, k);
                self.lemma_found(j, k);
                if k == name@ {
                    assert(j == n);
                } else {
                    assert(before.named(j, k));
                    before.lemma_found(j, k);
                }
            }
            assert(self@ =~= before@.insert(name@, value));
        }
    }

    /// Mutable access to the value named `name`, if any.
    pub fn get_mut(&mut self, name: &str) -> (r: Option<&mut V>)
        requires
            old(self).wf(),
        ensures
            r is Some == old(self)@.contains_key(name@),
            r is Some ==> *r->0 == old(self)@[name@],
            r is Some ==> final(self).wf() && final(self)@ == old(self)@.insert(name@, *final(r->0)),
            r is None ==> *final(self) == *old(self),
    {
        match self.find(name) {
            Some(i) => {
                proof {
                    self.lemma_found(i as int, name@);
                    assert forall|after: Self|
                        after.entries@ == self.entries@.update(
                            i as int,
                            (self.entries@[i as int].0, after.entries@[i as int].1),
                        ) implies #[trigger] after.wf() && after@ == self@.insert(
                        name@,
                        after.entries@[i as int].1,
                    ) by {
                        self.lemma_replace(i as int, after.entries@[i as int].1, after);
                    }
                }
                Some(&mut self.entries[i].1)
            },
            None => None,
        }
    }

    /// The names are exactly the keys of the map, each once.
    pub proof fn lemma_names(&self)
        requires
            self.wf(),
        ensures
            self.names().no_duplicates(),
            forall|k: Seq<char>| #[trigger] self@.contains_key(k) <==> self.names().contains(k),
            forall|i: int|
                0 <= i < self.names().len() ==> self@.contains_key(#[trigger] self.names()[i]),
    {
        assert forall|k: Seq<char>| #[trigger] self@.contains_key(k) <==> self.names().contains(k) by {
            if self@.contains_key(k) {
                let j = choose|j: int| self.named(j, k);
                assert(self.names()[j] == k);
            }
            if self.names().contains(k) {
                let j = choose|j: int| 0 <= j < self.names().len() && self.names()[j] == k;
                assert(self.named(j, k));
            }
        }
        assert forall|i: int| 0 <= i < self.names().len() implies self@.contains_key(#[trigger] self.names()[i]) by {
            assert(self.named(i, self.names()[i]));
        }
    }

    /// The name of entry `i`.
    pub fn key_at(&self, i: usize) -> (r: &String)
        requires
            i < self.names().len(),
        ensures
            r@ == self.names()[i as int],
    {
        &self.entries[i].0
    }

    /// The value of entry `i`.
    pub fn value_at(&self, i: usize) -> (r: &V)
        requires
            self.wf(),
            i < self.names().len(),
        ensures
            *r == self@[self.names()[i as int]],
    {
        proof {
            self.lemma_found(i as int, self.names()[i as int]);
        }
        &self.entries[i].1
    }

    /// The number of entries.
    pub fn len(&self) -> (r: usize)
        ensures
            r == self.names().len(),
    {
        self.entries.len()
    }
}

} // verus!

verus! {

/// The names for which a warning was already given.
pub struct WarnedNames {
    names: NameMap<()>,
}

impl WarnedNames {
    pub closed spec fn wf(&self) -> bool {
        self.names.wf()
    }

    /// The names already warned about.
    pub closed spec fn view(&self) -> Set<Seq<char>> {
        self.names@.dom()
    }

    /// No name warned about yet.
    pub fn new() -> (r: Self)
        ensures
            r.wf(),
            r@ == Set::<Seq<char>>::empty(),
    {
        let r = WarnedNames { names: NameMap::new() };
        assert(r@ =~= Set::<Seq<char>>::empty());
        r
    }

    /// Records `name`; says whether this is its first report, so that a warning
    /// about it is given exactly once.
    pub fn first_report(&mut self, name: &str) -> (r: bool)
        requires
            old(self).wf(),
        ensures
            final(self).wf(),
            r == !old(self)@.contains(name@),
            final(self)@ == old(self)@.insert(name@),
    {
        let fresh = self.names.insert_new(name, ());
        assert(self@ =~= old(self)@.insert(name@));
        fresh
    }
}

} // verus!
