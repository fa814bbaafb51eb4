//! A small map from names to values, kept as a vector of distinct keys.

use vstd::prelude::*;

verus! {

/// Map from text keys to values; each key occurs at most once.
pub struct NamedMap<T> {
    entries: Vec<(String, T)>,
}

impl<T> NamedMap<T> {
    /// Well-formedness, kept by every value of the type: no key occurs
    /// twice.
    #[verifier::type_invariant]
    pub closed spec fn wf(self) -> bool {
        forall|i: int, j: int|
            0 <= i < self.entries.len() && 0 <= j < self.entries.len() && i != j
                ==> self.entries@[i].0@ != self.entries@[j].0@
    }

    /// Entry `i` holds key `k`.
    pub closed spec fn key_at(self, k: Seq<char>, i: int) -> bool {
        0 <= i < self.entries.len() && self.entries@[i].0@ == k
    }

    /// The keys, in the order in which they were first inserted.
    pub closed spec fn key_order(self) -> Seq<Seq<char>> {
        self.entries@.map_values(|e: (String, T)| e.0@)
    }

    /// The key order lists every key of the map, each exactly once.
    pub proof fn key_order_lists_each_key_once(self, k: Seq<char>)
        requires
            self.wf(),
        ensures
            self@.contains_key(k) <==> self.key_order().contains(k),
            self.key_order().no_duplicates(),
    {
        if self@.contains_key(k) {
            let i = choose|i: int| self.key_at(k, i);
            assert(self.key_order()[i] == k);
        }
        if self.key_order().contains(k) {
            let i = choose|i: int| 0 <= i < self.key_order().len() && self.key_order()[i] == k;
            assert(self.key_at(k, i));
        }
    }

    /// An empty map.
    pub fn new() -> (m: Self)
        ensures
            m@ == Map::<Seq<char>, T>::empty(),
            m.key_order() == Seq::<Seq<char>>::empty(),
    {
        let m = NamedMap { entries: Vec::new() };
        assert(m@ =~= Map::<Seq<char>, T>::empty());
        assert(m.key_order() =~= Seq::<Seq<char>>::empty());
        m
    }

    /// Number of keys.
    pub fn len(&self) -> (n: usize)
        ensures
            n == self.key_order().len(),
    {
        self.entries.len()
    }

    /// The key and value at position `i` of the key order.
    pub fn entry(&self, i: usize) -> (e: (&String, &T))
        requires
            i < self.key_order().len(),
        ensures
            e.0@ == self.key_order()[i as int],
            self@.contains_key(e.0@),
            *e.1 == self@[e.0@],
    {
        proof {
            use_type_invariant(self);
        }
        let e = &self.entries[i];
        proof {
            self.lemma_value_at(i as int);
        }
        (&e.0, &e.1)
    }

    proof fn lemma_value_at(self, i: int)
        requires
            self.wf(),
            0 <= i < self.entries.len(),
        ensures
            self@.contains_key(self.entries@[i].0@),
            self@[self.entries@[i].0@] == self.entries@[i].1,
    {
        let k = self.entries@[i].0@;
        assert(self.key_at(k, i));
        let j = choose|j: int| self.key_at(k, j);
        assert(j == i);
    }

    /// Position of `key`, if present.
    fn find(&self, key: &String) -> (r: Option<usize>)
        ensures
            match r {
                Some(i) => self.key_at(key@, i as int),
                None => !self@.contains_key(key@),
            },
    {
        let mut i: usize = 0;
        while i < self.entries.len()
            invariant
                i <= self.entries.len(),
                forall|j: int| 0 <= j < i ==> self.entries@[j].0@ != key@,
            decreases self.entries.len() - i,
        {
            if self.entries[i].0 == *key {
                return Some(i);
            }
            i = i + 1;
        }
        None
    }

    /// The value stored under `key`, if any.
    pub fn get(&self, key: &str) -> (r: Option<&T>)
        ensures
            match r {
                Some(v) => self@.contains_key(key@) && *v == self@[key@],
                None => !self@.contains_key(key@),
            },
    {
        proof {
            use_type_invariant(self);
        }
        let k = String::from_str(key);
        match self.find(&k) {
            Some(i) => {
                proof {
                    self.lemma_value_at(i as int);
                }
                Some(&self.entries[i].1)
            },
            None => None,
        }
    }

    /// Whether `key` is present.
    pub fn contains(&self, key: &str) -> (b: bool)
        ensures
            b == self@.contains_key(key@),
    {
        match self.get(key) {
            Some(_) => true,
            None => false,
        }
    }

    /// Stores `value` under `key`, handing back the value it replaces.
    pub fn insert(&mut self, key: String, value: T) -> (replaced: Option<T>)
        ensures
            final(self)@ == old(self)@.insert(key@, value),
            replaced == (if old(self)@.contains_key(key@) {
                Some(old(self)@[key@])
            } else {
                None
            }),
            old(self)@.contains_key(key@) ==> final(self).key_order() == old(self).key_order(),
            !old(self)@.contains_key(key@) ==> final(self).key_order() == old(self).key_order().push(
                key@,
            ),
    {
        proof {
            use_type_invariant(&*self);
        }
        let ghost old_self = *self;
        let ghost k = key@;
        let pos = self.find(&key);
        let mut taken = NamedMap { entries: Vec::new() };
        std::mem::swap(self, &mut taken);
        let mut entries = taken.entries;
        assert(entries@ == old_self.entries@);
        match pos {
            Some(i) => {
                let old_entry = entries.remove(i);
                entries.insert(i, (key, value));
                proof {
                    assert(entries@ == old_self.entries@.update(i as int, (entries@[i as int].0, value)));
                    assert forall|a: int, b: int|
                        0 <= a < entries.len() && 0 <= b < entries.len() && a != b
                        implies entries@[a].0@ != entries@[b].0@ by {
                        if a != i && b != i {
                            assert(old_self.entries@[a] == entries@[a]);
                        }
                    }
                }
                *self = NamedMap { entries };
                proof {
                    old_self.lemma_value_at(i as int);
                    assert forall|k2: Seq<char>| #[trigger] self@.contains_key(k2) <==> old_self@.insert(k, value).contains_key(k2) by {
                        if self@.contains_key(k2) {
                            let j = choose|j: int| self.key_at(k2, j);
                            if j != i {
                                assert(old_self.key_at(k2, j));
                            }
                        }
                        if old_self@.contains_key(k2) && k2 != k {
                            let j = choose|j: int| old_self.key_at(k2, j);
                            assert(self.key_at(k2, j));
                        }
                        if k2 == k {
                            assert(self.key_at(k2, i as int));
                        }
                    }
                    assert forall|k2: Seq<char>| #[trigger] self@.contains_key(k2) implies self@[k2] == old_self@.insert(k, value)[k2] by {
                        let j = choose|j: int| self.key_at(k2, j);
                        self.lemma_value_at(j);
                        if j != i {
                            assert(old_self.key_at(k2, j));
                            old_self.lemma_value_at(j);
                        }
                    }
                    assert(self@ =~= old_self@.insert(k, value));
                    assert(self.key_order() =~= old_self.key_order());
                }
                Some(old_entry.1)
            },
            None => {
                entries.push((key, value));
                proof {
                    let n = old_self.entries.len() as int;
                    assert forall|a: int, b: int|
                        0 <= a < entries.len() && 0 <= b < entries.len() && a != b
                        implies entries@[a].0@ != entries@[b].0@ by {
                        if a != n && b != n {
                            assert(old_self.entries@[a] == entries@[a]);
                            assert(old_self.entries@[b] == entries@[b]);
                        } else if a == n {
                            assert(!old_self.key_at(k, b));
                        } else {
                            assert(!old_self.key_at(k, a));
                        }
                    }
                }
                *self = NamedMap { entries };
                proof {
                    let n = old_self.entries.len() as int;
                    assert forall|k2: Seq<char>| #[trigger] self@.contains_key(k2) <==> old_self@.insert(k, value).contains_key(k2) by {
                        if self@.contains_key(k2) {
                            let j = choose|j: int| self.key_at(k2, j);
                            if j != n {
                                assert(old_self.key_at(k2, j));
                            }
                        }
                        if old_self@.contains_key(k2) {
                            let j = choose|j: int| old_self.key_at(k2, j);
                            assert(self.key_at(k2, j));
                        }
                        if k2 == k {
                            assert(self.key_at(k2, n));
                        }
                    }
                    assert forall|k2: Seq<char>| #[trigger] self@.contains_key(k2) implies self@[k2] == old_self@.insert(k, value)[k2] by {
                        let j = choose|j: int| self.key_at(k2, j);
                        self.lemma_value_at(j);
                        if j != n {
                            assert(old_self.key_at(k2, j));
                            old_self.lemma_value_at(j);
                        }
                    }
                    assert(self@ =~= old_self@.insert(k, value));
                    assert(self.key_order() =~= old_self.key_order().push(k));
                }
                None
            },
        }
    }
}

impl<T> View for NamedMap<T> {
    type V = Map<Seq<char>, T>;

    closed spec fn view(&self) -> Map<Seq<char>, T> {
        Map::new(
            |k: Seq<char>| exists|i: int| self.key_at(k, i),
            |k: Seq<char>| self.entries@[choose|i: int| self.key_at(k, i)].1,
        )
    }
}

} // verus!
