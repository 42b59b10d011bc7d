use vstd::prelude::*;

use crate::address::Address;

verus! {

/// Records keyed by address, at most one per address.
pub struct Table<T> {
    entries: Vec<(Address, T)>,
}

/// Whether `s` holds an entry under key `k`.
pub open spec fn has_key<T>(s: Seq<(Address, T)>, k: Seq<u8>) -> bool {
    exists|i: int| 0 <= i < s.len() && (#[trigger] s[i]).0@ == k
}

impl<T: View> View for Table<T> {
    type V = Map<Seq<u8>, T::V>;

    closed spec fn view(&self) -> Map<Seq<u8>, T::V> {
        Map::new(
            |k: Seq<u8>| has_key(self.entries@, k),
            |k: Seq<u8>|
                self.entries@[choose|i: int|
                    0 <= i < self.entries@.len() && (#[trigger] self.entries@[i]).0@ == k].1@,
        )
    }
}

impl<T: View> Table<T> {
    /// No two entries share a key.
    pub closed spec fn wf(&self) -> bool {
        forall|i: int, j: int|
            0 <= i < self.entries@.len() && 0 <= j < self.entries@.len() && i != j
                ==> (#[trigger] self.entries@[i]).0@ != (#[trigger] self.entries@[j]).0@
    }

    proof fn lemma_lookup(&self, i: int)
        requires
            self.wf(),
            0 <= i < self.entries@.len(),
        ensures
            self@.contains_key(self.entries@[i].0@),
            self@[self.entries@[i].0@] == self.entries@[i].1@,
    {
        let k = self.entries@[i].0@;
        assert(has_key(self.entries@, k));
        let j = choose|j: int| 0 <= j < self.entries@.len() && (#[trigger] self.entries@[j]).0@ == k;
        assert(j == i);
    }

    /// An empty table.
    pub fn new() -> (r: Self)
        ensures
            r.wf(),
            r@ == Map::<Seq<u8>, T::V>::empty(),
    {
        let r = Table { entries: Vec::new() };
        assert(r@ =~= Map::<Seq<u8>, T::V>::empty());
        r
    }

    fn index_of(&self, k: &Address) -> (r: Option<usize>)
        ensures
            match r {
                Some(i) => i < self.entries@.len() && self.entries@[i as int].0@ == k@,
                None => !has_key(self.entries@, k@),
            },
    {
        let mut i: usize = 0;
        while i < self.entries.len()
            invariant
                0 <= i <= self.entries@.len(),
                forall|j: int| 0 <= j < i ==> (#[trigger] self.entries@[j]).0@ != k@,
            decreases self.entries@.len() - i,
        {
            if self.entries[i].0.same(k) {
                return Some(i);
            }
            i = i + 1;
        }
        None
    }

    /// Whether a record stands under `k`.
    pub fn contains(&self, k: &Address) -> (r: bool)
        requires
            self.wf(),
        ensures
            r == self@.contains_key(k@),
    {
        self.index_of(k).is_some()
    }

    /// The record under `k`, if any.
    pub fn get(&self, k: &Address) -> (r: Option<&T>)
        requires
            self.wf(),
        ensures
            match r {
                Some(v) => self@.contains_key(k@) && self@[k@] == v@,
                None => !self@.contains_key(k@),
            },
    {
        match self.index_of(k) {
            Some(i) => {
                proof {
                    self.lemma_lookup(i as int);
                }
                Some(&self.entries[i].1)
            },
            None => None,
        }
    }

    /// Puts `v` under `k`, in place of the record that stood there.
    pub fn insert(&mut self, k: Address, v: T)
        requires
            old(self).wf(),
        ensures
            final(self).wf(),
            final(self)@ == old(self)@.insert(k@, v@),
    {
        let ghost old_entries = self.entries@;
        let ghost old_view = self@;
        match self.index_of(&k) {
            Some(i) => {
                self.entries.set(i, (k, v));
                proof {
                    let s = self.entries@;
                    assert forall|a: int, b: int|
                        0 <= a < s.len() && 0 <= b < s.len() && a != b
                            implies (#[trigger] s[a]).0@ != (#[trigger] s[b]).0@ by {
                        assert(a != i ==> s[a] == old_entries[a]);
                        assert(b != i ==> s[b] == old_entries[b]);
                    }
                    assert forall|key: Seq<u8>| #[trigger] self@.contains_key(key)
                        <==> old_view.insert(k@, v@).contains_key(key) by {
                        if has_key(old_entries, key) {
                            let j = choose|j: int| 0 <= j < old_entries.len() && (#[trigger] old_entries[j]).0@ == key;
                            if j == i {
                                assert(s[i as int].0@ == key);
                            } else {
                                assert(s[j].0@ == key);
                            }
                        }
                        if has_key(s, key) {
                            let j = choose|j: int| 0 <= j < s.len() && (#[trigger] s[j]).0@ == key;
                            if j != i {
                                assert(old_entries[j].0@ == key);
                            }
                        }
                    }
                    assert forall|key: Seq<u8>| #[trigger] self@.contains_key(key)
                        implies self@[key] == old_view.insert(k@, v@)[key] by {
                        let j = choose|j: int| 0 <= j < s.len() && (#[trigger] s[j]).0@ == key;
                        self.lemma_lookup(j);
                        if j != i {
                            assert(old_entries[j] == s[j]);
                            assert(old(self).entries@ == old_entries);
                            old(self).lemma_lookup(j);
                        }
                    }
                    assert(self@ =~= old_view.insert(k@, v@));
                }
            },
            None => {
                self.entries.push((k, v));
                proof {
                    let s = self.entries@;
                    let n = old_entries.len() as int;
                    assert forall|a: int, b: int|
                        0 <= a < s.len() && 0 <= b < s.len() && a != b
                            implies (#[trigger] s[a]).0@ != (#[trigger] s[b]).0@ by {
                        if a == n {
                            assert(old_entries[b] == s[b]);
                        } else if b == n {
                            assert(old_entries[a] == s[a]);
                        } else {
                            assert(old_entries[a] == s[a]);
                            assert(old_entries[b] == s[b]);
                        }
                    }
                    assert forall|key: Seq<u8>| #[trigger] self@.contains_key(key)
                        <==> old_view.insert(k@, v@).contains_key(key) by {
                        if has_key(old_entries, key) {
                            let j = choose|j: int| 0 <= j < old_entries.len() && (#[trigger] old_entries[j]).0@ == key;
                            assert(s[j] == old_entries[j]);
                        }
                        if key == k@ {
                            assert(s[n].0@ == key);
                        }
                        if has_key(s, key) {
                            let j = choose|j: int| 0 <= j < s.len() && (#[trigger] s[j]).0@ == key;
                            if j != n {
                                assert(old_entries[j] == s[j]);
                            }
                        }
                    }
                    assert forall|key: Seq<u8>| #[trigger] self@.contains_key(key)
                        implies self@[key] == old_view.insert(k@, v@)[key] by {
                        let j = choose|j: int| 0 <= j < s.len() && (#[trigger] s[j]).0@ == key;
                        self.lemma_lookup(j);
                        if j != n {
                            assert(old_entries[j] == s[j]);
                            assert(old(self).entries@ == old_entries);
                            old(self).lemma_lookup(j);
                        }
                    }
                    assert(self@ =~= old_view.insert(k@, v@));
                }
            },
        }
    }

    /// Takes out the record under `k`, if any.
    pub fn remove(&mut self, k: &Address) -> (r: Option<T>)
        requires
            old(self).wf(),
        ensures
            final(self).wf(),
            final(self)@ == old(self)@.remove(k@),
            match r {
                Some(v) => old(self)@.contains_key(k@) && old(self)@[k@] == v@,
                None => !old(self)@.contains_key(k@),
            },
    {
        let ghost old_entries = self.entries@;
        let ghost old_view = self@;
        match self.index_of(k) {
            Some(i) => {
                proof {
                    self.lemma_lookup(i as int);
                }
                let (_, v) = self.entries.remove(i);
                proof {
                    let s = self.entries@;
                    assert(s =~= old_entries.remove(i as int));
                    assert forall|a: int| 0 <= a < s.len() implies #[trigger] s[a] == old_entries[if a < i { a } else { a + 1 }] by {}
                    assert forall|a: int, b: int|
                        0 <= a < s.len() && 0 <= b < s.len() && a != b
                            implies (#[trigger] s[a]).0@ != (#[trigger] s[b]).0@ by {
                        let a2 = if a < i { a } else { a + 1 };
                        let b2 = if b < i { b } else { b + 1 };
                        assert(s[a] == old_entries[a2]);
                        assert(s[b] == old_entries[b2]);
                    }
                    assert forall|key: Seq<u8>| #[trigger] self@.contains_key(key)
                        <==> old_view.remove(k@).contains_key(key) by {
                        if has_key(old_entries, key) && key != k@ {
                            let j = choose|j: int| 0 <= j < old_entries.len() && (#[trigger] old_entries[j]).0@ == key;
                            let j2 = if j < i { j } else { j - 1 };
                            assert(s[j2] == old_entries[j]);
                        }
                        if has_key(s, key) {
                            let j = choose|j: int| 0 <= j < s.len() && (#[trigger] s[j]).0@ == key;
                            let j2 = if j < i { j } else { j + 1 };
                            assert(s[j] == old_entries[j2]);
                            assert(j2 != i);
                        }
                    }
                    assert forall|key: Seq<u8>| #[trigger] self@.contains_key(key)
                        implies self@[key] == old_view.remove(k@)[key] by {
                        let j = choose|j: int| 0 <= j < s.len() && (#[trigger] s[j]).0@ == key;
                        self.lemma_lookup(j);
                        let j2 = if j < i { j } else { j + 1 };
                        assert(s[j] == old_entries[j2]);
                        assert(old(self).entries@ == old_entries);
                        old(self).lemma_lookup(j2);
                    }
                    assert(self@ =~= old_view.remove(k@));
                }
                Some(v)
            },
            None => {
                assert(self@ =~= old_view.remove(k@));
                None
            },
        }
    }
}

} // verus!
