//! A map from strings to values, kept as a list of entries with distinct keys.
//!
//! std's `BTreeMap` would do the same work, but with `String` keys vstd lets Verus prove
//! next to nothing of it; a list whose invariant is stated here is proved in full.

use vstd::prelude::*;

verus! {

/// Keys of the entries are pairwise distinct.
pub open spec fn keys_distinct<V>(s: Seq<(String, V)>) -> bool {
    forall|i: int, j: int|
        0 <= i < s.len() && 0 <= j < s.len() && i != j ==> (#[trigger] s[i]).0@ != (#[trigger] s[j]).0@
}

/// Some entry has key `k`.
pub open spec fn has_key<V>(s: Seq<(String, V)>, k: Seq<char>) -> bool {
    exists|i: int| 0 <= i < s.len() && (#[trigger] s[i]).0@ == k
}

/// The map that a list of entries stands for.
pub open spec fn entries_map<V>(s: Seq<(String, V)>) -> Map<Seq<char>, V> {
    Map::new(
        |k: Seq<char>| has_key(s, k),
        |k: Seq<char>| s[choose|i: int| 0 <= i < s.len() && (#[trigger] s[i]).0@ == k].1,
    )
}

/// The entry at `i` is what the map holds for its key.
pub proof fn lemma_entry_in_map<V>(s: Seq<(String, V)>, i: int)
    requires
        keys_distinct(s),
        0 <= i < s.len(),
    ensures
        entries_map(s).contains_key(s[i].0@),
        entries_map(s)[s[i].0@] == s[i].1,
{
    let k = s[i].0@;
    assert(has_key(s, k));
    let j = choose|j: int| 0 <= j < s.len() && (#[trigger] s[j]).0@ == k;
    assert(s[j].0@ == k);
    assert(i == j);
}

/// A map from strings to values.
pub struct KeyedStore<V> {
    entries: Vec<(String, V)>,
}

impl<V> View for KeyedStore<V> {
    type V = Map<Seq<char>, V>;

    closed spec fn view(&self) -> Map<Seq<char>, V> {
        entries_map(self.entries@)
    }
}

impl<V> KeyedStore<V> {
    /// The store holds finitely many keys.
    pub proof fn lemma_finite(&self)
        ensures
            self@.dom().finite(),
    {
        let s = self.entries@;
        let keys = s.map_values(|e: (String, V)| e.0@);
        vstd::seq_lib::seq_to_set_is_finite(keys);
        assert forall|k: Seq<char>| self@.dom().contains(k) implies keys.to_set().contains(k) by {
            let i = choose|i: int| 0 <= i < s.len() && (#[trigger] s[i]).0@ == k;
            assert(keys[i] == k);
        }
        assert(self@.dom().subset_of(keys.to_set()));
        vstd::set_lib::lemma_set_subset_finite(keys.to_set(), self@.dom());
    }

    /// The store's invariant: no key is held twice.
    pub closed spec fn wf(&self) -> bool {
        keys_distinct(self.entries@)
    }

    /// An empty store.
    pub fn new() -> (r: Self)
        ensures
            r.wf(),
            r@ == Map::<Seq<char>, V>::empty(),
    {
        let r = KeyedStore { entries: Vec::new() };
        assert(r@ =~= Map::<Seq<char>, V>::empty());
        r
    }

    /// Index of the entry with key `k`, if any.
    fn find(&self, k: &String) -> (r: Option<usize>)
        ensures
            match r {
                Some(i) => i < self.entries@.len() && self.entries@[i as int].0@ == k@,
                None => !has_key(self.entries@, k@),
            },
    {
        let mut i: usize = 0;
        while i < self.entries.len()
            invariant
                i <= self.entries@.len(),
                forall|j: int| 0 <= j < i ==> (#[trigger] self.entries@[j]).0@ != k@,
            decreases self.entries@.len() - i,
        {
            if self.entries[i].0 == *k {
                return Some(i);
            }
            i += 1;
        }
        None
    }

    /// The value held for `k`.
    pub fn get(&self, k: &String) -> (r: Option<&V>)
        requires
            self.wf(),
        ensures
            match r {
                Some(v) => self@.contains_key(k@) && *v == self@[k@],
                None => !self@.contains_key(k@),
            },
    {
        match self.find(k) {
            Some(i) => {
                proof {
                    lemma_entry_in_map(self.entries@, i as int);
                }
                Some(&self.entries[i].1)
            },
            None => None,
        }
    }

    /// Whether a value is held for `k`.
    pub fn contains_key(&self, k: &String) -> (r: bool)
        requires
            self.wf(),
        ensures
            r == self@.contains_key(k@),
    {
        self.find(k).is_some()
    }

    /// Holds `v` for `k`, in place of any earlier value.
    pub fn insert(&mut self, k: String, v: V)
        requires
            old(self).wf(),
        ensures
            final(self).wf(),
            final(self)@ == old(self)@.insert(k@, v),
    {
        let ghost s0 = self.entries@;
        let ghost kv = k@;
        match self.find(&k) {
            Some(i) => {
                self.entries.set(i, (k, v));
                let ghost s1 = self.entries@;
                assert(keys_distinct(s1)) by {
                    assert forall|a: int, b: int|
                        0 <= a < s1.len() && 0 <= b < s1.len() && a != b implies
                        (#[trigger] s1[a]).0@ != (#[trigger] s1[b]).0@ by {
                        assert(s0[a].0@ != s0[b].0@);
                    }
                }
                assert forall|x: Seq<char>| has_key(s1, x) == has_key(s0, x) by {
                    if has_key(s0, x) {
                        let j = choose|j: int| 0 <= j < s0.len() && (#[trigger] s0[j]).0@ == x;
                        assert(s1[j].0@ == x);
                    }
                    if has_key(s1, x) {
                        let j = choose|j: int| 0 <= j < s1.len() && (#[trigger] s1[j]).0@ == x;
                        assert(s0[j].0@ == x);
                    }
                }
                assert forall|x: Seq<char>| #[trigger] entries_map(s1).contains_key(x) implies
                    entries_map(s1)[x] == old(self)@.insert(kv, v)[x] by {
                    let j = choose|j: int| 0 <= j < s1.len() && (#[trigger] s1[j]).0@ == x;
                    lemma_entry_in_map(s1, j);
                    if j != i {
                        lemma_entry_in_map(s0, j);
                    }
                }
                assert(self@ =~= old(self)@.insert(kv, v));
            },
            None => {
                self.entries.push((k, v));
                let ghost s1 = self.entries@;
                let ghost n = s0.len() as int;
                assert(keys_distinct(s1)) by {
                    assert forall|a: int, b: int|
                        0 <= a < s1.len() && 0 <= b < s1.len() && a != b implies
                        (#[trigger] s1[a]).0@ != (#[trigger] s1[b]).0@ by {
                        if a < n && b < n {
                            assert(s0[a].0@ != s0[b].0@);
                        } else if a < n {
                            assert(s0[a].0@ != kv);
                        } else {
                            assert(s0[b].0@ != kv);
                        }
                    }
                }
                assert forall|x: Seq<char>| has_key(s1, x) == (has_key(s0, x) || x == kv) by {
                    if has_key(s0, x) {
                        let j = choose|j: int| 0 <= j < s0.len() && (#[trigger] s0[j]).0@ == x;
                        assert(s1[j].0@ == x);
                    }
                    if x == kv {
                        assert(s1[n].0@ == x);
                    }
                    if has_key(s1, x) && x != kv {
                        let j = choose|j: int| 0 <= j < s1.len() && (#[trigger] s1[j]).0@ == x;
                        assert(s0[j].0@ == x);
                    }
                }
                assert forall|x: Seq<char>| #[trigger] entries_map(s1).contains_key(x) implies
                    entries_map(s1)[x] == old(self)@.insert(kv, v)[x] by {
                    let j = choose|j: int| 0 <= j < s1.len() && (#[trigger] s1[j]).0@ == x;
                    lemma_entry_in_map(s1, j);
                    if j != n {
                        lemma_entry_in_map(s0, j);
                    }
                }
                assert(self@ =~= old(self)@.insert(kv, v));
            },
        }
    }

    /// Drops the value held for `k`, if any.
    pub fn remove(&mut self, k: &String)
        requires
            old(self).wf(),
        ensures
            final(self).wf(),
            final(self)@ == old(self)@.remove(k@),
    {
        let ghost s0 = self.entries@;
        match self.find(k) {
            Some(i) => {
                let _ = self.entries.remove(i);
                let ghost s1 = self.entries@;
                let ghost ii = i as int;
                assert forall|a: int| 0 <= a < s1.len() implies
                    #[trigger] s1[a] == s0[if a < ii { a } else { a + 1 }] by {}
                assert(keys_distinct(s1)) by {
                    assert forall|a: int, b: int|
                        0 <= a < s1.len() && 0 <= b < s1.len() && a != b implies
                        (#[trigger] s1[a]).0@ != (#[trigger] s1[b]).0@ by {
                        let a0 = if a < ii { a } else { a + 1 };
                        let b0 = if b < ii { b } else { b + 1 };
                        assert(s0[a0].0@ != s0[b0].0@);
                    }
                }
                assert forall|x: Seq<char>| has_key(s1, x) == (has_key(s0, x) && x != k@) by {
                    if has_key(s0, x) && x != k@ {
                        let j = choose|j: int| 0 <= j < s0.len() && (#[trigger] s0[j]).0@ == x;
                        assert(j != ii);
                        let j1 = if j < ii { j } else { j - 1 };
                        assert(s1[j1].0@ == x);
                    }
                    if has_key(s1, x) {
                        let j = choose|j: int| 0 <= j < s1.len() && (#[trigger] s1[j]).0@ == x;
                        let j0 = if j < ii { j } else { j + 1 };
                        assert(s0[j0].0@ == x);
                        assert(s0[ii].0@ != s0[j0].0@);
                    }
                }
                assert forall|x: Seq<char>| #[trigger] entries_map(s1).contains_key(x) implies
                    entries_map(s1)[x] == old(self)@.remove(k@)[x] by {
                    let j = choose|j: int| 0 <= j < s1.len() && (#[trigger] s1[j]).0@ == x;
                    let j0 = if j < ii { j } else { j + 1 };
                    lemma_entry_in_map(s1, j);
                    lemma_entry_in_map(s0, j0);
                }
                assert(self@ =~= old(self)@.remove(k@));
            },
            None => {
                assert(self@ =~= old(self)@.remove(k@));
            },
        }
    }
}

} // verus!
