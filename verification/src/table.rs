//! A small keyed store: the storage maps of the pallet are kept in it.

use vstd::prelude::*;

verus! {

/// Keys of a [`Table`]: values whose executable equality is their spec equality.
pub trait TableKey: Sized {
    fn same_key(&self, other: &Self) -> (same: bool)
        ensures
            same == (*self == *other),
    ;
}

impl TableKey for u64 {
    fn same_key(&self, other: &Self) -> (same: bool) {
        *self == *other
    }
}

impl TableKey for (u64, u64) {
    fn same_key(&self, other: &Self) -> (same: bool) {
        self.0 == other.0 && self.1 == other.1
    }
}

impl TableKey for [u8; 32] {
    fn same_key(&self, other: &Self) -> (same: bool) {
        let mut i: usize = 0;
        while i < 32
            invariant
                0 <= i <= 32,
                forall|j: int| 0 <= j < i ==> self[j] == other[j],
            decreases 32 - i,
        {
            if self[i] != other[i] {
                return false;
            }
            i = i + 1;
        }
        proof {
            broadcast use vstd::array::group_array_axioms;

            assert(*self =~= *other);
        }
        true
    }
}

/// A finite map kept as a vector of entries with pairwise distinct keys.
pub struct Table<K, V> {
    entries: Vec<(K, V)>,
}

impl<K, V> Table<K, V> {
    /// Well-formedness: no key occurs twice.
    pub closed spec fn wf(self) -> bool {
        forall|i: int, j: int|
            0 <= i < j < self.entries@.len() ==> self.entries@[i].0 != self.entries@[j].0
    }

    closed spec fn key_at(self, k: K, i: int) -> bool {
        0 <= i < self.entries@.len() && self.entries@[i].0 == k
    }
}

impl<K, V> View for Table<K, V> {
    type V = Map<K, V>;

    closed spec fn view(&self) -> Map<K, V> {
        Map::new(
            |k: K| exists|i: int| self.key_at(k, i),
            |k: K| self.entries@[choose|i: int| self.key_at(k, i)].1,
        )
    }
}

impl<K: TableKey, V> Table<K, V> {
    proof fn lemma_entry(self, i: int)
        requires
            self.wf(),
            0 <= i < self.entries@.len(),
        ensures
            self@.contains_key(self.entries@[i].0),
            self@[self.entries@[i].0] == self.entries@[i].1,
    {
        let k = self.entries@[i].0;
        assert(self.key_at(k, i));
        let c = choose|c: int| self.key_at(k, c);
        assert(c == i);
    }

    /// An empty table.
    pub fn new() -> (t: Self)
        ensures
            t.wf(),
            t@ == Map::<K, V>::empty(),
    {
        let t = Table { entries: Vec::new() };
        assert(t@ =~= Map::<K, V>::empty());
        t
    }

    fn find(&self, k: &K) -> (r: Option<usize>)
        requires
            self.wf(),
        ensures
            match r {
                Some(i) => self.key_at(*k, i as int),
                None => !self@.contains_key(*k),
            },
    {
        let n = self.entries.len();
        let mut i: usize = 0;
        while i < n
            invariant
                n == self.entries@.len(),
                0 <= i <= n,
                forall|j: int| 0 <= j < i ==> self.entries@[j].0 != *k,
            decreases n - i,
        {
            if self.entries[i].0.same_key(k) {
                return Some(i);
            }
            i = i + 1;
        }
        None
    }

    /// The value stored under `k`, if any.
    pub fn get(&self, k: &K) -> (r: Option<&V>)
        requires
            self.wf(),
        ensures
            match r {
                Some(v) => self@.contains_key(*k) && *v == self@[*k],
                None => !self@.contains_key(*k),
            },
    {
        match self.find(k) {
            Some(i) => {
                proof {
                    self.lemma_entry(i as int);
                }
                Some(&self.entries[i].1)
            },
            None => None,
        }
    }

    /// Removes the entry under `k` and hands its value back.
    pub fn take(&mut self, k: &K) -> (r: Option<V>)
        requires
            old(self).wf(),
        ensures
            final(self).wf(),
            final(self)@ == old(self)@.remove(*k),
            match r {
                Some(v) => old(self)@.contains_key(*k) && v == old(self)@[*k],
                None => !old(self)@.contains_key(*k),
            },
    {
        match self.find(k) {
            None => {
                assert(self@ =~= self@.remove(*k));
                None
            },
            Some(i) => {
                let ghost before = *self;
                proof {
                    before.lemma_entry(i as int);
                }
                let (_, v) = self.entries.swap_remove(i);
                proof {
                    let old_e = before.entries@;
                    let new_e = self.entries@;
                    assert forall|a: int, b: int| 0 <= a < b < new_e.len() implies new_e[a].0
                        != new_e[b].0 by {
                        let oa = if a == i && i < old_e.len() - 1 { old_e.len() - 1 } else { a };
                        let ob = if b == i && i < old_e.len() - 1 { old_e.len() - 1 } else { b };
                        assert(new_e[a] == old_e[oa]);
                        assert(new_e[b] == old_e[ob]);
                    }
                    assert forall|kk: K| #[trigger] self@.contains_key(kk) == before@.remove(
                        *k,
                    ).contains_key(kk) by {
                        if self@.contains_key(kk) {
                            let j = choose|j: int| self.key_at(kk, j);
                            let oj = if j == i && i < old_e.len() - 1 { old_e.len() - 1 } else { j };
                            assert(new_e[j] == old_e[oj]);
                            assert(before.key_at(kk, oj));
                        }
                        if before@.remove(*k).contains_key(kk) {
                            let oj = choose|oj: int| before.key_at(kk, oj);
                            assert(oj != i);
                            let j = if oj == old_e.len() - 1 { i as int } else { oj };
                            assert(new_e[j] == old_e[oj]);
                            assert(self.key_at(kk, j));
                        }
                    }
                    assert forall|kk: K| #[trigger] self@.contains_key(kk) implies self@[kk]
                        == before@[kk] by {
                        let j = choose|j: int| self.key_at(kk, j);
                        let oj = if j == i && i < old_e.len() - 1 { old_e.len() - 1 } else { j };
                        assert(new_e[j] == old_e[oj]);
                        self.lemma_entry(j);
                        before.lemma_entry(oj);
                    }
                    assert(self@ =~= before@.remove(*k));
                }
                Some(v)
            },
        }
    }

    /// Stores `v` under `k`, replacing what was there.
    pub fn insert(&mut self, k: K, v: V)
        requires
            old(self).wf(),
        ensures
            final(self).wf(),
            final(self)@ == old(self)@.insert(k, v),
    {
        let _ = self.take(&k);
        let ghost mid = *self;
        self.entries.push((k, v));
        proof {
            let n = mid.entries@.len();
            assert(!mid@.contains_key(k));
            assert forall|j: int| 0 <= j < n implies mid.entries@[j].0 != k by {
                if mid.entries@[j].0 == k {
                    assert(mid.key_at(k, j));
                }
            }
            assert(self.wf());
            assert forall|kk: K| #[trigger] self@.contains_key(kk) == mid@.insert(
                k,
                v,
            ).contains_key(kk) by {
                if mid@.contains_key(kk) {
                    let j = choose|j: int| mid.key_at(kk, j);
                    assert(self.key_at(kk, j));
                }
                if kk == k {
                    assert(self.key_at(kk, n as int));
                }
                if self@.contains_key(kk) && kk != k {
                    let j = choose|j: int| self.key_at(kk, j);
                    assert(mid.key_at(kk, j));
                }
            }
            assert forall|kk: K| #[trigger] self@.contains_key(kk) implies self@[kk] == mid@.insert(
                k,
                v,
            )[kk] by {
                let j = choose|j: int| self.key_at(kk, j);
                self.lemma_entry(j);
                if j < n {
                    mid.lemma_entry(j);
                }
            }
            assert(self@ =~= mid@.insert(k, v));
        }
    }
}

} // verus!
