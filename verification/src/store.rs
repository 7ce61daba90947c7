//! Fixed-capacity key-value store with 64-bit keys, the shape of the shared
//! maps this data path mutates: the round-robin cursor store and the
//! connection table. Capacity is fixed at construction; an insert of a new
//! key into a full store fails, and the caller treats that as a map
//! operation failure for the packet at hand.

use vstd::prelude::*;

verus! {

pub struct BoundedMap<V: Copy> {
    keys: Vec<u64>,
    vals: Vec<V>,
    cap: usize,
}

impl<V: Copy> View for BoundedMap<V> {
    type V = Map<u64, V>;

    closed spec fn view(&self) -> Map<u64, V> {
        BoundedMap::<V>::map_of(self.keys@, self.vals@)
    }
}

impl<V: Copy> BoundedMap<V> {
    /// The mathematical map held by parallel key and value sequences.
    pub open spec fn map_of(keys: Seq<u64>, vals: Seq<V>) -> Map<u64, V>
        decreases keys.len(),
    {
        if keys.len() == 0 {
            Map::empty()
        } else {
            Self::map_of(keys.drop_last(), vals.drop_last()).insert(keys.last(), vals.last())
        }
    }

    /// Well-formed: parallel sequences of equal length within capacity, and
    /// no key stored twice.
    pub closed spec fn wf(self) -> bool {
        &&& self.keys@.len() == self.vals@.len()
        &&& self.keys@.len() <= self.cap
        &&& forall|p: int, q: int|
            0 <= p < q < self.keys@.len() ==> self.keys@[p] != self.keys@[q]
    }

    /// The capacity the store was created with.
    pub closed spec fn capacity(self) -> nat {
        self.cap as nat
    }

    proof fn lemma_map_of_contains(keys: Seq<u64>, vals: Seq<V>, k: u64)
        requires
            keys.len() == vals.len(),
        ensures
            Self::map_of(keys, vals).contains_key(k) <==> exists|i: int|
                0 <= i < keys.len() && keys[i] == k,
        decreases keys.len(),
    {
        if keys.len() > 0 {
            let ks = keys.drop_last();
            let vs = vals.drop_last();
            Self::lemma_map_of_contains(ks, vs, k);
            if keys.last() == k {
                assert(keys[keys.len() - 1] == k);
            } else {
                if Self::map_of(keys, vals).contains_key(k) {
                    let i = choose|i: int| 0 <= i < ks.len() && ks[i] == k;
                    assert(keys[i] == k);
                }
                if exists|i: int| 0 <= i < keys.len() && keys[i] == k {
                    let i = choose|i: int| 0 <= i < keys.len() && keys[i] == k;
                    assert(ks[i] == k);
                }
            }
        }
    }

    proof fn lemma_map_of_index(keys: Seq<u64>, vals: Seq<V>, i: int)
        requires
            keys.len() == vals.len(),
            0 <= i < keys.len(),
            forall|p: int, q: int| 0 <= p < q < keys.len() ==> keys[p] != keys[q],
        ensures
            Self::map_of(keys, vals).contains_key(keys[i]),
            Self::map_of(keys, vals)[keys[i]] == vals[i],
        decreases keys.len(),
    {
        let ks = keys.drop_last();
        let vs = vals.drop_last();
        if i < keys.len() - 1 {
            assert(keys[i] != keys[keys.len() - 1]);
            Self::lemma_map_of_index(ks, vs, i);
        }
    }

    proof fn lemma_map_of_len(keys: Seq<u64>, vals: Seq<V>)
        requires
            keys.len() == vals.len(),
            forall|p: int, q: int| 0 <= p < q < keys.len() ==> keys[p] != keys[q],
        ensures
            Self::map_of(keys, vals).dom().finite(),
            Self::map_of(keys, vals).dom().len() == keys.len(),
        decreases keys.len(),
    {
        if keys.len() > 0 {
            let ks = keys.drop_last();
            let vs = vals.drop_last();
            Self::lemma_map_of_len(ks, vs);
            Self::lemma_map_of_contains(ks, vs, keys.last());
            assert forall|i: int| 0 <= i < ks.len() implies ks[i] != keys.last() by {
                assert(keys[i] != keys[keys.len() - 1]);
            }
            assert(!Self::map_of(ks, vs).contains_key(keys.last()));
        }
    }

    proof fn lemma_map_of_update(keys: Seq<u64>, vals: Seq<V>, i: int, v: V)
        requires
            keys.len() == vals.len(),
            0 <= i < keys.len(),
            forall|p: int, q: int| 0 <= p < q < keys.len() ==> keys[p] != keys[q],
        ensures
            Self::map_of(keys, vals.update(i, v)) == Self::map_of(keys, vals).insert(keys[i], v),
        decreases keys.len(),
    {
        let ks = keys.drop_last();
        let vs = vals.drop_last();
        let n = keys.len() - 1;
        if i == n {
            assert(vals.update(i, v).drop_last() =~= vs);
            assert(vals.update(i, v).last() == v);
            assert(Self::map_of(keys, vals.update(i, v)) =~= Self::map_of(keys, vals).insert(
                keys[i],
                v,
            ));
        } else {
            assert(keys[i] != keys[n]);
            Self::lemma_map_of_update(ks, vs, i, v);
            assert(vals.update(i, v).drop_last() =~= vs.update(i, v));
            assert(vals.update(i, v).last() == vals.last());
            assert(Self::map_of(keys, vals.update(i, v)) == Self::map_of(ks, vs.update(i, v)).insert(
                keys.last(),
                vals.last(),
            ));
            assert(Self::map_of(ks, vs.update(i, v)) == Self::map_of(ks, vs).insert(keys[i], v));
            assert(Self::map_of(ks, vs).insert(keys[i], v).insert(keys.last(), vals.last())
                =~= Self::map_of(ks, vs).insert(keys.last(), vals.last()).insert(keys[i], v));
        }
    }

    proof fn lemma_map_of_remove(keys: Seq<u64>, vals: Seq<V>, i: int)
        requires
            keys.len() == vals.len(),
            0 <= i < keys.len(),
            forall|p: int, q: int| 0 <= p < q < keys.len() ==> keys[p] != keys[q],
        ensures
            Self::map_of(keys.remove(i), vals.remove(i)) == Self::map_of(keys, vals).remove(
                keys[i],
            ),
        decreases keys.len(),
    {
        let ks = keys.drop_last();
        let vs = vals.drop_last();
        let n = keys.len() - 1;
        if i == n {
            assert(keys.remove(i) =~= ks);
            assert(vals.remove(i) =~= vs);
            Self::lemma_map_of_contains(ks, vs, keys[i]);
            assert forall|j: int| 0 <= j < ks.len() implies ks[j] != keys[i] by {
                assert(keys[j] != keys[n]);
            }
            assert(!Self::map_of(ks, vs).contains_key(keys[i]));
            assert(Self::map_of(ks, vs).insert(keys[i], vals[i]).remove(keys[i]) =~= Self::map_of(
                ks,
                vs,
            ));
        } else {
            assert(keys[i] != keys[n]);
            Self::lemma_map_of_remove(ks, vs, i);
            assert(keys.remove(i).drop_last() =~= ks.remove(i));
            assert(vals.remove(i).drop_last() =~= vs.remove(i));
            assert(keys.remove(i).last() == keys.last());
            assert(vals.remove(i).last() == vals.last());
            assert(Self::map_of(keys.remove(i), vals.remove(i)) == Self::map_of(
                ks.remove(i),
                vs.remove(i),
            ).insert(keys.last(), vals.last()));
            assert(Self::map_of(ks, vs).remove(keys[i]).insert(keys.last(), vals.last())
                =~= Self::map_of(ks, vs).insert(keys.last(), vals.last()).remove(keys[i]));
        }
    }

    /// The store never holds more entries than its capacity.
    pub proof fn lemma_size(self)
        requires
            self.wf(),
        ensures
            self@.dom().finite(),
            self@.dom().len() <= self.capacity(),
    {
        Self::lemma_map_of_len(self.keys@, self.vals@);
    }

    /// An empty store with room for `cap` entries.
    pub fn new(cap: usize) -> (r: Self)
        ensures
            r.wf(),
            r@ == Map::<u64, V>::empty(),
            r.capacity() == cap as nat,
    {
        BoundedMap { keys: Vec::new(), vals: Vec::new(), cap }
    }

    fn find(&self, k: u64) -> (r: Option<usize>)
        ensures
            match r {
                Some(i) => i < self.keys@.len() && self.keys@[i as int] == k,
                None => forall|i: int| 0 <= i < self.keys@.len() ==> self.keys@[i] != k,
            },
    {
        let mut i: usize = 0;
        while i < self.keys.len()
            invariant
                i <= self.keys@.len(),
                forall|j: int| 0 <= j < i ==> self.keys@[j] != k,
            decreases self.keys@.len() - i,
        {
            if self.keys[i] == k {
                return Some(i);
            }
            i = i + 1;
        }
        None
    }

    /// Per-key atomic lookup.
    pub fn get(&self, k: u64) -> (r: Option<V>)
        requires
            self.wf(),
        ensures
            match r {
                Some(v) => self@.contains_key(k) && v == self@[k],
                None => !self@.contains_key(k),
            },
    {
        match self.find(k) {
            Some(i) => {
                proof {
                    Self::lemma_map_of_index(self.keys@, self.vals@, i as int);
                }
                Some(self.vals[i])
            },
            None => {
                proof {
                    Self::lemma_map_of_contains(self.keys@, self.vals@, k);
                }
                None
            },
        }
    }

    /// Per-key atomic upsert. Returns whether the value was stored: an
    /// existing key is always updated in place; a new key is added only
    /// while the store is below capacity.
    pub fn insert(&mut self, k: u64, v: V) -> (r: bool)
        requires
            old(self).wf(),
        ensures
            final(self).wf(),
            final(self).capacity() == old(self).capacity(),
            r == (old(self)@.contains_key(k) || old(self)@.dom().len() < old(self).capacity()),
            r ==> final(self)@ == old(self)@.insert(k, v),
            !r ==> final(self)@ == old(self)@,
    {
        proof {
            Self::lemma_map_of_contains(self.keys@, self.vals@, k);
            Self::lemma_map_of_len(self.keys@, self.vals@);
        }
        match self.find(k) {
            Some(i) => {
                proof {
                    Self::lemma_map_of_index(self.keys@, self.vals@, i as int);
                    Self::lemma_map_of_update(self.keys@, self.vals@, i as int, v);
                }
                self.vals.set(i, v);
                true
            },
            None => {
                if self.keys.len() < self.cap {
                    self.keys.push(k);
                    self.vals.push(v);
                    proof {
                        assert(self.keys@.drop_last() =~= old(self).keys@);
                        assert(self.vals@.drop_last() =~= old(self).vals@);
                    }
                    true
                } else {
                    false
                }
            },
        }
    }

    /// Per-key atomic delete; deleting an absent key is not an error.
    pub fn remove(&mut self, k: u64)
        requires
            old(self).wf(),
        ensures
            final(self).wf(),
            final(self).capacity() == old(self).capacity(),
            final(self)@ == old(self)@.remove(k),
    {
        proof {
            Self::lemma_map_of_contains(self.keys@, self.vals@, k);
        }
        match self.find(k) {
            Some(i) => {
                proof {
                    Self::lemma_map_of_remove(self.keys@, self.vals@, i as int);
                }
                self.keys.remove(i);
                self.vals.remove(i);
                proof {
                    assert forall|p: int, q: int|
                        0 <= p < q < self.keys@.len() implies self.keys@[p] != self.keys@[q] by {
                        if q < i {
                            assert(old(self).keys@[p] != old(self).keys@[q]);
                        } else if p < i {
                            assert(old(self).keys@[p] != old(self).keys@[q + 1]);
                        } else {
                            assert(old(self).keys@[p + 1] != old(self).keys@[q + 1]);
                        }
                    }
                }
            },
            None => {
                proof {
                    assert(Self::map_of(self.keys@, self.vals@).remove(k) =~= Self::map_of(
                        self.keys@,
                        self.vals@,
                    ));
                }
            },
        }
    }

    /// The stored keys, each exactly once: a snapshot for callers that
    /// sweep the store.
    pub fn key_list(&self) -> (r: Vec<u64>)
        requires
            self.wf(),
        ensures
            forall|p: int, q: int| 0 <= p < q < r@.len() ==> r@[p] != r@[q],
            forall|k: u64| self@.contains_key(k) <==> r@.contains(k),
    {
        let mut r: Vec<u64> = Vec::new();
        let mut i: usize = 0;
        while i < self.keys.len()
            invariant
                i <= self.keys@.len(),
                r@ == self.keys@.take(i as int),
            decreases self.keys@.len() - i,
        {
            r.push(self.keys[i]);
            proof {
                assert(r@ =~= self.keys@.take(i + 1));
            }
            i = i + 1;
        }
        proof {
            assert(r@ =~= self.keys@);
            assert forall|k: u64| self@.contains_key(k) <==> r@.contains(k) by {
                Self::lemma_map_of_contains(self.keys@, self.vals@, k);
            }
        }
        r
    }

    /// Number of entries currently stored.
    pub fn len(&self) -> (r: usize)
        requires
            self.wf(),
        ensures
            r == self@.dom().len(),
    {
        proof {
            Self::lemma_map_of_len(self.keys@, self.vals@);
        }
        self.keys.len()
    }
}

} // verus!
