//! Backend registry: the read-only (from the data path's perspective)
//! mapping from a service identity to its ordered backend list. It is
//! populated by an external control plane; the data path only looks keys up.

use vstd::prelude::*;

use crate::store::BoundedMap;
use crate::types::{Backend, BackendKey, BACKENDS_ARRAY_CAPACITY};

verus! {

/// An ordered backend list of fixed physical capacity, together with the
/// count of slots the control plane reports as populated. The count is
/// control-plane data and is validated, never trusted, by the selector.
pub struct BackendList {
    pub backends: Vec<Backend>,
    pub backends_len: u32,
}

impl BackendList {
    /// The physical array always holds exactly the static capacity, as a
    /// load-time fixed-size array does; unused slots hold a zero backend.
    pub open spec fn wf(self) -> bool {
        self.backends@.len() == BACKENDS_ARRAY_CAPACITY
    }

    /// Builds a list from the populated backends, padding the remaining
    /// slots with a zero backend.
    pub fn from_backends(v: Vec<Backend>) -> (r: Self)
        requires
            v@.len() <= BACKENDS_ARRAY_CAPACITY,
        ensures
            r.wf(),
            r.backends_len == v@.len(),
            forall|i: int| 0 <= i < v@.len() ==> r.backends@[i] == v@[i],
    {
        let count = v.len();
        let mut backends = v;
        let ghost orig = backends@;
        while backends.len() < BACKENDS_ARRAY_CAPACITY
            invariant
                count == orig.len(),
                count <= backends@.len() <= BACKENDS_ARRAY_CAPACITY,
                forall|i: int| 0 <= i < count ==> backends@[i] == orig[i],
            decreases BACKENDS_ARRAY_CAPACITY - backends@.len(),
        {
            backends.push(Backend { daddr: 0, dport: 0, ifindex: 0 });
        }
        BackendList { backends, backends_len: count as u32 }
    }
}

/// The registry itself: service keys resolve, through a bounded index, to
/// backend lists.
pub struct BackendRegistry {
    index: BoundedMap<usize>,
    lists: Vec<BackendList>,
}

impl BackendRegistry {
    pub closed spec fn wf(self) -> bool {
        &&& self.index.wf()
        &&& forall|k: u64|
            self.index@.contains_key(k) ==> #[trigger] self.index@[k] < self.lists@.len()
        &&& forall|i: int| 0 <= i < self.lists@.len() ==> (#[trigger] self.lists@[i]).wf()
    }

    /// Whether the registry owns the service with this 64-bit key.
    pub closed spec fn contains(self, k: u64) -> bool {
        self.index@.contains_key(k)
    }

    /// The backend list registered for key `k`.
    pub closed spec fn list_at(self, k: u64) -> BackendList {
        self.lists@[self.index@[k] as int]
    }

    /// An empty registry with room for `cap` services.
    pub fn new(cap: usize) -> (r: Self)
        ensures
            r.wf(),
            forall|k: u64| !r.contains(k),
    {
        BackendRegistry { index: BoundedMap::new(cap), lists: Vec::new() }
    }

    /// Control-plane write: registers (or replaces) the backend list of a
    /// service. Returns whether the write found room.
    pub fn register(&mut self, key: BackendKey, list: BackendList) -> (r: bool)
        requires
            old(self).wf(),
            list.wf(),
        ensures
            final(self).wf(),
            r ==> final(self).contains(key.id_spec()) && final(self).list_at(key.id_spec())
                == list,
            r ==> forall|k: u64|
                k != key.id_spec() ==> #[trigger] final(self).contains(k) == old(self).contains(k),
            r ==> forall|k: u64|
                k != key.id_spec() && old(self).contains(k) ==> #[trigger] final(self).list_at(k)
                    == old(self).list_at(k),
            !r ==> forall|k: u64|
                #[trigger] final(self).contains(k) == old(self).contains(k) && (old(self).contains(
                    k,
                ) ==> final(self).list_at(k) == old(self).list_at(k)),
    {
        let slot = self.lists.len();
        self.lists.push(list);
        let stored = self.index.insert(key.id(), slot);
        stored
    }

    /// `lookup` hit test: whether this destination is one the load balancer
    /// owns. A miss means the traffic is passed through unmodified.
    pub fn contains_key(&self, key: BackendKey) -> (r: bool)
        requires
            self.wf(),
        ensures
            r == self.contains(key.id_spec()),
    {
        self.index.get(key.id()).is_some()
    }

    /// Resolves a known service key to its backend list.
    pub fn list_for(&self, key: BackendKey) -> (r: &BackendList)
        requires
            self.wf(),
            self.contains(key.id_spec()),
        ensures
            *r == self.list_at(key.id_spec()),
            r.wf(),
    {
        match self.index.get(key.id()) {
            Some(i) => &self.lists[i],
            None => vstd::pervasive::unreached(),
        }
    }
}

} // verus!
