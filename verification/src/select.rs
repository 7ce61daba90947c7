//! Round-robin selector: a per-service cursor walks the service's backend
//! list; every new connection takes the backend under the cursor and then
//! advances it by one, wrapping at the backend count. The cursor defaults
//! to zero for a service that has none stored yet, and a stale cursor (at
//! or past the count, or past the static capacity) rejects the packet
//! instead of being clamped.

use vstd::prelude::*;

use vstd::arithmetic::div_mod::{
    lemma_fundamental_div_mod, lemma_mod_bound, lemma_mod_multiples_vanish, lemma_mod_self_0,
    lemma_small_mod,
};

use crate::registry::BackendList;
use crate::store::BoundedMap;
use crate::types::{Backend, BackendKey, BACKENDS_ARRAY_CAPACITY};

verus! {

/// The cursor stored for key `k`, defaulting to zero when none is stored.
pub open spec fn cursor_of(c: Map<u64, u32>, k: u64) -> u32 {
    if c.contains_key(k) {
        c[k]
    } else {
        0
    }
}

/// A cursor is usable only below both the reported backend count and the
/// static capacity of the backend array.
pub open spec fn index_valid(cur: u32, count: u32) -> bool {
    cur < count && (cur as int) < BACKENDS_ARRAY_CAPACITY
}

/// The backend a valid cursor selects: the slot under the cursor, with the
/// first slot as the fallback if the slot were ever out of the physical
/// array (a control-plane race; with a full-capacity array it cannot be).
pub open spec fn selected_backend(list: BackendList, cur: u32) -> Backend {
    if (cur as int) < list.backends@.len() {
        list.backends@[cur as int]
    } else {
        list.backends@[0]
    }
}

/// The cursor stored after a selection: one past the cursor used, wrapped
/// to zero at the backend count.
pub open spec fn next_cursor(cur: u32, count: u32) -> u32 {
    if cur + 1 >= count {
        0
    } else {
        (cur + 1) as u32
    }
}

/// The cursor after `k` consecutive selections for the same service.
pub open spec fn cursor_after(c: u32, count: u32, k: nat) -> u32
    decreases k,
{
    if k == 0 {
        c
    } else {
        next_cursor(cursor_after(c, count, (k - 1) as nat), count)
    }
}

/// Round-robin sequence law: starting from any valid cursor `c`, the
/// cursor before the `k`-th of `k` consecutive new connections to one
/// service — and so the index that connection selects — is `(c + k)`
/// modulo the backend count.
pub proof fn lemma_round_robin_sequence(c: u32, count: u32, k: nat)
    requires
        c < count,
    ensures
        cursor_after(c, count, k) == (c + k) % (count as int),
    decreases k,
{
    let n = count as int;
    if k == 0 {
        lemma_small_mod(c as nat, count as nat);
    } else {
        lemma_round_robin_sequence(c, count, (k - 1) as nat);
        let x = c + k - 1;
        let p = x % n;
        lemma_fundamental_div_mod(x, n);
        lemma_mod_bound(x, n);
        let q = x / n;
        assert(x + 1 == n * q + (p + 1));
        lemma_mod_multiples_vanish(q, p + 1, n);
        assert((c + k) % n == (p + 1) % n);
        if p + 1 >= count {
            assert(p + 1 == n);
            lemma_mod_self_0(n);
        } else {
            lemma_small_mod((p + 1) as nat, count as nat);
        }
    }
}

/// Reads the cursor for a service, defaulting to zero if none is stored.
pub fn cursor_for(cursors: &BoundedMap<u32>, key: BackendKey) -> (r: u32)
    requires
        cursors.wf(),
    ensures
        r == cursor_of(cursors@, key.id_spec()),
{
    match cursors.get(key.id()) {
        Some(cur) => cur,
        None => 0,
    }
}

/// Selects the backend a valid cursor points at, falling back to the first
/// slot if the cursor were outside the physical array.
pub fn select_backend(list: &BackendList, cur: u32) -> (r: Backend)
    requires
        list.wf(),
        index_valid(cur, list.backends_len),
    ensures
        r == selected_backend(*list, cur),
{
    if (cur as usize) < list.backends.len() {
        list.backends[cur as usize]
    } else {
        list.backends[0]
    }
}

/// Advances the cursor of a service past a just-used valid cursor, wrapping
/// at the backend count; the new value is stored unconditionally. Returns
/// whether the store accepted the write.
pub fn advance_cursor(cursors: &mut BoundedMap<u32>, key: BackendKey, cur: u32, count: u32) -> (r:
    bool)
    requires
        old(cursors).wf(),
        cur < count,
    ensures
        final(cursors).wf(),
        final(cursors).capacity() == old(cursors).capacity(),
        r == (old(cursors)@.contains_key(key.id_spec()) || old(cursors)@.dom().len() < old(
            cursors,
        ).capacity()),
        r ==> final(cursors)@ == old(cursors)@.insert(key.id_spec(), next_cursor(cur, count)),
        !r ==> final(cursors)@ == old(cursors)@,
{
    let mut next: u32 = cur + 1;
    if next >= count {
        next = 0;
    }
    cursors.insert(key.id(), next)
}

} // verus!
