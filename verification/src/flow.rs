//! Flow orchestrator: the per-packet control flow. A frame is parsed and
//! bounds-checked; a tracked flow reuses its recorded backend, a new flow
//! goes through registry lookup and round-robin selection; the destination
//! is rewritten in place and the IPv4 checksum recomputed; the connection
//! table is created, refreshed, or — on a reset — cleared for the flow; and
//! every path converges on emitting one action. Every failure is fail-open:
//! at the attachment boundary it resolves to a pass-through, with the frame
//! unmodified whenever the failure came before any mutation.

use vstd::prelude::*;

use crate::packet::{
    backend_key_of, check_bounds, client_key_of, frame_ok, parse_backend_key, parse_client_key,
    parse_rst, rst_flag, TCP_FLAGS_OFF,
};
use crate::registry::BackendRegistry;
use crate::rewrite::{apply_dnat, dnat_applied};
use crate::select::{
    advance_cursor, cursor_for, cursor_of, index_valid, next_cursor, select_backend,
    selected_backend,
};
use crate::store::BoundedMap;
use crate::types::{
    Action, Backend, ConnectionRecord, PacketError, TCPState, BACKENDS_ARRAY_CAPACITY,
};

verus! {

/// The connection-table key of the frame's client tuple.
pub open spec fn client_id_of(f: Seq<u8>) -> u64 {
    client_key_of(f).id_spec()
}

/// The registry and cursor-store key of the frame's pre-NAT destination.
pub open spec fn backend_id_of(f: Seq<u8>) -> u64 {
    backend_key_of(f).id_spec()
}

/// Whether the cursor store can take a write for key `k`: an existing entry
/// is updated in place, a new one needs room.
pub open spec fn cursor_store_ok(c: Map<u64, u32>, ccap: nat, k: u64) -> bool {
    c.contains_key(k) || c.dom().len() < ccap
}

/// A tracked flow's record after a non-reset packet: same backend and
/// service key, lifecycle state refreshed and last-seen time brought up to
/// the packet's arrival.
pub open spec fn refreshed(rec: ConnectionRecord, now: u64) -> ConnectionRecord {
    ConnectionRecord {
        backend: rec.backend,
        backend_key: rec.backend_key,
        tcp_state: TCPState::Updated,
        last_seen: now,
    }
}

/// The record created for a new flow: the selected backend, the service key
/// the client targeted, a fresh lifecycle state, and the arrival time.
pub open spec fn new_record(f: Seq<u8>, b: Backend, now: u64) -> ConnectionRecord {
    ConnectionRecord {
        backend: b,
        backend_key: backend_key_of(f),
        tcp_state: TCPState::Fresh,
        last_seen: now,
    }
}

/// The exact result of handling one packet, as a function of the frame and
/// the shared state: which action comes out, and which error on exactly
/// which inputs.
pub open spec fn handle_result_spec(
    f: Seq<u8>,
    reg: BackendRegistry,
    c: Map<u64, u32>,
    ccap: nat,
    t: Map<u64, ConnectionRecord>,
    tcap: nat,
) -> Result<Action, PacketError> {
    let ck = client_id_of(f);
    let bk = backend_id_of(f);
    if !frame_ok(f) {
        Err(PacketError::OutOfBounds)
    } else if t.contains_key(ck) {
        Ok(Action::Redirect(t[ck].backend.ifindex))
    } else if !reg.contains(bk) {
        Err(PacketError::NotFound)
    } else {
        let list = reg.list_at(bk);
        let cur = cursor_of(c, bk);
        if !index_valid(cur, list.backends_len) {
            Err(PacketError::InvalidIndex)
        } else if !cursor_store_ok(c, ccap, bk) {
            Err(PacketError::MapOperationFailure)
        } else if t.dom().len() >= tcap {
            Err(PacketError::MapOperationFailure)
        } else {
            Ok(Action::Redirect(selected_backend(list, cur).ifindex))
        }
    }
}

/// How the frame, the cursor store, and the connection table after one
/// packet relate to their values before it, case by case.
pub open spec fn handle_state_post(
    f: Seq<u8>,
    reg: BackendRegistry,
    c: Map<u64, u32>,
    ccap: nat,
    t: Map<u64, ConnectionRecord>,
    tcap: nat,
    now: u64,
    f1: Seq<u8>,
    c1: Map<u64, u32>,
    t1: Map<u64, ConnectionRecord>,
) -> bool {
    let ck = client_id_of(f);
    let bk = backend_id_of(f);
    if !frame_ok(f) {
        f1 == f && c1 == c && t1 == t
    } else if t.contains_key(ck) {
        let rec = t[ck];
        &&& dnat_applied(f, f1, rec.backend)
        &&& c1 == c
        &&& t1 == (if rst_flag(f) {
            t.remove(ck)
        } else {
            t.insert(ck, refreshed(rec, now))
        })
    } else if !reg.contains(bk) {
        f1 == f && c1 == c && t1 == t
    } else {
        let list = reg.list_at(bk);
        let cur = cursor_of(c, bk);
        if !index_valid(cur, list.backends_len) {
            f1 == f && c1 == c && t1 == t
        } else if !cursor_store_ok(c, ccap, bk) {
            f1 == f && c1 == c && t1 == t
        } else {
            let b = selected_backend(list, cur);
            &&& c1 == c.insert(bk, next_cursor(cur, list.backends_len))
            &&& dnat_applied(f, f1, b)
            &&& t1 == (if t.dom().len() < tcap {
                t.insert(ck, new_record(f, b, now))
            } else {
                t
            })
        }
    }
}

/// The backend one packet resolves to, if any: a tracked flow resolves to
/// its recorded backend, a new flow to the backend under the service's
/// cursor.
pub open spec fn resolved_backend(
    f: Seq<u8>,
    reg: BackendRegistry,
    c: Map<u64, u32>,
    t: Map<u64, ConnectionRecord>,
) -> Option<Backend> {
    if !frame_ok(f) {
        None
    } else if t.contains_key(client_id_of(f)) {
        Some(t[client_id_of(f)].backend)
    } else if !reg.contains(backend_id_of(f)) {
        None
    } else {
        let list = reg.list_at(backend_id_of(f));
        let cur = cursor_of(c, backend_id_of(f));
        if index_valid(cur, list.backends_len) {
            Some(selected_backend(list, cur))
        } else {
            None
        }
    }
}

/// Stickiness law: as long as a flow is tracked, it resolves to the backend
/// recorded on its first packet, whatever the cursor store holds — cursor
/// advances caused by other flows cannot move it.
pub proof fn lemma_stickiness(
    f: Seq<u8>,
    reg: BackendRegistry,
    c1: Map<u64, u32>,
    c2: Map<u64, u32>,
    t: Map<u64, ConnectionRecord>,
)
    requires
        frame_ok(f),
        t.contains_key(client_id_of(f)),
    ensures
        resolved_backend(f, reg, c1, t) == Some(t[client_id_of(f)].backend),
        resolved_backend(f, reg, c1, t) == resolved_backend(f, reg, c2, t),
{
}

/// Round-robin step law: on a new connection that reaches selection (a
/// tracked-flow miss against a known service with a valid cursor, and a
/// cursor store that accepts the write), the handler's contract forces the
/// service's cursor to move exactly one step: from `cur` to
/// `next_cursor(cur, count)`, while the packet selects the backend under
/// `cur`. Iterating that step is `lemma_round_robin_sequence`: K such
/// connections select the indices `c, (c+1) % N, (c+2) % N, ...`.
pub proof fn lemma_round_robin_step(
    f: Seq<u8>,
    reg: BackendRegistry,
    c: Map<u64, u32>,
    ccap: nat,
    t: Map<u64, ConnectionRecord>,
    tcap: nat,
    now: u64,
    f1: Seq<u8>,
    c1: Map<u64, u32>,
    t1: Map<u64, ConnectionRecord>,
)
    requires
        handle_state_post(f, reg, c, ccap, t, tcap, now, f1, c1, t1),
        frame_ok(f),
        !t.contains_key(client_id_of(f)),
        reg.contains(backend_id_of(f)),
        index_valid(cursor_of(c, backend_id_of(f)), reg.list_at(backend_id_of(f)).backends_len),
        cursor_store_ok(c, ccap, backend_id_of(f)),
    ensures
        cursor_of(c1, backend_id_of(f)) == next_cursor(
            cursor_of(c, backend_id_of(f)),
            reg.list_at(backend_id_of(f)).backends_len,
        ),
        resolved_backend(f, reg, c, t) == Some(
            selected_backend(reg.list_at(backend_id_of(f)), cursor_of(c, backend_id_of(f))),
        ),
{
}

/// Maps the handling result to the action handed back to the network
/// stack: every failure is fail-open and resolves to a pass-through.
pub open spec fn pass_on_error(r: Result<Action, PacketError>) -> Action {
    match r {
        Ok(a) => a,
        Err(_) => Action::Pass,
    }
}

/// Redirect decision: the rewritten packet is to be forwarded out of the
/// chosen backend's egress interface. Neighbor resolution on that interface
/// is the surrounding stack's part; when it cannot resolve, the stack falls
/// back to a pass-through on its own.
pub fn redirect_decision(b: &Backend) -> (r: Action)
    ensures
        r == Action::Redirect(b.ifindex),
{
    Action::Redirect(b.ifindex)
}

/// Handles one inbound TCP packet: parses and validates the headers, finds
/// or creates the flow's connection record, rewrites the destination to the
/// chosen backend, recomputes the IPv4 checksum, tracks the flow lifecycle
/// (removing the record when the packet carries a reset), and returns the
/// redirect action, or the precise error on the inputs the contract names.
pub fn handle_tcp_ingress(
    frame: &mut Vec<u8>,
    registry: &BackendRegistry,
    cursors: &mut BoundedMap<u32>,
    conns: &mut BoundedMap<ConnectionRecord>,
    now: u64,
) -> (r: Result<Action, PacketError>)
    requires
        registry.wf(),
        old(cursors).wf(),
        old(conns).wf(),
    ensures
        final(cursors).wf(),
        final(conns).wf(),
        final(cursors).capacity() == old(cursors).capacity(),
        final(conns).capacity() == old(conns).capacity(),
        r == handle_result_spec(
            old(frame)@,
            *registry,
            old(cursors)@,
            old(cursors).capacity(),
            old(conns)@,
            old(conns).capacity(),
        ),
        handle_state_post(
            old(frame)@,
            *registry,
            old(cursors)@,
            old(cursors).capacity(),
            old(conns)@,
            old(conns).capacity(),
            now,
            final(frame)@,
            final(cursors)@,
            final(conns)@,
        ),
{
    if !check_bounds(frame) {
        return Err(PacketError::OutOfBounds);
    }
    let client_key = parse_client_key(frame);
    let ck = client_key.id();
    match conns.get(ck) {
        Some(rec) => {
            // Tracked flow: reuse the recorded backend; the cursor store is
            // not touched, so other flows' selections are unaffected.
            apply_dnat(frame, &rec.backend);
            let action = redirect_decision(&rec.backend);
            proof {
                assert(frame@[TCP_FLAGS_OFF as int] == old(frame)@[TCP_FLAGS_OFF as int]);
            }
            if parse_rst(frame) {
                // The connection is being terminated: forget the flow.
                conns.remove(ck);
            } else {
                // Lifecycle hook: refresh the tracking state and persist it.
                let updated = ConnectionRecord {
                    backend: rec.backend,
                    backend_key: rec.backend_key,
                    tcp_state: TCPState::Updated,
                    last_seen: now,
                };
                let _stored = conns.insert(ck, updated);
            }
            Ok(action)
        },
        None => {
            // New flow: look the service up; a miss is traffic this load
            // balancer does not own and must pass through untouched.
            let backend_key = parse_backend_key(frame);
            if !registry.contains_key(backend_key) {
                return Err(PacketError::NotFound);
            }
            let list = registry.list_for(backend_key);
            let cur = cursor_for(cursors, backend_key);
            // Validate the cursor against both the reported count and the
            // static capacity; a stale cursor rejects, it is never clamped.
            if !(cur < list.backends_len && (cur as usize) < BACKENDS_ARRAY_CAPACITY) {
                return Err(PacketError::InvalidIndex);
            }
            let backend = select_backend(list, cur);
            let count = list.backends_len;
            // Advance the cursor unconditionally, so one bad read never
            // stalls the rotation.
            if !advance_cursor(cursors, backend_key, cur, count) {
                return Err(PacketError::MapOperationFailure);
            }
            apply_dnat(frame, &backend);
            let action = redirect_decision(&backend);
            let record = ConnectionRecord {
                backend,
                backend_key,
                tcp_state: TCPState::Fresh,
                last_seen: now,
            };
            if !conns.insert(ck, record) {
                return Err(PacketError::MapOperationFailure);
            }
            Ok(action)
        },
    }
}

/// The attachment boundary: handles one packet and resolves every internal
/// failure fail-open to a pass-through action, leaving the frame unmodified
/// whenever the failure came before any mutation.
pub fn process_packet(
    frame: &mut Vec<u8>,
    registry: &BackendRegistry,
    cursors: &mut BoundedMap<u32>,
    conns: &mut BoundedMap<ConnectionRecord>,
    now: u64,
) -> (r: Action)
    requires
        registry.wf(),
        old(cursors).wf(),
        old(conns).wf(),
    ensures
        final(cursors).wf(),
        final(conns).wf(),
        final(cursors).capacity() == old(cursors).capacity(),
        final(conns).capacity() == old(conns).capacity(),
        r == pass_on_error(
            handle_result_spec(
                old(frame)@,
                *registry,
                old(cursors)@,
                old(cursors).capacity(),
                old(conns)@,
                old(conns).capacity(),
            ),
        ),
        handle_state_post(
            old(frame)@,
            *registry,
            old(cursors)@,
            old(cursors).capacity(),
            old(conns)@,
            old(conns).capacity(),
            now,
            final(frame)@,
            final(cursors)@,
            final(conns)@,
        ),
{
    match handle_tcp_ingress(frame, registry, cursors, conns, now) {
        Ok(action) => action,
        Err(_) => Action::Pass,
    }
}

/// A flow is idle when more than `timeout` time units have passed since its
/// last packet.
pub open spec fn is_idle(rec: ConnectionRecord, now: u64, timeout: u64) -> bool {
    now > rec.last_seen + timeout
}

/// Idle eviction: removes every connection record whose flow has been idle
/// for longer than `timeout`, and only those; surviving records are
/// unchanged. Flows that end without a reset signal are reclaimed here, so
/// the bounded table cannot silt up with dead entries.
pub fn evict_idle(conns: &mut BoundedMap<ConnectionRecord>, now: u64, timeout: u64)
    requires
        old(conns).wf(),
    ensures
        final(conns).wf(),
        final(conns).capacity() == old(conns).capacity(),
        forall|k: u64|
            #[trigger] final(conns)@.contains_key(k) <==> (old(conns)@.contains_key(k) && !is_idle(
                old(conns)@[k],
                now,
                timeout,
            )),
        forall|k: u64|
            #[trigger] final(conns)@.contains_key(k) ==> final(conns)@[k] == old(conns)@[k],
{
    let keys = conns.key_list();
    proof {
        assert forall|j: int| 0 <= j < keys@.len() implies conns@.contains_key(keys@[j]) by {
            assert(keys@.contains(keys@[j]));
        }
    }
    let mut i: usize = 0;
    while i < keys.len()
        invariant
            i <= keys@.len(),
            conns.wf(),
            conns.capacity() == old(conns).capacity(),
            forall|p: int, q: int| 0 <= p < q < keys@.len() ==> keys@[p] != keys@[q],
            forall|k: u64| old(conns)@.contains_key(k) <==> keys@.contains(k),
            forall|k: u64|
                #[trigger] conns@.contains_key(k) ==> old(conns)@.contains_key(k) && conns@[k]
                    == old(conns)@[k],
            forall|j: int|
                0 <= j < i ==> (#[trigger] conns@.contains_key(keys@[j]) <==> !is_idle(
                    old(conns)@[keys@[j]],
                    now,
                    timeout,
                )),
            forall|j: int|
                i <= j < keys@.len() ==> #[trigger] conns@.contains_key(keys@[j]),
        decreases keys@.len() - i,
    {
        let k = keys[i];
        match conns.get(k) {
            Some(rec) => {
                if now > rec.last_seen && now - rec.last_seen > timeout {
                    conns.remove(k);
                }
            },
            None => {},
        }
        i = i + 1;
    }
    proof {
        assert forall|k: u64| #[trigger] conns@.contains_key(k) implies (old(
            conns,
        )@.contains_key(k) && !is_idle(old(conns)@[k], now, timeout)) by {
            assert(keys@.contains(k));
            let j = choose|j: int| 0 <= j < keys@.len() && keys@[j] == k;
            assert(conns@.contains_key(keys@[j]) <==> !is_idle(old(conns)@[keys@[j]], now, timeout));
        }
        assert forall|k: u64| (old(conns)@.contains_key(k) && !is_idle(
            old(conns)@[k],
            now,
            timeout,
        )) implies #[trigger] conns@.contains_key(k) by {
            assert(keys@.contains(k));
            let j = choose|j: int| 0 <= j < keys@.len() && keys@[j] == k;
            assert(conns@.contains_key(keys@[j]) <==> !is_idle(old(conns)@[keys@[j]], now, timeout));
        }
    }
}

} // verus!
