//! Core data model: flow keys, backends, connection records, and the action
//! and error codes of the data path.

use vstd::prelude::*;

verus! {

/// Number of backend slots in every backend list; fixed when the data path
/// is loaded.
pub const BACKENDS_ARRAY_CAPACITY: usize = 128;

/// Identifies a flow from the client side: source address and source port
/// of the packet, in host order. Connection-table key.
#[derive(Clone, Copy, PartialEq, Eq, Structural, Debug)]
pub struct ClientKey {
    pub ip: u32,
    pub port: u32,
}

/// Identifies the virtual service a client targeted, pre-NAT: original
/// destination address and port, in host order.
#[derive(Clone, Copy, PartialEq, Eq, Structural, Debug)]
pub struct BackendKey {
    pub ip: u32,
    pub port: u32,
}

/// One concrete endpoint: destination address, destination port, and the
/// egress interface the rewritten packet leaves through.
#[derive(Clone, Copy, PartialEq, Eq, Structural, Debug)]
pub struct Backend {
    pub daddr: u32,
    pub dport: u32,
    pub ifindex: u32,
}

/// Lightweight flow lifecycle state. A record is born `Fresh`; every later
/// packet of the flow that is not a reset refreshes it to `Updated`.
#[derive(Clone, Copy, PartialEq, Eq, Structural, Debug)]
pub enum TCPState {
    Fresh,
    Updated,
}

impl Default for TCPState {
    fn default() -> (r: Self)
        ensures
            r == TCPState::Fresh,
    {
        TCPState::Fresh
    }
}

/// Per-flow record: the backend chosen on the flow's first packet, the
/// service key it targeted, the tracking state, and the time the flow was
/// last seen. Keyed by `ClientKey`. The timestamp feeds idle eviction: a
/// flow that ends without a reset would otherwise occupy its slot forever.
#[derive(Clone, Copy, PartialEq, Eq, Structural, Debug)]
pub struct ConnectionRecord {
    pub backend: Backend,
    pub backend_key: BackendKey,
    pub tcp_state: TCPState,
    pub last_seen: u64,
}

/// Final disposition of one packet: hand it back to normal processing, or
/// forward it out of the given interface.
#[derive(Clone, Copy, PartialEq, Eq, Structural, Debug)]
pub enum Action {
    Pass,
    Redirect(u32),
}

/// Why a packet could not be load-balanced. Every error resolves to the
/// fail-open `Action::Pass` at the boundary.
#[derive(Clone, Copy, PartialEq, Eq, Structural, Debug)]
pub enum PacketError {
    /// A required header would reach past the end of the frame.
    OutOfBounds,
    /// The destination is not a service this load balancer owns.
    NotFound,
    /// The round-robin cursor is stale: at or past the backend count or the
    /// static capacity.
    InvalidIndex,
    /// An insert on a shared store failed (capacity exhaustion).
    MapOperationFailure,
}

/// Packs an (address, port) pair into a single 64-bit store key.
pub open spec fn key_id_spec(ip: u32, port: u32) -> u64 {
    (ip * 0x1_0000_0000 + port) as u64
}

/// Distinct (address, port) pairs always get distinct store keys.
pub proof fn lemma_key_id_injective(ip1: u32, port1: u32, ip2: u32, port2: u32)
    requires
        key_id_spec(ip1, port1) == key_id_spec(ip2, port2),
    ensures
        ip1 == ip2,
        port1 == port2,
{
    assert(ip1 * 0x1_0000_0000 + port1 <= 0xFFFF_FFFF_FFFF_FFFF) by (nonlinear_arith)
        requires ip1 <= 0xFFFF_FFFFu32 && port1 <= 0xFFFF_FFFFu32;
    assert(ip2 * 0x1_0000_0000 + port2 <= 0xFFFF_FFFF_FFFF_FFFF) by (nonlinear_arith)
        requires ip2 <= 0xFFFF_FFFFu32 && port2 <= 0xFFFF_FFFFu32;
    assert(ip1 == ip2 && port1 == port2) by (nonlinear_arith)
        requires
            ip1 * 0x1_0000_0000 + port1 == ip2 * 0x1_0000_0000 + port2,
            port1 < 0x1_0000_0000,
            port2 < 0x1_0000_0000;
}

impl ClientKey {
    /// The 64-bit store key of this client tuple.
    pub open spec fn id_spec(self) -> u64 {
        key_id_spec(self.ip, self.port)
    }

    pub fn id(self) -> (r: u64)
        ensures
            r == self.id_spec(),
    {
        (self.ip as u64) * 0x1_0000_0000u64 + (self.port as u64)
    }
}

impl BackendKey {
    /// The 64-bit store key of this service tuple.
    pub open spec fn id_spec(self) -> u64 {
        key_id_spec(self.ip, self.port)
    }

    pub fn id(self) -> (r: u64)
        ensures
            r == self.id_spec(),
    {
        (self.ip as u64) * 0x1_0000_0000u64 + (self.port as u64)
    }
}

} // verus!
