//! A per-packet, stateful TCP load-balancing data path: it parses the
//! Ethernet/IPv4/TCP headers of an inbound frame, picks a backend endpoint for
//! each new flow by round-robin selection, rewrites the destination address and
//! port in place (DNAT), recomputes the IPv4 header checksum, keeps flows
//! sticky to their chosen backend, and emits a redirect or pass-through action.

pub mod checksum;
pub mod flow;
pub mod packet;
pub mod registry;
pub mod rewrite;
pub mod select;
pub mod store;
pub mod types;
