//! Bounds-checked, byte-order-aware access to the Ethernet/IPv4/TCP headers
//! of a raw frame. The link-layer header has a fixed length and the IPv4
//! header is taken at its minimum length (no IP options), so every field
//! lives at a fixed offset; every access is validated against the frame
//! length first. All multi-byte fields on the wire are big-endian.

use vstd::prelude::*;

use crate::types::{BackendKey, ClientKey};

verus! {

/// Length of the link-layer (Ethernet) header.
pub const ETH_HDR_LEN: usize = 14;

/// Length of the IPv4 header without options.
pub const IPV4_HDR_LEN: usize = 20;

/// Length of the TCP header without options.
pub const TCP_HDR_LEN: usize = 20;

/// The least frame length that holds all three headers.
pub const MIN_FRAME_LEN: usize = ETH_HDR_LEN + IPV4_HDR_LEN + TCP_HDR_LEN;

/// Offset of the IPv4 header checksum field.
pub const IP_CHECK_OFF: usize = 24;

/// Offset of the IPv4 source address.
pub const IP_SRC_OFF: usize = 26;

/// Offset of the IPv4 destination address.
pub const IP_DST_OFF: usize = 30;

/// Offset of the TCP source port.
pub const TCP_SRC_OFF: usize = 34;

/// Offset of the TCP destination port.
pub const TCP_DST_OFF: usize = 36;

/// Offset of the TCP flags byte.
pub const TCP_FLAGS_OFF: usize = 47;

/// The frame is long enough for the combined link, network, and transport
/// headers; everything shorter is rejected before any access.
pub open spec fn frame_ok(f: Seq<u8>) -> bool {
    f.len() >= MIN_FRAME_LEN
}

/// The big-endian 16-bit value stored at byte offset `off`.
pub open spec fn be16(f: Seq<u8>, off: int) -> int {
    f[off] * 0x100 + f[off + 1]
}

/// The big-endian 32-bit value stored at byte offset `off`.
pub open spec fn be32(f: Seq<u8>, off: int) -> int {
    f[off] * 0x100_0000 + f[off + 1] * 0x1_0000 + f[off + 2] * 0x100 + f[off + 3]
}

/// The client tuple of the frame: IPv4 source address and TCP source port,
/// converted to host order.
pub open spec fn client_key_of(f: Seq<u8>) -> ClientKey {
    ClientKey { ip: be32(f, IP_SRC_OFF as int) as u32, port: be16(f, TCP_SRC_OFF as int) as u32 }
}

/// The service tuple of the frame: original IPv4 destination address and TCP
/// destination port, converted to host order.
pub open spec fn backend_key_of(f: Seq<u8>) -> BackendKey {
    BackendKey { ip: be32(f, IP_DST_OFF as int) as u32, port: be16(f, TCP_DST_OFF as int) as u32 }
}

/// Whether the frame carries the TCP connection-reset signal (the RST bit of
/// the flags byte).
pub open spec fn rst_flag(f: Seq<u8>) -> bool {
    (f[TCP_FLAGS_OFF as int] / 4) % 2 == 1
}

/// Reads the big-endian 16-bit field at `off`.
pub fn read_be16(frame: &Vec<u8>, off: usize) -> (r: u16)
    requires
        off + 2 <= frame.len(),
    ensures
        r == be16(frame@, off as int),
{
    (frame[off] as u16) * 0x100 + (frame[off + 1] as u16)
}

/// Reads the big-endian 32-bit field at `off`.
pub fn read_be32(frame: &Vec<u8>, off: usize) -> (r: u32)
    requires
        off + 4 <= frame.len(),
    ensures
        r == be32(frame@, off as int),
{
    (frame[off] as u32) * 0x100_0000 + (frame[off + 1] as u32) * 0x1_0000 + (frame[off + 2]
        as u32) * 0x100 + (frame[off + 3] as u32)
}

/// Writes `v` at `off` in big-endian order; no other byte changes.
pub fn write_be16(frame: &mut Vec<u8>, off: usize, v: u16)
    requires
        off + 2 <= old(frame).len(),
    ensures
        final(frame)@.len() == old(frame)@.len(),
        be16(final(frame)@, off as int) == v,
        forall|i: int|
            0 <= i < old(frame)@.len() && i != off && i != off + 1 ==> final(frame)@[i] == old(
                frame,
            )@[i],
{
    frame.set(off, (v / 0x100) as u8);
    frame.set(off + 1, (v % 0x100) as u8);
}

/// Writes `v` at `off` in big-endian order; no other byte changes.
pub fn write_be32(frame: &mut Vec<u8>, off: usize, v: u32)
    requires
        off + 4 <= old(frame).len(),
    ensures
        final(frame)@.len() == old(frame)@.len(),
        be32(final(frame)@, off as int) == v,
        forall|i: int|
            0 <= i < old(frame)@.len() && !(off <= i < off + 4) ==> final(frame)@[i] == old(
                frame,
            )@[i],
{
    frame.set(off, (v / 0x100_0000) as u8);
    frame.set(off + 1, ((v / 0x1_0000) % 0x100) as u8);
    frame.set(off + 2, ((v / 0x100) % 0x100) as u8);
    frame.set(off + 3, (v % 0x100) as u8);
}

/// Checks that the frame holds the full header stack; this is the bounds
/// check every other access relies on.
pub fn check_bounds(frame: &Vec<u8>) -> (r: bool)
    ensures
        r == frame_ok(frame@),
{
    frame.len() >= MIN_FRAME_LEN
}

/// Parses the client tuple out of a long-enough frame.
pub fn parse_client_key(frame: &Vec<u8>) -> (r: ClientKey)
    requires
        frame_ok(frame@),
    ensures
        r == client_key_of(frame@),
{
    let ip = read_be32(frame, IP_SRC_OFF);
    let port = read_be16(frame, TCP_SRC_OFF);
    ClientKey { ip, port: port as u32 }
}

/// Parses the pre-NAT service tuple out of a long-enough frame.
pub fn parse_backend_key(frame: &Vec<u8>) -> (r: BackendKey)
    requires
        frame_ok(frame@),
    ensures
        r == backend_key_of(frame@),
{
    let ip = read_be32(frame, IP_DST_OFF);
    let port = read_be16(frame, TCP_DST_OFF);
    BackendKey { ip, port: port as u32 }
}

/// Reads the TCP reset bit of a long-enough frame.
pub fn parse_rst(frame: &Vec<u8>) -> (r: bool)
    requires
        frame_ok(frame@),
    ensures
        r == rst_flag(frame@),
{
    let flags = frame[TCP_FLAGS_OFF];
    (flags / 4) % 2 == 1
}

} // verus!
