//! NAT rewriter: in-place destination rewrite (DNAT) of a frame towards a
//! chosen backend, followed by the IPv4 header checksum recomputation. The
//! TCP checksum is deliberately left as it arrived: recomputing it is
//! delegated to a downstream offload mechanism, a policy this data path
//! documents rather than hides.

use vstd::prelude::*;

use crate::checksum::{checksum_spec, checksum_valid, recompute_ipv4_checksum};
use crate::packet::{be16, be32, frame_ok, IP_DST_OFF, TCP_DST_OFF};
use crate::types::Backend;

verus! {

/// Relates a frame to the same frame after the destination rewrite towards
/// backend `b`: the IPv4 destination address holds the backend address, the
/// TCP destination port holds the backend port (truncated to 16 bits, as it
/// is carried on the wire), the IPv4 checksum field holds the checksum of
/// the rewritten header — which therefore passes the standard validation —
/// and every other byte, the TCP checksum included, is unchanged.
pub open spec fn dnat_applied(pre: Seq<u8>, post: Seq<u8>, b: Backend) -> bool {
    &&& post.len() == pre.len()
    &&& be32(post, IP_DST_OFF as int) == b.daddr
    &&& be16(post, TCP_DST_OFF as int) == b.dport as u16
    &&& be16(post, 24) == checksum_spec(post.subrange(14, 34))
    &&& checksum_valid(post)
    &&& forall|i: int|
        0 <= i < pre.len() && !(24 <= i < 26) && !(IP_DST_OFF <= i < IP_DST_OFF + 4) && !(
        TCP_DST_OFF <= i < TCP_DST_OFF + 2) ==> post[i] == pre[i]
}

/// Rewrites the frame's destination address and port to the backend's, in
/// big-endian wire order, and recomputes the IPv4 header checksum.
pub fn apply_dnat(frame: &mut Vec<u8>, b: &Backend)
    requires
        frame_ok(old(frame)@),
    ensures
        frame_ok(final(frame)@),
        dnat_applied(old(frame)@, final(frame)@, *b),
{
    crate::packet::write_be32(frame, IP_DST_OFF, b.daddr);
    crate::packet::write_be16(frame, TCP_DST_OFF, b.dport as u16);
    recompute_ipv4_checksum(frame);
}

} // verus!
