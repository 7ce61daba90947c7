//! IPv4 header checksum engine: the standard one's-complement sum of the ten
//! 16-bit header words, with the carry folded back into the low 16 bits and
//! the result complemented. Recomputation zeroes the checksum field first,
//! so it is deterministic and idempotent on an unmodified header, and a
//! header carrying its own checksum always passes the standard validation
//! (the folded sum of all ten words, checksum included, is 0xFFFF).

use vstd::prelude::*;

use vstd::arithmetic::div_mod::{
    lemma_fundamental_div_mod, lemma_mod_bound, lemma_mod_multiples_vanish, lemma_small_mod,
};

use crate::packet::{be16, IP_CHECK_OFF, MIN_FRAME_LEN};

verus! {

/// Number of 16-bit words in the IPv4 header.
pub const IPV4_HDR_WORDS: usize = 10;

/// The 16-bit word `i` of a header, read big-endian.
pub open spec fn word_at(h: Seq<u8>, i: int) -> int {
    be16(h, 2 * i)
}

/// Sum of the first `n` header words.
pub open spec fn words_sum(h: Seq<u8>, n: int) -> int
    decreases n,
{
    if n <= 0 {
        0
    } else {
        words_sum(h, n - 1) + word_at(h, n - 1)
    }
}

/// Sum of all ten words of a 20-byte IPv4 header.
pub open spec fn header_sum(h: Seq<u8>) -> int {
    words_sum(h, IPV4_HDR_WORDS as int)
}

/// The header with its checksum field (word 5, bytes 10 and 11) zeroed.
pub open spec fn zero_check(h: Seq<u8>) -> Seq<u8> {
    h.update(10, 0u8).update(11, 0u8)
}

/// One's-complement carry fold. Two rounds reduce any sum below 2^32 to a
/// value of at most 0xFFFF.
pub open spec fn fold_sum(x: int) -> int {
    let y = x % 0x1_0000 + x / 0x1_0000;
    y % 0x1_0000 + y / 0x1_0000
}

/// The checksum of a header: fold the sum of its words taken with the
/// checksum field zeroed, then complement.
pub open spec fn checksum_spec(h: Seq<u8>) -> int {
    0xFFFF - fold_sum(header_sum(zero_check(h)))
}

/// The standard validation of a received header: summing all ten words,
/// stored checksum included, and folding must give 0xFFFF (so the one's
/// complement of the folded total is zero). Stated over the whole frame.
pub open spec fn checksum_valid(f: Seq<u8>) -> bool {
    fold_sum(header_sum(f.subrange(14, 34))) == 0xFFFF
}

/// Relates a frame to the same frame after a checksum recomputation: only
/// the checksum field changed, and it now holds the checksum of the header.
pub open spec fn checksum_stored(pre: Seq<u8>, post: Seq<u8>) -> bool {
    &&& post.len() == pre.len()
    &&& forall|i: int|
        0 <= i < pre.len() && i != IP_CHECK_OFF && i != IP_CHECK_OFF + 1 ==> post[i] == pre[i]
    &&& be16(post, IP_CHECK_OFF as int) == checksum_spec(post.subrange(14, 34))
}

proof fn lemma_words_sum_bounds(h: Seq<u8>, n: int)
    requires
        0 <= n,
        h.len() >= 2 * n,
    ensures
        0 <= words_sum(h, n) <= n * 0xFFFF,
    decreases n,
{
    if n > 0 {
        lemma_words_sum_bounds(h, n - 1);
        assert((n - 1) * 0xFFFF + 0xFFFF == n * 0xFFFF) by (nonlinear_arith);
    }
}

/// Two headers that agree everywhere but on the checksum word have word
/// sums that differ exactly by their checksum words.
proof fn lemma_words_sum_agree(s: Seq<u8>, t: Seq<u8>, n: int)
    requires
        0 <= n <= 10,
        s.len() >= 20,
        t.len() >= 20,
        forall|i: int| 0 <= i < 20 && i != 10 && i != 11 ==> s[i] == t[i],
    ensures
        n <= 5 ==> words_sum(s, n) == words_sum(t, n),
        n > 5 ==> words_sum(s, n) - word_at(s, 5) == words_sum(t, n) - word_at(t, 5),
    decreases n,
{
    if n > 0 {
        lemma_words_sum_agree(s, t, n - 1);
        if n - 1 != 5 {
            assert(s[2 * (n - 1)] == t[2 * (n - 1)]);
            assert(s[2 * (n - 1) + 1] == t[2 * (n - 1) + 1]);
        }
    }
}

/// The carry fold keeps the value's residue modulo 0xFFFF, lands in
/// [0, 0xFFFF], and never maps a positive sum to zero.
proof fn lemma_fold_props(x: int)
    requires
        0 <= x < 0x1_0000_0000,
    ensures
        0 <= fold_sum(x) <= 0xFFFF,
        fold_sum(x) % 0xFFFF == x % 0xFFFF,
        x > 0 ==> fold_sum(x) > 0,
{
    let q = x / 0x1_0000;
    let r = x % 0x1_0000;
    lemma_fundamental_div_mod(x, 0x1_0000);
    lemma_mod_bound(x, 0x1_0000);
    assert(0 <= q < 0x1_0000) by (nonlinear_arith)
        requires x == 0x1_0000 * q + r && 0 <= r < 0x1_0000 && 0 <= x < 0x1_0000_0000;
    let y = r + q;
    assert(x == 0xFFFF * q + y);
    lemma_mod_multiples_vanish(q, y, 0xFFFF);
    let q2 = y / 0x1_0000;
    let r2 = y % 0x1_0000;
    lemma_fundamental_div_mod(y, 0x1_0000);
    lemma_mod_bound(y, 0x1_0000);
    assert(0 <= q2 <= 1) by (nonlinear_arith)
        requires y == 0x1_0000 * q2 + r2 && 0 <= r2 < 0x1_0000 && 0 <= y < 0x2_0000;
    let z = r2 + q2;
    assert(y == 0xFFFF * q2 + z);
    lemma_mod_multiples_vanish(q2, z, 0xFFFF);
    assert(fold_sum(x) == z);
    if q2 == 1 {
        assert(y >= 0x1_0000);
        assert(r2 == y - 0x1_0000);
        assert(z <= 0xFFFF);
    }
    if x > 0 {
        assert(y > 0);
        assert(z > 0);
    }
}

/// A difference of two values with equal residues is a multiple of the
/// modulus.
proof fn lemma_mod_zero_diff(a: int, b: int, m: int)
    requires
        m > 0,
        a % m == b % m,
    ensures
        exists|k: int| a - b == #[trigger] (m * k),
{
    lemma_fundamental_div_mod(a, m);
    lemma_fundamental_div_mod(b, m);
    assert(a - b == m * (a / m - b / m)) by (nonlinear_arith)
        requires a == m * (a / m) + a % m && b == m * (b / m) + b % m && a % m == b % m;
}

/// A header that carries its own checksum in the checksum word passes the
/// standard validation: the folded sum of all ten words is 0xFFFF.
pub proof fn lemma_checksum_self_valid(h: Seq<u8>)
    requires
        h.len() == 20,
        word_at(h, 5) == checksum_spec(h),
    ensures
        fold_sum(header_sum(h)) == 0xFFFF,
{
    let z = zero_check(h);
    let s0 = header_sum(z);
    lemma_words_sum_bounds(z, 10);
    lemma_fold_props(s0);
    let c = 0xFFFF - fold_sum(s0);
    // words other than the checksum word agree between h and z
    lemma_words_sum_agree(h, z, 10);
    assert(word_at(z, 5) == 0) by {
        assert(z[10] == 0u8);
        assert(z[11] == 0u8);
    }
    let total = header_sum(h);
    assert(total == s0 + c);
    // total is congruent to 0 modulo 0xFFFF
    lemma_mod_zero_diff(s0, fold_sum(s0), 0xFFFF);
    let k = choose|k: int| s0 - fold_sum(s0) == #[trigger] (0xFFFF * k);
    assert(total == 0xFFFF * (k + 1)) by (nonlinear_arith)
        requires total == s0 + 0xFFFF - fold_sum(s0) && s0 - fold_sum(s0) == 0xFFFF * k;
    lemma_mod_multiples_vanish(k + 1, 0, 0xFFFF);
    assert(total % 0xFFFF == 0);
    // total is positive and below 2^32, so its fold is in (0, 0xFFFF]
    if s0 == 0 {
        assert(fold_sum(0) == 0);
        assert(total == 0xFFFF);
    } else {
        assert(total >= s0);
    }
    assert(total > 0);
    assert(total < 0x1_0000_0000);
    lemma_fold_props(total);
    let ft = fold_sum(total);
    assert(ft % 0xFFFF == 0);
    if ft < 0xFFFF {
        lemma_small_mod(ft as nat, 0xFFFF as nat);
        assert(ft == 0);
        assert(false);
    }
}

/// Recomputing the checksum is idempotent: a frame that has just had its
/// checksum stored is left byte-for-byte unchanged by a second
/// recomputation.
pub proof fn lemma_checksum_idempotent(f0: Seq<u8>, f1: Seq<u8>, f2: Seq<u8>)
    requires
        f0.len() >= MIN_FRAME_LEN,
        checksum_stored(f0, f1),
        checksum_stored(f1, f2),
    ensures
        f2 == f1,
{
    assert(zero_check(f2.subrange(14, 34)) =~= zero_check(f1.subrange(14, 34)));
    assert(checksum_spec(f2.subrange(14, 34)) == checksum_spec(f1.subrange(14, 34)));
    let v = checksum_spec(f1.subrange(14, 34));
    assert(be16(f1, IP_CHECK_OFF as int) == v);
    assert(be16(f2, IP_CHECK_OFF as int) == v);
    assert(f2[24] == f1[24] && f2[25] == f1[25]) by {
        assert(f1[24] * 0x100 + f1[25] == f2[24] * 0x100 + f2[25]);
        assert(f1[25] < 0x100 && f2[25] < 0x100);
    }
    assert(f2 =~= f1);
}

/// Recomputes the IPv4 header checksum in place: zeroes the checksum field,
/// sums the ten header words, folds the carry, complements, and stores the
/// result. Afterwards the header passes the standard validation.
pub fn recompute_ipv4_checksum(frame: &mut Vec<u8>)
    requires
        old(frame).len() >= MIN_FRAME_LEN,
    ensures
        checksum_stored(old(frame)@, final(frame)@),
        checksum_valid(final(frame)@),
{
    crate::packet::write_be16(frame, IP_CHECK_OFF, 0);
    let ghost g = frame@;
    proof {
        assert(g.subrange(14, 34) =~= zero_check(old(frame)@.subrange(14, 34)));
        assert(g.subrange(14, 34) =~= zero_check(g.subrange(14, 34)));
    }
    let ghost hz = g.subrange(14, 34);
    let mut sum: u32 = 0;
    let mut i: usize = 0;
    while i < IPV4_HDR_WORDS
        invariant
            i <= IPV4_HDR_WORDS,
            frame@ == g,
            frame.len() >= MIN_FRAME_LEN,
            hz == g.subrange(14, 34),
            sum == words_sum(hz, i as int),
            sum <= i * 0xFFFF,
        decreases IPV4_HDR_WORDS - i,
    {
        let w = crate::packet::read_be16(frame, 14 + 2 * i);
        proof {
            assert(hz[2 * (i as int)] == g[14 + 2 * (i as int)]);
            assert(hz[2 * (i as int) + 1] == g[14 + 2 * (i as int) + 1]);
            assert(w == word_at(hz, i as int));
        }
        sum = sum + w as u32;
        i = i + 1;
    }
    proof {
        lemma_fold_props(sum as int);
    }
    let y: u32 = sum % 0x1_0000 + sum / 0x1_0000;
    let folded: u32 = y % 0x1_0000 + y / 0x1_0000;
    let check: u16 = (0xFFFFu32 - folded) as u16;
    proof {
        assert(folded == fold_sum(sum as int));
        assert(check == checksum_spec(old(frame)@.subrange(14, 34)));
    }
    crate::packet::write_be16(frame, IP_CHECK_OFF, check);
    proof {
        let fin = frame@;
        assert(zero_check(fin.subrange(14, 34)) =~= hz);
        assert(checksum_spec(fin.subrange(14, 34)) == 0xFFFF - fold_sum(header_sum(hz)));
        assert(word_at(fin.subrange(14, 34), 5) == be16(fin, 24)) by {
            assert(fin.subrange(14, 34)[10] == fin[24]);
            assert(fin.subrange(14, 34)[11] == fin[25]);
        }
        lemma_checksum_self_valid(fin.subrange(14, 34));
    }
}

/// The standard, independent validation: sums all ten header words of the
/// frame, checksum included, folds, and accepts when the folded total is
/// 0xFFFF.
pub fn validate_ipv4_checksum(frame: &Vec<u8>) -> (r: bool)
    requires
        frame.len() >= MIN_FRAME_LEN,
    ensures
        r == checksum_valid(frame@),
{
    let ghost hh = frame@.subrange(14, 34);
    let mut sum: u32 = 0;
    let mut i: usize = 0;
    while i < IPV4_HDR_WORDS
        invariant
            i <= IPV4_HDR_WORDS,
            frame.len() >= MIN_FRAME_LEN,
            hh == frame@.subrange(14, 34),
            sum == words_sum(hh, i as int),
            sum <= i * 0xFFFF,
        decreases IPV4_HDR_WORDS - i,
    {
        let w = crate::packet::read_be16(frame, 14 + 2 * i);
        proof {
            assert(hh[2 * (i as int)] == frame@[14 + 2 * (i as int)]);
            assert(hh[2 * (i as int) + 1] == frame@[14 + 2 * (i as int) + 1]);
            assert(w == word_at(hh, i as int));
        }
        sum = sum + w as u32;
        i = i + 1;
    }
    let y: u32 = sum % 0x1_0000 + sum / 0x1_0000;
    let folded: u32 = y % 0x1_0000 + y / 0x1_0000;
    proof {
        assert(folded == fold_sum(sum as int));
    }
    folded == 0xFFFF
}

} // verus!
