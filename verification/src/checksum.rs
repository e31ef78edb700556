//! The Internet checksum engine: one's-complement sums over byte ranges of
//! a buffer, pseudo-header sums for IPv4 and IPv6, and the fold-and-invert
//! finalization, together with the facts the packet layers need of them.

use vstd::prelude::*;
use crate::mbuf::{be16, put16, Mbuf};

verus! {

broadcast use crate::mbuf::lemma_wf_bounds;

/// One's-complement sum of the big-endian 16-bit words of `d[i..end)`; an
/// odd trailing byte is padded with a zero low byte.
pub open spec fn ones_sum(d: Seq<u8>, i: int, end: int) -> int
    decreases end - i,
{
    if i >= end {
        0
    } else if i + 1 == end {
        256 * (d[i] as int)
    } else {
        be16(d, i) + ones_sum(d, i + 2, end)
    }
}

/// Sum of `n` consecutive big-endian 16-bit words starting at `off`.
pub open spec fn word_sum(d: Seq<u8>, off: int, n: int) -> int
    decreases n,
{
    if n <= 0 {
        0
    } else {
        be16(d, off) + word_sum(d, off + 2, n - 1)
    }
}

/// Folds the carries of a one's-complement sum until it fits 16 bits.
pub open spec fn fold_sum(x: int) -> int
    decreases x,
{
    if 0x10000 <= x {
        fold_sum(x % 0x10000 + x / 0x10000)
    } else {
        x
    }
}

/// The Internet checksum of a sum: the one's complement of its fold.
pub open spec fn checksum_of(sum: int) -> int
    recommends
        sum >= 0,
{
    0xffff - fold_sum(sum)
}

/// Sum of an IPv6 pseudo-header per RFC 8200: source and destination
/// addresses read from the buffer, the upper-layer packet length, and the
/// next-header protocol number.
pub open spec fn pseudo_v6_sum(d: Seq<u8>, src_off: int, dst_off: int, len: int, proto: int)
    -> int {
    word_sum(d, src_off, 8) + word_sum(d, dst_off, 8) + len + proto
}

/// Sum of an IPv4 pseudo-header per RFC 791: source and destination
/// addresses read from the buffer, the protocol number, and the transport
/// length.
pub open spec fn pseudo_v4_sum(d: Seq<u8>, src_off: int, dst_off: int, len: int, proto: int)
    -> int {
    word_sum(d, src_off, 2) + word_sum(d, dst_off, 2) + len + proto
}

/// The checksum a transport layer stores: computed over its pseudo-header
/// sum `ph` and its own bytes `d[off..end)` with the two checksum bytes at
/// `coff` taken as zero.
pub open spec fn transport_checksum(d: Seq<u8>, off: int, end: int, coff: int, ph: int) -> int {
    checksum_of(ph + ones_sum(put16(d, coff, 0), off, end))
}

/// A one's-complement range sum is never negative.
pub proof fn lemma_ones_sum_nonneg(d: Seq<u8>, i: int, end: int)
    ensures
        ones_sum(d, i, end) >= 0,
    decreases end - i,
{
    if i < end && i + 1 < end {
        lemma_ones_sum_nonneg(d, i + 2, end);
    }
}

/// A word sum is never negative.
pub proof fn lemma_word_sum_nonneg(d: Seq<u8>, off: int, n: int)
    ensures
        word_sum(d, off, n) >= 0,
    decreases n,
{
    if n > 0 {
        lemma_word_sum_nonneg(d, off + 2, n - 1);
    }
}

/// A one's-complement range sum is bounded by one word per byte pair.
pub proof fn lemma_ones_sum_bound(d: Seq<u8>, i: int, end: int)
    requires
        i <= end,
    ensures
        ones_sum(d, i, end) <= 0x10000 * (end - i),
    decreases end - i,
{
    if i < end && i + 1 < end {
        lemma_ones_sum_bound(d, i + 2, end);
    }
}

/// A word sum is bounded by one word per entry.
pub proof fn lemma_word_sum_bound(d: Seq<u8>, off: int, n: int)
    requires
        n >= 0,
    ensures
        word_sum(d, off, n) <= 0x10000 * n,
    decreases n,
{
    if n > 0 {
        lemma_word_sum_bound(d, off + 2, n - 1);
    }
}

/// The folded sum of a non-negative sum fits 16 bits.
pub proof fn lemma_fold_sum_bounds(x: int)
    requires
        x >= 0,
    ensures
        0 <= fold_sum(x) <= 0xffff,
    decreases x,
{
    if 0x10000 <= x {
        lemma_fold_sum_bounds(x % 0x10000 + x / 0x10000);
    }
}

/// A word sum depends only on the bytes it reads.
pub proof fn lemma_word_sum_unchanged(d1: Seq<u8>, d2: Seq<u8>, off: int, n: int)
    requires
        d1.len() == d2.len(),
        0 <= off,
        off + 2 * n <= d1.len(),
        forall|k: int| off <= k < off + 2 * n ==> d1[k] == d2[k],
    ensures
        word_sum(d1, off, n) == word_sum(d2, off, n),
    decreases n,
{
    if n > 0 {
        lemma_word_sum_unchanged(d1, d2, off + 2, n - 1);
    }
}

/// A one's-complement range sum depends only on the bytes it reads.
pub proof fn lemma_ones_sum_unchanged(d1: Seq<u8>, d2: Seq<u8>, i: int, end: int)
    requires
        d1.len() == d2.len(),
        0 <= i,
        end <= d1.len(),
        forall|k: int| i <= k < end ==> d1[k] == d2[k],
    ensures
        ones_sum(d1, i, end) == ones_sum(d2, i, end),
    decreases end - i,
{
    if i < end && i + 1 < end {
        lemma_ones_sum_unchanged(d1, d2, i + 2, end);
    }
}

/// Writing a freshly computed transport checksum into its field does not
/// change what a recomputation yields: recomputing the checksum of a
/// cascaded packet gives the value already stored.
pub proof fn lemma_transport_checksum_stable(d: Seq<u8>, off: int, end: int, coff: int, ph: int)
    requires
        0 <= off,
        0 <= coff,
        coff + 2 <= d.len(),
        end <= d.len(),
    ensures
        ({
            let c = transport_checksum(d, off, end, coff, ph);
            transport_checksum(put16(d, coff, c), off, end, coff, ph) == c
        }),
{
    let c = transport_checksum(d, off, end, coff, ph);
    assert(put16(put16(d, coff, c), coff, 0) =~= put16(d, coff, 0));
}

/// Sums the 16-bit words of the live data in `[start, end)`.
pub fn range_sum(m: &Mbuf, start: usize, end: usize) -> (s: u64)
    requires
        m.wf(),
        start <= end,
        end <= m@.len(),
    ensures
        s == ones_sum(m@, start as int, end as int),
{
    let mut acc: u64 = 0;
    let mut i: usize = start;
    while i < end
        invariant
            start <= i <= end,
            end <= m@.len(),
            m.wf(),
            acc <= 0x10000 * (i as u64),
            acc + ones_sum(m@, i as int, end as int) == ones_sum(m@, start as int, end as int),
        decreases end - i,
    {
        proof {
            lemma_ones_sum_nonneg(m@, i as int, end as int);
            lemma_ones_sum_nonneg(m@, i + 2, end as int);
        }
        if end - i == 1 {
            acc = acc + 256 * (m.read_u8(i) as u64);
            i = i + 1;
        } else {
            acc = acc + (m.read_u16(i) as u64);
            i = i + 2;
        }
    }
    proof {
        lemma_ones_sum_nonneg(m@, end as int, end as int);
    }
    acc
}

/// Sums `n` consecutive 16-bit words of the live data starting at `off`.
pub fn read_word_sum(m: &Mbuf, off: usize, n: usize) -> (s: u64)
    requires
        m.wf(),
        off + 2 * n <= m@.len(),
        n <= 16,
    ensures
        s == word_sum(m@, off as int, n as int),
{
    let mut acc: u64 = 0;
    let mut k: usize = 0;
    while k < n
        invariant
            0 <= k <= n,
            n <= 16,
            off + 2 * n <= m@.len(),
            m.wf(),
            acc <= 0x10000 * (k as u64),
            acc + word_sum(m@, off + 2 * k, (n - k) as int) == word_sum(m@, off as int, n as int),
        decreases n - k,
    {
        proof {
            lemma_word_sum_nonneg(m@, off + 2 * k, (n - k) as int);
            lemma_word_sum_nonneg(m@, off + 2 * (k + 1), (n - k - 1) as int);
        }
        acc = acc + (m.read_u16(off + 2 * k) as u64);
        k = k + 1;
    }
    acc
}

/// Folds the carries of a sum and returns its one's complement: the
/// Internet checksum finalization.
pub fn fold_checksum(sum: u64) -> (c: u16)
    ensures
        c as int == checksum_of(sum as int),
{
    let mut s = sum;
    while s > 0xffff
        invariant
            fold_sum(s as int) == fold_sum(sum as int),
        decreases s,
    {
        s = s % 0x10000 + s / 0x10000;
    }
    0xffff - (s as u16)
}

} // verus!
