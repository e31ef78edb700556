//! IPv4 and IPv6 addresses as plain values, with reads and writes of their
//! network byte order forms at buffer offsets.

use vstd::prelude::*;
use crate::mbuf::{be16, Mbuf, SizeOf};

verus! {

broadcast use crate::mbuf::lemma_wf_bounds;

/// An IPv4 address, held as its four octets in transmission order.
#[derive(Default, Debug, Copy, Clone, PartialEq, Eq, Structural)]
pub struct Ipv4Addr {
    o0: u8,
    o1: u8,
    o2: u8,
    o3: u8,
}

impl View for Ipv4Addr {
    type V = Seq<u8>;

    /// The four octets of the address.
    closed spec fn view(&self) -> Seq<u8> {
        seq![self.o0, self.o1, self.o2, self.o3]
    }
}

impl SizeOf for Ipv4Addr {
    open spec fn spec_size_of() -> usize {
        4
    }

    fn size_of() -> (n: usize)
        ensures
            n == Self::spec_size_of(),
    {
        4
    }
}

impl Ipv4Addr {
    /// Builds an address from its four octets.
    pub fn new(a: u8, b: u8, c: u8, d: u8) -> (r: Ipv4Addr)
        ensures
            r@ == seq![a, b, c, d],
    {
        let r = Ipv4Addr { o0: a, o1: b, o2: c, o3: d };
        proof {
            assert(r@ =~= seq![a, b, c, d]);
        }
        r
    }

    /// Returns the four octets of the address.
    pub fn octets(&self) -> (r: [u8; 4])
        ensures
            r@ == self@,
    {
        let r = [self.o0, self.o1, self.o2, self.o3];
        proof {
            assert(r@ =~= self@);
        }
        r
    }

    /// Reads the address stored at `offset` in the buffer.
    pub fn read(m: &Mbuf, offset: usize) -> (r: Ipv4Addr)
        requires
            m.wf(),
            offset + 4 <= m@.len(),
        ensures
            r@ == m@.subrange(offset as int, offset + 4),
    {
        let r = Ipv4Addr {
            o0: m.read_u8(offset),
            o1: m.read_u8(offset + 1),
            o2: m.read_u8(offset + 2),
            o3: m.read_u8(offset + 3),
        };
        proof {
            assert(r@ =~= m@.subrange(offset as int, offset + 4));
        }
        r
    }

    /// Writes the address in network byte order at `offset` in the buffer.
    pub fn write(&self, m: &mut Mbuf, offset: usize)
        requires
            old(m).wf(),
            offset + 4 <= old(m)@.len(),
        ensures
            final(m).wf(),
            final(m)@.len() == old(m)@.len(),
            final(m)@.subrange(offset as int, offset + 4) == self@,
            forall|k: int|
                0 <= k < old(m)@.len() && !(offset <= k < offset + 4) ==> final(m)@[k] == old(
                    m,
                )@[k],
            final(m).spec_tailroom() == old(m).spec_tailroom(),
            final(m).spec_headroom() == old(m).spec_headroom(),
    {
        m.write_u8(offset, self.o0);
        m.write_u8(offset + 1, self.o1);
        m.write_u8(offset + 2, self.o2);
        m.write_u8(offset + 3, self.o3);
        proof {
            assert(final(m)@.subrange(offset as int, offset + 4) =~= self@);
        }
    }

    /// Two addresses with the same byte form are the same address.
    pub proof fn lemma_view_injective(x: Ipv4Addr, y: Ipv4Addr)
        requires
            x@ == y@,
        ensures
            x == y,
    {
        assert(x.o0 == x@[0] && x.o1 == x@[1] && x.o2 == x@[2] && x.o3 == x@[3]);
        assert(y.o0 == y@[0] && y.o1 == y@[1] && y.o2 == y@[2] && y.o3 == y@[3]);
    }
}

/// An IPv6 address, held as its eight 16-bit segments.
#[derive(Default, Debug, Copy, Clone, PartialEq, Eq, Structural)]
pub struct Ipv6Addr {
    s0: u16,
    s1: u16,
    s2: u16,
    s3: u16,
    s4: u16,
    s5: u16,
    s6: u16,
    s7: u16,
}

impl View for Ipv6Addr {
    type V = Seq<u8>;

    /// The sixteen bytes of the address in network byte order.
    closed spec fn view(&self) -> Seq<u8> {
        seq![
            (self.s0 / 256) as u8,
            (self.s0 % 256) as u8,
            (self.s1 / 256) as u8,
            (self.s1 % 256) as u8,
            (self.s2 / 256) as u8,
            (self.s2 % 256) as u8,
            (self.s3 / 256) as u8,
            (self.s3 % 256) as u8,
            (self.s4 / 256) as u8,
            (self.s4 % 256) as u8,
            (self.s5 / 256) as u8,
            (self.s5 % 256) as u8,
            (self.s6 / 256) as u8,
            (self.s6 % 256) as u8,
            (self.s7 / 256) as u8,
            (self.s7 % 256) as u8,
        ]
    }
}

impl SizeOf for Ipv6Addr {
    open spec fn spec_size_of() -> usize {
        16
    }

    fn size_of() -> (n: usize)
        ensures
            n == Self::spec_size_of(),
    {
        16
    }
}

impl Ipv6Addr {
    /// Builds an address from its eight 16-bit segments, most significant
    /// first.
    pub fn new(a: u16, b: u16, c: u16, d: u16, e: u16, f: u16, g: u16, h: u16) -> (r: Ipv6Addr)
        ensures
            r@.len() == 16,
            be16(r@, 0) == a && be16(r@, 2) == b && be16(r@, 4) == c && be16(r@, 6) == d,
            be16(r@, 8) == e && be16(r@, 10) == f && be16(r@, 12) == g && be16(r@, 14) == h,
    {
        Ipv6Addr { s0: a, s1: b, s2: c, s3: d, s4: e, s5: f, s6: g, s7: h }
    }

    /// The unspecified address, all zeroes.
    pub fn unspecified() -> (r: Ipv6Addr)
        ensures
            r@.len() == 16,
            forall|k: int| 0 <= k < 16 ==> r@[k] == 0u8,
    {
        Ipv6Addr::new(0, 0, 0, 0, 0, 0, 0, 0)
    }

    /// Reads the address stored at `offset` in the buffer.
    pub fn read(m: &Mbuf, offset: usize) -> (r: Ipv6Addr)
        requires
            m.wf(),
            offset + 16 <= m@.len(),
        ensures
            r@ == m@.subrange(offset as int, offset + 16),
    {
        let r = Ipv6Addr {
            s0: m.read_u16(offset),
            s1: m.read_u16(offset + 2),
            s2: m.read_u16(offset + 4),
            s3: m.read_u16(offset + 6),
            s4: m.read_u16(offset + 8),
            s5: m.read_u16(offset + 10),
            s6: m.read_u16(offset + 12),
            s7: m.read_u16(offset + 14),
        };
        proof {
            assert(r@ =~= m@.subrange(offset as int, offset + 16));
        }
        r
    }

    /// Writes the address in network byte order at `offset` in the buffer.
    pub fn write(&self, m: &mut Mbuf, offset: usize)
        requires
            old(m).wf(),
            offset + 16 <= old(m)@.len(),
        ensures
            final(m).wf(),
            final(m)@.len() == old(m)@.len(),
            final(m)@.subrange(offset as int, offset + 16) == self@,
            forall|k: int|
                0 <= k < old(m)@.len() && !(offset <= k < offset + 16) ==> final(m)@[k] == old(
                    m,
                )@[k],
            final(m).spec_tailroom() == old(m).spec_tailroom(),
            final(m).spec_headroom() == old(m).spec_headroom(),
    {
        m.write_u16(offset, self.s0);
        m.write_u16(offset + 2, self.s1);
        m.write_u16(offset + 4, self.s2);
        m.write_u16(offset + 6, self.s3);
        m.write_u16(offset + 8, self.s4);
        m.write_u16(offset + 10, self.s5);
        m.write_u16(offset + 12, self.s6);
        m.write_u16(offset + 14, self.s7);
        proof {
            assert(final(m)@.subrange(offset as int, offset + 16) =~= self@);
        }
    }

    /// Two addresses with the same byte form are the same address.
    pub proof fn lemma_view_injective(x: Ipv6Addr, y: Ipv6Addr)
        requires
            x@ == y@,
        ensures
            x == y,
    {
        assert(x.s0 == 256 * (x@[0] as int) + (x@[1] as int));
        assert(x.s1 == 256 * (x@[2] as int) + (x@[3] as int));
        assert(x.s2 == 256 * (x@[4] as int) + (x@[5] as int));
        assert(x.s3 == 256 * (x@[6] as int) + (x@[7] as int));
        assert(x.s4 == 256 * (x@[8] as int) + (x@[9] as int));
        assert(x.s5 == 256 * (x@[10] as int) + (x@[11] as int));
        assert(x.s6 == 256 * (x@[12] as int) + (x@[13] as int));
        assert(x.s7 == 256 * (x@[14] as int) + (x@[15] as int));
        assert(y.s0 == 256 * (y@[0] as int) + (y@[1] as int));
        assert(y.s1 == 256 * (y@[2] as int) + (y@[3] as int));
        assert(y.s2 == 256 * (y@[4] as int) + (y@[5] as int));
        assert(y.s3 == 256 * (y@[6] as int) + (y@[7] as int));
        assert(y.s4 == 256 * (y@[8] as int) + (y@[9] as int));
        assert(y.s5 == 256 * (y@[10] as int) + (y@[11] as int));
        assert(y.s6 == 256 * (y@[12] as int) + (y@[13] as int));
        assert(y.s7 == 256 * (y@[14] as int) + (y@[15] as int));
    }
}

} // verus!
