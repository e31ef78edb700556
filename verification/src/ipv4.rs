//! The IPv4 layer over an Ethernet frame: the RFC 791 header with a
//! variable header length, a total length, and its own header checksum.

use vstd::prelude::*;
use crate::checksum::{checksum_of, fold_checksum, ones_sum, range_sum};
use crate::errors::{PacketError, ParseError};
use crate::ethernet::Ethernet;
use crate::ipaddr::Ipv4Addr;
use crate::mbuf::{be16, put16, BufferError, Mbuf};

verus! {

broadcast use crate::mbuf::lemma_wf_bounds;

/// Bytes of an IPv4 header without options.
pub const IPV4_MIN_HEADER_LEN: usize = 20;

/// An IPv4 header lies at `off`: the version nibble reads 4, the header
/// length field covers at least the fixed twenty bytes, the whole header
/// — options included — fits the live data, and the total length covers
/// the header.
pub open spec fn ipv4_hdr_wf(d: Seq<u8>, off: int) -> bool {
    &&& off + 20 <= d.len()
    &&& (d[off] as int) / 16 == 4
    &&& (d[off] as int) % 16 >= 5
    &&& off + 4 * ((d[off] as int) % 16) <= d.len()
    &&& be16(d, off + 2) >= 4 * ((d[off] as int) % 16)
}

/// The header checksum an IPv4 header at offset 14 should carry: computed
/// over the header bytes with the checksum field taken as zero.
pub open spec fn ipv4_header_checksum(d: Seq<u8>) -> int {
    checksum_of(ones_sum(put16(d, 24, 0), 14, 14 + 4 * ((d[14] as int) % 16)))
}

/// An IPv4 header at offset 14 with its total length set to the live data
/// after the frame header and its header checksum recomputed: the result
/// of a cascade reaching this layer.
pub open spec fn ipv4_reconciled(d: Seq<u8>) -> Seq<u8> {
    let d2 = put16(d, 16, d.len() - 14);
    put16(d2, 24, ipv4_header_checksum(d2))
}

/// An IPv4 packet enclosed in an Ethernet frame: a typed view over the
/// frame's body, with the header at offset 14.
#[derive(Debug)]
pub struct Ipv4 {
    mbuf: Mbuf,
    offset: usize,
}

impl View for Ipv4 {
    type V = Seq<u8>;

    /// The live data of the underlying buffer.
    closed spec fn view(&self) -> Seq<u8> {
        self.mbuf@
    }
}

impl Ipv4 {
    /// The underlying buffer's bookkeeping is consistent.
    pub closed spec fn buf_wf(&self) -> bool {
        self.mbuf.wf()
    }

    /// Byte position of the IPv4 header within the buffer.
    pub closed spec fn spec_offset(&self) -> int {
        self.offset as int
    }

    /// Tailroom of the underlying buffer.
    pub closed spec fn spec_tailroom(&self) -> int {
        self.mbuf.spec_tailroom()
    }

    /// Headroom of the underlying buffer.
    pub closed spec fn spec_headroom(&self) -> int {
        self.mbuf.spec_headroom()
    }

    /// Bytes of the header, options included.
    pub open spec fn spec_header_len(&self) -> int {
        4 * ((self@[14] as int) % 16)
    }

    /// A well-formed packet view: a consistent buffer, the header right
    /// after the Ethernet header, and the RFC 791 field conditions.
    pub open spec fn wf(&self) -> bool {
        &&& self.buf_wf()
        &&& self.spec_offset() == 14
        &&& ipv4_hdr_wf(self@, 14)
    }

    /// Wraps a buffer known to hold an IPv4 header at offset 14.
    pub(crate) fn attach(mbuf: Mbuf) -> (r: Ipv4)
        requires
            mbuf.wf(),
            ipv4_hdr_wf(mbuf@, 14),
        ensures
            r.wf(),
            r@ == mbuf@,
            r.spec_tailroom() == mbuf.spec_tailroom(),
            r.spec_headroom() == mbuf.spec_headroom(),
    {
        Ipv4 { mbuf, offset: 14 }
    }

    /// Validates the frame's body as an IPv4 packet: the header with its
    /// declared options must fit the live data, the version nibble must
    /// read 4, the header length field at least 5, and the total length
    /// must cover the header. The buffer is never changed; on failure the
    /// frame is consumed.
    pub fn parse(env: Ethernet) -> (r: Result<Ipv4, PacketError>)
        requires
            env.wf(),
        ensures
            r is Ok <==> ipv4_hdr_wf(env@, 14),
            r is Ok ==> {
                &&& r->Ok_0.wf()
                &&& r->Ok_0@ == env@
                &&& r->Ok_0.spec_tailroom() == env.spec_tailroom()
                &&& r->Ok_0.spec_headroom() == env.spec_headroom()
            },
            r is Err && env@.len() < 34 ==> r->Err_0 is Buffer,
            r is Err && env@.len() >= 34 ==> r->Err_0 is Parse,
    {
        let offset = env.payload_offset();
        let m = env.deparse();
        if m.data_len() < offset || m.data_len() - offset < IPV4_MIN_HEADER_LEN {
            if offset >= m.data_len() {
                return Err(
                    PacketError::Buffer(BufferError::BadOffset(offset, m.data_len())),
                );
            }
            let rem = m.data_len() - offset;
            return Err(PacketError::Buffer(BufferError::OutOfBuffer(IPV4_MIN_HEADER_LEN, rem)));
        }
        let ver_ihl = m.read_u8(offset);
        if ver_ihl / 16 != 4 {
            return Err(
                PacketError::Parse(ParseError { reason: "IPv4 version nibble is not 4" }),
            );
        }
        let ihl = (ver_ihl % 16) as usize;
        if ihl < 5 {
            return Err(
                PacketError::Parse(ParseError { reason: "IPv4 header length field is below 5" }),
            );
        }
        if m.data_len() - offset < 4 * ihl {
            return Err(
                PacketError::Parse(
                    ParseError { reason: "IPv4 options do not fit the live data" },
                ),
            );
        }
        if (m.read_u16(offset + 2) as usize) < 4 * ihl {
            return Err(
                PacketError::Parse(
                    ParseError { reason: "IPv4 total length does not cover the header" },
                ),
            );
        }
        Ok(Ipv4 { mbuf: m, offset })
    }

    /// Inserts a default IPv4 header — version 4, five words, everything
    /// else zero except a total length covering the header — between the
    /// Ethernet header and the frame's body, and marks the frame's
    /// ethertype as IPv4. Succeeds exactly when the header fits the spare
    /// tailroom.
    pub fn push(env: Ethernet) -> (r: Result<Ipv4, PacketError>)
        requires
            env.wf(),
        ensures
            r is Ok <==> IPV4_MIN_HEADER_LEN < env.spec_tailroom(),
            r is Ok ==> {
                &&& r->Ok_0.wf()
                &&& r->Ok_0@.len() == env@.len() + 20
                &&& r->Ok_0@.subrange(0, 12) == env@.subrange(0, 12)
                &&& be16(r->Ok_0@, 12) == 0x0800
                &&& r->Ok_0@[14] == 0x45u8
                &&& r->Ok_0@[15] == 0u8
                &&& be16(r->Ok_0@, 16) == 20
                &&& (forall|k: int| 18 <= k < 34 ==> r->Ok_0@[k] == 0u8)
                &&& r->Ok_0@.subrange(34, r->Ok_0@.len() as int) == env@.subrange(
                    14,
                    env@.len() as int,
                )
                &&& r->Ok_0.spec_tailroom() == env.spec_tailroom() - 20
                &&& r->Ok_0.spec_headroom() == env.spec_headroom()
            },
            r is Err ==> r->Err_0 is Buffer,
    {
        let ghost orig = env@;
        let offset = env.payload_offset();
        let mut m = env.deparse();
        match m.extend(offset, IPV4_MIN_HEADER_LEN) {
            Ok(_) => {},
            Err(e) => {
                return Err(PacketError::Buffer(e));
            },
        }
        proof {
            assert forall|k: int| 0 <= k < 14 implies m@[k] == orig[k] by {
                assert(m@.subrange(0, 14)[k] == orig.subrange(0, 14)[k]);
            }
            assert forall|k: int| 34 <= k < m@.len() implies m@[k] == orig[k - 20] by {
                assert(m@.subrange(34, m@.len() as int)[k - 34] == orig.subrange(
                    14,
                    orig.len() as int,
                )[k - 34]);
            }
        }
        m.write_u8(offset, 0x45);
        m.write_u8(offset + 1, 0);
        m.write_u16(offset + 2, 20);
        let mut j: usize = 18;
        while j < 34
            invariant
                18 <= j <= 34,
                m.wf(),
                m@.len() == orig.len() + 20,
                m@.len() >= 34,
                forall|k: int| 0 <= k < 14 ==> m@[k] == orig[k],
                m@[14] == 0x45u8,
                m@[15] == 0u8,
                be16(m@, 16) == 20,
                forall|k: int| 18 <= k < j ==> m@[k] == 0u8,
                forall|k: int| 34 <= k < m@.len() ==> m@[k] == orig[k - 20],
                m.spec_tailroom() == env.spec_tailroom() - 20,
                m.spec_headroom() == env.spec_headroom(),
            decreases 34 - j,
        {
            m.write_u8(j, 0);
            j = j + 1;
        }
        m.write_u16(12, 0x0800);
        proof {
            assert(m@.subrange(0, 12) =~= orig.subrange(0, 12));
            assert(m@.subrange(34, m@.len() as int) =~= orig.subrange(14, orig.len() as int));
        }
        Ok(Ipv4 { mbuf: m, offset })
    }

    /// Removes the IPv4 header — options included — shrinking the buffer,
    /// and returns the enclosing frame. The frame's ethertype is left as
    /// it stands: an Ethernet header names no previous protocol to
    /// restore.
    pub fn remove(self) -> (r: Result<Ethernet, PacketError>)
        requires
            self.wf(),
        ensures
            r is Ok,
            ({
                let hlen = self.spec_header_len();
                let out = r->Ok_0;
                &&& out.wf()
                &&& out@ == self@.subrange(0, 14) + self@.subrange(14 + hlen, self@.len() as int)
                &&& out.spec_tailroom() == self.spec_tailroom() + hlen
                &&& out.spec_headroom() == self.spec_headroom()
            }),
    {
        let hlen = 4 * ((self.mbuf.read_u8(self.offset) % 16) as usize);
        let mut m = self.mbuf;
        let res = m.shrink(14, hlen);
        proof {
            assert(res is Ok);
        }
        Ok(Ethernet::attach(m))
    }

    /// Returns the enclosing frame without further change.
    pub fn deparse(self) -> (r: Ethernet)
        requires
            self.wf(),
        ensures
            r.wf(),
            r@ == self@,
            r.spec_tailroom() == self.spec_tailroom(),
            r.spec_headroom() == self.spec_headroom(),
    {
        Ethernet::attach(self.mbuf)
    }

    /// Returns the raw buffer underneath every layer.
    pub fn reset(self) -> (r: Mbuf)
        requires
            self.wf(),
        ensures
            r.wf(),
            r@ == self@,
            r.spec_tailroom() == self.spec_tailroom(),
            r.spec_headroom() == self.spec_headroom(),
    {
        self.mbuf
    }

    /// Byte position of the IPv4 header.
    pub fn offset(&self) -> (r: usize)
        requires
            self.wf(),
        ensures
            r == self.spec_offset(),
    {
        self.offset
    }

    /// Bytes of the header, options included: the header length field in
    /// four-byte words.
    pub fn header_len(&self) -> (r: usize)
        requires
            self.wf(),
        ensures
            r == self.spec_header_len(),
    {
        4 * ((self.mbuf.read_u8(self.offset) % 16) as usize)
    }

    /// Bytes from the header to the end of the packet, as the total
    /// length field dictates.
    pub fn len(&self) -> (r: usize)
        requires
            self.wf(),
        ensures
            r == be16(self@, 16),
    {
        self.total_length() as usize
    }

    /// Byte position of the packet's payload, past the options.
    pub fn payload_offset(&self) -> (r: usize)
        requires
            self.wf(),
        ensures
            r == 14 + self.spec_header_len(),
    {
        self.offset + self.header_len()
    }

    /// Bytes of the packet's payload, as the total length field dictates.
    pub fn payload_len(&self) -> (r: usize)
        requires
            self.wf(),
        ensures
            r == be16(self@, 16) - self.spec_header_len(),
    {
        self.len() - self.header_len()
    }

    /// The IP version nibble; 4 for every well-formed packet.
    pub fn version(&self) -> (r: u8)
        requires
            self.wf(),
        ensures
            r == 4,
    {
        self.mbuf.read_u8(self.offset) / 16
    }

    /// The differentiated services code point, in the top six bits of
    /// the second header byte.
    pub fn dscp(&self) -> (r: u8)
        requires
            self.wf(),
        ensures
            r as int == (self@[15] as int) / 4,
    {
        self.mbuf.read_u8(self.offset + 1) / 4
    }

    /// The explicit congestion notification bits.
    pub fn ecn(&self) -> (r: u8)
        requires
            self.wf(),
        ensures
            r as int == (self@[15] as int) % 4,
    {
        self.mbuf.read_u8(self.offset + 1) % 4
    }

    /// The flag bits, in the top three bits of the seventh header byte.
    pub fn flags(&self) -> (r: u8)
        requires
            self.wf(),
        ensures
            r as int == (self@[20] as int) / 32,
    {
        self.mbuf.read_u8(self.offset + 6) / 32
    }

    /// The thirteen-bit fragment offset, in eight-byte units.
    pub fn fragment_offset(&self) -> (r: u16)
        requires
            self.wf(),
        ensures
            r as int == 256 * ((self@[20] as int) % 32) + (self@[21] as int),
    {
        ((self.mbuf.read_u8(self.offset + 6) % 32) as u16) * 256 + (self.mbuf.read_u8(
            self.offset + 7,
        ) as u16)
    }

    /// The total length field: bytes of the packet, header included.
    pub fn total_length(&self) -> (r: u16)
        requires
            self.wf(),
        ensures
            r as int == be16(self@, 16),
    {
        self.mbuf.read_u16(self.offset + 2)
    }

    /// The identification field.
    pub fn identification(&self) -> (r: u16)
        requires
            self.wf(),
        ensures
            r as int == be16(self@, 18),
    {
        self.mbuf.read_u16(self.offset + 4)
    }

    /// The time-to-live field.
    pub fn ttl(&self) -> (r: u8)
        requires
            self.wf(),
        ensures
            r == self@[22],
    {
        self.mbuf.read_u8(self.offset + 8)
    }

    /// Sets the time-to-live field.
    pub fn set_ttl(&mut self, v: u8)
        requires
            old(self).wf(),
        ensures
            final(self).wf(),
            final(self)@ == old(self)@.update(22, v),
            final(self).spec_tailroom() == old(self).spec_tailroom(),
            final(self).spec_headroom() == old(self).spec_headroom(),
    {
        self.mbuf.write_u8(self.offset + 8, v);
    }

    /// The protocol field: the protocol of the enclosed layer.
    pub fn protocol(&self) -> (r: u8)
        requires
            self.wf(),
        ensures
            r == self@[23],
    {
        self.mbuf.read_u8(self.offset + 9)
    }

    /// Sets the protocol field.
    pub fn set_protocol(&mut self, v: u8)
        requires
            old(self).wf(),
        ensures
            final(self).wf(),
            final(self)@ == old(self)@.update(23, v),
            final(self).spec_tailroom() == old(self).spec_tailroom(),
            final(self).spec_headroom() == old(self).spec_headroom(),
    {
        self.mbuf.write_u8(self.offset + 9, v);
    }

    /// The header checksum field.
    pub fn checksum(&self) -> (r: u16)
        requires
            self.wf(),
        ensures
            r as int == be16(self@, 24),
    {
        self.mbuf.read_u16(self.offset + 10)
    }

    /// The source address.
    pub fn src(&self) -> (r: Ipv4Addr)
        requires
            self.wf(),
        ensures
            r@ == self@.subrange(26, 30),
    {
        Ipv4Addr::read(&self.mbuf, self.offset + 12)
    }

    /// Sets the source address.
    pub fn set_src(&mut self, src: Ipv4Addr)
        requires
            old(self).wf(),
        ensures
            final(self).wf(),
            final(self)@.len() == old(self)@.len(),
            final(self)@.subrange(26, 30) == src@,
            forall|k: int|
                0 <= k < old(self)@.len() && !(26 <= k < 30) ==> final(self)@[k] == old(
                    self,
                )@[k],
            final(self).spec_tailroom() == old(self).spec_tailroom(),
            final(self).spec_headroom() == old(self).spec_headroom(),
    {
        src.write(&mut self.mbuf, self.offset + 12);
    }

    /// The destination address.
    pub fn dst(&self) -> (r: Ipv4Addr)
        requires
            self.wf(),
        ensures
            r@ == self@.subrange(30, 34),
    {
        Ipv4Addr::read(&self.mbuf, self.offset + 16)
    }

    /// Sets the destination address.
    pub fn set_dst(&mut self, dst: Ipv4Addr)
        requires
            old(self).wf(),
        ensures
            final(self).wf(),
            final(self)@.len() == old(self)@.len(),
            final(self)@.subrange(30, 34) == dst@,
            forall|k: int|
                0 <= k < old(self)@.len() && !(30 <= k < 34) ==> final(self)@[k] == old(
                    self,
                )@[k],
            final(self).spec_tailroom() == old(self).spec_tailroom(),
            final(self).spec_headroom() == old(self).spec_headroom(),
    {
        dst.write(&mut self.mbuf, self.offset + 16);
    }

    /// Recomputes the total length from the live data and the header
    /// checksum from the header bytes, so that both again describe the
    /// packet as it stands.
    pub fn cascade(&mut self)
        requires
            old(self).wf(),
        ensures
            final(self).wf(),
            final(self)@ == ipv4_reconciled(old(self)@),
            final(self).spec_tailroom() == old(self).spec_tailroom(),
            final(self).spec_headroom() == old(self).spec_headroom(),
    {
        let total = self.mbuf.data_len() - self.offset;
        self.mbuf.write_u16(self.offset + 2, total as u16);
        let ghost d2 = self@;
        let hlen = 4 * ((self.mbuf.read_u8(self.offset) % 16) as usize);
        self.mbuf.write_u16(self.offset + 10, 0);
        let sum = range_sum(&self.mbuf, self.offset, self.offset + hlen);
        let c = fold_checksum(sum);
        self.mbuf.write_u16(self.offset + 10, c);
        proof {
            assert(put16(put16(d2, 24, 0), 24, c as int) =~= put16(d2, 24, c as int));
            assert(self@ =~= ipv4_reconciled(old(self)@));
        }
    }
}

} // verus!
