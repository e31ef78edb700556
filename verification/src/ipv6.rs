//! The IPv6 layer over an Ethernet frame: the fixed 40-byte header of RFC
//! 8200, with a payload length, next header, hop limit and two addresses.

use vstd::prelude::*;
use crate::errors::{PacketError, ParseError};
use crate::ethernet::Ethernet;
use crate::ipaddr::Ipv6Addr;
use crate::mbuf::{be16, put16, BufferError, Mbuf};

verus! {

broadcast use crate::mbuf::lemma_wf_bounds;

/// Bytes of the fixed IPv6 header.
pub const IPV6_HEADER_LEN: usize = 40;

/// An IPv6 header lies at `off`: it fits the live data and its version
/// nibble reads 6.
pub open spec fn ipv6_hdr_wf(d: Seq<u8>, off: int) -> bool {
    &&& off + 40 <= d.len()
    &&& (d[off] as int) / 16 == 6
}

/// An IPv6 packet enclosed in an Ethernet frame: a typed view over the
/// frame's body, with the fixed header at offset 14.
#[derive(Debug)]
pub struct Ipv6 {
    mbuf: Mbuf,
    offset: usize,
}

impl View for Ipv6 {
    type V = Seq<u8>;

    /// The live data of the underlying buffer.
    closed spec fn view(&self) -> Seq<u8> {
        self.mbuf@
    }
}

impl Ipv6 {
    /// The underlying buffer's bookkeeping is consistent.
    pub closed spec fn buf_wf(&self) -> bool {
        self.mbuf.wf()
    }

    /// Byte position of the IPv6 header within the buffer.
    pub closed spec fn spec_offset(&self) -> int {
        self.offset as int
    }

    /// Tailroom of the underlying buffer.
    pub closed spec fn spec_tailroom(&self) -> int {
        self.mbuf.spec_tailroom()
    }

    /// Headroom of the underlying buffer.
    pub closed spec fn spec_headroom(&self) -> int {
        self.mbuf.spec_headroom()
    }

    /// A well-formed packet view: a consistent buffer, the header right
    /// after the Ethernet header, and a version nibble of 6.
    pub open spec fn wf(&self) -> bool {
        &&& self.buf_wf()
        &&& self.spec_offset() == 14
        &&& ipv6_hdr_wf(self@, 14)
    }

    /// Wraps a buffer known to hold an IPv6 header at offset 14.
    pub(crate) fn attach(mbuf: Mbuf) -> (r: Ipv6)
        requires
            mbuf.wf(),
            ipv6_hdr_wf(mbuf@, 14),
        ensures
            r.wf(),
            r@ == mbuf@,
            r.spec_tailroom() == mbuf.spec_tailroom(),
            r.spec_headroom() == mbuf.spec_headroom(),
    {
        Ipv6 { mbuf, offset: 14 }
    }

    /// Validates the frame's body as an IPv6 packet: the fixed header must
    /// fit and the version nibble must read 6. The buffer is never
    /// changed; on failure the frame is consumed with it.
    pub fn parse(env: Ethernet) -> (r: Result<Ipv6, PacketError>)
        requires
            env.wf(),
        ensures
            r is Ok <==> ipv6_hdr_wf(env@, 14),
            r is Ok ==> {
                &&& r->Ok_0.wf()
                &&& r->Ok_0@ == env@
                &&& r->Ok_0.spec_tailroom() == env.spec_tailroom()
                &&& r->Ok_0.spec_headroom() == env.spec_headroom()
            },
            r is Err && env@.len() < 54 ==> r->Err_0 is Buffer,
            r is Err && env@.len() >= 54 ==> r->Err_0 is Parse,
    {
        let offset = env.payload_offset();
        let m = env.deparse();
        if m.data_len() < offset || m.data_len() - offset < IPV6_HEADER_LEN {
            if offset >= m.data_len() {
                return Err(
                    PacketError::Buffer(BufferError::BadOffset(offset, m.data_len())),
                );
            }
            let rem = m.data_len() - offset;
            return Err(PacketError::Buffer(BufferError::OutOfBuffer(IPV6_HEADER_LEN, rem)));
        }
        if m.read_u8(offset) / 16 != 6 {
            return Err(
                PacketError::Parse(ParseError { reason: "IPv6 version nibble is not 6" }),
            );
        }
        Ok(Ipv6 { mbuf: m, offset })
    }

    /// Inserts a default IPv6 header — version 6, everything else zero —
    /// between the Ethernet header and the frame's body, and marks the
    /// frame's ethertype as IPv6. Succeeds exactly when the header fits
    /// the spare tailroom.
    pub fn push(env: Ethernet) -> (r: Result<Ipv6, PacketError>)
        requires
            env.wf(),
        ensures
            r is Ok <==> IPV6_HEADER_LEN < env.spec_tailroom(),
            r is Ok ==> {
                &&& r->Ok_0.wf()
                &&& r->Ok_0@.len() == env@.len() + 40
                &&& r->Ok_0@.subrange(0, 12) == env@.subrange(0, 12)
                &&& be16(r->Ok_0@, 12) == 0x86DD
                &&& r->Ok_0@[14] == 0x60u8
                &&& (forall|k: int| 15 <= k < 54 ==> r->Ok_0@[k] == 0u8)
                &&& r->Ok_0@.subrange(54, r->Ok_0@.len() as int) == env@.subrange(
                    14,
                    env@.len() as int,
                )
                &&& r->Ok_0.spec_tailroom() == env.spec_tailroom() - 40
                &&& r->Ok_0.spec_headroom() == env.spec_headroom()
            },
            r is Err ==> r->Err_0 is Buffer,
    {
        let ghost orig = env@;
        let ghost orig_tail = env.spec_tailroom();
        let ghost orig_head = env.spec_headroom();
        let offset = env.payload_offset();
        let mut m = env.deparse();
        match m.extend(offset, IPV6_HEADER_LEN) {
            Ok(_) => {},
            Err(e) => {
                return Err(PacketError::Buffer(e));
            },
        }
        proof {
            assert(m@.subrange(0, 14) =~= orig.subrange(0, 14));
            assert(m@.subrange(54, m@.len() as int) =~= orig.subrange(14, orig.len() as int));
        }
        m.write_u8(offset, 0x60);
        let mut j: usize = 15;
        while j < 54
            invariant
                15 <= j <= 54,
                m.wf(),
                m@.len() == orig.len() + 40,
                m@.len() >= 54,
                m@.subrange(0, 14) == orig.subrange(0, 14),
                m@[14] == 0x60u8,
                forall|k: int| 15 <= k < j ==> m@[k] == 0u8,
                m@.subrange(54, m@.len() as int) == orig.subrange(14, orig.len() as int),
                m.spec_tailroom() == orig_tail - 40,
                m.spec_headroom() == orig_head,
            decreases 54 - j,
        {
            let ghost pre = m@;
            m.write_u8(j, 0);
            proof {
                assert(m@.subrange(0, 14) =~= pre.subrange(0, 14));
                assert(m@.subrange(54, m@.len() as int) =~= pre.subrange(54, pre.len() as int));
            }
            j = j + 1;
        }
        let ghost pre = m@;
        m.write_u16(12, 0x86DD);
        proof {
            assert(m@.subrange(0, 12) =~= orig.subrange(0, 12));
            assert(m@.subrange(54, m@.len() as int) =~= pre.subrange(54, pre.len() as int));
        }
        Ok(Ipv6 { mbuf: m, offset })
    }

    /// Removes the IPv6 header, shrinking the buffer, and returns the
    /// enclosing frame. The frame's ethertype is left as it stands: an
    /// Ethernet header names no previous protocol to restore.
    pub fn remove(self) -> (r: Result<Ethernet, PacketError>)
        requires
            self.wf(),
        ensures
            r is Ok,
            r->Ok_0.wf(),
            r->Ok_0@ == self@.subrange(0, 14) + self@.subrange(54, self@.len() as int),
            r->Ok_0.spec_tailroom() == self.spec_tailroom() + 40,
            r->Ok_0.spec_headroom() == self.spec_headroom(),
    {
        let ghost orig = self@;
        let mut m = self.mbuf;
        let res = m.shrink(14, IPV6_HEADER_LEN);
        proof {
            assert(res is Ok);
        }
        Ok(Ethernet::attach(m))
    }

    /// Returns the enclosing frame without further change.
    pub fn deparse(self) -> (r: Ethernet)
        requires
            self.wf(),
        ensures
            r.wf(),
            r@ == self@,
            r.spec_tailroom() == self.spec_tailroom(),
            r.spec_headroom() == self.spec_headroom(),
    {
        Ethernet::attach(self.mbuf)
    }

    /// Returns the raw buffer underneath every layer.
    pub fn reset(self) -> (r: Mbuf)
        requires
            self.wf(),
        ensures
            r.wf(),
            r@ == self@,
            r.spec_tailroom() == self.spec_tailroom(),
            r.spec_headroom() == self.spec_headroom(),
    {
        self.mbuf
    }

    /// Byte position of the IPv6 header.
    pub fn offset(&self) -> (r: usize)
        requires
            self.wf(),
        ensures
            r == self.spec_offset(),
    {
        self.offset
    }

    /// Bytes of the fixed IPv6 header.
    pub fn header_len(&self) -> (r: usize)
        ensures
            r == 40,
    {
        IPV6_HEADER_LEN
    }

    /// Bytes from the header to the end of the packet, as the payload
    /// length field dictates.
    pub fn len(&self) -> (r: usize)
        requires
            self.wf(),
        ensures
            r == 40 + be16(self@, 18),
    {
        IPV6_HEADER_LEN + (self.payload_length() as usize)
    }

    /// Byte position of the packet's payload.
    pub fn payload_offset(&self) -> (r: usize)
        requires
            self.wf(),
        ensures
            r == self.spec_offset() + 40,
    {
        self.offset + IPV6_HEADER_LEN
    }

    /// Bytes of the packet's payload, as the payload length field
    /// dictates.
    pub fn payload_len(&self) -> (r: usize)
        requires
            self.wf(),
        ensures
            r == be16(self@, 18),
    {
        self.payload_length() as usize
    }

    /// The IP version nibble; 6 for every well-formed packet.
    pub fn version(&self) -> (r: u8)
        requires
            self.wf(),
        ensures
            r == 6,
    {
        self.mbuf.read_u8(self.offset) / 16
    }

    /// The traffic class byte, spread over the first two header bytes.
    pub fn traffic_class(&self) -> (r: u8)
        requires
            self.wf(),
        ensures
            r as int == 16 * ((self@[14] as int) % 16) + (self@[15] as int) / 16,
    {
        (self.mbuf.read_u8(self.offset) % 16) * 16 + self.mbuf.read_u8(self.offset + 1) / 16
    }

    /// The twenty-bit flow label in the low bits of the first header
    /// word.
    pub fn flow_label(&self) -> (r: u32)
        requires
            self.wf(),
        ensures
            r as int == 0x10000 * ((self@[15] as int) % 16) + be16(self@, 16),
    {
        ((self.mbuf.read_u8(self.offset + 1) % 16) as u32) * 0x10000 + (self.mbuf.read_u16(
            self.offset + 2,
        ) as u32)
    }

    /// The payload length field: bytes of the packet after the fixed
    /// header, extension headers included.
    pub fn payload_length(&self) -> (r: u16)
        requires
            self.wf(),
        ensures
            r as int == be16(self@, 18),
    {
        self.mbuf.read_u16(self.offset + 4)
    }

    /// Sets the payload length field.
    pub fn set_payload_length(&mut self, v: u16)
        requires
            old(self).wf(),
        ensures
            final(self).wf(),
            final(self)@ == put16(old(self)@, 18, v as int),
            final(self).spec_tailroom() == old(self).spec_tailroom(),
            final(self).spec_headroom() == old(self).spec_headroom(),
    {
        self.mbuf.write_u16(self.offset + 4, v);
    }

    /// The next header field: the protocol of the enclosed layer.
    pub fn next_header(&self) -> (r: u8)
        requires
            self.wf(),
        ensures
            r == self@[20],
    {
        self.mbuf.read_u8(self.offset + 6)
    }

    /// Sets the next header field.
    pub fn set_next_header(&mut self, v: u8)
        requires
            old(self).wf(),
        ensures
            final(self).wf(),
            final(self)@ == old(self)@.update(20, v),
            final(self).spec_tailroom() == old(self).spec_tailroom(),
            final(self).spec_headroom() == old(self).spec_headroom(),
    {
        self.mbuf.write_u8(self.offset + 6, v);
    }

    /// The hop limit field.
    pub fn hop_limit(&self) -> (r: u8)
        requires
            self.wf(),
        ensures
            r == self@[21],
    {
        self.mbuf.read_u8(self.offset + 7)
    }

    /// Sets the hop limit field.
    pub fn set_hop_limit(&mut self, v: u8)
        requires
            old(self).wf(),
        ensures
            final(self).wf(),
            final(self)@ == old(self)@.update(21, v),
            final(self).spec_tailroom() == old(self).spec_tailroom(),
            final(self).spec_headroom() == old(self).spec_headroom(),
    {
        self.mbuf.write_u8(self.offset + 7, v);
    }

    /// The source address.
    pub fn src(&self) -> (r: Ipv6Addr)
        requires
            self.wf(),
        ensures
            r@ == self@.subrange(22, 38),
    {
        Ipv6Addr::read(&self.mbuf, self.offset + 8)
    }

    /// Sets the source address.
    pub fn set_src(&mut self, src: Ipv6Addr)
        requires
            old(self).wf(),
        ensures
            final(self).wf(),
            final(self)@.len() == old(self)@.len(),
            final(self)@.subrange(22, 38) == src@,
            forall|k: int|
                0 <= k < old(self)@.len() && !(22 <= k < 38) ==> final(self)@[k] == old(
                    self,
                )@[k],
            final(self).spec_tailroom() == old(self).spec_tailroom(),
            final(self).spec_headroom() == old(self).spec_headroom(),
    {
        src.write(&mut self.mbuf, self.offset + 8);
    }

    /// The destination address.
    pub fn dst(&self) -> (r: Ipv6Addr)
        requires
            self.wf(),
        ensures
            r@ == self@.subrange(38, 54),
    {
        Ipv6Addr::read(&self.mbuf, self.offset + 24)
    }

    /// Sets the destination address.
    pub fn set_dst(&mut self, dst: Ipv6Addr)
        requires
            old(self).wf(),
        ensures
            final(self).wf(),
            final(self)@.len() == old(self)@.len(),
            final(self)@.subrange(38, 54) == dst@,
            forall|k: int|
                0 <= k < old(self)@.len() && !(38 <= k < 54) ==> final(self)@[k] == old(
                    self,
                )@[k],
            final(self).spec_tailroom() == old(self).spec_tailroom(),
            final(self).spec_headroom() == old(self).spec_headroom(),
    {
        dst.write(&mut self.mbuf, self.offset + 24);
    }

    /// Recomputes the payload length from the live data, so that the field
    /// again covers everything after the fixed header.
    pub fn cascade(&mut self)
        requires
            old(self).wf(),
        ensures
            final(self).wf(),
            final(self)@ == put16(old(self)@, 18, old(self)@.len() - 54),
            be16(final(self)@, 18) == old(self)@.len() - 54,
            final(self).spec_tailroom() == old(self).spec_tailroom(),
            final(self).spec_headroom() == old(self).spec_headroom(),
    {
        let fresh = self.mbuf.data_len() - (self.offset + IPV6_HEADER_LEN);
        self.mbuf.write_u16(self.offset + 4, fresh as u16);
    }
}

} // verus!
