//! The IPv6 segment routing extension header (routing type 4): a fixed
//! eight-byte prefix followed by a list of IPv6 addresses, enclosed in an
//! IPv6 packet and itself enclosing the transport layer.

use vstd::prelude::*;
use crate::errors::{BadSegmentsError, PacketError, ParseError};
use crate::ipaddr::Ipv6Addr;
use crate::ipv6::{ipv6_hdr_wf, Ipv6};
use crate::mbuf::{be16, put16, BufferError, Mbuf, SizeOf};
use crate::proto::PROTO_IPV6_ROUTE;

verus! {

broadcast use crate::mbuf::lemma_wf_bounds;

/// Bytes of the fixed prefix of a segment routing header.
pub const SRH_FIXED_LEN: usize = 8;

/// The routing type the segment routing header carries.
pub const SRH_ROUTING_TYPE: u8 = 4;

/// Number of list entries a segment routing header at `off` declares: its
/// last-entry field plus one.
pub open spec fn srh_seg_count(d: Seq<u8>, off: int) -> int {
    (d[off + 4] as int) + 1
}

/// The bytes of the `i`-th segment of a segment routing header at `off`.
pub open spec fn srh_segment_bytes(d: Seq<u8>, off: int, i: int) -> Seq<u8> {
    d.subrange(off + 8 + 16 * i, off + 8 + 16 * i + 16)
}

/// A segment routing header lies at `off`: its fixed prefix and declared
/// segment list fit the live data, and its length field is consistent
/// with its last-entry field — twice the entry count, in eight-byte
/// units.
pub open spec fn srh_hdr_wf(d: Seq<u8>, off: int) -> bool {
    &&& off + 8 <= d.len()
    &&& d[off + 1] != 0
    &&& 2 * srh_seg_count(d, off) == d[off + 1] as int
    &&& off + 8 + 16 * srh_seg_count(d, off) <= d.len()
}

/// The fixed prefix of a segment routing header, as a plain record.
#[derive(Clone, Copy, Debug, PartialEq, Eq, Structural)]
pub struct SegmentRoutingHeader {
    /// Protocol of the layer following the header.
    pub next_header: u8,
    /// Length of the header past its first eight bytes, in eight-byte
    /// units.
    pub hdr_ext_len: u8,
    /// Routing type; 4 for segment routing.
    pub routing_type: u8,
    /// Route segments still to be visited.
    pub segments_left: u8,
    /// Index of the last entry of the segment list.
    pub last_entry: u8,
    /// Flag bits; unused and kept zero.
    pub flags: u8,
    /// Tag marking the packet as part of a class of packets.
    pub tag: u16,
}

impl Default for SegmentRoutingHeader {
    /// The prefix of a minimal header: one segment, routing type 4,
    /// everything else zero.
    fn default() -> (r: SegmentRoutingHeader)
        ensures
            r == (SegmentRoutingHeader {
                next_header: 0u8,
                hdr_ext_len: 2u8,
                routing_type: 4u8,
                segments_left: 0u8,
                last_entry: 0u8,
                flags: 0u8,
                tag: 0u16,
            }),
    {
        SegmentRoutingHeader {
            next_header: 0,
            hdr_ext_len: 2,
            routing_type: 4,
            segments_left: 0,
            last_entry: 0,
            flags: 0,
            tag: 0,
        }
    }
}

impl SizeOf for SegmentRoutingHeader {
    open spec fn spec_size_of() -> usize {
        8
    }

    fn size_of() -> (n: usize)
        ensures
            n == Self::spec_size_of(),
    {
        8
    }
}

/// A segment routing header enclosed in an IPv6 packet: a typed view with
/// the fixed prefix at offset 54 and the segment list after it.
#[derive(Debug)]
pub struct SegmentRouting {
    mbuf: Mbuf,
    offset: usize,
}

impl View for SegmentRouting {
    type V = Seq<u8>;

    /// The live data of the underlying buffer.
    closed spec fn view(&self) -> Seq<u8> {
        self.mbuf@
    }
}

impl SegmentRouting {
    /// The underlying buffer's bookkeeping is consistent.
    pub closed spec fn buf_wf(&self) -> bool {
        self.mbuf.wf()
    }

    /// Byte position of the fixed prefix within the buffer.
    pub closed spec fn spec_offset(&self) -> int {
        self.offset as int
    }

    /// Tailroom of the underlying buffer.
    pub closed spec fn spec_tailroom(&self) -> int {
        self.mbuf.spec_tailroom()
    }

    /// Headroom of the underlying buffer.
    pub closed spec fn spec_headroom(&self) -> int {
        self.mbuf.spec_headroom()
    }

    /// Number of entries of the segment list.
    pub open spec fn spec_seg_count(&self) -> int {
        srh_seg_count(self@, 54)
    }

    /// A well-formed view: a consistent buffer, a well-formed enclosing
    /// IPv6 header, and a consistent segment routing header right after
    /// it.
    pub open spec fn wf(&self) -> bool {
        &&& self.buf_wf()
        &&& self.spec_offset() == 54
        &&& ipv6_hdr_wf(self@, 14)
        &&& srh_hdr_wf(self@, 54)
    }

    /// Wraps a buffer known to hold IPv6 and segment routing headers.
    pub(crate) fn attach(mbuf: Mbuf) -> (r: SegmentRouting)
        requires
            mbuf.wf(),
            ipv6_hdr_wf(mbuf@, 14),
            srh_hdr_wf(mbuf@, 54),
        ensures
            r.wf(),
            r@ == mbuf@,
            r.spec_tailroom() == mbuf.spec_tailroom(),
            r.spec_headroom() == mbuf.spec_headroom(),
    {
        SegmentRouting { mbuf, offset: 54 }
    }

    /// Validates the packet's payload as a segment routing header: the
    /// fixed prefix must fit, the length field must be twice the entry
    /// count and not zero, and the declared segment list must fit. The
    /// buffer is never changed; on failure the packet is consumed.
    pub fn parse(env: Ipv6) -> (r: Result<SegmentRouting, PacketError>)
        requires
            env.wf(),
        ensures
            r is Ok <==> srh_hdr_wf(env@, 54),
            r is Ok ==> {
                &&& r->Ok_0.wf()
                &&& r->Ok_0@ == env@
                &&& r->Ok_0.spec_tailroom() == env.spec_tailroom()
                &&& r->Ok_0.spec_headroom() == env.spec_headroom()
            },
            r is Err && env@.len() < 62 ==> r->Err_0 is Buffer,
            r is Err && env@.len() >= 62 && !(env@[55] != 0 && 2 * srh_seg_count(env@, 54)
                == env@[55] as int) ==> r->Err_0 is Parse,
            r is Err && env@.len() >= 62 && env@[55] != 0 && 2 * srh_seg_count(env@, 54)
                == env@[55] as int ==> r->Err_0 is Buffer,
    {
        let offset = env.payload_offset();
        let m = env.deparse().deparse();
        if m.data_len() < offset || m.data_len() - offset < SRH_FIXED_LEN {
            if offset >= m.data_len() {
                return Err(
                    PacketError::Buffer(BufferError::BadOffset(offset, m.data_len())),
                );
            }
            let rem = m.data_len() - offset;
            return Err(PacketError::Buffer(BufferError::OutOfBuffer(SRH_FIXED_LEN, rem)));
        }
        let hdr_ext_len = m.read_u8(offset + 1);
        let seg_count = (m.read_u8(offset + 4) as usize) + 1;
        if hdr_ext_len == 0 || 2 * seg_count != hdr_ext_len as usize {
            return Err(
                PacketError::Parse(
                    ParseError { reason: "segment routing header has an inconsistent segment list length" },
                ),
            );
        }
        if m.data_len() - offset - SRH_FIXED_LEN < 16 * seg_count {
            let rem = m.data_len() - (offset + SRH_FIXED_LEN);
            return Err(PacketError::Buffer(BufferError::OutOfBuffer(16 * seg_count, rem)));
        }
        Ok(SegmentRouting { mbuf: m, offset })
    }

    /// Inserts a minimal segment routing header — one unspecified segment
    /// — between the IPv6 header and the packet's payload: the new header
    /// takes over the packet's next-header protocol, and the IPv6 header's
    /// next header becomes the routing protocol. Succeeds exactly when the
    /// twenty-four new bytes fit the spare tailroom.
    pub fn push(env: Ipv6) -> (r: Result<SegmentRouting, PacketError>)
        requires
            env.wf(),
        ensures
            r is Ok <==> 24 < env.spec_tailroom(),
            r is Ok ==> {
                &&& r->Ok_0.wf()
                &&& r->Ok_0@.len() == env@.len() + 24
                &&& r->Ok_0@.subrange(0, 20) == env@.subrange(0, 20)
                &&& r->Ok_0@[20] == PROTO_IPV6_ROUTE
                &&& r->Ok_0@.subrange(21, 54) == env@.subrange(21, 54)
                &&& r->Ok_0@[54] == env@[20]
                &&& r->Ok_0@[55] == 2u8 && r->Ok_0@[56] == 4u8 && r->Ok_0@[57] == 0u8
                &&& r->Ok_0@[58] == 0u8 && r->Ok_0@[59] == 0u8
                &&& r->Ok_0@[60] == 0u8 && r->Ok_0@[61] == 0u8
                &&& (forall|k: int| 62 <= k < 78 ==> r->Ok_0@[k] == 0u8)
                &&& r->Ok_0@.subrange(78, r->Ok_0@.len() as int) == env@.subrange(
                    54,
                    env@.len() as int,
                )
                &&& r->Ok_0.spec_seg_count() == 1
                &&& r->Ok_0.spec_tailroom() == env.spec_tailroom() - 24
                &&& r->Ok_0.spec_headroom() == env.spec_headroom()
            },
            r is Err ==> r->Err_0 is Buffer,
    {
        let ghost orig = env@;
        let ghost orig_tail = env.spec_tailroom();
        let ghost orig_head = env.spec_headroom();
        let offset = env.payload_offset();
        let next_proto = env.next_header();
        let mut m = env.deparse().deparse();
        match m.extend(offset, SRH_FIXED_LEN + 16) {
            Ok(_) => {},
            Err(e) => {
                return Err(PacketError::Buffer(e));
            },
        }
        proof {
            assert forall|k: int| 0 <= k < 54 implies m@[k] == orig[k] by {
                assert(m@.subrange(0, 54)[k] == orig.subrange(0, 54)[k]);
            }
            assert forall|k: int| 78 <= k < m@.len() implies m@[k] == orig[k - 24] by {
                assert(m@.subrange(78, m@.len() as int)[k - 78] == orig.subrange(
                    54,
                    orig.len() as int,
                )[k - 78]);
            }
        }
        m.write_u8(offset, next_proto);
        m.write_u8(offset + 1, 2);
        m.write_u8(offset + 2, SRH_ROUTING_TYPE);
        m.write_u8(offset + 3, 0);
        m.write_u8(offset + 4, 0);
        m.write_u8(offset + 5, 0);
        m.write_u8(offset + 6, 0);
        m.write_u8(offset + 7, 0);
        let zero_seg = Ipv6Addr::unspecified();
        zero_seg.write(&mut m, offset + 8);
        m.write_u8(20, PROTO_IPV6_ROUTE);
        proof {
            assert(m@.subrange(0, 20) =~= orig.subrange(0, 20));
            assert(m@.subrange(21, 54) =~= orig.subrange(21, 54));
            assert(m@.subrange(78, m@.len() as int) =~= orig.subrange(54, orig.len() as int));
            assert(m@.subrange(62, 78) =~= zero_seg@);
            assert forall|k: int| 62 <= k < 78 implies m@[k] == 0u8 by {
                assert(m@.subrange(62, 78)[k - 62] == zero_seg@[k - 62]);
            }
        }
        Ok(SegmentRouting { mbuf: m, offset })
    }

    /// Removes the whole segment routing header — prefix and segment list
    /// — shrinking the buffer, and restores the header's next-header
    /// protocol into the enclosing IPv6 header.
    pub fn remove(self) -> (r: Result<Ipv6, PacketError>)
        requires
            self.wf(),
        ensures
            r is Ok,
            ({
                let hlen = 8 + 16 * self.spec_seg_count();
                let out = r->Ok_0;
                &&& out.wf()
                &&& out@.len() == self@.len() - hlen
                &&& out@.subrange(0, 20) == self@.subrange(0, 20)
                &&& out@[20] == self@[54]
                &&& out@.subrange(21, 54) == self@.subrange(21, 54)
                &&& out@.subrange(54, out@.len() as int) == self@.subrange(
                    54 + hlen,
                    self@.len() as int,
                )
                &&& out.spec_tailroom() == self.spec_tailroom() + hlen
                &&& out.spec_headroom() == self.spec_headroom()
            }),
    {
        let ghost orig = self@;
        let next_proto = self.mbuf.read_u8(self.offset);
        let seg_count = (self.mbuf.read_u8(self.offset + 4) as usize) + 1;
        let hlen = SRH_FIXED_LEN + 16 * seg_count;
        let mut m = self.mbuf;
        let res = m.shrink(54, hlen);
        proof {
            assert(res is Ok);
        }
        m.write_u8(20, next_proto);
        proof {
            assert(m@.subrange(0, 20) =~= orig.subrange(0, 20));
            assert(m@.subrange(21, 54) =~= orig.subrange(21, 54));
            assert(m@.subrange(54, m@.len() as int) =~= orig.subrange(
                54 + (8 + 16 * srh_seg_count(orig, 54)),
                orig.len() as int,
            ));
        }
        Ok(Ipv6::attach(m))
    }

    /// Returns the enclosing IPv6 packet without further change.
    pub fn deparse(self) -> (r: Ipv6)
        requires
            self.wf(),
        ensures
            r.wf(),
            r@ == self@,
            r.spec_tailroom() == self.spec_tailroom(),
            r.spec_headroom() == self.spec_headroom(),
    {
        Ipv6::attach(self.mbuf)
    }

    /// Returns the raw buffer underneath every layer.
    pub fn reset(self) -> (r: Mbuf)
        requires
            self.wf(),
        ensures
            r.wf(),
            r@ == self@,
            r.spec_tailroom() == self.spec_tailroom(),
            r.spec_headroom() == self.spec_headroom(),
    {
        self.mbuf
    }

    /// Byte position of the fixed prefix.
    pub fn offset(&self) -> (r: usize)
        requires
            self.wf(),
        ensures
            r == self.spec_offset(),
    {
        self.offset
    }

    /// Bytes of the whole header: the fixed prefix and the segment list.
    pub fn header_len(&self) -> (r: usize)
        requires
            self.wf(),
        ensures
            r == 8 + 16 * self.spec_seg_count(),
    {
        SRH_FIXED_LEN + 16 * ((self.mbuf.read_u8(self.offset + 4) as usize) + 1)
    }

    /// Bytes from the header to the end of the packet: the header has no
    /// length field of its own, so its body runs to the end of the
    /// buffer.
    pub fn len(&self) -> (r: usize)
        requires
            self.wf(),
        ensures
            r == self@.len() - 54,
    {
        self.mbuf.data_len() - self.offset
    }

    /// Byte position of the enclosed layer.
    pub fn payload_offset(&self) -> (r: usize)
        requires
            self.wf(),
        ensures
            r == 62 + 16 * self.spec_seg_count(),
    {
        self.offset + self.header_len()
    }

    /// Bytes of the enclosed layer.
    pub fn payload_len(&self) -> (r: usize)
        requires
            self.wf(),
        ensures
            r == self@.len() - 62 - 16 * self.spec_seg_count(),
    {
        self.len() - self.header_len()
    }

    /// The fixed prefix as a plain record.
    pub fn header(&self) -> (r: SegmentRoutingHeader)
        requires
            self.wf(),
        ensures
            r.next_header == self@[54],
            r.hdr_ext_len == self@[55],
            r.routing_type == self@[56],
            r.segments_left == self@[57],
            r.last_entry == self@[58],
            r.flags == self@[59],
            r.tag as int == be16(self@, 60),
    {
        SegmentRoutingHeader {
            next_header: self.mbuf.read_u8(self.offset),
            hdr_ext_len: self.mbuf.read_u8(self.offset + 1),
            routing_type: self.mbuf.read_u8(self.offset + 2),
            segments_left: self.mbuf.read_u8(self.offset + 3),
            last_entry: self.mbuf.read_u8(self.offset + 4),
            flags: self.mbuf.read_u8(self.offset + 5),
            tag: self.mbuf.read_u16(self.offset + 6),
        }
    }

    /// The protocol of the layer following the header.
    pub fn next_header(&self) -> (r: u8)
        requires
            self.wf(),
        ensures
            r == self@[54],
    {
        self.mbuf.read_u8(self.offset)
    }

    /// Sets the protocol of the layer following the header.
    pub fn set_next_header(&mut self, v: u8)
        requires
            old(self).wf(),
        ensures
            final(self).wf(),
            final(self)@ == old(self)@.update(54, v),
            final(self).spec_tailroom() == old(self).spec_tailroom(),
            final(self).spec_headroom() == old(self).spec_headroom(),
    {
        self.mbuf.write_u8(self.offset, v);
    }

    /// The header length field: eight-byte units past the first eight
    /// bytes; twice the entry count for every well-formed header.
    pub fn hdr_ext_len(&self) -> (r: u8)
        requires
            self.wf(),
        ensures
            r == self@[55],
            r as int == 2 * self.spec_seg_count(),
    {
        self.mbuf.read_u8(self.offset + 1)
    }

    /// The routing type field.
    pub fn routing_type(&self) -> (r: u8)
        requires
            self.wf(),
        ensures
            r == self@[56],
    {
        self.mbuf.read_u8(self.offset + 2)
    }

    /// Sets the routing type field.
    pub fn set_routing_type(&mut self, v: u8)
        requires
            old(self).wf(),
        ensures
            final(self).wf(),
            final(self)@ == old(self)@.update(56, v),
            final(self).spec_tailroom() == old(self).spec_tailroom(),
            final(self).spec_headroom() == old(self).spec_headroom(),
    {
        self.mbuf.write_u8(self.offset + 2, v);
    }

    /// The number of route segments still to be visited.
    pub fn segments_left(&self) -> (r: u8)
        requires
            self.wf(),
        ensures
            r == self@[57],
    {
        self.mbuf.read_u8(self.offset + 3)
    }

    /// Sets the segments-left field. The enclosing IPv6 destination
    /// should be kept in sync with the segment the field now names; see
    /// `set_dst`.
    pub fn set_segments_left(&mut self, v: u8)
        requires
            old(self).wf(),
        ensures
            final(self).wf(),
            final(self)@ == old(self)@.update(57, v),
            final(self).spec_tailroom() == old(self).spec_tailroom(),
            final(self).spec_headroom() == old(self).spec_headroom(),
    {
        self.mbuf.write_u8(self.offset + 3, v);
    }

    /// The index of the last entry of the segment list.
    pub fn last_entry(&self) -> (r: u8)
        requires
            self.wf(),
        ensures
            r == self@[58],
            r as int == self.spec_seg_count() - 1,
    {
        self.mbuf.read_u8(self.offset + 4)
    }

    /// The flag bits.
    pub fn flags(&self) -> (r: u8)
        requires
            self.wf(),
        ensures
            r == self@[59],
    {
        self.mbuf.read_u8(self.offset + 5)
    }

    /// The tag field.
    pub fn tag(&self) -> (r: u16)
        requires
            self.wf(),
        ensures
            r as int == be16(self@, 60),
    {
        self.mbuf.read_u16(self.offset + 6)
    }

    /// Sets the tag field.
    pub fn set_tag(&mut self, v: u16)
        requires
            old(self).wf(),
        ensures
            final(self).wf(),
            final(self)@ == put16(old(self)@, 60, v as int),
            final(self).spec_tailroom() == old(self).spec_tailroom(),
            final(self).spec_headroom() == old(self).spec_headroom(),
    {
        self.mbuf.write_u16(self.offset + 6, v);
    }

    /// The entries of the segment list, in wire order.
    pub fn segments(&self) -> (r: Vec<Ipv6Addr>)
        requires
            self.wf(),
        ensures
            r@.len() == self.spec_seg_count(),
            forall|i: int|
                0 <= i < r@.len() ==> (#[trigger] r@[i])@ == srh_segment_bytes(self@, 54, i),
    {
        let n = (self.mbuf.read_u8(self.offset + 4) as usize) + 1;
        let mut out: Vec<Ipv6Addr> = Vec::new();
        let mut i: usize = 0;
        while i < n
            invariant
                i <= n,
                self.wf(),
                n == self.spec_seg_count(),
                out@.len() == i,
                forall|k: int|
                    0 <= k < i ==> (#[trigger] out@[k])@ == srh_segment_bytes(self@, 54, k),
            decreases n - i,
        {
            let a = Ipv6Addr::read(&self.mbuf, self.offset + SRH_FIXED_LEN + 16 * i);
            out.push(a);
            i = i + 1;
        }
        out
    }

    /// Replaces the segment list. The new list must be non-empty and
    /// representable in the eight-bit length fields; growing must fit the
    /// spare tailroom; and, like the resize it wraps, replacing a list
    /// with one of the same length is refused. On success the prefix's
    /// length fields are rewritten to match and the bytes after the list
    /// are untouched.
    pub fn set_segments(&mut self, segments: &[Ipv6Addr]) -> (r: Result<(), PacketError>)
        requires
            old(self).wf(),
        ensures
            final(self).wf(),
            ({
                let old_n = old(self).spec_seg_count();
                let new_n = segments@.len() as int;
                &&& (r is Ok <==> 1 <= new_n <= 127 && new_n != old_n && (new_n < old_n || 16 * (
                    new_n - old_n) < old(self).spec_tailroom()))
                &&& (r is Err ==> *final(self) == *old(self))
                &&& (r is Ok ==> {
                    &&& final(self)@.len() == old(self)@.len() + 16 * (new_n - old_n)
                    &&& final(self).spec_seg_count() == new_n
                    &&& final(self)@.subrange(0, 55) == old(self)@.subrange(0, 55)
                    &&& final(self)@[55] == (2 * new_n) as u8
                    &&& final(self)@.subrange(56, 58) == old(self)@.subrange(56, 58)
                    &&& final(self)@[58] == (new_n - 1) as u8
                    &&& final(self)@.subrange(59, 62) == old(self)@.subrange(59, 62)
                    &&& (forall|i: int|
                        0 <= i < new_n ==> srh_segment_bytes(final(self)@, 54, i)
                            == (#[trigger] segments@[i])@)
                    &&& final(self)@.subrange(62 + 16 * new_n, final(self)@.len() as int) == old(
                        self,
                    )@.subrange(62 + 16 * old_n, old(self)@.len() as int)
                    &&& final(self).spec_tailroom() == old(self).spec_tailroom() - 16 * (new_n
                        - old_n)
                    &&& final(self).spec_headroom() == old(self).spec_headroom()
                })
            }),
    {
        let new_n = segments.len();
        if new_n == 0 || new_n > 127 {
            return Err(PacketError::BadSegments(BadSegmentsError));
        }
        let old_n = (self.mbuf.read_u8(self.offset + 4) as usize) + 1;
        let seg_off = self.offset + SRH_FIXED_LEN;
        let delta: isize = 16 * (new_n as isize - old_n as isize);
        let ghost orig = self@;
        let ghost old_ni = srh_seg_count(orig, 54);
        let ghost new_ni = segments@.len() as int;
        let ghost d = 16 * (new_ni - old_ni);
        match self.mbuf.resize(seg_off, delta) {
            Ok(_) => {},
            Err(e) => {
                return Err(PacketError::Buffer(e));
            },
        }
        let ghost resized = self@;
        proof {
            assert forall|k: int| 0 <= k < 62 implies resized[k] == orig[k] by {
                if delta >= 0 {
                    assert(resized.subrange(0, 62)[k] == orig.subrange(0, 62)[k]);
                } else {
                    assert(resized[k] == (orig.subrange(0, 62) + orig.subrange(
                        62 - d,
                        orig.len() as int,
                    ))[k]);
                }
            }
            assert forall|k: int| 62 + 16 * new_ni <= k < resized.len() implies resized[k]
                == orig[k - d] by {
                if delta >= 0 {
                    assert(resized.subrange(62 + d, resized.len() as int)[k - 62 - d]
                        == orig.subrange(62, orig.len() as int)[k - 62 - d]);
                } else {
                    assert(resized[k] == (orig.subrange(0, 62) + orig.subrange(
                        62 - d,
                        orig.len() as int,
                    ))[k]);
                }
            }
        }
        let mut i: usize = 0;
        while i < new_n
            invariant
                i <= new_n,
                new_n == segments@.len(),
                1 <= new_n <= 127,
                seg_off == 62,
                62 + 16 * new_n <= self@.len(),
                self.buf_wf(),
                self.spec_offset() == 54,
                self@.len() == resized.len(),
                forall|k: int| 0 <= k < 62 ==> self@[k] == resized[k],
                forall|k: int|
                    0 <= k < i ==> srh_segment_bytes(self@, 54, k) == (#[trigger] segments@[k])@,
                forall|k: int| 62 + 16 * new_n <= k < self@.len() ==> self@[k] == resized[k],
                self.spec_tailroom() == old(self).spec_tailroom() - 16 * (new_n as int
                    - srh_seg_count(orig, 54)),
                self.spec_headroom() == old(self).spec_headroom(),
            decreases new_n - i,
        {
            let ghost pre = self@;
            let a = segments[i];
            a.write(&mut self.mbuf, seg_off + 16 * i);
            proof {
                assert forall|k: int| 0 <= k < i + 1 implies srh_segment_bytes(self@, 54, k) == (
                #[trigger] segments@[k])@ by {
                    if k < i {
                        assert(srh_segment_bytes(self@, 54, k) =~= srh_segment_bytes(pre, 54, k));
                    } else {
                        assert(srh_segment_bytes(self@, 54, k) =~= self@.subrange(
                            62 + 16 * k,
                            62 + 16 * k + 16,
                        ));
                    }
                }
            }
            i = i + 1;
        }
        let ghost written = self@;
        self.mbuf.write_u8(self.offset + 1, (2 * new_n) as u8);
        self.mbuf.write_u8(self.offset + 4, (new_n - 1) as u8);
        proof {
            assert(self@.subrange(0, 55) =~= orig.subrange(0, 55));
            assert(self@.subrange(56, 58) =~= orig.subrange(56, 58));
            assert(self@.subrange(59, 62) =~= orig.subrange(59, 62));
            assert forall|k: int| 0 <= k < new_ni implies srh_segment_bytes(self@, 54, k) == (
            #[trigger] segments@[k])@ by {
                assert(srh_segment_bytes(self@, 54, k) =~= srh_segment_bytes(written, 54, k));
            }
            assert forall|k: int| 62 + 16 * new_ni <= k < self@.len() implies self@[k] == orig[k
                - d] by {
                assert(self@[k] == written[k]);
                assert(written[k] == resized[k]);
                assert(resized[k] == orig[k - d]);
            }
            assert(self@.subrange(62 + 16 * new_ni, self@.len() as int) =~= orig.subrange(
                62 + 16 * old_ni,
                orig.len() as int,
            ));
        }
        Ok(())
    }

    /// The protocol the header forwards to the transport layer.
    pub fn next_proto(&self) -> (r: u8)
        requires
            self.wf(),
        ensures
            r == self@[54],
    {
        self.next_header()
    }

    /// Sets the protocol the header forwards to the transport layer.
    pub fn set_next_proto(&mut self, v: u8)
        requires
            old(self).wf(),
        ensures
            final(self).wf(),
            final(self)@ == old(self)@.update(54, v),
            final(self).spec_tailroom() == old(self).spec_tailroom(),
            final(self).spec_headroom() == old(self).spec_headroom(),
    {
        self.set_next_header(v);
    }

    /// The source address, forwarded from the enclosing IPv6 header.
    pub fn src(&self) -> (r: Ipv6Addr)
        requires
            self.wf(),
        ensures
            r@ == self@.subrange(22, 38),
    {
        Ipv6Addr::read(&self.mbuf, 22)
    }

    /// Sets the source address of the enclosing IPv6 header.
    pub fn set_src(&mut self, src: Ipv6Addr)
        requires
            old(self).wf(),
        ensures
            final(self).wf(),
            final(self)@.len() == old(self)@.len(),
            final(self)@.subrange(22, 38) == src@,
            forall|k: int|
                0 <= k < old(self)@.len() && !(22 <= k < 38) ==> final(self)@[k] == old(
                    self,
                )@[k],
            final(self).spec_tailroom() == old(self).spec_tailroom(),
            final(self).spec_headroom() == old(self).spec_headroom(),
    {
        src.write(&mut self.mbuf, 22);
    }

    /// The final destination for pseudo-header purposes: the first entry
    /// of the segment list, which holds the last segment of the route.
    pub fn dst(&self) -> (r: Ipv6Addr)
        requires
            self.wf(),
        ensures
            r@ == srh_segment_bytes(self@, 54, 0),
    {
        let r = Ipv6Addr::read(&self.mbuf, self.offset + SRH_FIXED_LEN);
        proof {
            assert(srh_segment_bytes(self@, 54, 0) =~= self@.subrange(62, 78));
        }
        r
    }

    /// Sets the final destination: the first entry of the segment list is
    /// replaced in place, and when no segments are left to visit the
    /// enclosing IPv6 destination is brought in line as well.
    pub fn set_dst(&mut self, dst: Ipv6Addr)
        requires
            old(self).wf(),
        ensures
            final(self).wf(),
            final(self)@.len() == old(self)@.len(),
            srh_segment_bytes(final(self)@, 54, 0) == dst@,
            old(self)@[57] == 0 ==> final(self)@.subrange(38, 54) == dst@,
            old(self)@[57] != 0 ==> final(self)@.subrange(38, 54) == old(self)@.subrange(38, 54),
            forall|k: int|
                0 <= k < old(self)@.len() && !(62 <= k < 78) && !(38 <= k < 54)
                    ==> final(self)@[k] == old(self)@[k],
            final(self).spec_tailroom() == old(self).spec_tailroom(),
            final(self).spec_headroom() == old(self).spec_headroom(),
    {
        let ghost orig = self@;
        dst.write(&mut self.mbuf, self.offset + SRH_FIXED_LEN);
        if self.mbuf.read_u8(self.offset + 3) == 0 {
            dst.write(&mut self.mbuf, 38);
        }
        proof {
            assert(srh_segment_bytes(self@, 54, 0) =~= self@.subrange(62, 78));
            if orig[57] != 0 {
                assert(self@.subrange(38, 54) =~= orig.subrange(38, 54));
            }
        }
    }

    /// Recomputes the enclosing IPv6 payload length from the live data,
    /// so that it again covers the routing header and everything after
    /// it.
    pub fn cascade(&mut self)
        requires
            old(self).wf(),
        ensures
            final(self).wf(),
            final(self)@ == put16(old(self)@, 18, old(self)@.len() - 54),
            be16(final(self)@, 18) == old(self)@.len() - 54,
            final(self).spec_tailroom() == old(self).spec_tailroom(),
            final(self).spec_headroom() == old(self).spec_headroom(),
    {
        let fresh = self.mbuf.data_len() - 54;
        self.mbuf.write_u16(18, fresh as u16);
    }
}

/// Pushing a segment routing header and then removing it restores the
/// packet byte for byte: the twenty-four inserted bytes leave again, and
/// the enclosing next-header field — taken over by the routing header on
/// push — is put back on removal. `e` is the live data before the push,
/// `p` what the push's contract guarantees of the grown data, and `q`
/// what the removal's contract then guarantees of the shrunk data.
pub proof fn lemma_srh_push_then_remove(e: Seq<u8>, p: Seq<u8>, q: Seq<u8>)
    requires
        e.len() >= 54,
        p.len() == e.len() + 24,
        p.subrange(0, 20) == e.subrange(0, 20),
        p[20] == PROTO_IPV6_ROUTE,
        p.subrange(21, 54) == e.subrange(21, 54),
        p[54] == e[20],
        p[58] == 0u8,
        p.subrange(78, p.len() as int) == e.subrange(54, e.len() as int),
        q.len() == p.len() - (8 + 16 * srh_seg_count(p, 54)),
        q.subrange(0, 20) == p.subrange(0, 20),
        q[20] == p[54],
        q.subrange(21, 54) == p.subrange(21, 54),
        q.subrange(54, q.len() as int) == p.subrange(
            54 + (8 + 16 * srh_seg_count(p, 54)),
            p.len() as int,
        ),
    ensures
        q == e,
{
    assert(srh_seg_count(p, 54) == 1);
    assert(q.len() == e.len());
    assert(q.subrange(54, q.len() as int) == p.subrange(78, p.len() as int));
    assert forall|k: int| 0 <= k < 20 implies q[k] == e[k] by {
        assert(q.subrange(0, 20)[k] == q[k]);
        assert(p.subrange(0, 20)[k] == p[k]);
        assert(e.subrange(0, 20)[k] == e[k]);
    }
    assert(q[20] == e[20]);
    assert forall|k: int| 21 <= k < 54 implies q[k] == e[k] by {
        assert(q.subrange(21, 54)[k - 21] == q[k]);
        assert(p.subrange(21, 54)[k - 21] == p[k]);
        assert(e.subrange(21, 54)[k - 21] == e[k]);
    }
    assert forall|k: int| 54 <= k < e.len() implies q[k] == e[k] by {
        assert(q.subrange(54, q.len() as int)[k - 54] == p.subrange(78, p.len() as int)[k - 54]);
        assert(p.subrange(78, p.len() as int)[k - 54] == e.subrange(54, e.len() as int)[k - 54]);
    }
    assert(q =~= e);
}


} // verus!
