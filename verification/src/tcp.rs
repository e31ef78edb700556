//! The TCP layer over any IP-capable envelope: the RFC 793 fixed header,
//! with a checksum that covers the envelope's pseudo-header, the header
//! and the payload.

use vstd::prelude::*;
use crate::checksum::{
    fold_checksum, lemma_ones_sum_bound, lemma_ones_sum_nonneg, lemma_ones_sum_unchanged,
    lemma_word_sum_bound, lemma_word_sum_nonneg, lemma_word_sum_unchanged, range_sum,
    read_word_sum, transport_checksum,
};
use crate::envelope::{
    env_hdr_wf, env_next_proto_off, env_payload_off, env_pseudo_sum, env_reconciled,
    lemma_offsets_outside_prefix, lemma_payload_off_bounds, next_proto_off_of, payload_off_of,
    IpEnvKind, IpEnvelope,
};
use crate::errors::PacketError;
use crate::ipv4::{ipv4_header_checksum, ipv4_reconciled};
use crate::mbuf::{be16, be32, put16, BufferError, Mbuf};
use crate::proto::PROTO_TCP;

verus! {

broadcast use crate::mbuf::lemma_wf_bounds;

/// Bytes of the fixed TCP header.
pub const TCP_HEADER_LEN: usize = 20;

/// The live data after a full cascade starting at a TCP layer: the TCP
/// checksum recomputed over the envelope's pseudo-header and the layer's
/// bytes, then the envelope's length fields and checksum recomputed.
pub open spec fn tcp_cascaded(d: Seq<u8>, kind: IpEnvKind) -> Seq<u8> {
    let off = env_payload_off(d, kind);
    let plen = d.len() - off;
    let ph = env_pseudo_sum(d, kind, plen, PROTO_TCP as int);
    let c = transport_checksum(d, off, d.len() as int, off + 16, ph);
    env_reconciled(put16(d, off + 16, c), kind)
}

/// A TCP segment enclosed in an IP-capable envelope.
#[derive(Debug)]
pub struct Tcp {
    mbuf: Mbuf,
    kind: IpEnvKind,
    offset: usize,
}

impl View for Tcp {
    type V = Seq<u8>;

    /// The live data of the underlying buffer.
    closed spec fn view(&self) -> Seq<u8> {
        self.mbuf@
    }
}

impl Tcp {
    /// The underlying buffer's bookkeeping is consistent.
    pub closed spec fn buf_wf(&self) -> bool {
        self.mbuf.wf()
    }

    /// Which layer encloses the segment.
    pub closed spec fn spec_kind(&self) -> IpEnvKind {
        self.kind
    }

    /// Byte position of the TCP header within the buffer.
    pub closed spec fn spec_offset(&self) -> int {
        self.offset as int
    }

    /// Tailroom of the underlying buffer.
    pub closed spec fn spec_tailroom(&self) -> int {
        self.mbuf.spec_tailroom()
    }

    /// Headroom of the underlying buffer.
    pub closed spec fn spec_headroom(&self) -> int {
        self.mbuf.spec_headroom()
    }

    /// A well-formed view: consistent buffer and envelope headers, the
    /// TCP header right at the envelope's payload, and the fixed header
    /// within the live data.
    pub open spec fn wf(&self) -> bool {
        &&& self.buf_wf()
        &&& env_hdr_wf(self@, self.spec_kind())
        &&& self.spec_offset() == env_payload_off(self@, self.spec_kind())
        &&& self.spec_offset() + 20 <= self@.len()
    }

    /// Validates the envelope's payload as a TCP segment: the fixed
    /// twenty-byte header must fit the live data. The buffer is never
    /// changed; on failure the envelope is consumed.
    pub fn parse(env: IpEnvelope) -> (r: Result<Tcp, PacketError>)
        requires
            env.wf(),
        ensures
            r is Ok <==> env_payload_off(env@, env.spec_kind()) + 20 <= env@.len(),
            r is Ok ==> {
                &&& r->Ok_0.wf()
                &&& r->Ok_0@ == env@
                &&& r->Ok_0.spec_kind() == env.spec_kind()
                &&& r->Ok_0.spec_offset() == env_payload_off(env@, env.spec_kind())
                &&& r->Ok_0.spec_tailroom() == env.spec_tailroom()
                &&& r->Ok_0.spec_headroom() == env.spec_headroom()
            },
            r is Err ==> r->Err_0 is Buffer,
    {
        let kind = env.kind();
        let m = env.into_mbuf();
        let offset = payload_off_of(&m, kind);
        if m.data_len() < offset || m.data_len() - offset < TCP_HEADER_LEN {
            if offset >= m.data_len() {
                return Err(
                    PacketError::Buffer(BufferError::BadOffset(offset, m.data_len())),
                );
            }
            let rem = m.data_len() - offset;
            return Err(PacketError::Buffer(BufferError::OutOfBuffer(TCP_HEADER_LEN, rem)));
        }
        Ok(Tcp { mbuf: m, kind, offset })
    }

    /// Inserts a default TCP header — all zero, with a data offset of
    /// five words — between the envelope's headers and its payload, and
    /// marks the envelope's next protocol as TCP. Succeeds exactly when
    /// the header fits the spare tailroom.
    pub fn push(env: IpEnvelope) -> (r: Result<Tcp, PacketError>)
        requires
            env.wf(),
        ensures
            r is Ok <==> 20 < env.spec_tailroom(),
            r is Err ==> r->Err_0 is Buffer,
            r is Ok ==> {
                let off = env_payload_off(env@, env.spec_kind());
                let out = r->Ok_0;
                &&& out.wf()
                &&& out@.len() == env@.len() + 20
                &&& out.spec_kind() == env.spec_kind()
                &&& out.spec_offset() == off
                &&& (forall|k: int|
                    0 <= k < off && k != env_next_proto_off(env.spec_kind()) ==> out@[k]
                        == env@[k])
                &&& out@[env_next_proto_off(env.spec_kind())] == PROTO_TCP
                &&& (forall|k: int| off <= k < off + 20 && k != off + 12 ==> (#[trigger] out@[k])
                    == 0u8)
                &&& out@[off + 12] == 0x50u8
                &&& out@.subrange(off + 20, out@.len() as int) == env@.subrange(
                    off,
                    env@.len() as int,
                )
                &&& out.spec_tailroom() == env.spec_tailroom() - 20
                &&& out.spec_headroom() == env.spec_headroom()
            },
    {
        let ghost orig = env@;
        let kind = env.kind();
        let mut m = env.into_mbuf();
        let offset = payload_off_of(&m, kind);
        match m.extend(offset, TCP_HEADER_LEN) {
            Ok(_) => {},
            Err(e) => {
                return Err(PacketError::Buffer(e));
            },
        }
        proof {
            assert forall|k: int| 0 <= k < offset implies m@[k] == orig[k] by {
                assert(m@.subrange(0, offset as int)[k] == orig.subrange(0, offset as int)[k]);
            }
            assert forall|k: int| offset + 20 <= k < m@.len() implies m@[k] == orig[k - 20] by {
                assert(m@.subrange(offset + 20, m@.len() as int)[k - offset - 20] == orig.subrange(
                    offset as int,
                    orig.len() as int,
                )[k - offset - 20]);
            }
        }
        let mut j: usize = 0;
        while j < TCP_HEADER_LEN
            invariant
                j <= 20,
                m.wf(),
                offset + 20 <= m@.len(),
                m@.len() == orig.len() + 20,
                forall|k: int| 0 <= k < offset ==> m@[k] == orig[k],
                forall|k: int| offset <= k < offset + j ==> m@[k] == 0u8,
                forall|k: int| offset + 20 <= k < m@.len() ==> m@[k] == orig[k - 20],
                m.spec_tailroom() == env.spec_tailroom() - 20,
                m.spec_headroom() == env.spec_headroom(),
            decreases 20 - j,
        {
            m.write_u8(offset + j, 0);
            j = j + 1;
        }
        m.write_u8(offset + 12, 0x50);
        let proto_off = next_proto_off_of(kind);
        m.write_u8(proto_off, PROTO_TCP);
        proof {
            assert(m@.subrange(offset + 20, m@.len() as int) =~= orig.subrange(
                offset as int,
                orig.len() as int,
            ));
        }
        Ok(Tcp { mbuf: m, kind, offset })
    }

    /// Removes the fixed TCP header, shrinking the buffer, and returns
    /// the envelope. The envelope's next-protocol field is left as it
    /// stands: a TCP header names no following protocol to restore.
    pub fn remove(self) -> (r: Result<IpEnvelope, PacketError>)
        requires
            self.wf(),
        ensures
            r is Ok,
            ({
                let out = r->Ok_0;
                &&& out.wf()
                &&& out.spec_kind() == self.spec_kind()
                &&& out@ == self@.subrange(0, self.spec_offset()) + self@.subrange(
                    self.spec_offset() + 20,
                    self@.len() as int,
                )
                &&& out.spec_tailroom() == self.spec_tailroom() + 20
                &&& out.spec_headroom() == self.spec_headroom()
            }),
    {
        let ghost orig = self@;
        let offset = self.offset;
        let kind = self.kind;
        let mut m = self.mbuf;
        let res = m.shrink(offset, TCP_HEADER_LEN);
        proof {
            assert(res is Ok);
            assert forall|k: int| 0 <= k < offset implies m@[k] == orig[k] by {
                assert(m@[k] == (orig.subrange(0, offset as int) + orig.subrange(
                    offset + 20,
                    orig.len() as int,
                ))[k]);
            }
            lemma_payload_off_bounds(orig, kind);
            assert(env_hdr_wf(m@, kind));
        }
        Ok(IpEnvelope::attach(m, kind))
    }

    /// Returns the envelope without further change.
    pub fn deparse(self) -> (r: IpEnvelope)
        requires
            self.wf(),
        ensures
            r.wf(),
            r@ == self@,
            r.spec_kind() == self.spec_kind(),
            r.spec_tailroom() == self.spec_tailroom(),
            r.spec_headroom() == self.spec_headroom(),
    {
        IpEnvelope::attach(self.mbuf, self.kind)
    }

    /// Returns the raw buffer underneath every layer.
    pub fn reset(self) -> (r: Mbuf)
        requires
            self.wf(),
        ensures
            r.wf(),
            r@ == self@,
            r.spec_tailroom() == self.spec_tailroom(),
            r.spec_headroom() == self.spec_headroom(),
    {
        self.mbuf
    }

    /// Byte position of the TCP header.
    pub fn offset(&self) -> (r: usize)
        requires
            self.wf(),
        ensures
            r == self.spec_offset(),
    {
        self.offset
    }

    /// Bytes of the fixed TCP header.
    pub fn header_len(&self) -> (r: usize)
        ensures
            r == 20,
    {
        TCP_HEADER_LEN
    }

    /// Bytes from the header to the end of the segment: a TCP header has
    /// no length field, so the segment runs to the end of the buffer.
    pub fn len(&self) -> (r: usize)
        requires
            self.wf(),
        ensures
            r == self@.len() - self.spec_offset(),
    {
        self.mbuf.data_len() - self.offset
    }

    /// Byte position of the segment's payload.
    pub fn payload_offset(&self) -> (r: usize)
        requires
            self.wf(),
        ensures
            r == self.spec_offset() + 20,
    {
        self.offset + TCP_HEADER_LEN
    }

    /// Bytes of the segment's payload.
    pub fn payload_len(&self) -> (r: usize)
        requires
            self.wf(),
        ensures
            r == self@.len() - self.spec_offset() - 20,
    {
        self.len() - TCP_HEADER_LEN
    }

    /// The source port.
    pub fn src_port(&self) -> (r: u16)
        requires
            self.wf(),
        ensures
            r as int == be16(self@, self.spec_offset()),
    {
        self.mbuf.read_u16(self.offset)
    }

    /// Sets the source port.
    pub fn set_src_port(&mut self, v: u16)
        requires
            old(self).wf(),
        ensures
            final(self).wf(),
            final(self)@ == put16(old(self)@, old(self).spec_offset(), v as int),
            final(self).spec_kind() == old(self).spec_kind(),
            final(self).spec_offset() == old(self).spec_offset(),
            final(self).spec_tailroom() == old(self).spec_tailroom(),
            final(self).spec_headroom() == old(self).spec_headroom(),
    {
        self.mbuf.write_u16(self.offset, v);
        proof {
            lemma_offsets_outside_prefix(old(self)@, final(self)@, self.kind, self.offset as int);
        }
    }

    /// The destination port.
    pub fn dst_port(&self) -> (r: u16)
        requires
            self.wf(),
        ensures
            r as int == be16(self@, self.spec_offset() + 2),
    {
        self.mbuf.read_u16(self.offset + 2)
    }

    /// Sets the destination port.
    pub fn set_dst_port(&mut self, v: u16)
        requires
            old(self).wf(),
        ensures
            final(self).wf(),
            final(self)@ == put16(old(self)@, old(self).spec_offset() + 2, v as int),
            final(self).spec_kind() == old(self).spec_kind(),
            final(self).spec_offset() == old(self).spec_offset(),
            final(self).spec_tailroom() == old(self).spec_tailroom(),
            final(self).spec_headroom() == old(self).spec_headroom(),
    {
        self.mbuf.write_u16(self.offset + 2, v);
        proof {
            lemma_offsets_outside_prefix(old(self)@, final(self)@, self.kind, self.offset as int);
        }
    }

    /// The sequence number.
    pub fn seq_no(&self) -> (r: u32)
        requires
            self.wf(),
        ensures
            r as int == be32(self@, self.spec_offset() + 4),
    {
        self.mbuf.read_u32(self.offset + 4)
    }

    /// The acknowledgment number.
    pub fn ack_no(&self) -> (r: u32)
        requires
            self.wf(),
        ensures
            r as int == be32(self@, self.spec_offset() + 8),
    {
        self.mbuf.read_u32(self.offset + 8)
    }

    /// The flag byte: FIN through CWR.
    pub fn flags(&self) -> (r: u8)
        requires
            self.wf(),
        ensures
            r == self@[self.spec_offset() + 13],
    {
        self.mbuf.read_u8(self.offset + 13)
    }

    /// The receive window.
    pub fn window(&self) -> (r: u16)
        requires
            self.wf(),
        ensures
            r as int == be16(self@, self.spec_offset() + 14),
    {
        self.mbuf.read_u16(self.offset + 14)
    }

    /// The checksum field.
    pub fn checksum(&self) -> (r: u16)
        requires
            self.wf(),
        ensures
            r as int == be16(self@, self.spec_offset() + 16),
    {
        self.mbuf.read_u16(self.offset + 16)
    }

    /// The urgent pointer.
    pub fn urgent_pointer(&self) -> (r: u16)
        requires
            self.wf(),
        ensures
            r as int == be16(self@, self.spec_offset() + 18),
    {
        self.mbuf.read_u16(self.offset + 18)
    }

    /// Recomputes, from innermost out, everything this packet owes the
    /// wire: the TCP checksum over the envelope's pseudo-header and the
    /// segment's bytes, then the envelope's length fields and — for IPv4
    /// — its header checksum.
    pub fn cascade(&mut self)
        requires
            old(self).wf(),
        ensures
            final(self).wf(),
            final(self)@ == tcp_cascaded(old(self)@, old(self).spec_kind()),
            final(self).spec_kind() == old(self).spec_kind(),
            final(self).spec_offset() == old(self).spec_offset(),
            final(self).spec_tailroom() == old(self).spec_tailroom(),
            final(self).spec_headroom() == old(self).spec_headroom(),
    {
        let ghost d = self@;
        let ghost k0 = self.kind;
        let off = self.offset;
        let end = self.mbuf.data_len();
        let plen = end - off;
        proof {
            lemma_payload_off_bounds(d, k0);
        }
        let ph: u64 = match self.kind {
            IpEnvKind::Ipv4 => {
                proof {
                    lemma_word_sum_nonneg(self@, 26, 2);
                    lemma_word_sum_nonneg(self@, 30, 2);
                    lemma_word_sum_bound(self@, 26, 2);
                    lemma_word_sum_bound(self@, 30, 2);
                }
                read_word_sum(&self.mbuf, 26, 2) + read_word_sum(&self.mbuf, 30, 2)
            },
            IpEnvKind::Ipv6 => {
                proof {
                    lemma_word_sum_nonneg(self@, 22, 8);
                    lemma_word_sum_nonneg(self@, 38, 8);
                    lemma_word_sum_bound(self@, 22, 8);
                    lemma_word_sum_bound(self@, 38, 8);
                }
                read_word_sum(&self.mbuf, 22, 8) + read_word_sum(&self.mbuf, 38, 8)
            },
            IpEnvKind::SegmentRouting => {
                proof {
                    lemma_word_sum_nonneg(self@, 22, 8);
                    lemma_word_sum_nonneg(self@, 62, 8);
                    lemma_word_sum_bound(self@, 22, 8);
                    lemma_word_sum_bound(self@, 62, 8);
                }
                read_word_sum(&self.mbuf, 22, 8) + read_word_sum(&self.mbuf, 62, 8)
            },
        };
        self.mbuf.write_u16(off + 16, 0);
        proof {
            lemma_ones_sum_nonneg(self@, off as int, end as int);
            lemma_ones_sum_bound(self@, off as int, end as int);
        }
        let body = range_sum(&self.mbuf, off, end);
        let sum = ph + (plen as u64) + (PROTO_TCP as u64) + body;
        let c = fold_checksum(sum);
        self.mbuf.write_u16(off + 16, c);
        let ghost d1 = put16(d, off + 16, transport_checksum(d, off as int, d.len() as int, off
            + 16, env_pseudo_sum(d, k0, plen as int, PROTO_TCP as int)));
        proof {
            assert(self@ =~= d1);
            lemma_offsets_outside_prefix(d, self@, k0, off as int);
        }
        match self.kind {
            IpEnvKind::Ipv4 => {
                let total = self.mbuf.data_len() - 14;
                self.mbuf.write_u16(16, total as u16);
                let ghost d2 = self@;
                let hlen = 4 * ((self.mbuf.read_u8(14) % 16) as usize);
                self.mbuf.write_u16(24, 0);
                let hsum = range_sum(&self.mbuf, 14, 14 + hlen);
                let hc = fold_checksum(hsum);
                self.mbuf.write_u16(24, hc);
                proof {
                    assert(put16(put16(d2, 24, 0), 24, hc as int) =~= put16(d2, 24, hc as int));
                    assert(self@ =~= env_reconciled(d1, k0));
                    lemma_offsets_outside_prefix(d1, self@, k0, off as int);
                }
            },
            _ => {
                let fresh = self.mbuf.data_len() - 54;
                self.mbuf.write_u16(18, fresh as u16);
                proof {
                    assert(self@ =~= env_reconciled(d1, k0));
                    lemma_offsets_outside_prefix(d1, self@, k0, off as int);
                }
            },
        }
    }
}

/// Cascading is idempotent: running a cascade over an already cascaded
/// segment recomputes every checksum and length to the value it already
/// has, leaving the bytes identical — in particular, recomputing the
/// checksum of a cascaded segment yields the value stored in it.
pub proof fn lemma_tcp_cascade_idempotent(d: Seq<u8>, kind: IpEnvKind)
    requires
        env_hdr_wf(d, kind),
        env_payload_off(d, kind) + 20 <= d.len(),
        d.len() <= 0xffff,
    ensures
        tcp_cascaded(tcp_cascaded(d, kind), kind) == tcp_cascaded(d, kind),
{
    let off = env_payload_off(d, kind);
    let plen = d.len() - off;
    let ph = env_pseudo_sum(d, kind, plen, PROTO_TCP as int);
    let c = transport_checksum(d, off, d.len() as int, off + 16, ph);
    let d1 = put16(d, off + 16, c);
    let e = env_reconciled(d1, kind);
    lemma_payload_off_bounds(d, kind);
    assert(e.len() == d.len());
    assert forall|k: int|
        0 <= k < off && k != 16 && k != 17 && k != 18 && k != 19 && !(24 <= k < 26) implies e[k]
        == d[k] by {}
    match kind {
        IpEnvKind::Ipv4 => {
            assert(be16(e, 16) == d.len() - 14);
        },
        _ => {},
    }
    lemma_offsets_outside_prefix(d, e, kind, off);
    let plen2 = e.len() - off;
    let ph2 = env_pseudo_sum(e, kind, plen2, PROTO_TCP as int);
    assert(ph2 == ph) by {
        match kind {
            IpEnvKind::Ipv4 => {
                lemma_word_sum_unchanged(e, d, 26, 2);
                lemma_word_sum_unchanged(e, d, 30, 2);
            },
            IpEnvKind::Ipv6 => {
                lemma_word_sum_unchanged(e, d, 22, 8);
                lemma_word_sum_unchanged(e, d, 38, 8);
            },
            IpEnvKind::SegmentRouting => {
                lemma_word_sum_unchanged(e, d, 22, 8);
                lemma_word_sum_unchanged(e, d, 62, 8);
            },
        }
    }
    let c2 = transport_checksum(e, off, e.len() as int, off + 16, ph2);
    assert(c2 == c) by {
        let ez = put16(e, off + 16, 0);
        let dz = put16(d, off + 16, 0);
        assert forall|k: int| off <= k < d.len() implies #[trigger] ez[k] == dz[k] by {}
        lemma_ones_sum_unchanged(put16(e, off + 16, 0), put16(d, off + 16, 0), off, d.len() as int);
    }
    let d1b = put16(e, off + 16, c2);
    assert(d1b =~= e);
    match kind {
        IpEnvKind::Ipv4 => {
            let d2 = put16(d1, 16, d1.len() - 14);
            let h = ipv4_header_checksum(d2);
            assert(e == put16(d2, 24, h));
            let d2b = put16(e, 16, e.len() - 14);
            assert(d2b =~= e);
            let h2 = ipv4_header_checksum(d2b);
            assert(h2 == h) by {
                assert(put16(d2b, 24, 0) =~= put16(d2, 24, 0));
                assert(d2b[14] == d2[14]);
            }
            assert(ipv4_reconciled(e) =~= e);
            assert(env_reconciled(d1b, kind) =~= e);
        },
        _ => {
            assert(env_reconciled(d1b, kind) =~= e);
        },
    }
    assert(tcp_cascaded(e, kind) =~= e);
}

} // verus!
