//! The UDP layer over any IP-capable envelope: the RFC 768 header, whose
//! length field covers header and payload and whose checksum covers the
//! envelope's pseudo-header as well.

use vstd::prelude::*;
use crate::checksum::{
    fold_checksum, lemma_ones_sum_bound, lemma_ones_sum_nonneg, lemma_ones_sum_unchanged,
    lemma_word_sum_bound, lemma_word_sum_nonneg, lemma_word_sum_unchanged, range_sum,
    read_word_sum, transport_checksum,
};
use crate::envelope::{
    env_hdr_wf, env_next_proto_off, env_payload_off, env_pseudo_sum, env_reconciled,
    lemma_offsets_outside_prefix, lemma_payload_off_bounds, next_proto_off_of, payload_off_of,
    IpEnvKind, IpEnvelope,
};
use crate::errors::PacketError;
use crate::ipv4::ipv4_reconciled;
use crate::mbuf::{be16, put16, BufferError, Mbuf};
use crate::proto::PROTO_UDP;

verus! {

broadcast use crate::mbuf::lemma_wf_bounds;

/// Bytes of the UDP header.
pub const UDP_HEADER_LEN: usize = 8;

/// The live data after a full cascade starting at a UDP layer: the length
/// field refreshed to cover header and payload, the checksum recomputed
/// over the envelope's pseudo-header and the datagram's bytes — with a
/// computed zero transmitted as all ones, as RFC 768 asks — and then the
/// envelope's own fields recomputed.
pub open spec fn udp_cascaded(d: Seq<u8>, kind: IpEnvKind) -> Seq<u8> {
    let off = env_payload_off(d, kind);
    let plen = d.len() - off;
    let d0 = put16(d, off + 4, plen);
    let ph = env_pseudo_sum(d, kind, plen, PROTO_UDP as int);
    let c = transport_checksum(d0, off, d0.len() as int, off + 6, ph);
    let cw = if c == 0 {
        0xffff
    } else {
        c
    };
    env_reconciled(put16(d0, off + 6, cw), kind)
}

/// A UDP datagram enclosed in an IP-capable envelope.
#[derive(Debug)]
pub struct Udp {
    mbuf: Mbuf,
    kind: IpEnvKind,
    offset: usize,
}

impl View for Udp {
    type V = Seq<u8>;

    /// The live data of the underlying buffer.
    closed spec fn view(&self) -> Seq<u8> {
        self.mbuf@
    }
}

impl Udp {
    /// The underlying buffer's bookkeeping is consistent.
    pub closed spec fn buf_wf(&self) -> bool {
        self.mbuf.wf()
    }

    /// Which layer encloses the datagram.
    pub closed spec fn spec_kind(&self) -> IpEnvKind {
        self.kind
    }

    /// Byte position of the UDP header within the buffer.
    pub closed spec fn spec_offset(&self) -> int {
        self.offset as int
    }

    /// Tailroom of the underlying buffer.
    pub closed spec fn spec_tailroom(&self) -> int {
        self.mbuf.spec_tailroom()
    }

    /// Headroom of the underlying buffer.
    pub closed spec fn spec_headroom(&self) -> int {
        self.mbuf.spec_headroom()
    }

    /// A well-formed view: consistent buffer and envelope headers, the
    /// UDP header right at the envelope's payload, and the eight-byte
    /// header within the live data.
    pub open spec fn wf(&self) -> bool {
        &&& self.buf_wf()
        &&& env_hdr_wf(self@, self.spec_kind())
        &&& self.spec_offset() == env_payload_off(self@, self.spec_kind())
        &&& self.spec_offset() + 8 <= self@.len()
    }

    /// Validates the envelope's payload as a UDP datagram: the eight-byte
    /// header must fit the live data. The buffer is never changed; on
    /// failure the envelope is consumed.
    pub fn parse(env: IpEnvelope) -> (r: Result<Udp, PacketError>)
        requires
            env.wf(),
        ensures
            r is Ok <==> env_payload_off(env@, env.spec_kind()) + 8 <= env@.len(),
            r is Ok ==> {
                &&& r->Ok_0.wf()
                &&& r->Ok_0@ == env@
                &&& r->Ok_0.spec_kind() == env.spec_kind()
                &&& r->Ok_0.spec_offset() == env_payload_off(env@, env.spec_kind())
                &&& r->Ok_0.spec_tailroom() == env.spec_tailroom()
                &&& r->Ok_0.spec_headroom() == env.spec_headroom()
            },
            r is Err ==> r->Err_0 is Buffer,
    {
        let kind = env.kind();
        let m = env.into_mbuf();
        let offset = payload_off_of(&m, kind);
        if m.data_len() < offset || m.data_len() - offset < UDP_HEADER_LEN {
            if offset >= m.data_len() {
                return Err(
                    PacketError::Buffer(BufferError::BadOffset(offset, m.data_len())),
                );
            }
            let rem = m.data_len() - offset;
            return Err(PacketError::Buffer(BufferError::OutOfBuffer(UDP_HEADER_LEN, rem)));
        }
        Ok(Udp { mbuf: m, kind, offset })
    }

    /// Inserts an all-zero UDP header between the envelope's headers and
    /// its payload, and marks the envelope's next protocol as UDP.
    /// Succeeds exactly when the header fits the spare tailroom.
    pub fn push(env: IpEnvelope) -> (r: Result<Udp, PacketError>)
        requires
            env.wf(),
        ensures
            r is Ok <==> 8 < env.spec_tailroom(),
            r is Err ==> r->Err_0 is Buffer,
            r is Ok ==> {
                let off = env_payload_off(env@, env.spec_kind());
                let out = r->Ok_0;
                &&& out.wf()
                &&& out@.len() == env@.len() + 8
                &&& out.spec_kind() == env.spec_kind()
                &&& out.spec_offset() == off
                &&& (forall|k: int|
                    0 <= k < off && k != env_next_proto_off(env.spec_kind()) ==> out@[k]
                        == env@[k])
                &&& out@[env_next_proto_off(env.spec_kind())] == PROTO_UDP
                &&& (forall|k: int| off <= k < off + 8 ==> (#[trigger] out@[k]) == 0u8)
                &&& out@.subrange(off + 8, out@.len() as int) == env@.subrange(
                    off,
                    env@.len() as int,
                )
                &&& out.spec_tailroom() == env.spec_tailroom() - 8
                &&& out.spec_headroom() == env.spec_headroom()
            },
    {
        let ghost orig = env@;
        let kind = env.kind();
        let mut m = env.into_mbuf();
        let offset = payload_off_of(&m, kind);
        match m.extend(offset, UDP_HEADER_LEN) {
            Ok(_) => {},
            Err(e) => {
                return Err(PacketError::Buffer(e));
            },
        }
        proof {
            assert forall|k: int| 0 <= k < offset implies m@[k] == orig[k] by {
                assert(m@.subrange(0, offset as int)[k] == orig.subrange(0, offset as int)[k]);
            }
            assert forall|k: int| offset + 8 <= k < m@.len() implies m@[k] == orig[k - 8] by {
                assert(m@.subrange(offset + 8, m@.len() as int)[k - offset - 8] == orig.subrange(
                    offset as int,
                    orig.len() as int,
                )[k - offset - 8]);
            }
        }
        let mut j: usize = 0;
        while j < UDP_HEADER_LEN
            invariant
                j <= 8,
                m.wf(),
                offset + 8 <= m@.len(),
                m@.len() == orig.len() + 8,
                forall|k: int| 0 <= k < offset ==> m@[k] == orig[k],
                forall|k: int| offset <= k < offset + j ==> m@[k] == 0u8,
                forall|k: int| offset + 8 <= k < m@.len() ==> m@[k] == orig[k - 8],
                m.spec_tailroom() == env.spec_tailroom() - 8,
                m.spec_headroom() == env.spec_headroom(),
            decreases 8 - j,
        {
            m.write_u8(offset + j, 0);
            j = j + 1;
        }
        let proto_off = next_proto_off_of(kind);
        m.write_u8(proto_off, PROTO_UDP);
        proof {
            assert(m@.subrange(offset + 8, m@.len() as int) =~= orig.subrange(
                offset as int,
                orig.len() as int,
            ));
        }
        Ok(Udp { mbuf: m, kind, offset })
    }

    /// Removes the UDP header, shrinking the buffer, and returns the
    /// envelope. The envelope's next-protocol field is left as it
    /// stands: a UDP header names no following protocol to restore.
    pub fn remove(self) -> (r: Result<IpEnvelope, PacketError>)
        requires
            self.wf(),
        ensures
            r is Ok,
            ({
                let out = r->Ok_0;
                &&& out.wf()
                &&& out.spec_kind() == self.spec_kind()
                &&& out@ == self@.subrange(0, self.spec_offset()) + self@.subrange(
                    self.spec_offset() + 8,
                    self@.len() as int,
                )
                &&& out.spec_tailroom() == self.spec_tailroom() + 8
                &&& out.spec_headroom() == self.spec_headroom()
            }),
    {
        let ghost orig = self@;
        let offset = self.offset;
        let kind = self.kind;
        let mut m = self.mbuf;
        let res = m.shrink(offset, UDP_HEADER_LEN);
        proof {
            assert(res is Ok);
            assert forall|k: int| 0 <= k < offset implies m@[k] == orig[k] by {
                assert(m@[k] == (orig.subrange(0, offset as int) + orig.subrange(
                    offset + 8,
                    orig.len() as int,
                ))[k]);
            }
            lemma_payload_off_bounds(orig, kind);
            assert(env_hdr_wf(m@, kind));
        }
        Ok(IpEnvelope::attach(m, kind))
    }

    /// Returns the envelope without further change.
    pub fn deparse(self) -> (r: IpEnvelope)
        requires
            self.wf(),
        ensures
            r.wf(),
            r@ == self@,
            r.spec_kind() == self.spec_kind(),
            r.spec_tailroom() == self.spec_tailroom(),
            r.spec_headroom() == self.spec_headroom(),
    {
        IpEnvelope::attach(self.mbuf, self.kind)
    }

    /// Returns the raw buffer underneath every layer.
    pub fn reset(self) -> (r: Mbuf)
        requires
            self.wf(),
        ensures
            r.wf(),
            r@ == self@,
            r.spec_tailroom() == self.spec_tailroom(),
            r.spec_headroom() == self.spec_headroom(),
    {
        self.mbuf
    }

    /// Byte position of the UDP header.
    pub fn offset(&self) -> (r: usize)
        requires
            self.wf(),
        ensures
            r == self.spec_offset(),
    {
        self.offset
    }

    /// Bytes of the UDP header.
    pub fn header_len(&self) -> (r: usize)
        ensures
            r == 8,
    {
        UDP_HEADER_LEN
    }

    /// Bytes from the header to the end of the datagram.
    pub fn len(&self) -> (r: usize)
        requires
            self.wf(),
        ensures
            r == self@.len() - self.spec_offset(),
    {
        self.mbuf.data_len() - self.offset
    }

    /// Byte position of the datagram's payload.
    pub fn payload_offset(&self) -> (r: usize)
        requires
            self.wf(),
        ensures
            r == self.spec_offset() + 8,
    {
        self.offset + UDP_HEADER_LEN
    }

    /// Bytes of the datagram's payload.
    pub fn payload_len(&self) -> (r: usize)
        requires
            self.wf(),
        ensures
            r == self@.len() - self.spec_offset() - 8,
    {
        self.len() - UDP_HEADER_LEN
    }

    /// The source port.
    pub fn src_port(&self) -> (r: u16)
        requires
            self.wf(),
        ensures
            r as int == be16(self@, self.spec_offset()),
    {
        self.mbuf.read_u16(self.offset)
    }

    /// Sets the source port.
    pub fn set_src_port(&mut self, v: u16)
        requires
            old(self).wf(),
        ensures
            final(self).wf(),
            final(self)@ == put16(old(self)@, old(self).spec_offset(), v as int),
            final(self).spec_kind() == old(self).spec_kind(),
            final(self).spec_offset() == old(self).spec_offset(),
            final(self).spec_tailroom() == old(self).spec_tailroom(),
            final(self).spec_headroom() == old(self).spec_headroom(),
    {
        self.mbuf.write_u16(self.offset, v);
        proof {
            lemma_offsets_outside_prefix(old(self)@, final(self)@, self.kind, self.offset as int);
        }
    }

    /// The destination port.
    pub fn dst_port(&self) -> (r: u16)
        requires
            self.wf(),
        ensures
            r as int == be16(self@, self.spec_offset() + 2),
    {
        self.mbuf.read_u16(self.offset + 2)
    }

    /// Sets the destination port.
    pub fn set_dst_port(&mut self, v: u16)
        requires
            old(self).wf(),
        ensures
            final(self).wf(),
            final(self)@ == put16(old(self)@, old(self).spec_offset() + 2, v as int),
            final(self).spec_kind() == old(self).spec_kind(),
            final(self).spec_offset() == old(self).spec_offset(),
            final(self).spec_tailroom() == old(self).spec_tailroom(),
            final(self).spec_headroom() == old(self).spec_headroom(),
    {
        self.mbuf.write_u16(self.offset + 2, v);
        proof {
            lemma_offsets_outside_prefix(old(self)@, final(self)@, self.kind, self.offset as int);
        }
    }

    /// The length field: bytes of header and payload together.
    pub fn length(&self) -> (r: u16)
        requires
            self.wf(),
        ensures
            r as int == be16(self@, self.spec_offset() + 4),
    {
        self.mbuf.read_u16(self.offset + 4)
    }

    /// The checksum field.
    pub fn checksum(&self) -> (r: u16)
        requires
            self.wf(),
        ensures
            r as int == be16(self@, self.spec_offset() + 6),
    {
        self.mbuf.read_u16(self.offset + 6)
    }

    /// Recomputes, from innermost out, everything this packet owes the
    /// wire: the length field, the UDP checksum over the envelope's
    /// pseudo-header and the datagram's bytes, then the envelope's length
    /// fields and — for IPv4 — its header checksum.
    #[verifier::rlimit(60)]
    pub fn cascade(&mut self)
        requires
            old(self).wf(),
        ensures
            final(self).wf(),
            final(self)@ == udp_cascaded(old(self)@, old(self).spec_kind()),
            final(self).spec_kind() == old(self).spec_kind(),
            final(self).spec_offset() == old(self).spec_offset(),
            final(self).spec_tailroom() == old(self).spec_tailroom(),
            final(self).spec_headroom() == old(self).spec_headroom(),
    {
        let ghost d = self@;
        let ghost k0 = self.kind;
        let off = self.offset;
        let end = self.mbuf.data_len();
        let plen = end - off;
        proof {
            lemma_payload_off_bounds(d, k0);
        }
        let ph: u64 = match self.kind {
            IpEnvKind::Ipv4 => {
                proof {
                    lemma_word_sum_nonneg(self@, 26, 2);
                    lemma_word_sum_nonneg(self@, 30, 2);
                    lemma_word_sum_bound(self@, 26, 2);
                    lemma_word_sum_bound(self@, 30, 2);
                }
                read_word_sum(&self.mbuf, 26, 2) + read_word_sum(&self.mbuf, 30, 2)
            },
            IpEnvKind::Ipv6 => {
                proof {
                    lemma_word_sum_nonneg(self@, 22, 8);
                    lemma_word_sum_nonneg(self@, 38, 8);
                    lemma_word_sum_bound(self@, 22, 8);
                    lemma_word_sum_bound(self@, 38, 8);
                }
                read_word_sum(&self.mbuf, 22, 8) + read_word_sum(&self.mbuf, 38, 8)
            },
            IpEnvKind::SegmentRouting => {
                proof {
                    lemma_word_sum_nonneg(self@, 22, 8);
                    lemma_word_sum_nonneg(self@, 62, 8);
                    lemma_word_sum_bound(self@, 22, 8);
                    lemma_word_sum_bound(self@, 62, 8);
                }
                read_word_sum(&self.mbuf, 22, 8) + read_word_sum(&self.mbuf, 62, 8)
            },
        };
        self.mbuf.write_u16(off + 4, plen as u16);
        let ghost d0 = put16(d, off + 4, plen as int);
        self.mbuf.write_u16(off + 6, 0);
        proof {
            assert(self@ =~= put16(d0, off + 6, 0));
            lemma_ones_sum_nonneg(self@, off as int, end as int);
            lemma_ones_sum_bound(self@, off as int, end as int);
        }
        let body = range_sum(&self.mbuf, off, end);
        let sum = ph + (plen as u64) + (PROTO_UDP as u64) + body;
        let c = fold_checksum(sum);
        let cw: u16 = if c == 0 {
            0xffff
        } else {
            c
        };
        self.mbuf.write_u16(off + 6, cw);
        let ghost d1 = put16(d0, off + 6, if transport_checksum(d0, off as int, d0.len() as int, off
            + 6, env_pseudo_sum(d, k0, plen as int, PROTO_UDP as int)) == 0 {
            0xffff
        } else {
            transport_checksum(d0, off as int, d0.len() as int, off + 6, env_pseudo_sum(d, k0, plen
                as int, PROTO_UDP as int))
        });
        proof {
            assert(self@ =~= d1);
            lemma_offsets_outside_prefix(d, self@, k0, off as int);
        }
        match self.kind {
            IpEnvKind::Ipv4 => {
                let total = self.mbuf.data_len() - 14;
                self.mbuf.write_u16(16, total as u16);
                let ghost d2 = self@;
                let hlen = 4 * ((self.mbuf.read_u8(14) % 16) as usize);
                self.mbuf.write_u16(24, 0);
                let hsum = range_sum(&self.mbuf, 14, 14 + hlen);
                let hc = fold_checksum(hsum);
                self.mbuf.write_u16(24, hc);
                proof {
                    assert(put16(put16(d2, 24, 0), 24, hc as int) =~= put16(d2, 24, hc as int));
                    assert(self@ =~= env_reconciled(d1, k0));
                    lemma_offsets_outside_prefix(d1, self@, k0, off as int);
                }
            },
            _ => {
                let fresh = self.mbuf.data_len() - 54;
                self.mbuf.write_u16(18, fresh as u16);
                proof {
                    assert(self@ =~= env_reconciled(d1, k0));
                    lemma_offsets_outside_prefix(d1, self@, k0, off as int);
                }
            },
        }
    }
}

/// Cascading is idempotent: running a cascade over an already cascaded
/// datagram recomputes every length and checksum to the value it already
/// has, leaving the bytes identical.
pub proof fn lemma_udp_cascade_idempotent(d: Seq<u8>, kind: IpEnvKind)
    requires
        env_hdr_wf(d, kind),
        env_payload_off(d, kind) + 8 <= d.len(),
        d.len() <= 0xffff,
    ensures
        udp_cascaded(udp_cascaded(d, kind), kind) == udp_cascaded(d, kind),
{
    let off = env_payload_off(d, kind);
    let plen = d.len() - off;
    let d0 = put16(d, off + 4, plen);
    let ph = env_pseudo_sum(d, kind, plen, PROTO_UDP as int);
    let c = transport_checksum(d0, off, d0.len() as int, off + 6, ph);
    let cw: int = if c == 0 {
        0xffff
    } else {
        c
    };
    let d1 = put16(d0, off + 6, cw);
    let e = env_reconciled(d1, kind);
    lemma_payload_off_bounds(d, kind);
    assert(e.len() == d.len());
    assert forall|k: int|
        0 <= k < off && k != 16 && k != 17 && k != 18 && k != 19 && !(24 <= k < 26) implies e[k]
        == d[k] by {}
    match kind {
        IpEnvKind::Ipv4 => {
            assert(be16(e, 16) == d.len() - 14);
        },
        _ => {},
    }
    lemma_offsets_outside_prefix(d, e, kind, off);
    let plen2 = e.len() - off;
    let d0b = put16(e, off + 4, plen2);
    assert(d0b =~= e);
    let ph2 = env_pseudo_sum(e, kind, plen2, PROTO_UDP as int);
    assert(ph2 == ph) by {
        match kind {
            IpEnvKind::Ipv4 => {
                lemma_word_sum_unchanged(e, d, 26, 2);
                lemma_word_sum_unchanged(e, d, 30, 2);
            },
            IpEnvKind::Ipv6 => {
                lemma_word_sum_unchanged(e, d, 22, 8);
                lemma_word_sum_unchanged(e, d, 38, 8);
            },
            IpEnvKind::SegmentRouting => {
                lemma_word_sum_unchanged(e, d, 22, 8);
                lemma_word_sum_unchanged(e, d, 62, 8);
            },
        }
    }
    let c2 = transport_checksum(d0b, off, d0b.len() as int, off + 6, ph2);
    assert(c2 == c) by {
        let ez = put16(d0b, off + 6, 0);
        let dz = put16(d0, off + 6, 0);
        assert forall|k: int| off <= k < d.len() implies #[trigger] ez[k] == dz[k] by {}
        lemma_ones_sum_unchanged(ez, dz, off, d.len() as int);
    }
    let cw2: int = if c2 == 0 {
        0xffff
    } else {
        c2
    };
    let d1b = put16(d0b, off + 6, cw2);
    assert(d1b =~= e);
    match kind {
        IpEnvKind::Ipv4 => {
            let d2 = put16(d1, 16, d1.len() - 14);
            let h = crate::ipv4::ipv4_header_checksum(d2);
            assert(e == put16(d2, 24, h));
            let d2b = put16(e, 16, e.len() - 14);
            assert(d2b =~= e);
            let h2 = crate::ipv4::ipv4_header_checksum(d2b);
            assert(h2 == h) by {
                assert(put16(d2b, 24, 0) =~= put16(d2, 24, 0));
                assert(d2b[14] == d2[14]);
            }
            assert(ipv4_reconciled(e) =~= e);
            assert(env_reconciled(d1b, kind) =~= e);
        },
        _ => {
            assert(env_reconciled(d1b, kind) =~= e);
        },
    }
    assert(udp_cascaded(e, kind) =~= e);
}

} // verus!
