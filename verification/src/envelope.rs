//! The envelope of a transport layer: any of the IP-capable layers,
//! tagged at run time, with the capability set a transport layer needs of
//! it — payload position, next-protocol field, and pseudo-header sum.

use vstd::prelude::*;
use crate::checksum::{pseudo_v4_sum, pseudo_v6_sum};
use crate::ipv4::{ipv4_hdr_wf, ipv4_reconciled, Ipv4};
use crate::ipv6::{ipv6_hdr_wf, Ipv6};
use crate::mbuf::{be16, put16, Mbuf};
use crate::srh::{srh_hdr_wf, srh_seg_count, SegmentRouting};

verus! {

broadcast use crate::mbuf::lemma_wf_bounds;

/// Which IP-capable layer encloses a transport layer.
#[derive(Clone, Copy, Debug, PartialEq, Eq, Structural)]
pub enum IpEnvKind {
    /// An IPv4 header at offset 14.
    Ipv4,
    /// An IPv6 header at offset 14, nothing between it and the transport.
    Ipv6,
    /// An IPv6 header at offset 14 with a segment routing header at 54.
    SegmentRouting,
}

/// The headers of an envelope of the given kind all lie consistent in the
/// live data.
pub open spec fn env_hdr_wf(d: Seq<u8>, kind: IpEnvKind) -> bool {
    match kind {
        IpEnvKind::Ipv4 => d.len() >= 14 && ipv4_hdr_wf(d, 14),
        IpEnvKind::Ipv6 => d.len() >= 14 && ipv6_hdr_wf(d, 14),
        IpEnvKind::SegmentRouting => d.len() >= 14 && ipv6_hdr_wf(d, 14) && srh_hdr_wf(d, 54),
    }
}

/// Byte position of the envelope's payload: where the transport layer
/// begins.
pub open spec fn env_payload_off(d: Seq<u8>, kind: IpEnvKind) -> int {
    match kind {
        IpEnvKind::Ipv4 => 14 + 4 * ((d[14] as int) % 16),
        IpEnvKind::Ipv6 => 54,
        IpEnvKind::SegmentRouting => 62 + 16 * srh_seg_count(d, 54),
    }
}

/// Byte position of the envelope's next-protocol field: the IPv4
/// protocol byte, the IPv6 next-header byte, or the routing header's
/// next-header byte.
pub open spec fn env_next_proto_off(kind: IpEnvKind) -> int {
    match kind {
        IpEnvKind::Ipv4 => 23,
        IpEnvKind::Ipv6 => 20,
        IpEnvKind::SegmentRouting => 54,
    }
}

/// The pseudo-header sum the envelope supplies to a transport checksum:
/// over the IPv4 addresses, the IPv6 addresses, or — per RFC 8200 §8.1,
/// with a routing header present — the IPv6 source and the final
/// destination, which at the origin is the first entry of the segment
/// list.
pub open spec fn env_pseudo_sum(d: Seq<u8>, kind: IpEnvKind, plen: int, proto: int) -> int {
    match kind {
        IpEnvKind::Ipv4 => pseudo_v4_sum(d, 26, 30, plen, proto),
        IpEnvKind::Ipv6 => pseudo_v6_sum(d, 22, 38, plen, proto),
        IpEnvKind::SegmentRouting => pseudo_v6_sum(d, 22, 62, plen, proto),
    }
}

/// The envelope's own lengths and checksum recomputed from the live
/// data: what a cascade does to the envelope after the transport layer
/// has settled its checksum. An IPv4 envelope refreshes its total length
/// and header checksum; an IPv6 one — routed or not — its payload
/// length.
pub open spec fn env_reconciled(d: Seq<u8>, kind: IpEnvKind) -> Seq<u8> {
    match kind {
        IpEnvKind::Ipv4 => ipv4_reconciled(d),
        IpEnvKind::Ipv6 => put16(d, 18, d.len() - 54),
        IpEnvKind::SegmentRouting => put16(d, 18, d.len() - 54),
    }
}

/// An IP-capable envelope, tagged at run time. UDP over IPv4 and UDP over
/// IPv6 share one implementation and differ only in what they obtain from
/// this value.
#[derive(Debug)]
pub enum IpEnvelope {
    /// An IPv4 packet.
    Ipv4(Ipv4),
    /// An IPv6 packet with the transport directly inside.
    Ipv6(Ipv6),
    /// An IPv6 packet routed through a segment routing header.
    SegmentRouting(SegmentRouting),
}

impl View for IpEnvelope {
    type V = Seq<u8>;

    /// The live data of the underlying buffer.
    closed spec fn view(&self) -> Seq<u8> {
        match self {
            IpEnvelope::Ipv4(p) => p@,
            IpEnvelope::Ipv6(p) => p@,
            IpEnvelope::SegmentRouting(p) => p@,
        }
    }
}

impl IpEnvelope {
    /// Which layer the envelope is.
    pub open spec fn spec_kind(&self) -> IpEnvKind {
        match self {
            IpEnvelope::Ipv4(_) => IpEnvKind::Ipv4,
            IpEnvelope::Ipv6(_) => IpEnvKind::Ipv6,
            IpEnvelope::SegmentRouting(_) => IpEnvKind::SegmentRouting,
        }
    }

    /// The enclosed layer's well-formedness.
    pub open spec fn wf(&self) -> bool {
        match self {
            IpEnvelope::Ipv4(p) => p.wf(),
            IpEnvelope::Ipv6(p) => p.wf(),
            IpEnvelope::SegmentRouting(p) => p.wf(),
        }
    }

    /// Tailroom of the underlying buffer.
    pub open spec fn spec_tailroom(&self) -> int {
        match self {
            IpEnvelope::Ipv4(p) => p.spec_tailroom(),
            IpEnvelope::Ipv6(p) => p.spec_tailroom(),
            IpEnvelope::SegmentRouting(p) => p.spec_tailroom(),
        }
    }

    /// Headroom of the underlying buffer.
    pub open spec fn spec_headroom(&self) -> int {
        match self {
            IpEnvelope::Ipv4(p) => p.spec_headroom(),
            IpEnvelope::Ipv6(p) => p.spec_headroom(),
            IpEnvelope::SegmentRouting(p) => p.spec_headroom(),
        }
    }

    /// Which layer the envelope is, at run time.
    pub fn kind(&self) -> (r: IpEnvKind)
        ensures
            r == self.spec_kind(),
    {
        match self {
            IpEnvelope::Ipv4(_) => IpEnvKind::Ipv4,
            IpEnvelope::Ipv6(_) => IpEnvKind::Ipv6,
            IpEnvelope::SegmentRouting(_) => IpEnvKind::SegmentRouting,
        }
    }

    /// Unwraps the envelope down to the raw buffer.
    pub fn into_mbuf(self) -> (r: Mbuf)
        requires
            self.wf(),
        ensures
            r.wf(),
            r@ == self@,
            env_hdr_wf(r@, self.spec_kind()),
            r.spec_tailroom() == self.spec_tailroom(),
            r.spec_headroom() == self.spec_headroom(),
    {
        match self {
            IpEnvelope::Ipv4(p) => p.reset(),
            IpEnvelope::Ipv6(p) => p.reset(),
            IpEnvelope::SegmentRouting(p) => p.reset(),
        }
    }

    /// Wraps a buffer whose headers are known consistent for the given
    /// kind.
    pub(crate) fn attach(mbuf: Mbuf, kind: IpEnvKind) -> (r: IpEnvelope)
        requires
            mbuf.wf(),
            env_hdr_wf(mbuf@, kind),
        ensures
            r.wf(),
            r@ == mbuf@,
            r.spec_kind() == kind,
            r.spec_tailroom() == mbuf.spec_tailroom(),
            r.spec_headroom() == mbuf.spec_headroom(),
    {
        match kind {
            IpEnvKind::Ipv4 => IpEnvelope::Ipv4(Ipv4::attach(mbuf)),
            IpEnvKind::Ipv6 => IpEnvelope::Ipv6(Ipv6::attach(mbuf)),
            IpEnvKind::SegmentRouting => IpEnvelope::SegmentRouting(SegmentRouting::attach(mbuf)),
        }
    }
}

/// Byte position of the envelope's next-protocol field, at run time.
pub(crate) fn next_proto_off_of(kind: IpEnvKind) -> (r: usize)
    ensures
        r as int == env_next_proto_off(kind),
{
    match kind {
        IpEnvKind::Ipv4 => 23,
        IpEnvKind::Ipv6 => 20,
        IpEnvKind::SegmentRouting => 54,
    }
}

/// Reads the envelope's payload position out of the buffer.
pub(crate) fn payload_off_of(m: &Mbuf, kind: IpEnvKind) -> (r: usize)
    requires
        m.wf(),
        env_hdr_wf(m@, kind),
    ensures
        r as int == env_payload_off(m@, kind),
{
    match kind {
        IpEnvKind::Ipv4 => 14 + 4 * ((m.read_u8(14) % 16) as usize),
        IpEnvKind::Ipv6 => 54,
        IpEnvKind::SegmentRouting => 62 + 16 * ((m.read_u8(58) as usize) + 1),
    }
}

/// The envelope's payload lies past all its headers and fields: past the
/// addresses that feed the pseudo-header, and past every length and
/// protocol field the cascade rewrites.
pub proof fn lemma_payload_off_bounds(d: Seq<u8>, kind: IpEnvKind)
    requires
        env_hdr_wf(d, kind),
    ensures
        kind is Ipv4 ==> env_payload_off(d, kind) >= 34,
        kind is Ipv6 ==> env_payload_off(d, kind) == 54,
        kind is SegmentRouting ==> env_payload_off(d, kind) >= 78,
        env_payload_off(d, kind) >= 34,
        env_payload_off(d, kind) <= d.len(),
{
}

/// Bytes written at or past the envelope's payload leave every envelope
/// header untouched, so the envelope's shape — well-formedness, payload
/// position, pseudo-header inputs — carries over.
pub proof fn lemma_offsets_outside_prefix(d: Seq<u8>, e: Seq<u8>, kind: IpEnvKind, off: int)
    requires
        env_hdr_wf(d, kind),
        off == env_payload_off(d, kind),
        e.len() == d.len(),
        forall|k: int| 0 <= k < off && k != 16 && k != 17 && k != 18 && k != 19 && !(24 <= k < 26)
            ==> e[k] == d[k],
        kind is Ipv4 ==> be16(e, 16) >= 4 * ((d[14] as int) % 16),
    ensures
        env_hdr_wf(e, kind),
        env_payload_off(e, kind) == off,
{
    lemma_payload_off_bounds(d, kind);
    match kind {
        IpEnvKind::Ipv4 => {
            assert(e[14] == d[14]);
        },
        IpEnvKind::Ipv6 => {
            assert(e[14] == d[14]);
        },
        IpEnvKind::SegmentRouting => {
            assert(e[14] == d[14] && e[55] == d[55] && e[58] == d[58]);
        },
    }
}

} // verus!
