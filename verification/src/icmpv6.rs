//! The ICMPv6 layer over an IPv6-capable envelope: the RFC 4443 header
//! with a typed message body — echo request and reply, and the RFC 4861
//! neighbor discovery messages — and a checksum over the IPv6
//! pseudo-header.

use vstd::prelude::*;
use crate::checksum::{
    fold_checksum, lemma_ones_sum_bound, lemma_ones_sum_nonneg, lemma_ones_sum_unchanged,
    lemma_word_sum_bound, lemma_word_sum_nonneg, lemma_word_sum_unchanged, range_sum,
    read_word_sum, transport_checksum,
};
use crate::envelope::{
    env_hdr_wf, env_next_proto_off, env_payload_off, env_pseudo_sum, env_reconciled,
    lemma_offsets_outside_prefix, lemma_payload_off_bounds, next_proto_off_of, payload_off_of,
    IpEnvKind, IpEnvelope,
};
use crate::errors::{PacketError, ParseError};
use crate::ipaddr::Ipv6Addr;
use crate::mbuf::{be16, be32, put16, BufferError, Mbuf, SizeOf};
use crate::proto::PROTO_ICMPV6;

verus! {

broadcast use crate::mbuf::lemma_wf_bounds;

/// Bytes of the ICMPv6 header: type, code, checksum.
pub const ICMPV6_HEADER_LEN: usize = 4;

/// Message type of an echo request.
pub const ICMPV6_ECHO_REQUEST: u8 = 128;

/// Message type of an echo reply.
pub const ICMPV6_ECHO_REPLY: u8 = 129;

/// Message type of a router solicitation.
pub const ICMPV6_ROUTER_SOLICITATION: u8 = 133;

/// Message type of a router advertisement.
pub const ICMPV6_ROUTER_ADVERTISEMENT: u8 = 134;

/// Message type of a neighbor solicitation.
pub const ICMPV6_NEIGHBOR_SOLICITATION: u8 = 135;

/// Message type of a neighbor advertisement.
pub const ICMPV6_NEIGHBOR_ADVERTISEMENT: u8 = 136;

/// Message type of a redirect.
pub const ICMPV6_REDIRECT: u8 = 137;

/// Bytes of the fixed body a message type requires after the four-byte
/// header: the typed record before any variable data or options.
pub open spec fn icmpv6_body_min(t: u8) -> int {
    if t == 128 || t == 129 || t == 133 {
        4
    } else if t == 134 {
        12
    } else if t == 135 || t == 136 {
        20
    } else if t == 137 {
        36
    } else {
        0
    }
}

/// A message type with an echo body: identifier, sequence number, data.
pub open spec fn is_echo_type(t: u8) -> bool {
    t == 128 || t == 129
}

/// A message type whose body starts with a reserved word and a target
/// address: the neighbor discovery solicitation and advertisement.
pub open spec fn is_neighbor_type(t: u8) -> bool {
    t == 135 || t == 136
}

/// A typed ICMPv6 message body: knows the message type byte that
/// announces it on the wire.
pub trait Icmpv6Payload {
    /// The message type, as a mathematical value.
    spec fn spec_msg_type() -> u8;

    /// Returns the message type that announces this body.
    fn msg_type() -> (t: u8)
        ensures
            t == Self::spec_msg_type(),
    ;
}

/// Echo request body: the identifier and sequence number, followed on the
/// wire by arbitrary data.
#[derive(Clone, Copy, Debug, Default, PartialEq, Eq, Structural)]
pub struct EchoRequest {
    /// Identifier to aid matching replies to requests.
    pub identifier: u16,
    /// Sequence number to aid matching replies to requests.
    pub seq_no: u16,
}

impl SizeOf for EchoRequest {
    open spec fn spec_size_of() -> usize {
        4
    }

    fn size_of() -> (n: usize)
        ensures
            n == Self::spec_size_of(),
    {
        4
    }
}

impl Icmpv6Payload for EchoRequest {
    open spec fn spec_msg_type() -> u8 {
        128
    }

    fn msg_type() -> (t: u8)
        ensures
            t == Self::spec_msg_type(),
    {
        ICMPV6_ECHO_REQUEST
    }
}

/// Echo reply body: the identifier and sequence number from the invoking
/// request, followed on the wire by the request's data.
#[derive(Clone, Copy, Debug, Default, PartialEq, Eq, Structural)]
pub struct EchoReply {
    /// The identifier from the invoking echo request.
    pub identifier: u16,
    /// The sequence number from the invoking echo request.
    pub seq_no: u16,
}

impl SizeOf for EchoReply {
    open spec fn spec_size_of() -> usize {
        4
    }

    fn size_of() -> (n: usize)
        ensures
            n == Self::spec_size_of(),
    {
        4
    }
}

impl Icmpv6Payload for EchoReply {
    open spec fn spec_msg_type() -> u8 {
        129
    }

    fn msg_type() -> (t: u8)
        ensures
            t == Self::spec_msg_type(),
    {
        ICMPV6_ECHO_REPLY
    }
}

/// Router solicitation body: a reserved word, followed on the wire by
/// options.
#[derive(Clone, Copy, Debug, Default, PartialEq, Eq, Structural)]
pub struct RouterSolicitation {
    /// Unused; zero on transmission.
    pub reserved: u32,
}

impl SizeOf for RouterSolicitation {
    open spec fn spec_size_of() -> usize {
        4
    }

    fn size_of() -> (n: usize)
        ensures
            n == Self::spec_size_of(),
    {
        4
    }
}

impl Icmpv6Payload for RouterSolicitation {
    open spec fn spec_msg_type() -> u8 {
        133
    }

    fn msg_type() -> (t: u8)
        ensures
            t == Self::spec_msg_type(),
    {
        ICMPV6_ROUTER_SOLICITATION
    }
}

/// Router advertisement body, followed on the wire by options.
#[derive(Clone, Copy, Debug, Default, PartialEq, Eq, Structural)]
pub struct RouterAdvertisement {
    /// Default hop limit for the link.
    pub current_hop_limit: u8,
    /// Managed and other-configuration flags.
    pub flags: u8,
    /// Lifetime of the router as a default router, in seconds.
    pub router_lifetime: u16,
    /// Reachability retention time, in milliseconds.
    pub reachable_time: u32,
    /// Retransmission interval, in milliseconds.
    pub retrans_timer: u32,
}

impl SizeOf for RouterAdvertisement {
    open spec fn spec_size_of() -> usize {
        12
    }

    fn size_of() -> (n: usize)
        ensures
            n == Self::spec_size_of(),
    {
        12
    }
}

impl Icmpv6Payload for RouterAdvertisement {
    open spec fn spec_msg_type() -> u8 {
        134
    }

    fn msg_type() -> (t: u8)
        ensures
            t == Self::spec_msg_type(),
    {
        ICMPV6_ROUTER_ADVERTISEMENT
    }
}

/// Neighbor solicitation body: a reserved word and the target address,
/// followed on the wire by options.
#[derive(Clone, Copy, Debug, Default, PartialEq, Eq, Structural)]
pub struct NeighborSolicitation {
    /// Unused; zero on transmission.
    pub reserved: u32,
    /// The address of the target of the solicitation.
    pub target_addr: Ipv6Addr,
}

impl SizeOf for NeighborSolicitation {
    open spec fn spec_size_of() -> usize {
        20
    }

    fn size_of() -> (n: usize)
        ensures
            n == Self::spec_size_of(),
    {
        20
    }
}

impl Icmpv6Payload for NeighborSolicitation {
    open spec fn spec_msg_type() -> u8 {
        135
    }

    fn msg_type() -> (t: u8)
        ensures
            t == Self::spec_msg_type(),
    {
        ICMPV6_NEIGHBOR_SOLICITATION
    }
}

/// Neighbor advertisement body: the router, solicited and override flags
/// and the target address, followed on the wire by options.
#[derive(Clone, Copy, Debug, Default, PartialEq, Eq, Structural)]
pub struct NeighborAdvertisement {
    /// The flag bits in the top of the word; the rest reserved.
    pub flags: u32,
    /// The address whose reachability the advertisement asserts.
    pub target_addr: Ipv6Addr,
}

impl SizeOf for NeighborAdvertisement {
    open spec fn spec_size_of() -> usize {
        20
    }

    fn size_of() -> (n: usize)
        ensures
            n == Self::spec_size_of(),
    {
        20
    }
}

impl Icmpv6Payload for NeighborAdvertisement {
    open spec fn spec_msg_type() -> u8 {
        136
    }

    fn msg_type() -> (t: u8)
        ensures
            t == Self::spec_msg_type(),
    {
        ICMPV6_NEIGHBOR_ADVERTISEMENT
    }
}

/// Redirect body: a reserved word, the better first hop, and the
/// redirected destination, followed on the wire by options.
#[derive(Clone, Copy, Debug, Default, PartialEq, Eq, Structural)]
pub struct Redirect {
    /// Unused; zero on transmission.
    pub reserved: u32,
    /// The better first hop for the destination.
    pub target_addr: Ipv6Addr,
    /// The destination redirected to the target.
    pub dst_addr: Ipv6Addr,
}

impl SizeOf for Redirect {
    open spec fn spec_size_of() -> usize {
        36
    }

    fn size_of() -> (n: usize)
        ensures
            n == Self::spec_size_of(),
    {
        36
    }
}

impl Icmpv6Payload for Redirect {
    open spec fn spec_msg_type() -> u8 {
        137
    }

    fn msg_type() -> (t: u8)
        ensures
            t == Self::spec_msg_type(),
    {
        ICMPV6_REDIRECT
    }
}

/// Option type of a source link-layer address.
pub const NDP_OPT_SOURCE_LINK_ADDR: u8 = 1;

/// Option type of a target link-layer address.
pub const NDP_OPT_TARGET_LINK_ADDR: u8 = 2;

/// Option type of prefix information.
pub const NDP_OPT_PREFIX_INFORMATION: u8 = 3;

/// Option type of a redirected header.
pub const NDP_OPT_REDIRECTED_HEADER: u8 = 4;

/// Option type of a link MTU.
pub const NDP_OPT_MTU: u8 = 5;

/// A message type that carries a typed options list after its body: the
/// RFC 4861 neighbor discovery messages.
pub open spec fn is_ndp_type(t: u8) -> bool {
    t == 133 || t == 134 || t == 135 || t == 136 || t == 137
}

/// One option of a neighbor discovery message: a type byte and the
/// option's content, without the two-byte type-and-length prefix.
#[derive(Clone, Debug)]
pub struct NdpOption {
    /// The option type.
    pub opt_type: u8,
    /// The option's content; with the two prefix bytes it fills a whole
    /// number of eight-byte units.
    pub content: Vec<u8>,
}

impl View for NdpOption {
    type V = (u8, Seq<u8>);

    /// The option type and content.
    closed spec fn view(&self) -> (u8, Seq<u8>) {
        (self.opt_type, self.content@)
    }
}

/// The bytes `d[i..end)` hold a well-formed options list: a run of
/// type-length-content records, each a non-zero number of eight-byte
/// units long, together covering the region exactly.
pub open spec fn ndp_opts_wf(d: Seq<u8>, i: int, end: int) -> bool
    decreases end - i,
{
    if i >= end {
        true
    } else if i + 2 > end {
        false
    } else {
        let l = 8 * (d[i + 1] as int);
        l > 0 && i + l <= end && ndp_opts_wf(d, i + l, end)
    }
}

/// The options the bytes `d[i..end)` denote, as type and content pairs,
/// as far as the records are well formed.
pub open spec fn ndp_opts_list(d: Seq<u8>, i: int, end: int) -> Seq<(u8, Seq<u8>)>
    decreases end - i,
{
    if i >= end || i + 2 > end {
        Seq::empty()
    } else {
        let l = 8 * (d[i + 1] as int);
        if l > 0 && i + l <= end {
            seq![(d[i], d.subrange(i + 2, i + l))] + ndp_opts_list(d, i + l, end)
        } else {
            Seq::empty()
        }
    }
}

/// The live data after a full cascade starting at an ICMPv6 layer: the
/// checksum recomputed over the IPv6 pseudo-header and the message's
/// bytes, then the envelope's payload length refreshed.
pub open spec fn icmpv6_cascaded(d: Seq<u8>, kind: IpEnvKind) -> Seq<u8> {
    let off = env_payload_off(d, kind);
    let plen = d.len() - off;
    let ph = env_pseudo_sum(d, kind, plen, PROTO_ICMPV6 as int);
    let c = transport_checksum(d, off, d.len() as int, off + 2, ph);
    env_reconciled(put16(d, off + 2, c), kind)
}

/// An ICMPv6 message enclosed in an IPv6-capable envelope. The message
/// type is carried in the wire bytes; accessors of a typed body ask for
/// the matching type.
#[derive(Debug)]
pub struct Icmpv6 {
    mbuf: Mbuf,
    kind: IpEnvKind,
    offset: usize,
}

impl View for Icmpv6 {
    type V = Seq<u8>;

    /// The live data of the underlying buffer.
    closed spec fn view(&self) -> Seq<u8> {
        self.mbuf@
    }
}

impl Icmpv6 {
    /// The underlying buffer's bookkeeping is consistent.
    pub closed spec fn buf_wf(&self) -> bool {
        self.mbuf.wf()
    }

    /// Which layer encloses the message; never an IPv4 packet.
    pub closed spec fn spec_kind(&self) -> IpEnvKind {
        self.kind
    }

    /// Byte position of the ICMPv6 header within the buffer.
    pub closed spec fn spec_offset(&self) -> int {
        self.offset as int
    }

    /// Tailroom of the underlying buffer.
    pub closed spec fn spec_tailroom(&self) -> int {
        self.mbuf.spec_tailroom()
    }

    /// Headroom of the underlying buffer.
    pub closed spec fn spec_headroom(&self) -> int {
        self.mbuf.spec_headroom()
    }

    /// The message type byte, as a spec value.
    pub open spec fn spec_msg_type(&self) -> u8 {
        self@[self.spec_offset()]
    }

    /// A well-formed view: consistent buffer and envelope headers over
    /// IPv6, the ICMPv6 header right at the envelope's payload, and the
    /// typed body the message type announces within the live data.
    pub open spec fn wf(&self) -> bool {
        &&& self.buf_wf()
        &&& !(self.spec_kind() is Ipv4)
        &&& env_hdr_wf(self@, self.spec_kind())
        &&& self.spec_offset() == env_payload_off(self@, self.spec_kind())
        &&& self.spec_offset() + 4 <= self@.len()
        &&& self.spec_offset() + 4 + icmpv6_body_min(self.spec_msg_type()) <= self@.len()
    }

    /// Validates the envelope's payload as an ICMPv6 message of the given
    /// type: the envelope must be IPv6-capable, the four-byte header and
    /// the typed body must fit the live data, and the type byte must
    /// match. The buffer is never changed; on failure the envelope is
    /// consumed.
    pub fn parse(env: IpEnvelope, msg_type: u8) -> (r: Result<Icmpv6, PacketError>)
        requires
            env.wf(),
        ensures
            r is Ok <==> {
                let off = env_payload_off(env@, env.spec_kind());
                &&& !(env.spec_kind() is Ipv4)
                &&& off + 4 <= env@.len()
                &&& off + 4 + icmpv6_body_min(msg_type) <= env@.len()
                &&& env@[off] == msg_type
            },
            r is Ok ==> {
                &&& r->Ok_0.wf()
                &&& r->Ok_0@ == env@
                &&& r->Ok_0.spec_kind() == env.spec_kind()
                &&& r->Ok_0.spec_offset() == env_payload_off(env@, env.spec_kind())
                &&& r->Ok_0.spec_msg_type() == msg_type
                &&& r->Ok_0.spec_tailroom() == env.spec_tailroom()
                &&& r->Ok_0.spec_headroom() == env.spec_headroom()
            },
            r is Err && !(env.spec_kind() is Ipv4) && env_payload_off(env@, env.spec_kind()) + 4
                + icmpv6_body_min(msg_type) > env@.len() ==> r->Err_0 is Buffer,
            r is Err && (env.spec_kind() is Ipv4 || env_payload_off(env@, env.spec_kind()) + 4
                + icmpv6_body_min(msg_type) <= env@.len()) ==> r->Err_0 is Parse,
    {
        let kind = env.kind();
        if matches!(kind, IpEnvKind::Ipv4) {
            return Err(
                PacketError::Parse(
                    ParseError { reason: "an ICMPv6 message needs an IPv6 envelope" },
                ),
            );
        }
        let m = env.into_mbuf();
        let offset = payload_off_of(&m, kind);
        let need = ICMPV6_HEADER_LEN + body_min_exec(msg_type);
        if m.data_len() < offset || m.data_len() - offset < need {
            if offset >= m.data_len() {
                return Err(
                    PacketError::Buffer(BufferError::BadOffset(offset, m.data_len())),
                );
            }
            let rem = m.data_len() - offset;
            return Err(PacketError::Buffer(BufferError::OutOfBuffer(need, rem)));
        }
        if m.read_u8(offset) != msg_type {
            return Err(
                PacketError::Parse(
                    ParseError { reason: "the type byte does not announce the requested message" },
                ),
            );
        }
        Ok(Icmpv6 { mbuf: m, kind, offset })
    }

    /// Validates the envelope's payload as the ICMPv6 message the body
    /// type announces: `parse` driven by the typed body rather than a
    /// type byte.
    pub fn parse_typed<P: Icmpv6Payload>(env: IpEnvelope) -> (r: Result<Icmpv6, PacketError>)
        requires
            env.wf(),
        ensures
            r is Ok <==> {
                let off = env_payload_off(env@, env.spec_kind());
                &&& !(env.spec_kind() is Ipv4)
                &&& off + 4 <= env@.len()
                &&& off + 4 + icmpv6_body_min(P::spec_msg_type()) <= env@.len()
                &&& env@[off] == P::spec_msg_type()
            },
            r is Ok ==> {
                &&& r->Ok_0.wf()
                &&& r->Ok_0@ == env@
                &&& r->Ok_0.spec_kind() == env.spec_kind()
                &&& r->Ok_0.spec_offset() == env_payload_off(env@, env.spec_kind())
                &&& r->Ok_0.spec_msg_type() == P::spec_msg_type()
                &&& r->Ok_0.spec_tailroom() == env.spec_tailroom()
                &&& r->Ok_0.spec_headroom() == env.spec_headroom()
            },
    {
        Icmpv6::parse(env, P::msg_type())
    }

    /// Inserts a default message of the given type — header and typed
    /// body all zero but for the type byte — between the envelope's
    /// headers and its payload, and marks the envelope's next protocol
    /// as ICMPv6. Succeeds exactly when the envelope is IPv6-capable and
    /// the new bytes fit the spare tailroom.
    pub fn push(env: IpEnvelope, msg_type: u8) -> (r: Result<Icmpv6, PacketError>)
        requires
            env.wf(),
        ensures
            r is Ok <==> !(env.spec_kind() is Ipv4) && 4 + icmpv6_body_min(msg_type) < env
                .spec_tailroom(),
            r is Ok ==> {
                let off = env_payload_off(env@, env.spec_kind());
                let need = 4 + icmpv6_body_min(msg_type);
                let out = r->Ok_0;
                &&& out.wf()
                &&& out@.len() == env@.len() + need
                &&& out.spec_kind() == env.spec_kind()
                &&& out.spec_offset() == off
                &&& out.spec_msg_type() == msg_type
                &&& (forall|k: int|
                    0 <= k < off && k != env_next_proto_off(env.spec_kind()) ==> out@[k]
                        == env@[k])
                &&& out@[env_next_proto_off(env.spec_kind())] == PROTO_ICMPV6
                &&& (forall|k: int| off < k < off + need ==> (#[trigger] out@[k]) == 0u8)
                &&& out@.subrange(off + need, out@.len() as int) == env@.subrange(
                    off,
                    env@.len() as int,
                )
                &&& out.spec_tailroom() == env.spec_tailroom() - need
                &&& out.spec_headroom() == env.spec_headroom()
            },
    {
        let ghost orig = env@;
        let kind = env.kind();
        if matches!(kind, IpEnvKind::Ipv4) {
            return Err(
                PacketError::Parse(
                    ParseError { reason: "an ICMPv6 message needs an IPv6 envelope" },
                ),
            );
        }
        let mut m = env.into_mbuf();
        let offset = payload_off_of(&m, kind);
        let need = ICMPV6_HEADER_LEN + body_min_exec(msg_type);
        match m.extend(offset, need) {
            Ok(_) => {},
            Err(e) => {
                return Err(PacketError::Buffer(e));
            },
        }
        proof {
            assert forall|k: int| 0 <= k < offset implies m@[k] == orig[k] by {
                assert(m@.subrange(0, offset as int)[k] == orig.subrange(0, offset as int)[k]);
            }
            assert forall|k: int| offset + need <= k < m@.len() implies m@[k] == orig[k
                - need] by {
                assert(m@.subrange(offset + need, m@.len() as int)[k - offset - need]
                    == orig.subrange(offset as int, orig.len() as int)[k - offset - need]);
            }
        }
        let mut j: usize = 0;
        while j < need
            invariant
                j <= need,
                need == 4 + icmpv6_body_min(msg_type),
                m.wf(),
                offset + need <= m@.len(),
                m@.len() == orig.len() + need,
                forall|k: int| 0 <= k < offset ==> m@[k] == orig[k],
                forall|k: int| offset <= k < offset + j ==> m@[k] == 0u8,
                forall|k: int| offset + need <= k < m@.len() ==> m@[k] == orig[k - need],
                m.spec_tailroom() == env.spec_tailroom() - need,
                m.spec_headroom() == env.spec_headroom(),
            decreases need - j,
        {
            m.write_u8(offset + j, 0);
            j = j + 1;
        }
        m.write_u8(offset, msg_type);
        let proto_off = next_proto_off_of(kind);
        m.write_u8(proto_off, PROTO_ICMPV6);
        proof {
            assert(m@.subrange(offset + need, m@.len() as int) =~= orig.subrange(
                offset as int,
                orig.len() as int,
            ));
        }
        Ok(Icmpv6 { mbuf: m, kind, offset })
    }

    /// Removes the four-byte ICMPv6 header, shrinking the buffer, and
    /// returns the envelope; the typed body stays, as the layer's former
    /// payload. The envelope's next-protocol field is left as it stands.
    pub fn remove(self) -> (r: Result<IpEnvelope, PacketError>)
        requires
            self.wf(),
        ensures
            r is Ok,
            ({
                let out = r->Ok_0;
                &&& out.wf()
                &&& out.spec_kind() == self.spec_kind()
                &&& out@ == self@.subrange(0, self.spec_offset()) + self@.subrange(
                    self.spec_offset() + 4,
                    self@.len() as int,
                )
                &&& out.spec_tailroom() == self.spec_tailroom() + 4
                &&& out.spec_headroom() == self.spec_headroom()
            }),
    {
        let ghost orig = self@;
        let offset = self.offset;
        let kind = self.kind;
        let mut m = self.mbuf;
        let res = m.shrink(offset, ICMPV6_HEADER_LEN);
        proof {
            assert(res is Ok);
            assert forall|k: int| 0 <= k < offset implies m@[k] == orig[k] by {
                assert(m@[k] == (orig.subrange(0, offset as int) + orig.subrange(
                    offset + 4,
                    orig.len() as int,
                ))[k]);
            }
            lemma_payload_off_bounds(orig, kind);
            assert(env_hdr_wf(m@, kind));
        }
        Ok(IpEnvelope::attach(m, kind))
    }

    /// Returns the envelope without further change.
    pub fn deparse(self) -> (r: IpEnvelope)
        requires
            self.wf(),
        ensures
            r.wf(),
            r@ == self@,
            r.spec_kind() == self.spec_kind(),
            r.spec_tailroom() == self.spec_tailroom(),
            r.spec_headroom() == self.spec_headroom(),
    {
        IpEnvelope::attach(self.mbuf, self.kind)
    }

    /// Returns the raw buffer underneath every layer.
    pub fn reset(self) -> (r: Mbuf)
        requires
            self.wf(),
        ensures
            r.wf(),
            r@ == self@,
            r.spec_tailroom() == self.spec_tailroom(),
            r.spec_headroom() == self.spec_headroom(),
    {
        self.mbuf
    }

    /// Byte position of the ICMPv6 header.
    pub fn offset(&self) -> (r: usize)
        requires
            self.wf(),
        ensures
            r == self.spec_offset(),
    {
        self.offset
    }

    /// Bytes of the ICMPv6 header proper; the typed body counts as the
    /// message's payload.
    pub fn header_len(&self) -> (r: usize)
        ensures
            r == 4,
    {
        ICMPV6_HEADER_LEN
    }

    /// Bytes from the header to the end of the message.
    pub fn len(&self) -> (r: usize)
        requires
            self.wf(),
        ensures
            r == self@.len() - self.spec_offset(),
    {
        self.mbuf.data_len() - self.offset
    }

    /// Byte position of the typed body.
    pub fn payload_offset(&self) -> (r: usize)
        requires
            self.wf(),
        ensures
            r == self.spec_offset() + 4,
    {
        self.offset + ICMPV6_HEADER_LEN
    }

    /// Bytes of the typed body and whatever follows it.
    pub fn payload_len(&self) -> (r: usize)
        requires
            self.wf(),
        ensures
            r == self@.len() - self.spec_offset() - 4,
    {
        self.len() - ICMPV6_HEADER_LEN
    }

    /// The message type byte.
    pub fn msg_type(&self) -> (r: u8)
        requires
            self.wf(),
        ensures
            r == self.spec_msg_type(),
    {
        self.mbuf.read_u8(self.offset)
    }

    /// The code byte.
    pub fn code(&self) -> (r: u8)
        requires
            self.wf(),
        ensures
            r == self@[self.spec_offset() + 1],
    {
        self.mbuf.read_u8(self.offset + 1)
    }

    /// Sets the code byte.
    pub fn set_code(&mut self, v: u8)
        requires
            old(self).wf(),
        ensures
            final(self).wf(),
            final(self)@ == old(self)@.update(old(self).spec_offset() + 1, v),
            final(self).spec_kind() == old(self).spec_kind(),
            final(self).spec_offset() == old(self).spec_offset(),
            final(self).spec_tailroom() == old(self).spec_tailroom(),
            final(self).spec_headroom() == old(self).spec_headroom(),
    {
        self.mbuf.write_u8(self.offset + 1, v);
        proof {
            lemma_offsets_outside_prefix(old(self)@, final(self)@, self.kind, self.offset as int);
        }
    }

    /// The checksum field.
    pub fn checksum(&self) -> (r: u16)
        requires
            self.wf(),
        ensures
            r as int == be16(self@, self.spec_offset() + 2),
    {
        self.mbuf.read_u16(self.offset + 2)
    }

    /// The identifier of an echo message.
    pub fn identifier(&self) -> (r: u16)
        requires
            self.wf(),
            is_echo_type(self.spec_msg_type()),
        ensures
            r as int == be16(self@, self.spec_offset() + 4),
    {
        self.mbuf.read_u16(self.offset + 4)
    }

    /// Sets the identifier of an echo message.
    pub fn set_identifier(&mut self, v: u16)
        requires
            old(self).wf(),
            is_echo_type(old(self).spec_msg_type()),
        ensures
            final(self).wf(),
            final(self)@ == put16(old(self)@, old(self).spec_offset() + 4, v as int),
            final(self).spec_kind() == old(self).spec_kind(),
            final(self).spec_offset() == old(self).spec_offset(),
            final(self).spec_msg_type() == old(self).spec_msg_type(),
            final(self).spec_tailroom() == old(self).spec_tailroom(),
            final(self).spec_headroom() == old(self).spec_headroom(),
    {
        self.mbuf.write_u16(self.offset + 4, v);
        proof {
            lemma_offsets_outside_prefix(old(self)@, final(self)@, self.kind, self.offset as int);
        }
    }

    /// The sequence number of an echo message.
    pub fn seq_no(&self) -> (r: u16)
        requires
            self.wf(),
            is_echo_type(self.spec_msg_type()),
        ensures
            r as int == be16(self@, self.spec_offset() + 6),
    {
        self.mbuf.read_u16(self.offset + 6)
    }

    /// Sets the sequence number of an echo message.
    pub fn set_seq_no(&mut self, v: u16)
        requires
            old(self).wf(),
            is_echo_type(old(self).spec_msg_type()),
        ensures
            final(self).wf(),
            final(self)@ == put16(old(self)@, old(self).spec_offset() + 6, v as int),
            final(self).spec_kind() == old(self).spec_kind(),
            final(self).spec_offset() == old(self).spec_offset(),
            final(self).spec_msg_type() == old(self).spec_msg_type(),
            final(self).spec_tailroom() == old(self).spec_tailroom(),
            final(self).spec_headroom() == old(self).spec_headroom(),
    {
        self.mbuf.write_u16(self.offset + 6, v);
        proof {
            lemma_offsets_outside_prefix(old(self)@, final(self)@, self.kind, self.offset as int);
        }
    }

    /// The data of an echo message: the bytes after the identifier and
    /// sequence number, copied out.
    pub fn data(&self) -> (r: Vec<u8>)
        requires
            self.wf(),
            is_echo_type(self.spec_msg_type()),
        ensures
            r@ == self@.subrange(self.spec_offset() + 8, self@.len() as int),
    {
        let start = self.offset + 8;
        let count = self.mbuf.data_len() - start;
        if count == 0 {
            let r: Vec<u8> = Vec::new();
            proof {
                assert(r@ =~= self@.subrange(self.spec_offset() + 8, self@.len() as int));
            }
            return r;
        }
        match self.mbuf.read_data_slice(start, count) {
            Ok(v) => v,
            Err(_) => {
                proof {
                    assert(false);
                }
                Vec::new()
            },
        }
    }

    /// Replaces the data of an echo message, resizing the buffer to fit.
    /// Like the resize it wraps, replacing the data with data of the same
    /// length is refused; growing must fit the spare tailroom.
    pub fn set_data(&mut self, data: &[u8]) -> (r: Result<(), PacketError>)
        requires
            old(self).wf(),
            is_echo_type(old(self).spec_msg_type()),
        ensures
            final(self).wf(),
            final(self).spec_kind() == old(self).spec_kind(),
            ({
                let old_dlen = old(self)@.len() - old(self).spec_offset() - 8;
                let new_dlen = data@.len() as int;
                &&& (r is Ok <==> new_dlen != old_dlen && (new_dlen < old_dlen || new_dlen
                    - old_dlen < old(self).spec_tailroom()))
                &&& (r is Err ==> *final(self) == *old(self))
                &&& (r is Ok ==> {
                    &&& final(self)@ == old(self)@.subrange(0, old(self).spec_offset() + 8)
                        + data@
                    &&& final(self).spec_offset() == old(self).spec_offset()
                    &&& final(self).spec_msg_type() == old(self).spec_msg_type()
                    &&& final(self).spec_tailroom() == old(self).spec_tailroom() - (new_dlen
                        - old_dlen)
                    &&& final(self).spec_headroom() == old(self).spec_headroom()
                })
            }),
    {
        let ghost orig = self@;
        let ghost k0 = self.kind;
        let start = self.offset + 8;
        let old_dlen = self.mbuf.data_len() - start;
        let new_dlen = data.len();
        proof {
            lemma_payload_off_bounds(orig, k0);
        }
        if new_dlen >= 0x10000 {
            // data this large can never fit a segment; the resize below
            // would refuse it, and its length cannot even be subtracted
            // without leaving the machine's signed range
            return Err(PacketError::Buffer(BufferError::NotResized));
        }
        let delta: isize = (new_dlen as isize) - (old_dlen as isize);
        match self.mbuf.resize(start, delta) {
            Ok(_) => {},
            Err(e) => {
                return Err(PacketError::Buffer(e));
            },
        }
        proof {
            assert forall|k: int| 0 <= k < start implies self@[k] == orig[k] by {
                if delta >= 0 {
                    assert(self@.subrange(0, start as int)[k] == orig.subrange(
                        0,
                        start as int,
                    )[k]);
                } else {
                    assert(self@[k] == (orig.subrange(0, start as int) + orig.subrange(start
                        - delta, orig.len() as int))[k]);
                }
            }
        }
        let wres = self.mbuf.write_data_slice(start, data);
        proof {
            assert(wres is Ok);
            assert(self@ =~= orig.subrange(0, start as int) + data@);
            assert forall|k: int| 0 <= k < start implies self@[k] == orig[k] by {
                assert(self@[k] == orig.subrange(0, start as int)[k]);
            }
            assert(env_hdr_wf(self@, k0));
        }
        Ok(())
    }

    /// The reserved word of a neighbor discovery message.
    pub fn reserved(&self) -> (r: u32)
        requires
            self.wf(),
            is_neighbor_type(self.spec_msg_type()),
        ensures
            r as int == be32(self@, self.spec_offset() + 4),
    {
        self.mbuf.read_u32(self.offset + 4)
    }

    /// The target address of a neighbor discovery message.
    pub fn target_addr(&self) -> (r: Ipv6Addr)
        requires
            self.wf(),
            is_neighbor_type(self.spec_msg_type()),
        ensures
            r@ == self@.subrange(self.spec_offset() + 8, self.spec_offset() + 24),
    {
        Ipv6Addr::read(&self.mbuf, self.offset + 8)
    }

    /// Sets the target address of a neighbor discovery message.
    pub fn set_target_addr(&mut self, target: Ipv6Addr)
        requires
            old(self).wf(),
            is_neighbor_type(old(self).spec_msg_type()),
        ensures
            final(self).wf(),
            final(self)@.len() == old(self)@.len(),
            final(self)@.subrange(old(self).spec_offset() + 8, old(self).spec_offset() + 24)
                == target@,
            forall|k: int|
                0 <= k < old(self)@.len() && !(old(self).spec_offset() + 8 <= k < old(
                    self,
                ).spec_offset() + 24) ==> final(self)@[k] == old(self)@[k],
            final(self).spec_kind() == old(self).spec_kind(),
            final(self).spec_offset() == old(self).spec_offset(),
            final(self).spec_msg_type() == old(self).spec_msg_type(),
            final(self).spec_tailroom() == old(self).spec_tailroom(),
            final(self).spec_headroom() == old(self).spec_headroom(),
    {
        target.write(&mut self.mbuf, self.offset + 8);
        proof {
            lemma_payload_off_bounds(old(self)@, self.kind);
            lemma_offsets_outside_prefix(old(self)@, final(self)@, self.kind, self.offset as int);
        }
    }

    /// The typed options that follow a neighbor discovery body, in wire
    /// order. Fails when a record's length field is zero or overruns the
    /// message; succeeds exactly when the records cover the bytes after
    /// the body.
    pub fn ndp_options(&self) -> (r: Result<Vec<NdpOption>, PacketError>)
        requires
            self.wf(),
            is_ndp_type(self.spec_msg_type()),
        ensures
            ({
                let start = self.spec_offset() + 4 + icmpv6_body_min(self.spec_msg_type());
                let end = self@.len() as int;
                &&& (r is Ok <==> ndp_opts_wf(self@, start, end))
                &&& (r is Ok ==> r->Ok_0@.map_values(|o: NdpOption| o@) == ndp_opts_list(
                    self@,
                    start,
                    end,
                ))
            }),
    {
        let msg_type = self.mbuf.read_u8(self.offset);
        let ghost start0 = self.spec_offset() + 4 + icmpv6_body_min(self.spec_msg_type());
        let end = self.mbuf.data_len();
        let mut i: usize = self.offset + ICMPV6_HEADER_LEN + body_min_exec(msg_type);
        let mut out: Vec<NdpOption> = Vec::new();
        proof {
            assert(Seq::<(u8, Seq<u8>)>::empty() + ndp_opts_list(self@, start0, end as int)
                =~= ndp_opts_list(self@, start0, end as int));
        }
        while i < end
            invariant
                start0 == self.spec_offset() + 4 + icmpv6_body_min(self.spec_msg_type()),
                start0 <= i <= end,
                end == self@.len(),
                self.wf(),
                ndp_opts_wf(self@, i as int, end as int) <==> ndp_opts_wf(
                    self@,
                    start0,
                    end as int,
                ),
                out@.map_values(|o: NdpOption| o@) + ndp_opts_list(self@, i as int, end as int)
                    == ndp_opts_list(self@, start0, end as int),
            decreases end - i,
        {
            if end - i < 2 {
                return Err(
                    PacketError::Parse(
                        ParseError { reason: "a neighbor discovery option is cut short" },
                    ),
                );
            }
            let opt_type = self.mbuf.read_u8(i);
            let units = self.mbuf.read_u8(i + 1);
            if units == 0 {
                return Err(
                    PacketError::Parse(
                        ParseError { reason: "a neighbor discovery option declares length zero" },
                    ),
                );
            }
            let l = 8 * (units as usize);
            if l > end - i {
                return Err(
                    PacketError::Parse(
                        ParseError { reason: "a neighbor discovery option overruns the message" },
                    ),
                );
            }
            let ghost pre = out@.map_values(|o: NdpOption| o@);
            let content = match self.mbuf.read_data_slice(i + 2, l - 2) {
                Ok(v) => v,
                Err(_) => {
                    proof {
                        assert(false);
                    }
                    Vec::new()
                },
            };
            out.push(NdpOption { opt_type, content });
            proof {
                assert(out@.map_values(|o: NdpOption| o@) =~= pre.push(
                    (opt_type, self@.subrange(i + 2, i + l)),
                ));
                assert(pre.push((opt_type, self@.subrange(i + 2, i + l))) + ndp_opts_list(
                    self@,
                    i + l,
                    end as int,
                ) =~= pre + (seq![(opt_type, self@.subrange(i + 2, i + l))] + ndp_opts_list(
                    self@,
                    i + l,
                    end as int,
                )));
            }
            i = i + l;
        }
        proof {
            assert(out@.map_values(|o: NdpOption| o@) + ndp_opts_list(self@, i as int, end as int)
                =~= out@.map_values(|o: NdpOption| o@));
        }
        Ok(out)
    }

    /// Recomputes, from innermost out, everything this packet owes the
    /// wire: the ICMPv6 checksum over the IPv6 pseudo-header and the
    /// message's bytes, then the envelope's payload length.
    pub fn cascade(&mut self)
        requires
            old(self).wf(),
        ensures
            final(self).wf(),
            final(self)@ == icmpv6_cascaded(old(self)@, old(self).spec_kind()),
            final(self).spec_kind() == old(self).spec_kind(),
            final(self).spec_offset() == old(self).spec_offset(),
            final(self).spec_msg_type() == old(self).spec_msg_type(),
            final(self).spec_tailroom() == old(self).spec_tailroom(),
            final(self).spec_headroom() == old(self).spec_headroom(),
    {
        let ghost d = self@;
        let ghost k0 = self.kind;
        let off = self.offset;
        let end = self.mbuf.data_len();
        let plen = end - off;
        proof {
            lemma_payload_off_bounds(d, k0);
        }
        let ph: u64 = match self.kind {
            IpEnvKind::Ipv4 => {
                proof {
                    assert(false);
                }
                0
            },
            IpEnvKind::Ipv6 => {
                proof {
                    lemma_word_sum_nonneg(self@, 22, 8);
                    lemma_word_sum_nonneg(self@, 38, 8);
                    lemma_word_sum_bound(self@, 22, 8);
                    lemma_word_sum_bound(self@, 38, 8);
                }
                read_word_sum(&self.mbuf, 22, 8) + read_word_sum(&self.mbuf, 38, 8)
            },
            IpEnvKind::SegmentRouting => {
                proof {
                    lemma_word_sum_nonneg(self@, 22, 8);
                    lemma_word_sum_nonneg(self@, 62, 8);
                    lemma_word_sum_bound(self@, 22, 8);
                    lemma_word_sum_bound(self@, 62, 8);
                }
                read_word_sum(&self.mbuf, 22, 8) + read_word_sum(&self.mbuf, 62, 8)
            },
        };
        self.mbuf.write_u16(off + 2, 0);
        proof {
            lemma_ones_sum_nonneg(self@, off as int, end as int);
            lemma_ones_sum_bound(self@, off as int, end as int);
        }
        let body = range_sum(&self.mbuf, off, end);
        let sum = ph + (plen as u64) + (PROTO_ICMPV6 as u64) + body;
        let c = fold_checksum(sum);
        self.mbuf.write_u16(off + 2, c);
        let ghost d1 = put16(d, off + 2, transport_checksum(d, off as int, d.len() as int, off + 2,
            env_pseudo_sum(d, k0, plen as int, PROTO_ICMPV6 as int)));
        proof {
            assert(self@ =~= d1);
            lemma_offsets_outside_prefix(d, self@, k0, off as int);
        }
        let fresh = self.mbuf.data_len() - 54;
        self.mbuf.write_u16(18, fresh as u16);
        proof {
            assert(self@ =~= env_reconciled(d1, k0));
            lemma_offsets_outside_prefix(d1, self@, k0, off as int);
        }
    }
}

/// Bytes of the fixed body a message type requires.
fn body_min_exec(t: u8) -> (r: usize)
    ensures
        r as int == icmpv6_body_min(t),
{
    if t == 128 || t == 129 || t == 133 {
        4
    } else if t == 134 {
        12
    } else if t == 135 || t == 136 {
        20
    } else if t == 137 {
        36
    } else {
        0
    }
}

/// Cascading is idempotent: running a cascade over an already cascaded
/// message recomputes its checksum and the envelope's payload length to
/// the values they already hold, leaving the bytes identical.
pub proof fn lemma_icmpv6_cascade_idempotent(d: Seq<u8>, kind: IpEnvKind)
    requires
        env_hdr_wf(d, kind),
        !(kind is Ipv4),
        env_payload_off(d, kind) + 4 <= d.len(),
        d.len() <= 0xffff,
    ensures
        icmpv6_cascaded(icmpv6_cascaded(d, kind), kind) == icmpv6_cascaded(d, kind),
{
    let off = env_payload_off(d, kind);
    let plen = d.len() - off;
    let ph = env_pseudo_sum(d, kind, plen, PROTO_ICMPV6 as int);
    let c = transport_checksum(d, off, d.len() as int, off + 2, ph);
    let d1 = put16(d, off + 2, c);
    let e = env_reconciled(d1, kind);
    lemma_payload_off_bounds(d, kind);
    assert(e.len() == d.len());
    assert forall|k: int|
        0 <= k < off && k != 16 && k != 17 && k != 18 && k != 19 && !(24 <= k < 26) implies e[k]
        == d[k] by {}
    lemma_offsets_outside_prefix(d, e, kind, off);
    let plen2 = e.len() - off;
    let ph2 = env_pseudo_sum(e, kind, plen2, PROTO_ICMPV6 as int);
    assert(ph2 == ph) by {
        match kind {
            IpEnvKind::Ipv4 => {},
            IpEnvKind::Ipv6 => {
                lemma_word_sum_unchanged(e, d, 22, 8);
                lemma_word_sum_unchanged(e, d, 38, 8);
            },
            IpEnvKind::SegmentRouting => {
                lemma_word_sum_unchanged(e, d, 22, 8);
                lemma_word_sum_unchanged(e, d, 62, 8);
            },
        }
    }
    let c2 = transport_checksum(e, off, e.len() as int, off + 2, ph2);
    assert(c2 == c) by {
        let ez = put16(e, off + 2, 0);
        let dz = put16(d, off + 2, 0);
        assert forall|k: int| off <= k < d.len() implies #[trigger] ez[k] == dz[k] by {}
        lemma_ones_sum_unchanged(ez, dz, off, d.len() as int);
    }
    let d1b = put16(e, off + 2, c2);
    assert(d1b =~= e);
    assert(env_reconciled(d1b, kind) =~= e);
    assert(icmpv6_cascaded(e, kind) =~= e);
}

} // verus!
