//! Tests of the segment routing header: parsing the fixture packet,
//! rewriting the segment list, checksum cascading, and inserting and
//! removing the header around an existing packet.

use nb2::proto::{PROTO_IPV6_ROUTE, PROTO_TCP};
use nb2::{Ethernet, IpEnvelope, Ipv6, Ipv6Addr, Mbuf, SegmentRouting, SegmentRoutingHeader, SizeOf, Tcp};

const SRH_PACKET: [u8; 170] = [
    // ** ethernet header
    0x00, 0x00, 0x00, 0x00, 0x00, 0x01,
    0x00, 0x00, 0x00, 0x00, 0x00, 0x02,
    0x86, 0xDD,
    // ** IPv6 header
    0x60, 0x00, 0x00, 0x00,
    // payload length
    0x00, 0x74,
    // next header (routing)
    0x2b,
    0x02,
    0x20, 0x01, 0x0d, 0xb8, 0x85, 0xa3, 0x00, 0x00, 0x00, 0x00, 0x00, 0x00, 0x00, 0x00, 0x00, 0x01,
    0x20, 0x01, 0x0d, 0xb8, 0x85, 0xa3, 0x00, 0x00, 0x00, 0x00, 0x8a, 0x2e, 0x03, 0x70, 0x73, 0x34,
    // ** SRv6 header
    // next header (tcp)
    0x06,
    // hdr ext len (3 segments, units of 8 octets)
    0x06,
    // routing type
    0x04,
    // segments left
    0x00,
    // last entry
    0x02,
    // flags
    0x00,
    // tag
    0x00, 0x00,
    // segments[0] 2001:0db8:85a3:0000:0000:8a2e:0370:7333
    0x20, 0x01, 0x0d, 0xb8, 0x85, 0xa3, 0x00, 0x00, 0x00, 0x00, 0x8a, 0x2e, 0x03, 0x70, 0x73, 0x33,
    // segments[1] 2001:0db8:85a3:0000:0000:8a2e:0370:7334
    0x20, 0x01, 0x0d, 0xb8, 0x85, 0xa3, 0x00, 0x00, 0x00, 0x00, 0x8a, 0x2e, 0x03, 0x70, 0x73, 0x34,
    // segments[2] 2001:0db8:85a3:0000:0000:8a2e:0370:7335
    0x20, 0x01, 0x0d, 0xb8, 0x85, 0xa3, 0x00, 0x00, 0x00, 0x00, 0x8a, 0x2e, 0x03, 0x70, 0x73, 0x35,
    // ** TCP header
    // src port
    0x0d, 0x88,
    // dst port
    0x04, 0x00,
    // sequence number
    0x00, 0x00, 0x00, 0x00,
    // ack number
    0x00, 0x00, 0x00, 0x00,
    // flags
    0x50, 0x02,
    // window
    0x00, 0x0a,
    // checksum
    0x00, 0x00,
    // urgent pointer
    0x00, 0x00,
    // payload
    0x00, 0x00, 0x00, 0x00, 0x00, 0x00, 0x00, 0x00, 0x00, 0x00, 0x00, 0x00, 0x00, 0x00, 0x00, 0x00,
    0x00, 0x00, 0x00, 0x00, 0x00, 0x00, 0x00, 0x00, 0x00, 0x00, 0x00, 0x00, 0x00, 0x00, 0x00, 0x00,
    0x00, 0x00, 0x00, 0x00, 0x00, 0x00, 0x00, 0x07,
];

const IPV6_TCP_PACKET: [u8; 80] = [
    // ** ethernet header
    0x00, 0x00, 0x00, 0x00, 0x00, 0x01,
    0x00, 0x00, 0x00, 0x00, 0x00, 0x02,
    0x86, 0xDD,
    // ** IPv6 header
    0x60, 0x00, 0x00, 0x00,
    // payload length (tcp header + 6 bytes)
    0x00, 0x1a,
    // next header (tcp)
    0x06,
    0x02,
    0x20, 0x01, 0x0d, 0xb8, 0x85, 0xa3, 0x00, 0x00, 0x00, 0x00, 0x00, 0x00, 0x00, 0x00, 0x00, 0x01,
    0x20, 0x01, 0x0d, 0xb8, 0x85, 0xa3, 0x00, 0x00, 0x00, 0x00, 0x8a, 0x2e, 0x03, 0x70, 0x73, 0x34,
    // ** TCP header
    // src port 36869
    0x90, 0x05,
    // dst port
    0x04, 0x00,
    // sequence number
    0x00, 0x00, 0x00, 0x00,
    // ack number
    0x00, 0x00, 0x00, 0x00,
    // flags
    0x50, 0x02,
    // window
    0x00, 0x0a,
    // checksum
    0x00, 0x00,
    // urgent pointer
    0x00, 0x00,
    // payload
    0xde, 0xad, 0xc0, 0xde, 0x00, 0x07,
];

fn parse_srh(bytes: &[u8]) -> SegmentRouting {
    let packet = Mbuf::from_bytes(bytes).unwrap();
    let ethernet = Ethernet::parse(packet).unwrap();
    let ipv6 = Ipv6::parse(ethernet).unwrap();
    SegmentRouting::parse(ipv6).unwrap()
}

fn segment(tail: u16) -> Ipv6Addr {
    Ipv6Addr::new(0, 0, 0, 0, 0, 0, 0, tail)
}

#[test]
fn size_of_segment_routing_header() {
    assert_eq!(8, SegmentRoutingHeader::size_of());
}

#[test]
fn parse_segment_routing_packet() {
    let srh = parse_srh(&SRH_PACKET);

    assert_eq!(PROTO_TCP, srh.next_header());
    assert_eq!(6, srh.hdr_ext_len());
    assert_eq!(4, srh.routing_type());
    assert_eq!(0, srh.segments_left());
    assert_eq!(2, srh.last_entry());
    assert_eq!(0, srh.flags());
    assert_eq!(0, srh.tag());

    let segments = srh.segments();
    assert_eq!(3, segments.len());
    assert_eq!(
        Ipv6Addr::new(0x2001, 0xdb8, 0x85a3, 0, 0, 0x8a2e, 0x370, 0x7333),
        segments[0]
    );
    assert_eq!(
        Ipv6Addr::new(0x2001, 0xdb8, 0x85a3, 0, 0, 0x8a2e, 0x370, 0x7334),
        segments[1]
    );
    assert_eq!(
        Ipv6Addr::new(0x2001, 0xdb8, 0x85a3, 0, 0, 0x8a2e, 0x370, 0x7335),
        segments[2]
    );

    // the fixed layer sizes are as declared
    assert_eq!(8 + 16 * 3, srh.header_len());
}

#[test]
fn parse_deparse_preserves_bytes() {
    let srh = parse_srh(&SRH_PACKET);
    let mbuf = srh.deparse().deparse().deparse();
    assert_eq!(170, mbuf.data_len());
    let bytes = mbuf.read_data_slice(0, 170).unwrap();
    assert_eq!(SRH_PACKET.as_slice(), bytes.as_slice());
}

#[test]
fn set_segments() {
    let mut srh = parse_srh(&SRH_PACKET);

    let segment1 = segment(1);

    assert!(srh.set_segments(&[segment1]).is_ok());
    assert_eq!(2, srh.hdr_ext_len());
    assert_eq!(0, srh.last_entry());
    assert_eq!(1, srh.segments().len());
    assert_eq!(segment1, srh.segments()[0]);

    let segment2 = segment(2);
    let segment3 = segment(3);
    let segment4 = segment(4);

    let len_before = srh.len();
    assert!(srh
        .set_segments(&[segment1, segment2, segment3, segment4])
        .is_ok());
    // the buffer grew by three more segments
    assert_eq!(len_before + 48, srh.len());
    assert_eq!(8, srh.hdr_ext_len());
    assert_eq!(3, srh.last_entry());
    assert_eq!(4, srh.segments().len());
    assert_eq!(segment1, srh.segments()[0]);
    assert_eq!(segment2, srh.segments()[1]);
    assert_eq!(segment3, srh.segments()[2]);
    assert_eq!(segment4, srh.segments()[3]);
    assert!(srh.set_segments(&[]).is_err());

    // make sure rest of the packet still valid
    let tcp = Tcp::parse(IpEnvelope::SegmentRouting(srh)).unwrap();
    assert_eq!(3464, tcp.src_port());
}

#[test]
fn set_segments_grow_then_shrink() {
    let mut srh = parse_srh(&SRH_PACKET);

    // grow the three-segment list to four: one more sixteen-byte entry
    let len_before = srh.len();
    assert!(srh
        .set_segments(&[segment(1), segment(2), segment(3), segment(4)])
        .is_ok());
    assert_eq!(8, srh.hdr_ext_len());
    assert_eq!(3, srh.last_entry());
    assert_eq!(len_before + 16, srh.len());

    // shrink to the single remaining segment
    assert!(srh.set_segments(&[segment(1)]).is_ok());
    assert_eq!(2, srh.hdr_ext_len());
    assert_eq!(0, srh.last_entry());

    // an empty list is rejected outright, as a semantic error
    match srh.set_segments(&[]) {
        Err(nb2::PacketError::BadSegments(_)) => {}
        _ => panic!("an empty segment list must be rejected as such"),
    }
}

#[test]
fn set_segments_same_count_is_refused() {
    let mut srh = parse_srh(&SRH_PACKET);
    // three segments replaced by three segments needs a zero resize,
    // which the buffer refuses; the packet is left unchanged
    match srh.set_segments(&[segment(7), segment(8), segment(9)]) {
        Err(nb2::PacketError::Buffer(nb2::BufferError::NotResized)) => {}
        _ => panic!("a same-length list must be refused by the resize"),
    }
    assert_eq!(2, srh.last_entry());
    assert_eq!(
        Ipv6Addr::new(0x2001, 0xdb8, 0x85a3, 0, 0, 0x8a2e, 0x370, 0x7333),
        srh.segments()[0]
    );
}

#[test]
fn check_checksum() {
    let mut srh = parse_srh(&SRH_PACKET);

    let segment1 = segment(1);
    let segment2 = segment(2);
    let segment3 = segment(3);
    let segment4 = segment(4);

    assert!(srh
        .set_segments(&[segment1, segment2, segment3, segment4])
        .is_ok());
    assert_eq!(4, srh.segments().len());
    srh.set_segments_left(3);

    let mut tcp = Tcp::parse(IpEnvelope::SegmentRouting(srh)).unwrap();

    // the fixture carries a zeroed (and so wrong) initial checksum
    assert_eq!(0, tcp.checksum());

    tcp.cascade();
    let expected = tcp.checksum();

    // the checksum is now calculated correctly and no longer zero
    assert_ne!(expected, 0);

    // cascading again computes the same checksum: the value is stable
    tcp.cascade();
    assert_eq!(expected, tcp.checksum());

    // shrink the list to its final destination only; the pseudo-header
    // destination is the first segment in both shapes, so the checksum
    // stays what it was
    let mut srh_ret = match tcp.deparse() {
        IpEnvelope::SegmentRouting(s) => s,
        _ => panic!("the envelope must still be a routing header"),
    };
    assert!(srh_ret.set_segments(&[segment1]).is_ok());
    assert_eq!(1, srh_ret.segments().len());
    srh_ret.set_segments_left(0);

    let mut tcp_ret = Tcp::parse(IpEnvelope::SegmentRouting(srh_ret)).unwrap();
    tcp_ret.cascade();
    assert_eq!(expected, tcp_ret.checksum());

    // with segments left already zero the checksum still does not move
    let mut srh_fin = match tcp_ret.deparse() {
        IpEnvelope::SegmentRouting(s) => s,
        _ => panic!("the envelope must still be a routing header"),
    };
    srh_fin.set_segments_left(0);
    let mut tcp_fin = Tcp::parse(IpEnvelope::SegmentRouting(srh_fin)).unwrap();
    tcp_fin.cascade();
    assert_eq!(expected, tcp_fin.checksum());
}

#[test]
fn insert_segment_routing_packet() {
    let packet = Mbuf::from_bytes(&IPV6_TCP_PACKET).unwrap();
    let ethernet = Ethernet::parse(packet).unwrap();
    let ipv6 = Ipv6::parse(ethernet).unwrap();
    let ipv6_payload_len = ipv6.payload_len();
    let srh = SegmentRouting::push(ipv6).unwrap();

    assert_eq!(2, srh.hdr_ext_len());
    assert_eq!(1, srh.segments().len());
    assert_eq!(Ipv6Addr::new(0, 0, 0, 0, 0, 0, 0, 0), srh.segments()[0]);
    assert_eq!(4, srh.routing_type());

    // make sure next header is fixed
    assert_eq!(PROTO_TCP, srh.next_header());

    // ipv6 payload is srh payload after push
    assert_eq!(ipv6_payload_len, srh.payload_len());
    // make sure rest of the packet still valid
    let tcp = Tcp::parse(IpEnvelope::SegmentRouting(srh)).unwrap();
    assert_eq!(36869, tcp.src_port());

    let mut srh = match tcp.deparse() {
        IpEnvelope::SegmentRouting(s) => s,
        _ => panic!("the envelope must still be a routing header"),
    };
    let srh_packet_len = srh.len();
    srh.cascade();
    let ipv6 = srh.deparse();
    assert_eq!(srh_packet_len, ipv6.payload_length() as usize);
    // the envelope's next header names the routing protocol after a push
    assert_eq!(PROTO_IPV6_ROUTE, ipv6.next_header());
}

#[test]
fn remove_segment_routing_packet() {
    let srh = parse_srh(&SRH_PACKET);
    let ipv6 = srh.remove().unwrap();

    // make sure next header is fixed
    assert_eq!(PROTO_TCP, ipv6.next_header());

    // make sure rest of the packet still valid
    let tcp = Tcp::parse(IpEnvelope::Ipv6(ipv6)).unwrap();
    assert_eq!(3464, tcp.src_port());
}

#[test]
fn push_then_remove_restores_bytes() {
    let packet = Mbuf::from_bytes(&IPV6_TCP_PACKET).unwrap();
    let ethernet = Ethernet::parse(packet).unwrap();
    let ipv6 = Ipv6::parse(ethernet).unwrap();
    let srh = SegmentRouting::push(ipv6).unwrap();
    let ipv6 = srh.remove().unwrap();
    let mbuf = ipv6.deparse().deparse();
    assert_eq!(80, mbuf.data_len());
    let bytes = mbuf.read_data_slice(0, 80).unwrap();
    assert_eq!(IPV6_TCP_PACKET.as_slice(), bytes.as_slice());
}

#[test]
fn set_dst_rewrites_first_segment() {
    let mut srh = parse_srh(&SRH_PACKET);
    let fresh = Ipv6Addr::new(0xfd00, 0, 0, 0, 0, 0, 0, 0x99);

    // segments remain to be visited: only the list entry changes
    srh.set_segments_left(2);
    srh.set_dst(fresh);
    assert_eq!(fresh, srh.segments()[0]);
    let ipv6 = srh.deparse();
    assert_ne!(fresh, ipv6.dst());

    // at the final hop the enclosing destination is brought in line
    let mut srh = SegmentRouting::parse(ipv6).unwrap();
    srh.set_segments_left(0);
    srh.set_dst(fresh);
    assert_eq!(fresh, srh.segments()[0]);
    let ipv6 = srh.deparse();
    assert_eq!(fresh, ipv6.dst());
}
