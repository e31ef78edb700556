//! Tests of the Ethernet, IPv4, IPv6 and transport layers: parsing the
//! UDP-over-IPv4 fixture, checksum verification, field access, and the
//! push and remove operations.

use nb2::proto::{PROTO_TCP, PROTO_UDP};
use nb2::{
    Ethernet, IpEnvelope, Ipv4, Ipv4Addr, Ipv6, MacAddr, Mbuf, PacketRx, PacketTx, PollRx, Tcp,
    Udp,
};

// An Ethernet frame holding UDP over IPv4: 42 header bytes and a 4-byte
// payload, with both checksums valid on the wire.
const UDP4_PACKET: [u8; 46] = [
    // ** ethernet header
    0x0a, 0x00, 0x00, 0x00, 0x00, 0x01,
    0x0a, 0x00, 0x00, 0x00, 0x00, 0x02,
    0x08, 0x00,
    // ** IPv4 header
    0x45, 0x00,
    // total length (20 + 8 + 4)
    0x00, 0x20,
    // identification
    0x00, 0x00,
    // flags, fragment offset
    0x00, 0x00,
    // ttl
    0x40,
    // protocol (udp)
    0x11,
    // header checksum
    0xf7, 0x79,
    // src 192.168.1.1
    0xc0, 0xa8, 0x01, 0x01,
    // dst 192.168.1.2
    0xc0, 0xa8, 0x01, 0x02,
    // ** UDP header
    // src port 1000
    0x03, 0xe8,
    // dst port 2000
    0x07, 0xd0,
    // length (8 + 4)
    0x00, 0x0c,
    // checksum
    0xd3, 0x2c,
    // payload
    0xde, 0xad, 0xbe, 0xef,
];

#[test]
fn parse_udp_over_ipv4() {
    let packet = Mbuf::from_bytes(&UDP4_PACKET).unwrap();
    let ethernet = Ethernet::parse(packet).unwrap();
    assert_eq!(0x0800, ethernet.ether_type());

    let ipv4 = Ipv4::parse(ethernet).unwrap();
    assert_eq!(4, ipv4.version());
    assert_eq!(20, ipv4.header_len());
    assert_eq!(32, ipv4.total_length());
    assert_eq!(PROTO_UDP, ipv4.protocol());
    assert_eq!(Ipv4Addr::new(192, 168, 1, 1), ipv4.src());
    assert_eq!(Ipv4Addr::new(192, 168, 1, 2), ipv4.dst());

    let udp = Udp::parse(IpEnvelope::Ipv4(ipv4)).unwrap();
    assert_eq!(1000, udp.src_port());
    assert_eq!(2000, udp.dst_port());
    assert_eq!(8 + 4, udp.length());

    // the stored checksum verifies against the pseudo-header: a full
    // recomputation leaves it, and the IPv4 header checksum, unchanged
    let mut udp = udp;
    let before = udp.checksum();
    udp.cascade();
    assert_eq!(before, udp.checksum());
    assert_eq!(0xd32c, udp.checksum());
    let ipv4 = match udp.deparse() {
        IpEnvelope::Ipv4(p) => p,
        _ => panic!("the envelope must still be IPv4"),
    };
    assert_eq!(0xf779, ipv4.checksum());
}

#[test]
fn parse_rejects_malformed_ipv4() {
    // ethertype says IPv4, but the version nibble reads 6: a parse error
    let mut bytes = UDP4_PACKET;
    bytes[14] = 0x65;
    let packet = Mbuf::from_bytes(&bytes).unwrap();
    let ethernet = Ethernet::parse(packet).unwrap();
    match Ipv4::parse(ethernet) {
        Err(nb2::PacketError::Parse(_)) => {}
        _ => panic!("a wrong version nibble must be a parse error"),
    }

    // a header length field below five words is rejected
    let mut bytes = UDP4_PACKET;
    bytes[14] = 0x44;
    let packet = Mbuf::from_bytes(&bytes).unwrap();
    let ethernet = Ethernet::parse(packet).unwrap();
    assert!(Ipv4::parse(ethernet).is_err());

    // a total length smaller than the header is rejected
    let mut bytes = UDP4_PACKET;
    bytes[16] = 0x00;
    bytes[17] = 0x10;
    let packet = Mbuf::from_bytes(&bytes).unwrap();
    let ethernet = Ethernet::parse(packet).unwrap();
    assert!(Ipv4::parse(ethernet).is_err());
}

#[test]
fn parse_rejects_short_frames() {
    let packet = Mbuf::from_bytes(&UDP4_PACKET[..10]).unwrap();
    assert!(Ethernet::parse(packet).is_err());

    // a frame too short for an IPv4 header
    let packet = Mbuf::from_bytes(&UDP4_PACKET[..20]).unwrap();
    let ethernet = Ethernet::parse(packet).unwrap();
    assert!(Ipv4::parse(ethernet).is_err());
}

#[test]
fn ethernet_field_access() {
    let packet = Mbuf::from_bytes(&UDP4_PACKET).unwrap();
    let mut ethernet = Ethernet::parse(packet).unwrap();

    assert_eq!(MacAddr::new(0x0a, 0, 0, 0, 0, 1), ethernet.dst());
    assert_eq!(MacAddr::new(0x0a, 0, 0, 0, 0, 2), ethernet.src());
    assert_eq!(14, ethernet.header_len());
    assert_eq!(46, ethernet.len());
    assert_eq!(14, ethernet.payload_offset());
    assert_eq!(32, ethernet.payload_len());

    let fresh = MacAddr::new(1, 2, 3, 4, 5, 6);
    ethernet.set_src(fresh);
    ethernet.set_dst(fresh);
    assert_eq!(fresh, ethernet.src());
    assert_eq!(fresh, ethernet.dst());
    ethernet.set_ether_type(0x86DD);
    assert_eq!(0x86DD, ethernet.ether_type());
}

#[test]
fn ethernet_push_and_remove() {
    let mbuf = Mbuf::from_bytes(&[0xaa, 0xbb, 0xcc]).unwrap();
    let ethernet = Ethernet::push(mbuf).unwrap();
    assert_eq!(MacAddr::new(0, 0, 0, 0, 0, 0), ethernet.dst());
    assert_eq!(0, ethernet.ether_type());
    assert_eq!(3, ethernet.payload_len());

    let mbuf = ethernet.remove().unwrap();
    assert_eq!(3, mbuf.data_len());
    let bytes = mbuf.read_data_slice(0, 3).unwrap();
    assert_eq!(vec![0xaa, 0xbb, 0xcc], bytes);
}

#[test]
fn ipv4_push_and_cascade() {
    let mbuf = Mbuf::from_bytes(&[1, 2, 3, 4]).unwrap();
    let ethernet = Ethernet::push(mbuf).unwrap();
    let ipv4 = Ipv4::push(ethernet).unwrap();
    assert_eq!(4, ipv4.version());
    assert_eq!(20, ipv4.header_len());

    let mut ipv4 = ipv4;
    ipv4.cascade();
    // the total length now covers header and payload
    assert_eq!(24, ipv4.total_length());
    // and the header checksum verifies: cascading again changes nothing
    let checksum = ipv4.checksum();
    ipv4.cascade();
    assert_eq!(checksum, ipv4.checksum());
    assert_ne!(0, checksum);
}

#[test]
fn tcp_push_onto_ipv6() {
    let mbuf = Mbuf::new().unwrap();
    let ethernet = Ethernet::push(mbuf).unwrap();
    let ipv6 = Ipv6::push(ethernet).unwrap();
    assert_eq!(6, ipv6.version());
    assert_eq!(40, ipv6.header_len());

    // an empty payload cannot hold a TCP header
    assert!(Tcp::parse(IpEnvelope::Ipv6(ipv6)).is_err());

    let mbuf = Mbuf::new().unwrap();
    let ethernet = Ethernet::push(mbuf).unwrap();
    let ipv6 = Ipv6::push(ethernet).unwrap();
    let pushed = Tcp::push(IpEnvelope::Ipv6(ipv6)).unwrap();
    assert_eq!(20, pushed.header_len());
    assert_eq!(0, pushed.src_port());
    let ipv6 = match pushed.deparse() {
        IpEnvelope::Ipv6(p) => p,
        _ => panic!("the envelope must still be IPv6"),
    };
    assert_eq!(PROTO_TCP, ipv6.next_header());
}

#[test]
fn tcp_field_access_and_ports() {
    let packet = Mbuf::from_bytes(&UDP4_PACKET).unwrap();
    let ethernet = Ethernet::parse(packet).unwrap();
    let ipv4 = Ipv4::parse(ethernet).unwrap();
    // twelve payload bytes cannot hold a TCP header
    assert!(Tcp::parse(IpEnvelope::Ipv4(ipv4)).is_err());

    let mbuf = Mbuf::new().unwrap();
    let ethernet = Ethernet::push(mbuf).unwrap();
    let ipv6 = Ipv6::push(ethernet).unwrap();
    let mut tcp = Tcp::push(IpEnvelope::Ipv6(ipv6)).unwrap();
    tcp.set_src_port(3464);
    tcp.set_dst_port(1024);
    assert_eq!(3464, tcp.src_port());
    assert_eq!(1024, tcp.dst_port());
    assert_eq!(0, tcp.seq_no());
    assert_eq!(0, tcp.ack_no());
    assert_eq!(0, tcp.flags());
    assert_eq!(0, tcp.window());
    assert_eq!(0, tcp.urgent_pointer());
}

#[test]
fn udp_push_and_remove_round_trip() {
    let mbuf = Mbuf::from_bytes(&[9, 9, 9]).unwrap();
    let ethernet = Ethernet::push(mbuf).unwrap();
    let ipv6 = Ipv6::push(ethernet).unwrap();
    let udp = Udp::push(IpEnvelope::Ipv6(ipv6)).unwrap();
    assert_eq!(8, udp.header_len());
    assert_eq!(3, udp.payload_len());

    let env = udp.remove().unwrap();
    let ipv6 = match env {
        IpEnvelope::Ipv6(p) => p,
        _ => panic!("the envelope must still be IPv6"),
    };
    let mbuf = ipv6.reset();
    assert_eq!(14 + 40 + 3, mbuf.data_len());
    // the original payload survived the push and the removal
    let bytes = mbuf.read_data_slice(54, 3).unwrap();
    assert_eq!(vec![9, 9, 9], bytes);
}

#[test]
fn in_memory_source_and_sink() {
    let a = Mbuf::from_bytes(&[1]).unwrap();
    let b = Mbuf::from_bytes(&[2, 2]).unwrap();

    let mut sink: Vec<Mbuf> = Vec::new();
    sink.transmit(vec![a, b]);
    assert_eq!(2, sink.len());

    let batch = sink.receive();
    assert_eq!(2, batch.len());
    assert_eq!(1, batch[0].data_len());
    assert_eq!(2, batch[1].data_len());
    assert_eq!(0, sink.len());

    let mut poll = PollRx::new(|| Vec::new());
    assert_eq!(0, poll.receive().len());
}
