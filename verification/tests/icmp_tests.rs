//! Tests of the ICMPv6 layer: the typed body sizes, echo field access
//! and data resizing, neighbor discovery fields, and the checksum
//! cascade.

use nb2::icmpv6::{ICMPV6_ECHO_REPLY, ICMPV6_NEIGHBOR_SOLICITATION};
use nb2::proto::PROTO_ICMPV6;
use nb2::{
    EchoReply, EchoRequest, Ethernet, Icmpv6, IpEnvelope, Ipv6, Ipv6Addr, Mbuf,
    NeighborAdvertisement, NeighborSolicitation, Redirect, RouterAdvertisement,
    RouterSolicitation, SizeOf,
};

// An Ethernet frame holding an ICMPv6 echo reply over IPv6 with four
// data bytes; the checksum is left zero and settled by a cascade.
const ECHO_PACKET: [u8; 66] = [
    // ** ethernet header
    0x00, 0x00, 0x00, 0x00, 0x00, 0x01,
    0x00, 0x00, 0x00, 0x00, 0x00, 0x02,
    0x86, 0xDD,
    // ** IPv6 header
    0x60, 0x00, 0x00, 0x00,
    // payload length (4 + 4 + 4)
    0x00, 0x0c,
    // next header (icmpv6)
    0x3a,
    0x40,
    0xfd, 0x00, 0x00, 0x00, 0x00, 0x00, 0x00, 0x00, 0x00, 0x00, 0x00, 0x00, 0x00, 0x00, 0x00, 0x01,
    0xfd, 0x00, 0x00, 0x00, 0x00, 0x00, 0x00, 0x00, 0x00, 0x00, 0x00, 0x00, 0x00, 0x00, 0x00, 0x02,
    // ** ICMPv6 header: echo reply
    0x81, 0x00,
    // checksum
    0x00, 0x00,
    // identifier
    0x12, 0x34,
    // sequence number
    0x00, 0x01,
    // data
    0x61, 0x62, 0x63, 0x64,
];

#[test]
fn size_of_echo_reply() {
    assert_eq!(4, EchoReply::size_of());
}

#[test]
fn size_of_neighbor_solicitation() {
    assert_eq!(20, NeighborSolicitation::size_of());
}

#[test]
fn size_of_remaining_message_bodies() {
    assert_eq!(4, EchoRequest::size_of());
    assert_eq!(4, RouterSolicitation::size_of());
    assert_eq!(12, RouterAdvertisement::size_of());
    assert_eq!(20, NeighborAdvertisement::size_of());
    assert_eq!(36, Redirect::size_of());
}

fn parse_echo(bytes: &[u8]) -> Icmpv6 {
    let packet = Mbuf::from_bytes(bytes).unwrap();
    let ethernet = Ethernet::parse(packet).unwrap();
    let ipv6 = Ipv6::parse(ethernet).unwrap();
    Icmpv6::parse(IpEnvelope::Ipv6(ipv6), ICMPV6_ECHO_REPLY).unwrap()
}

#[test]
fn parse_typed_echo_reply() {
    let packet = Mbuf::from_bytes(&ECHO_PACKET).unwrap();
    let ethernet = Ethernet::parse(packet).unwrap();
    let ipv6 = Ipv6::parse(ethernet).unwrap();
    let icmp = Icmpv6::parse_typed::<EchoReply>(IpEnvelope::Ipv6(ipv6)).unwrap();
    assert_eq!(ICMPV6_ECHO_REPLY, icmp.msg_type());

    // the typed body of a request does not match a reply on the wire
    let packet = Mbuf::from_bytes(&ECHO_PACKET).unwrap();
    let ethernet = Ethernet::parse(packet).unwrap();
    let ipv6 = Ipv6::parse(ethernet).unwrap();
    assert!(Icmpv6::parse_typed::<EchoRequest>(IpEnvelope::Ipv6(ipv6)).is_err());
}

#[test]
fn parse_echo_reply_fields() {
    let icmp = parse_echo(&ECHO_PACKET);
    assert_eq!(ICMPV6_ECHO_REPLY, icmp.msg_type());
    assert_eq!(0, icmp.code());
    assert_eq!(0, icmp.checksum());
    assert_eq!(0x1234, icmp.identifier());
    assert_eq!(1, icmp.seq_no());
    assert_eq!(vec![0x61, 0x62, 0x63, 0x64], icmp.data());
    assert_eq!(4, icmp.header_len());
    assert_eq!(12, icmp.len());
}

#[test]
fn parse_echo_rejects_wrong_type() {
    let packet = Mbuf::from_bytes(&ECHO_PACKET).unwrap();
    let ethernet = Ethernet::parse(packet).unwrap();
    let ipv6 = Ipv6::parse(ethernet).unwrap();
    // the type byte announces an echo reply, not a solicitation
    assert!(Icmpv6::parse(IpEnvelope::Ipv6(ipv6), ICMPV6_NEIGHBOR_SOLICITATION).is_err());
}

#[test]
fn echo_setters_and_data_resize() {
    let mut icmp = parse_echo(&ECHO_PACKET);
    icmp.set_identifier(0x4321);
    icmp.set_seq_no(7);
    assert_eq!(0x4321, icmp.identifier());
    assert_eq!(7, icmp.seq_no());

    // growing the data shifts nothing before it
    assert!(icmp.set_data(&[1, 2, 3, 4, 5, 6]).is_ok());
    assert_eq!(vec![1, 2, 3, 4, 5, 6], icmp.data());
    assert_eq!(0x4321, icmp.identifier());

    // shrinking works the same way
    assert!(icmp.set_data(&[9]).is_ok());
    assert_eq!(vec![9], icmp.data());

    // replacing data with data of the same length needs a zero resize,
    // which the buffer refuses
    assert!(icmp.set_data(&[8]).is_err());
    assert_eq!(vec![9], icmp.data());
}

#[test]
fn echo_cascade_is_stable() {
    let mut icmp = parse_echo(&ECHO_PACKET);
    icmp.cascade();
    let expected = icmp.checksum();
    assert_ne!(0, expected);
    icmp.cascade();
    assert_eq!(expected, icmp.checksum());
}

#[test]
fn push_neighbor_solicitation() {
    let mbuf = Mbuf::new().unwrap();
    let ethernet = Ethernet::push(mbuf).unwrap();
    let ipv6 = Ipv6::push(ethernet).unwrap();
    let mut icmp = Icmpv6::push(IpEnvelope::Ipv6(ipv6), ICMPV6_NEIGHBOR_SOLICITATION).unwrap();

    assert_eq!(ICMPV6_NEIGHBOR_SOLICITATION, icmp.msg_type());
    assert_eq!(0, icmp.reserved());
    assert_eq!(Ipv6Addr::new(0, 0, 0, 0, 0, 0, 0, 0), icmp.target_addr());

    let target = Ipv6Addr::new(0xfe80, 0, 0, 0, 0, 0, 0, 0x33);
    icmp.set_target_addr(target);
    assert_eq!(target, icmp.target_addr());

    let ipv6 = match icmp.deparse() {
        IpEnvelope::Ipv6(p) => p,
        _ => panic!("the envelope must still be IPv6"),
    };
    assert_eq!(PROTO_ICMPV6, ipv6.next_header());
}

// An Ethernet frame holding a neighbor solicitation with two options: a
// source link-layer address and an MTU.
const NEIGHBOR_SOLICIT_PACKET: [u8; 94] = [
    // ** ethernet header
    0x00, 0x00, 0x00, 0x00, 0x00, 0x01,
    0x00, 0x00, 0x00, 0x00, 0x00, 0x02,
    0x86, 0xDD,
    // ** IPv6 header
    0x60, 0x00, 0x00, 0x00,
    // payload length (4 + 20 + 16)
    0x00, 0x28,
    // next header (icmpv6)
    0x3a,
    0xff,
    0xfd, 0x00, 0x00, 0x00, 0x00, 0x00, 0x00, 0x00, 0x00, 0x00, 0x00, 0x00, 0x00, 0x00, 0x00, 0x01,
    0xff, 0x02, 0x00, 0x00, 0x00, 0x00, 0x00, 0x00, 0x00, 0x00, 0x00, 0x01, 0xff, 0x00, 0x00, 0x33,
    // ** ICMPv6 header: neighbor solicitation
    0x87, 0x00,
    // checksum
    0x00, 0x00,
    // reserved
    0x00, 0x00, 0x00, 0x00,
    // target address
    0xfe, 0x80, 0x00, 0x00, 0x00, 0x00, 0x00, 0x00, 0x00, 0x00, 0x00, 0x00, 0x00, 0x00, 0x00, 0x33,
    // option: source link-layer address
    0x01, 0x01, 0xaa, 0xbb, 0xcc, 0xdd, 0xee, 0xff,
    // option: mtu 1500
    0x05, 0x01, 0x00, 0x00, 0x00, 0x00, 0x05, 0xdc,
];

#[test]
fn neighbor_solicitation_options() {
    let packet = Mbuf::from_bytes(&NEIGHBOR_SOLICIT_PACKET).unwrap();
    let ethernet = Ethernet::parse(packet).unwrap();
    let ipv6 = Ipv6::parse(ethernet).unwrap();
    let icmp = Icmpv6::parse(IpEnvelope::Ipv6(ipv6), ICMPV6_NEIGHBOR_SOLICITATION).unwrap();

    assert_eq!(0, icmp.reserved());
    assert_eq!(
        Ipv6Addr::new(0xfe80, 0, 0, 0, 0, 0, 0, 0x33),
        icmp.target_addr()
    );

    let options = icmp.ndp_options().unwrap();
    assert_eq!(2, options.len());
    assert_eq!(1, options[0].opt_type);
    assert_eq!(vec![0xaa, 0xbb, 0xcc, 0xdd, 0xee, 0xff], options[0].content);
    assert_eq!(5, options[1].opt_type);
    assert_eq!(vec![0x00, 0x00, 0x00, 0x00, 0x05, 0xdc], options[1].content);
}

#[test]
fn neighbor_options_reject_bad_lengths() {
    // a zero length field is refused
    let mut bytes = NEIGHBOR_SOLICIT_PACKET;
    bytes[79] = 0x00;
    let packet = Mbuf::from_bytes(&bytes).unwrap();
    let ethernet = Ethernet::parse(packet).unwrap();
    let ipv6 = Ipv6::parse(ethernet).unwrap();
    let icmp = Icmpv6::parse(IpEnvelope::Ipv6(ipv6), ICMPV6_NEIGHBOR_SOLICITATION).unwrap();
    assert!(icmp.ndp_options().is_err());

    // a length overrunning the message is refused
    let mut bytes = NEIGHBOR_SOLICIT_PACKET;
    bytes[87] = 0x04;
    let packet = Mbuf::from_bytes(&bytes).unwrap();
    let ethernet = Ethernet::parse(packet).unwrap();
    let ipv6 = Ipv6::parse(ethernet).unwrap();
    let icmp = Icmpv6::parse(IpEnvelope::Ipv6(ipv6), ICMPV6_NEIGHBOR_SOLICITATION).unwrap();
    assert!(icmp.ndp_options().is_err());
}

#[test]
fn icmpv6_rejects_ipv4_envelope() {
    let mbuf = Mbuf::new().unwrap();
    let ethernet = Ethernet::push(mbuf).unwrap();
    let ipv4 = nb2::Ipv4::push(ethernet).unwrap();
    assert!(Icmpv6::parse(IpEnvelope::Ipv4(ipv4), ICMPV6_ECHO_REPLY).is_err());
}
