//! A zero-copy packet processing core: a message-buffer primitive with
//! in-place insertion and truncation, layered packet views (Ethernet,
//! IPv4/IPv6, segment routing, TCP/UDP, ICMPv6), and an Internet-checksum
//! engine with pseudo-header cascading.

pub mod checksum;
pub mod envelope;
pub mod errors;
pub mod ethernet;
pub mod icmpv6;
pub mod ipaddr;
pub mod ipv4;
pub mod ipv6;
pub mod mac;
pub mod mbuf;
pub mod proto;
pub mod rxtx;
pub mod srh;
pub mod tcp;
pub mod udp;

pub use envelope::IpEnvKind;
pub use envelope::IpEnvelope;
pub use errors::BadSegmentsError;
pub use errors::PacketError;
pub use errors::ParseError;
pub use ethernet::Ethernet;
pub use icmpv6::EchoReply;
pub use icmpv6::EchoRequest;
pub use icmpv6::Icmpv6;
pub use icmpv6::NeighborAdvertisement;
pub use icmpv6::NeighborSolicitation;
pub use icmpv6::Redirect;
pub use icmpv6::RouterAdvertisement;
pub use icmpv6::RouterSolicitation;
pub use ipaddr::Ipv4Addr;
pub use ipaddr::Ipv6Addr;
pub use ipv4::Ipv4;
pub use ipv6::Ipv6;
pub use mac::MacAddr;
pub use mac::MacParseError;
pub use mbuf::BufferError;
pub use mbuf::Mbuf;
pub use mbuf::SizeOf;
pub use rxtx::PacketRx;
pub use rxtx::PacketTx;
pub use rxtx::PollRx;
pub use srh::SegmentRouting;
pub use srh::SegmentRoutingHeader;
pub use tcp::Tcp;
pub use udp::Udp;
