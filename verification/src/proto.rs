//! IANA protocol numbers for the "next header" and "protocol" fields of
//! the IP layers.

use vstd::prelude::*;

verus! {

/// TCP.
pub const PROTO_TCP: u8 = 6;

/// UDP.
pub const PROTO_UDP: u8 = 17;

/// IPv6 routing extension header.
pub const PROTO_IPV6_ROUTE: u8 = 43;

/// ICMP for IPv6.
pub const PROTO_ICMPV6: u8 = 58;

} // verus!
