//! A verified core for a ping-style network probe: the Internet checksum,
//! the ICMP echo frame codec, the IPv4 header decoder, the decision logic of
//! the blocking request/response session, and the WHOIS referral parser.

pub mod checksum;
pub mod icmp;
pub mod ipv4;
pub mod logger;
pub mod session;
pub mod whois;
