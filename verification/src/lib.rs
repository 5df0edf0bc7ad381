//! A layered packet pipeline: an IPv4 datagram is validated octet by octet and,
//! where its payload is an ICMP echo request, answered with an echo reply.

pub mod checksum;
pub mod icmp;
pub mod ipv4;
pub mod protocol;
pub mod text;
