//! Raw packet layouts: building the frames a scan sends and classifying
//! the frames it receives

use vstd::prelude::*;
use crate::net::{MacAddr, mac_bytes};

pub mod checksum;
pub mod frames;
pub mod incoming;

verus! {

/// Something that reads packets off the wire
pub trait Reader {
    /// The next packet off the wire
    fn next_packet(&mut self) -> Result<Vec<u8>, crate::error::RLanLibError>;
}

/// Something that sends packets over the wire
pub trait Sender {
    /// Sends a packet over the wire
    fn send(&mut self, packet: &[u8]) -> Result<(), crate::error::RLanLibError>;
}

/// Ethertype of IPv4
pub const ETHERTYPE_IPV4: u16 = 0x0800;
/// Ethertype of ARP
pub const ETHERTYPE_ARP: u16 = 0x0806;
/// IP protocol number of TCP
pub const IP_PROTO_TCP: u8 = 6;
/// TCP flag SYN
pub const TCP_SYN: u8 = 2;
/// TCP flag RST
pub const TCP_RST: u8 = 4;
/// TCP flag ACK
pub const TCP_ACK: u8 = 16;
/// ARP operation code of a request
pub const ARP_REQUEST: u16 = 1;
/// ARP operation code of a reply
pub const ARP_REPLY: u16 = 2;

/// A 16-bit value in network byte order
pub open spec fn be16(v: u16) -> Seq<u8> {
    seq![(v / 256) as u8, (v % 256) as u8]
}

/// A 32-bit value in network byte order
pub open spec fn be32(v: u32) -> Seq<u8> {
    seq![(v / 0x100_0000) as u8, ((v / 0x1_0000) % 256) as u8, ((v / 256) % 256) as u8, (v % 256) as u8]
}

/// The 16-bit big-endian value at `off` in `b`
pub open spec fn read_be16(b: Seq<u8>, off: int) -> u16 {
    (b[off] as int * 256 + b[off + 1] as int) as u16
}

/// The 32-bit big-endian value at `off` in `b`
pub open spec fn read_be32(b: Seq<u8>, off: int) -> u32 {
    (b[off] as int * 0x100_0000 + b[off + 1] as int * 0x1_0000 + b[off + 2] as int * 256 + b[off + 3] as int) as u32
}

/// The MAC address held by the six bytes at `off` in `b`
pub open spec fn read_mac(b: Seq<u8>, off: int) -> MacAddr {
    MacAddr(b[off], b[off + 1], b[off + 2], b[off + 3], b[off + 4], b[off + 5])
}

/// An Ethernet II header
pub open spec fn ethernet_header(dest: MacAddr, source: MacAddr, ethertype: u16) -> Seq<u8> {
    mac_bytes(dest) + mac_bytes(source) + be16(ethertype)
}

} // verus!
