//! Builders of the frames that scanning sends

use vstd::prelude::*;
use crate::net::{MacAddr, mac_bytes};
use super::checksum::{
    be_word, ipv4_header_checks, ipv4_header_checksum, lemma_checksum_completes, lemma_word_sum_agree,
    lemma_word_sum_split, tcp_ipv4_checksum, tcp_pseudo_sum, tcp_segment_checks, word_sum,
};
use super::{
    ARP_REPLY, ARP_REQUEST, ETHERTYPE_ARP, ETHERTYPE_IPV4, IP_PROTO_TCP, TCP_RST, TCP_SYN, be16, be32,
    ethernet_header, read_be16, read_be32,
};

verus! {

/// Bytes of an Ethernet header
pub const PKT_ETH_SIZE: usize = 14;
/// Bytes of an ARP body for IPv4 over Ethernet
pub const PKT_ARP_SIZE: usize = 28;
/// Bytes of an IPv4 header without options
pub const PKT_IP4_SIZE: usize = 20;
/// Bytes of a TCP header without options
pub const PKT_TCP_SIZE: usize = 20;
/// Bytes of an ARP frame
pub const PKT_ARP_TOTAL_SIZE: usize = 42;
/// Bytes of a TCP frame without payload
pub const PKT_TCP_TOTAL_SIZE: usize = 54;

/// An ARP body for IPv4 over Ethernet
pub open spec fn arp_body(op: u16, sender_mac: MacAddr, sender_ip: u32, target_mac: MacAddr, target_ip: u32) -> Seq<u8> {
    be16(1) + be16(ETHERTYPE_IPV4) + seq![6u8, 4u8] + be16(op) + mac_bytes(sender_mac) + be32(sender_ip)
        + mac_bytes(target_mac) + be32(target_ip)
}

/// The ARP request frame that asks, from `source_mac`/`source_ip`, who
/// holds `dest_ip`: broadcast, target hardware address zero
pub open spec fn spec_arp_request(source_ip: u32, source_mac: MacAddr, dest_ip: u32) -> Seq<u8> {
    ethernet_header(MacAddr(0xff, 0xff, 0xff, 0xff, 0xff, 0xff), source_mac, ETHERTYPE_ARP)
        + arp_body(ARP_REQUEST, source_mac, source_ip, MacAddr(0, 0, 0, 0, 0, 0), dest_ip)
}

/// The ARP reply frame from `from_mac`/`from_ip` to `to_mac`/`to_ip`
pub open spec fn spec_arp_reply(from_mac: MacAddr, from_ip: u32, to_mac: MacAddr, to_ip: u32) -> Seq<u8> {
    ethernet_header(to_mac, from_mac, ETHERTYPE_ARP) + arp_body(ARP_REPLY, from_mac, from_ip, to_mac, to_ip)
}

/// IPv4 header of a 40-byte datagram that carries a bare TCP header:
/// version 4, header length 5, TTL 64, identification and flags zero
pub open spec fn ipv4_tcp_header(source: u32, dest: u32, checksum: u16) -> Seq<u8> {
    seq![0x45u8, 0u8] + be16(40) + be16(0) + be16(0) + seq![64u8, IP_PROTO_TCP] + be16(checksum) + be32(source)
        + be32(dest)
}

/// A TCP header without options: acknowledgement, window and urgent
/// pointer zero, data offset 5
pub open spec fn tcp_header(source_port: u16, dest_port: u16, sequence: u32, flags: u8, checksum: u16) -> Seq<u8> {
    be16(source_port) + be16(dest_port) + be32(sequence) + be32(0) + seq![0x50u8, flags] + be16(0) + be16(checksum)
        + be16(0)
}

/// A frame of one bare TCP header, with both checksums filled in
pub open spec fn spec_tcp_frame(
    source_mac: MacAddr,
    source_ip: u32,
    source_port: u16,
    dest_ip: u32,
    dest_mac: MacAddr,
    dest_port: u16,
    sequence: u32,
    flags: u8,
) -> Seq<u8> {
    ethernet_header(dest_mac, source_mac, ETHERTYPE_IPV4) + ipv4_tcp_header(
        source_ip,
        dest_ip,
        ipv4_header_checksum(ipv4_tcp_header(source_ip, dest_ip, 0)),
    ) + tcp_header(
        source_port,
        dest_port,
        sequence,
        flags,
        tcp_ipv4_checksum(tcp_header(source_port, dest_port, sequence, flags, 0), source_ip, dest_ip),
    )
}

/// Computes the IPv4 header checksum with `pnet::packet::ipv4::checksum`.
///
/// Trusted: pnet sums the header's ten big-endian words but the checksum
/// word, folds the carries back in and complements the result, which is
/// `ipv4_header_checksum` of the bytes (a 20-byte buffer always makes a
/// packet, and pnet reads exactly those 20 bytes as the header).
#[verifier::external_body]
fn ipv4_checksum(header: &[u8; 20]) -> (c: u16)
    ensures
        c == ipv4_header_checksum(header@),
{
    pnet::packet::ipv4::checksum(&pnet::packet::ipv4::Ipv4Packet::new(&header[..]).unwrap())
}

/// Computes the TCP checksum with `pnet::packet::tcp::ipv4_checksum`.
///
/// Trusted: pnet adds the pseudo header (the halves of both addresses, the
/// protocol number 6 and the length 20) to the sum of the segment's words
/// but the checksum word, folds the carries back in and complements the
/// result, which is `tcp_ipv4_checksum` of the bytes and addresses.
#[verifier::external_body]
fn tcp_checksum(segment: &[u8; 20], source: u32, dest: u32) -> (c: u16)
    ensures
        c == tcp_ipv4_checksum(segment@, source, dest),
{
    let pkt = pnet::packet::tcp::TcpPacket::new(&segment[..]).unwrap();
    pnet::packet::tcp::ipv4_checksum(&pkt, &source.into(), &dest.into())
}

fn hi(v: u16) -> (b: u8)
    ensures
        b == (v / 256) as u8,
{
    (v / 256) as u8
}

fn lo(v: u16) -> (b: u8)
    ensures
        b == (v % 256) as u8,
{
    (v % 256) as u8
}

fn b32(v: u32, i: u32) -> (b: u8)
    requires
        i < 4,
    ensures
        b == be32(v)[i as int],
{
    if i == 0 {
        (v / 0x100_0000) as u8
    } else if i == 1 {
        ((v / 0x1_0000) % 256) as u8
    } else if i == 2 {
        ((v / 256) % 256) as u8
    } else {
        (v % 256) as u8
    }
}

fn ipv4_tcp_header_exec(source: u32, dest: u32, checksum: u16) -> (h: [u8; 20])
    ensures
        h@ == ipv4_tcp_header(source, dest, checksum),
{
    let h = [
        0x45u8, 0, 0, 40, 0, 0, 0, 0, 64, IP_PROTO_TCP, hi(checksum), lo(checksum),
        b32(source, 0), b32(source, 1), b32(source, 2), b32(source, 3),
        b32(dest, 0), b32(dest, 1), b32(dest, 2), b32(dest, 3),
    ];
    assert(h@ =~= ipv4_tcp_header(source, dest, checksum));
    h
}

fn tcp_header_exec(source_port: u16, dest_port: u16, sequence: u32, flags: u8, checksum: u16) -> (h: [u8; 20])
    ensures
        h@ == tcp_header(source_port, dest_port, sequence, flags, checksum),
{
    let h = [
        hi(source_port), lo(source_port), hi(dest_port), lo(dest_port),
        b32(sequence, 0), b32(sequence, 1), b32(sequence, 2), b32(sequence, 3),
        0, 0, 0, 0, 0x50, flags, 0, 0, hi(checksum), lo(checksum), 0, 0,
    ];
    assert(h@ =~= tcp_header(source_port, dest_port, sequence, flags, checksum));
    h
}

/// Builds a frame of one bare TCP header with the given flags
pub fn tcp_frame(
    source_mac: MacAddr,
    source_ip: u32,
    source_port: u16,
    dest_ip: u32,
    dest_mac: MacAddr,
    dest_port: u16,
    sequence: u32,
    flags: u8,
) -> (f: [u8; 54])
    ensures
        f@ == spec_tcp_frame(source_mac, source_ip, source_port, dest_ip, dest_mac, dest_port, sequence, flags),
{
    let ip0 = ipv4_tcp_header_exec(source_ip, dest_ip, 0);
    let ip = ipv4_tcp_header_exec(source_ip, dest_ip, ipv4_checksum(&ip0));
    let tcp0 = tcp_header_exec(source_port, dest_port, sequence, flags, 0);
    let tcp = tcp_header_exec(source_port, dest_port, sequence, flags, tcp_checksum(&tcp0, source_ip, dest_ip));
    let d = dest_mac;
    let s = source_mac;
    let f = [
        d.0, d.1, d.2, d.3, d.4, d.5, s.0, s.1, s.2, s.3, s.4, s.5, 0x08, 0x00,
        ip[0], ip[1], ip[2], ip[3], ip[4], ip[5], ip[6], ip[7], ip[8], ip[9],
        ip[10], ip[11], ip[12], ip[13], ip[14], ip[15], ip[16], ip[17], ip[18], ip[19],
        tcp[0], tcp[1], tcp[2], tcp[3], tcp[4], tcp[5], tcp[6], tcp[7], tcp[8], tcp[9],
        tcp[10], tcp[11], tcp[12], tcp[13], tcp[14], tcp[15], tcp[16], tcp[17], tcp[18], tcp[19],
    ];
    assert(f@ =~= spec_tcp_frame(source_mac, source_ip, source_port, dest_ip, dest_mac, dest_port, sequence, flags));
    f
}

/// Builds an ARP frame for IPv4 over Ethernet
fn arp_frame(eth_dest: MacAddr, op: u16, sender_mac: MacAddr, sender_ip: u32, target_mac: MacAddr, target_ip: u32) -> (f: [u8; 42])
    ensures
        f@ == ethernet_header(eth_dest, sender_mac, ETHERTYPE_ARP) + arp_body(op, sender_mac, sender_ip, target_mac, target_ip),
{
    let d = eth_dest;
    let s = sender_mac;
    let t = target_mac;
    let f = [
        d.0, d.1, d.2, d.3, d.4, d.5, s.0, s.1, s.2, s.3, s.4, s.5, 0x08, 0x06,
        0, 1, 0x08, 0x00, 6, 4, hi(op), lo(op),
        s.0, s.1, s.2, s.3, s.4, s.5,
        b32(sender_ip, 0), b32(sender_ip, 1), b32(sender_ip, 2), b32(sender_ip, 3),
        t.0, t.1, t.2, t.3, t.4, t.5,
        b32(target_ip, 0), b32(target_ip, 1), b32(target_ip, 2), b32(target_ip, 3),
    ];
    assert(f@ =~= ethernet_header(eth_dest, sender_mac, ETHERTYPE_ARP) + arp_body(op, sender_mac, sender_ip, target_mac, target_ip));
    f
}

/// Represents a generator for raw ARP request packets
#[derive(Debug, Clone, Copy)]
pub struct ArpPacket {
    /// IP of the host sending the packet
    pub source_ip: u32,
    /// MAC address of the host sending the packet
    pub source_mac: MacAddr,
    /// Target destination IP for the packet
    pub dest_ip: u32,
}

impl ArpPacket {
    /// The request that `source_mac`/`source_ip` sends to find `dest_ip`
    pub fn new(source_ip: u32, source_mac: MacAddr, dest_ip: u32) -> (p: Self)
        ensures
            p.source_ip == source_ip,
            p.source_mac == source_mac,
            p.dest_ip == dest_ip,
    {
        ArpPacket { source_ip, source_mac, dest_ip }
    }

    /// Builds the raw ARP request frame; this is what ARP scanning sends
    /// for each target
    pub fn to_raw(&self) -> (f: [u8; 42])
        ensures
            f@ == spec_arp_request(self.source_ip, self.source_mac, self.dest_ip),
    {
        arp_frame(MacAddr::broadcast(), ARP_REQUEST, self.source_mac, self.source_ip, MacAddr::zero(), self.dest_ip)
    }
}

/// Builds the ARP reply frame that a device holding `from_ip` answers with
pub fn create_arp_reply(from_mac: MacAddr, from_ip: u32, to_mac: MacAddr, to_ip: u32) -> (f: [u8; 42])
    ensures
        f@ == spec_arp_reply(from_mac, from_ip, to_mac, to_ip),
{
    arp_frame(to_mac, ARP_REPLY, from_mac, from_ip, to_mac, to_ip)
}

/// Represents a RST (reset) packet, sent when a SYN request is answered,
/// to close the half-open connection again
pub struct RSTPacket {}

impl RSTPacket {
    /// Returns a new RST frame based on the provided information
    pub fn new(
        source_mac: MacAddr,
        source_ipv4: u32,
        source_port: u16,
        dest_ipv4: u32,
        dest_mac: MacAddr,
        dest_port: u16,
        sequence_number: u32,
    ) -> (f: [u8; 54])
        ensures
            f@ == spec_tcp_frame(source_mac, source_ipv4, source_port, dest_ipv4, dest_mac, dest_port, sequence_number, TCP_RST),
    {
        tcp_frame(source_mac, source_ipv4, source_port, dest_ipv4, dest_mac, dest_port, sequence_number, TCP_RST)
    }
}

/// Represents a generator for heartbeat packets: a SYN frame the scanning
/// host sends to itself so that its packet reader keeps waking up
#[derive(Debug, Clone, Copy)]
pub struct HeartbeatPacket {
    /// IP of the host machine performing scanning
    pub source_ip: u32,
    /// MAC address of the host machine performing scanning
    pub source_mac: MacAddr,
    /// Source port on which the host machine is listening for packets
    pub source_port: u16,
}

impl HeartbeatPacket {
    /// Builds the heartbeat frame: from and to the scanning host, SYN,
    /// sequence number zero
    pub fn to_raw(&self) -> (f: [u8; 54])
        ensures
            f@ == spec_tcp_frame(self.source_mac, self.source_ip, self.source_port, self.source_ip, self.source_mac, self.source_port, 0, TCP_SYN),
    {
        tcp_frame(self.source_mac, self.source_ip, self.source_port, self.source_ip, self.source_mac, self.source_port, 0, TCP_SYN)
    }
}

/// The word that a 16-bit value makes in network byte order
proof fn lemma_be16_word(b: Seq<u8>, i: int, v: u16)
    requires
        0 <= 2 * i,
        2 * i + 1 < b.len(),
        b[2 * i] == be16(v)[0],
        b[2 * i + 1] == be16(v)[1],
    ensures
        be_word(b, i) == v,
{
    assert((v / 256) as u8 as int * 256 + (v % 256) as u8 as int == v) by (bit_vector);
}

/// Law: the TCP frames that a scan builds (SYN probes, RST answers and
/// heartbeats) are 54 bytes long and carry an IPv4 header checksum and a
/// TCP checksum that both verify
pub proof fn lemma_tcp_frame_checksums_verify(
    source_mac: MacAddr,
    source_ip: u32,
    source_port: u16,
    dest_ip: u32,
    dest_mac: MacAddr,
    dest_port: u16,
    sequence: u32,
    flags: u8,
)
    ensures
        ({
            let f = spec_tcp_frame(source_mac, source_ip, source_port, dest_ip, dest_mac, dest_port, sequence, flags);
            &&& f.len() == 54
            &&& ipv4_header_checks(f.subrange(14, 34))
            &&& tcp_segment_checks(f.subrange(34, 54), source_ip, dest_ip)
        }),
{
    let f = spec_tcp_frame(source_mac, source_ip, source_port, dest_ip, dest_mac, dest_port, sequence, flags);
    let h0 = ipv4_tcp_header(source_ip, dest_ip, 0);
    let c = ipv4_header_checksum(h0);
    let h = ipv4_tcp_header(source_ip, dest_ip, c);
    assert(f.subrange(14, 34) =~= h);
    assert forall|i: int| 0 <= i < 10 && i != 5 implies be_word(h, i) == be_word(h0, i) by {
        assert(h[2 * i] == h0[2 * i] && h[2 * i + 1] == h0[2 * i + 1]);
    }
    lemma_word_sum_agree(h, h0, 10, 5);
    lemma_word_sum_split(h, 10, 5);
    lemma_be16_word(h, 5, c);
    lemma_checksum_completes(word_sum(h0, 10, 5));

    let t0 = tcp_header(source_port, dest_port, sequence, flags, 0);
    let d = tcp_ipv4_checksum(t0, source_ip, dest_ip);
    let t = tcp_header(source_port, dest_port, sequence, flags, d);
    assert(f.subrange(34, 54) =~= t);
    assert forall|i: int| 0 <= i < 10 && i != 8 implies be_word(t, i) == be_word(t0, i) by {
        assert(t[2 * i] == t0[2 * i] && t[2 * i + 1] == t0[2 * i + 1]);
    }
    lemma_word_sum_agree(t, t0, 10, 8);
    lemma_word_sum_split(t, 10, 8);
    lemma_be16_word(t, 8, d);
    lemma_checksum_completes(tcp_pseudo_sum(source_ip, dest_ip) + word_sum(t0, 10, 8));
}

/// Law: the ARP request a scan broadcasts for `dest_ip` is a 42-byte
/// frame to ff:ff:ff:ff:ff:ff from the scanning host, of ethertype ARP,
/// asking for Ethernet/IPv4 addresses (operation 1), whose sender is the
/// scanning host's MAC and IPv4 address and whose target is the zero MAC
/// and `dest_ip`
pub proof fn lemma_arp_request_layout(source_ip: u32, source_mac: MacAddr, dest_ip: u32)
    ensures
        ({
            let f = spec_arp_request(source_ip, source_mac, dest_ip);
            &&& f.len() == 42
            &&& f.subrange(0, 6) == seq![0xffu8, 0xff, 0xff, 0xff, 0xff, 0xff]
            &&& f.subrange(6, 12) == mac_bytes(source_mac)
            &&& f[12] == 0x08 && f[13] == 0x06
            &&& f[14] == 0 && f[15] == 1 && f[16] == 0x08 && f[17] == 0 && f[18] == 6 && f[19] == 4
            &&& f[20] == 0 && f[21] == 1
            &&& f.subrange(22, 28) == mac_bytes(source_mac)
            &&& read_be32(f, 28) == source_ip
            &&& f.subrange(32, 38) == seq![0u8, 0, 0, 0, 0, 0]
            &&& read_be32(f, 38) == dest_ip
        }),
{
    let f = spec_arp_request(source_ip, source_mac, dest_ip);
    assert(f.subrange(0, 6) =~= seq![0xffu8, 0xff, 0xff, 0xff, 0xff, 0xff]);
    assert(f.subrange(6, 12) =~= mac_bytes(source_mac));
    assert(f.subrange(22, 28) =~= mac_bytes(source_mac));
    assert(f.subrange(32, 38) =~= seq![0u8, 0, 0, 0, 0, 0]);
    lemma_be32_read(source_ip);
    lemma_be32_read(dest_ip);
    assert(f.subrange(28, 32) =~= be32(source_ip));
    assert(f.subrange(38, 42) =~= be32(dest_ip));
    assert(read_be32(f, 28) == read_be32(f.subrange(28, 32), 0));
    assert(read_be32(f, 38) == read_be32(f.subrange(38, 42), 0));
}

/// A 32-bit value written in network byte order reads back as itself
proof fn lemma_be32_read(v: u32)
    ensures
        read_be32(be32(v), 0) == v,
{
    assert((v / 0x100_0000) as u8 as int * 0x100_0000 + ((v / 0x1_0000) % 256) as u8 as int * 0x1_0000
        + ((v / 256) % 256) as u8 as int * 256 + (v % 256) as u8 as int == v) by (bit_vector);
}

/// A 16-bit value written in network byte order reads back as itself
proof fn lemma_be16_read(v: u16)
    ensures
        read_be16(be16(v), 0) == v,
{
    assert((v / 256) as u8 as int * 256 + (v % 256) as u8 as int == v) by (bit_vector);
}

/// Law: the TCP frames a scan sends are 54 bytes: an Ethernet header from
/// `source_mac` to `dest_mac` of ethertype IPv4; an IPv4 header of version
/// 4 and header length 5 (20 bytes), total length 40, TTL 64, protocol
/// TCP, from `source_ip` to `dest_ip`; and a TCP header of data offset 5
/// (20 bytes, byte 46 is 0x50) from `source_port` to `dest_port` with the
/// given sequence number and flags
pub proof fn lemma_tcp_frame_layout(
    source_mac: MacAddr,
    source_ip: u32,
    source_port: u16,
    dest_ip: u32,
    dest_mac: MacAddr,
    dest_port: u16,
    sequence: u32,
    flags: u8,
)
    ensures
        ({
            let f = spec_tcp_frame(source_mac, source_ip, source_port, dest_ip, dest_mac, dest_port, sequence, flags);
            &&& f.len() == 54
            &&& f.subrange(0, 6) == mac_bytes(dest_mac)
            &&& f.subrange(6, 12) == mac_bytes(source_mac)
            &&& f[12] == 0x08 && f[13] == 0
            &&& f[14] == 0x45
            &&& read_be16(f, 16) == 40
            &&& f[22] == 64 && f[23] == 6
            &&& read_be32(f, 26) == source_ip
            &&& read_be32(f, 30) == dest_ip
            &&& read_be16(f, 34) == source_port
            &&& read_be16(f, 36) == dest_port
            &&& read_be32(f, 38) == sequence
            &&& f[46] == 0x50
            &&& f[47] == flags
        }),
{
    let f = spec_tcp_frame(source_mac, source_ip, source_port, dest_ip, dest_mac, dest_port, sequence, flags);
    assert(f.subrange(0, 6) =~= mac_bytes(dest_mac));
    assert(f.subrange(6, 12) =~= mac_bytes(source_mac));
    lemma_be16_read(40);
    lemma_be16_read(source_port);
    lemma_be16_read(dest_port);
    lemma_be32_read(source_ip);
    lemma_be32_read(dest_ip);
    lemma_be32_read(sequence);
    assert(f.subrange(16, 18) =~= be16(40));
    assert(f.subrange(26, 30) =~= be32(source_ip));
    assert(f.subrange(30, 34) =~= be32(dest_ip));
    assert(f.subrange(34, 36) =~= be16(source_port));
    assert(f.subrange(36, 38) =~= be16(dest_port));
    assert(f.subrange(38, 42) =~= be32(sequence));
    assert(read_be16(f, 16) == read_be16(f.subrange(16, 18), 0));
    assert(read_be32(f, 26) == read_be32(f.subrange(26, 30), 0));
    assert(read_be32(f, 30) == read_be32(f.subrange(30, 34), 0));
    assert(read_be16(f, 34) == read_be16(f.subrange(34, 36), 0));
    assert(read_be16(f, 36) == read_be16(f.subrange(36, 38), 0));
    assert(read_be32(f, 38) == read_be32(f.subrange(38, 42), 0));
}

} // verus!
