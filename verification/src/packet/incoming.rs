//! Classification of the frames a scan receives

use vstd::prelude::*;
use crate::net::MacAddr;
use super::{ARP_REPLY, ARP_REQUEST, IP_PROTO_TCP, TCP_ACK, TCP_RST, TCP_SYN, be16, be32, read_be16, read_be32, read_mac};
use super::frames::{lemma_tcp_frame_layout, spec_arp_reply, spec_arp_request, spec_tcp_frame};

verus! {

/// The payload of an Ethernet frame, as `EthernetPacket::payload` gives it
pub open spec fn eth_payload(frame: Seq<u8>) -> Seq<u8> {
    if frame.len() <= 14 {
        Seq::empty()
    } else {
        frame.skip(14)
    }
}

/// Where the payload of an IPv4 datagram starts, as pnet computes it from
/// the header length field
pub open spec fn ipv4_payload_start(ip: Seq<u8>) -> int {
    let hl = (ip[0] % 16) as int * 4;
    if hl >= 20 { hl } else { 20 }
}

/// The payload of an IPv4 datagram, as `Ipv4Packet::payload` gives it:
/// from the end of the header up to the total length, cut at the end of
/// the buffer
pub open spec fn ipv4_payload(ip: Seq<u8>) -> Seq<u8> {
    let hl = (ip[0] % 16) as int * 4;
    let total = read_be16(ip, 2) as int;
    let start = ipv4_payload_start(ip);
    let len = if total >= hl { total - hl } else { 0 };
    let end = if start + len <= ip.len() { start + len } else { ip.len() as int };
    if ip.len() <= start {
        Seq::empty()
    } else {
        ip.subrange(start, end)
    }
}

/// The sender that an ARP reply frame announces: the sender protocol
/// address of the ARP body and the Ethernet source address; `None` when
/// the frame is not an ARP reply
pub open spec fn spec_arp_reply_sender(frame: Seq<u8>) -> Option<(u32, MacAddr)> {
    let arp = eth_payload(frame);
    if frame.len() < 14 || arp.len() < 28 || read_be16(arp, 6) != ARP_REPLY {
        None
    } else {
        Some((read_be32(arp, 14), read_mac(frame, 6)))
    }
}

/// What a SYN-ACK frame to `source_port` says: the address that sent it,
/// the port it answers from and its sequence number; `None` for any other
/// frame
pub open spec fn spec_syn_ack(frame: Seq<u8>, source_port: u16) -> Option<(u32, u16, u32)> {
    let ip = eth_payload(frame);
    if frame.len() < 14 || ip.len() < 20 || ip[9] != IP_PROTO_TCP {
        None
    } else {
        let tcp = ipv4_payload(ip);
        if tcp.len() < 20 || read_be16(tcp, 2) != source_port || tcp[13] != TCP_SYN + TCP_ACK {
            None
        } else {
            Some((read_be32(ip, 12), read_be16(tcp, 0), read_be32(tcp, 4)))
        }
    }
}

fn get_be16(b: &[u8], off: usize) -> (v: u16)
    requires
        off + 2 <= b@.len(),
    ensures
        v == read_be16(b@, off as int),
{
    (b[off] as u16) * 256 + (b[off + 1] as u16)
}

fn get_be32(b: &[u8], off: usize) -> (v: u32)
    requires
        off + 4 <= b@.len(),
    ensures
        v == read_be32(b@, off as int),
{
    (b[off] as u32) * 0x100_0000 + (b[off + 1] as u32) * 0x1_0000 + (b[off + 2] as u32) * 256 + (b[off + 3] as u32)
}

/// The sender of an ARP reply frame: its IPv4 address and MAC address;
/// `None` when the frame is not an ARP reply
pub fn arp_reply_sender(frame: &[u8]) -> (r: Option<(u32, MacAddr)>)
    ensures
        r == spec_arp_reply_sender(frame@),
{
    let n = frame.len();
    if n < 14 + 28 {
        proof {
            if n >= 14 {
                assert(eth_payload(frame@).len() == n - 14);
            }
        }
        return None;
    }
    let ghost arp = eth_payload(frame@);
    assert(forall|i: int| 0 <= i < 28 ==> arp[i] == frame@[14 + i]);
    let op = get_be16(frame, 14 + 6);
    if op != ARP_REPLY {
        return None;
    }
    let ip = get_be32(frame, 14 + 14);
    let mac = MacAddr(frame[6], frame[7], frame[8], frame[9], frame[10], frame[11]);
    Some((ip, mac))
}

/// Reads a frame as the answer to a SYN sent from `source_port`: the
/// sender's address, the port it answered from and its sequence number,
/// when the frame is a TCP SYN-ACK to `source_port`; `None` otherwise
pub fn syn_ack(frame: &[u8], source_port: u16) -> (r: Option<(u32, u16, u32)>)
    ensures
        r == spec_syn_ack(frame@, source_port),
{
    let n = frame.len();
    if n < 14 + 20 {
        proof {
            if n >= 14 {
                assert(eth_payload(frame@).len() == n - 14);
            }
        }
        return None;
    }
    let ghost ip = eth_payload(frame@);
    assert(forall|i: int| 0 <= i < ip.len() ==> ip[i] == frame@[14 + i]);
    assert(ip.len() == n - 14);
    if frame[14 + 9] != IP_PROTO_TCP {
        return None;
    }
    let hl: usize = ((frame[14] % 16) as usize) * 4;
    let total: usize = get_be16(frame, 14 + 2) as usize;
    let start: usize = if hl >= 20 { hl } else { 20 };
    let len: usize = if total >= hl { total - hl } else { 0 };
    let ip_len = n - 14;
    let end: usize = if start + len <= ip_len { start + len } else { ip_len };
    if ip_len <= start {
        return None;
    }
    let ghost tcp = ipv4_payload(ip);
    assert(tcp =~= ip.subrange(start as int, end as int));
    if end - start < 20 {
        return None;
    }
    let t = 14 + start;
    assert(forall|i: int| 0 <= i < 20 ==> tcp[i] == frame@[t + i]);
    let dest_port = get_be16(frame, t + 2);
    if dest_port != source_port || frame[t + 13] != TCP_SYN + TCP_ACK {
        return None;
    }
    let device_ip = get_be32(frame, 14 + 12);
    let port = get_be16(frame, t);
    let sequence = get_be32(frame, t + 4);
    Some((device_ip, port, sequence))
}

} // verus!

verus! {

proof fn lemma_be16_roundtrip(v: u16)
    ensures
        read_be16(be16(v), 0) == v,
{
    assert((v / 256) as u8 as int * 256 + (v % 256) as u8 as int == v) by (bit_vector);
}

proof fn lemma_be32_roundtrip(v: u32)
    ensures
        read_be32(be32(v), 0) == v,
{
    assert((v / 0x100_0000) as u8 as int * 0x100_0000 + ((v / 0x1_0000) % 256) as u8 as int * 0x1_0000
        + ((v / 256) % 256) as u8 as int * 256 + (v % 256) as u8 as int == v) by (bit_vector);
}

/// Law: the ARP reply that a device sends is recognized as a reply from
/// that device, with its address and MAC address
pub proof fn lemma_arp_reply_is_recognized(from_mac: MacAddr, from_ip: u32, to_mac: MacAddr, to_ip: u32)
    ensures
        spec_arp_reply_sender(spec_arp_reply(from_mac, from_ip, to_mac, to_ip)) == Some((from_ip, from_mac)),
{
    let f = spec_arp_reply(from_mac, from_ip, to_mac, to_ip);
    let arp = eth_payload(f);
    lemma_be16_roundtrip(ARP_REPLY);
    lemma_be32_roundtrip(from_ip);
    assert(arp.subrange(6, 8) =~= be16(ARP_REPLY));
    assert(arp.subrange(14, 18) =~= be32(from_ip));
    assert(read_be16(arp, 6) == read_be16(arp.subrange(6, 8), 0));
    assert(read_be32(arp, 14) == read_be32(arp.subrange(14, 18), 0));
    assert(read_mac(f, 6) == from_mac);
}

/// Law: an ARP request, such as those a scan sends, is never taken for a
/// reply
pub proof fn lemma_arp_request_is_not_a_reply(source_ip: u32, source_mac: MacAddr, dest_ip: u32)
    ensures
        spec_arp_reply_sender(spec_arp_request(source_ip, source_mac, dest_ip)) is None,
{
    let f = spec_arp_request(source_ip, source_mac, dest_ip);
    let arp = eth_payload(f);
    lemma_be16_roundtrip(ARP_REQUEST);
    assert(arp.subrange(6, 8) =~= be16(ARP_REQUEST));
    assert(read_be16(arp, 6) == read_be16(arp.subrange(6, 8), 0));
}

/// Law: the SYN-ACK that a device answers a SYN with, sent to the port the
/// scan listens on, is read back as that device's address, port and
/// sequence number
pub proof fn lemma_syn_ack_is_recognized(
    device_mac: MacAddr,
    device_ip: u32,
    device_port: u16,
    host_ip: u32,
    host_mac: MacAddr,
    host_port: u16,
    sequence: u32,
)
    ensures
        spec_syn_ack(
            spec_tcp_frame(device_mac, device_ip, device_port, host_ip, host_mac, host_port, sequence, (TCP_SYN + TCP_ACK) as u8),
            host_port,
        ) == Some((device_ip, device_port, sequence)),
{
    let f = spec_tcp_frame(device_mac, device_ip, device_port, host_ip, host_mac, host_port, sequence, (TCP_SYN + TCP_ACK) as u8);
    let ip = eth_payload(f);
    lemma_be16_roundtrip(40);
    lemma_be16_roundtrip(device_port);
    lemma_be16_roundtrip(host_port);
    lemma_be32_roundtrip(device_ip);
    lemma_be32_roundtrip(sequence);
    assert(ip.len() == 40);
    assert(ip.subrange(2, 4) =~= be16(40));
    assert(read_be16(ip, 2) == read_be16(ip.subrange(2, 4), 0));
    assert(ip[0] == 0x45);
    let tcp = ipv4_payload(ip);
    assert(tcp =~= ip.subrange(20, 40));
    assert(tcp.subrange(0, 2) =~= be16(device_port));
    assert(tcp.subrange(2, 4) =~= be16(host_port));
    assert(tcp.subrange(4, 8) =~= be32(sequence));
    assert(ip.subrange(12, 16) =~= be32(device_ip));
    assert(read_be16(tcp, 0) == read_be16(tcp.subrange(0, 2), 0));
    assert(read_be16(tcp, 2) == read_be16(tcp.subrange(2, 4), 0));
    assert(read_be32(tcp, 4) == read_be32(tcp.subrange(4, 8), 0));
    assert(read_be32(ip, 12) == read_be32(ip.subrange(12, 16), 0));
}

/// Law: the frames a scan sends itself (RST frames and heartbeats) are
/// never taken for a SYN-ACK, whatever port is listened on
pub proof fn lemma_rst_and_syn_frames_are_not_syn_acks(
    source_mac: MacAddr,
    source_ip: u32,
    source_port: u16,
    dest_ip: u32,
    dest_mac: MacAddr,
    dest_port: u16,
    sequence: u32,
    listen_port: u16,
)
    ensures
        spec_syn_ack(spec_tcp_frame(source_mac, source_ip, source_port, dest_ip, dest_mac, dest_port, sequence, TCP_RST), listen_port) is None,
        spec_syn_ack(spec_tcp_frame(source_mac, source_ip, source_port, dest_ip, dest_mac, dest_port, sequence, TCP_SYN), listen_port) is None,
{
    let f1 = spec_tcp_frame(source_mac, source_ip, source_port, dest_ip, dest_mac, dest_port, sequence, TCP_RST);
    let f2 = spec_tcp_frame(source_mac, source_ip, source_port, dest_ip, dest_mac, dest_port, sequence, TCP_SYN);
    lemma_be16_roundtrip(40);
    let ip1 = eth_payload(f1);
    let ip2 = eth_payload(f2);
    assert(ip1.subrange(2, 4) =~= be16(40));
    assert(ip2.subrange(2, 4) =~= be16(40));
    assert(read_be16(ip1, 2) == read_be16(ip1.subrange(2, 4), 0));
    assert(read_be16(ip2, 2) == read_be16(ip2.subrange(2, 4), 0));
    assert(ipv4_payload(ip1) =~= ip1.subrange(20, 40));
    assert(ipv4_payload(ip2) =~= ip2.subrange(20, 40));
}

/// Law: a frame is read as a SYN-ACK only when it is one: an IPv4 frame of
/// protocol TCP whose TCP header, after an IPv4 header of the length its
/// header length field gives (at least 20 bytes), is complete, is sent to
/// the listened port and carries exactly the flags SYN and ACK (0x12); what
/// is read back is the sender's address, its port and its sequence number
pub proof fn lemma_syn_ack_needs_exactly_syn_and_ack(frame: Seq<u8>, listen_port: u16)
    ensures
        spec_syn_ack(frame, listen_port) matches Some((ip, port, sequence)) ==> ({
            let h = (frame[14] % 16) as int * 4;
            let t = 14 + if h >= 20 { h } else { 20 };
            &&& frame.len() >= t + 20
            &&& frame[23] == 6
            &&& frame[t + 13] == 0x12
            &&& frame[t + 2] as int * 256 + frame[t + 3] as int == listen_port as int
            &&& ip == read_be32(frame, 26)
            &&& port as int == frame[t] as int * 256 + frame[t + 1] as int
            &&& sequence == read_be32(frame, t + 4)
        }),
{
    if spec_syn_ack(frame, listen_port) is Some {
        let ip = eth_payload(frame);
        assert(ip =~= frame.skip(14));
        let start = ipv4_payload_start(ip);
        let tcp = ipv4_payload(ip);
        assert(ip[0] == frame[14]);
        assert(start + 20 <= ip.len());
        assert forall|j: int| 0 <= j < 20 implies tcp[j] == frame[14 + start + j] by {
            assert(tcp[j] == ip[start + j]);
        }
        assert(frame[14 + start + 13] == tcp[13]);
        assert(ip[9] == frame[23]);
        assert(read_be32(ip, 12) == read_be32(frame, 26));
        assert(read_be32(tcp, 4) == read_be32(frame, 14 + start + 4));
        assert(tcp[2] as int * 256 + tcp[3] as int == read_be16(tcp, 2));
        assert(tcp[0] as int * 256 + tcp[1] as int == read_be16(tcp, 0));
    }
}

/// Law: of the TCP frames a scan builds, only one whose flags are exactly
/// SYN and ACK is read as a SYN-ACK: a RST-ACK from a closed port, a RST,
/// a SYN or any other flags give nothing, whatever port is listened on
pub proof fn lemma_only_syn_ack_flags_are_read(
    source_mac: MacAddr,
    source_ip: u32,
    source_port: u16,
    dest_ip: u32,
    dest_mac: MacAddr,
    dest_port: u16,
    sequence: u32,
    flags: u8,
    listen_port: u16,
)
    requires
        flags != TCP_SYN + TCP_ACK,
    ensures
        spec_syn_ack(spec_tcp_frame(source_mac, source_ip, source_port, dest_ip, dest_mac, dest_port, sequence, flags), listen_port) is None,
{
    let f = spec_tcp_frame(source_mac, source_ip, source_port, dest_ip, dest_mac, dest_port, sequence, flags);
    lemma_tcp_frame_layout(source_mac, source_ip, source_port, dest_ip, dest_mac, dest_port, sequence, flags);
    lemma_syn_ack_needs_exactly_syn_and_ack(f, listen_port);
}

/// Law: a frame is read as an ARP reply only when its ARP operation (bytes
/// 20 and 21) is 2; what is read back is the sender protocol address
/// (bytes 28 to 31) and the Ethernet source address (bytes 6 to 11)
pub proof fn lemma_arp_reply_reads_the_sender(frame: Seq<u8>)
    ensures
        spec_arp_reply_sender(frame) matches Some((ip, mac)) ==> ({
            &&& frame.len() >= 42
            &&& frame[20] == 0 && frame[21] == 2
            &&& ip == read_be32(frame, 28)
            &&& crate::net::mac_bytes(mac) == frame.subrange(6, 12)
        }),
{
    if spec_arp_reply_sender(frame) is Some {
        let arp = eth_payload(frame);
        assert(arp =~= frame.skip(14));
        assert(arp[6] == frame[20] && arp[7] == frame[21]);
        assert(read_be32(arp, 14) == read_be32(frame, 28));
        assert(crate::net::mac_bytes(read_mac(frame, 6)) =~= frame.subrange(6, 12));
        assert((arp[6] as int * 256 + arp[7] as int) as u16 == 2);
        assert(arp[6] == 0 && arp[7] == 2) by (nonlinear_arith)
            requires
                (arp[6] as int * 256 + arp[7] as int) as u16 == 2,
                0 <= arp[6] < 256,
                0 <= arp[7] < 256,
        ;
    }
}

} // verus!
