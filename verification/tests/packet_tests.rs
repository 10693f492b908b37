use r_lanscan::net::MacAddr;
use r_lanscan::packet::frames::{create_arp_reply, tcp_frame, ArpPacket, HeartbeatPacket, RSTPacket};
use r_lanscan::packet::incoming::{arp_reply_sender, syn_ack};
use r_lanscan::packet::{TCP_ACK, TCP_RST, TCP_SYN};

fn ip(a: u32, b: u32, c: u32, d: u32) -> u32 {
    (a << 24) | (b << 16) | (c << 8) | d
}

#[test]
fn creates_arp_packet() {
    let packet = ArpPacket::new(ip(192, 168, 68, 1), MacAddr::default(), ip(192, 168, 68, 2)).to_raw();
    assert!(!packet.is_empty());
}

#[test]
fn creates_heartbeat_packet() {
    let packet = HeartbeatPacket { source_ip: ip(192, 168, 68, 1), source_mac: MacAddr::zero(), source_port: 54321 }
        .to_raw();
    assert!(!packet.is_empty());
}

#[test]
fn creates_rst_packet() {
    let packet = RSTPacket::new(
        MacAddr::zero(),
        ip(192, 168, 68, 1),
        54321,
        ip(192, 168, 68, 2),
        MacAddr::new(0, 0, 0, 0, 0, 1),
        22,
        1,
    );
    assert!(!packet.is_empty());
}

#[test]
fn arp_request_layout() {
    let mac = MacAddr::new(1, 2, 3, 4, 5, 6);
    let f = ArpPacket::new(ip(192, 168, 1, 2), mac, ip(192, 168, 1, 9)).to_raw();
    // broadcast destination, our source, ARP ethertype
    assert_eq!(&f[0..6], &[0xff; 6]);
    assert_eq!(&f[6..12], &[1, 2, 3, 4, 5, 6]);
    assert_eq!(&f[12..14], &[0x08, 0x06]);
    // request, sender 192.168.1.2, target 192.168.1.9
    assert_eq!(&f[20..22], &[0, 1]);
    assert_eq!(&f[28..32], &[192, 168, 1, 2]);
    assert_eq!(&f[38..42], &[192, 168, 1, 9]);
}

#[test]
fn arp_reply_is_recognized_and_a_request_is_not() {
    let theirs = MacAddr::new(0xaa, 0xbb, 0xcc, 0, 0, 1);
    let ours = MacAddr::new(1, 2, 3, 4, 5, 6);
    let reply = create_arp_reply(theirs, ip(192, 168, 1, 9), ours, ip(192, 168, 1, 2));
    assert_eq!(arp_reply_sender(&reply), Some((ip(192, 168, 1, 9), theirs)));
    let request = ArpPacket::new(ip(192, 168, 1, 2), ours, ip(192, 168, 1, 9)).to_raw();
    assert_eq!(arp_reply_sender(&request), None);
    assert_eq!(arp_reply_sender(&reply[..20]), None);
}

#[test]
fn syn_ack_is_recognized_for_our_port_only() {
    let theirs = MacAddr::new(0xaa, 0xbb, 0xcc, 0, 0, 1);
    let ours = MacAddr::new(1, 2, 3, 4, 5, 6);
    let f = tcp_frame(theirs, ip(192, 168, 1, 9), 22, ip(192, 168, 1, 2), ours, 54321, 7, TCP_SYN | TCP_ACK);
    assert_eq!(syn_ack(&f, 54321), Some((ip(192, 168, 1, 9), 22, 7)));
    assert_eq!(syn_ack(&f, 54322), None);
    let rst = RSTPacket::new(ours, ip(192, 168, 1, 2), 54321, ip(192, 168, 1, 9), theirs, 22, 8);
    assert_eq!(syn_ack(&rst, 22), None);
    let g = tcp_frame(theirs, ip(192, 168, 1, 9), 22, ip(192, 168, 1, 2), ours, 54321, 7, TCP_RST);
    assert_eq!(syn_ack(&g, 54321), None);
}

fn ones_complement_sum(words: &[u8]) -> u16 {
    let mut sum: u32 = 0;
    for pair in words.chunks(2) {
        let w = ((pair[0] as u32) << 8) | (*pair.get(1).unwrap_or(&0) as u32);
        sum += w;
    }
    while sum > 0xffff {
        sum = (sum & 0xffff) + (sum >> 16);
    }
    sum as u16
}

#[test]
fn frame_checksums_verify() {
    let f = RSTPacket::new(
        MacAddr::new(1, 2, 3, 4, 5, 6),
        ip(192, 168, 68, 1),
        54321,
        ip(192, 168, 68, 2),
        MacAddr::new(0, 0, 0, 0, 0, 1),
        22,
        1,
    );
    // the IPv4 header sums to all ones with its checksum in place
    assert_ne!(&f[24..26], &[0, 0]);
    assert_eq!(ones_complement_sum(&f[14..34]), 0xffff);
    // so does the TCP header with the pseudo header
    let mut pseudo = Vec::new();
    pseudo.extend_from_slice(&f[26..34]);
    pseudo.extend_from_slice(&[0, 6, 0, 20]);
    pseudo.extend_from_slice(&f[34..54]);
    assert_eq!(ones_complement_sum(&pseudo), 0xffff);
}

#[test]
fn ipv4_header_checksum_exact_value() {
    let f = RSTPacket::new(
        MacAddr::new(1, 2, 3, 4, 5, 6),
        ip(192, 168, 1, 2),
        54321,
        ip(192, 168, 1, 9),
        MacAddr::new(0, 0, 0, 0, 0, 1),
        22,
        1,
    );
    // words 4500 0028 0000 0000 4006 c0a8 0102 c0a8 0109 sum to 0x20889,
    // which folds to 0x088b; its complement is 0xf774
    assert_eq!(&f[24..26], &[0xf7, 0x74]);
}
