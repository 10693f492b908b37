//! The decisions of ARP and SYN scanning, as functions from what is known
//! (targets, the scanning interface, a received frame) to what is sent
//! and reported

use vstd::prelude::*;
use crate::net::MacAddr;
use crate::packet::TCP_RST;
use crate::packet::frames::{ArpPacket, RSTPacket, lemma_tcp_frame_layout, spec_arp_request, spec_tcp_frame};
use crate::packet::{read_be16, read_be32};
use crate::packet::incoming::{spec_syn_ack, syn_ack};
use super::{Device, DeviceData, Port, PortSet};

verus! {

/// The well known service of a port, or the empty text when it is not one
/// of the ports the scanner names
pub open spec fn spec_service_name(port: u16) -> Seq<char> {
    if port == 20 { "ftp-data"@ }
    else if port == 21 { "ftp"@ }
    else if port == 22 { "ssh"@ }
    else if port == 23 { "telnet"@ }
    else if port == 25 { "smtp"@ }
    else if port == 53 { "dns"@ }
    else if port == 80 { "http"@ }
    else if port == 110 { "pop3"@ }
    else if port == 143 { "imap"@ }
    else if port == 443 { "https"@ }
    else if port == 445 { "microsoft-ds"@ }
    else if port == 587 { "submission"@ }
    else if port == 993 { "imaps"@ }
    else if port == 995 { "pop3s"@ }
    else if port == 1433 { "mssql"@ }
    else if port == 3306 { "mysql"@ }
    else if port == 3389 { "rdp"@ }
    else if port == 5432 { "postgresql"@ }
    else if port == 5900 { "vnc"@ }
    else if port == 6379 { "redis"@ }
    else if port == 8080 { "http-alt"@ }
    else if port == 8443 { "https-alt"@ }
    else if port == 27017 { "mongodb"@ }
    else { ""@ }
}

/// The well known service of a port, or an empty name
pub fn service_name(port: u16) -> (s: String)
    ensures
        s@ == spec_service_name(port),
{
    let name = match port {
        20 => "ftp-data",
        21 => "ftp",
        22 => "ssh",
        23 => "telnet",
        25 => "smtp",
        53 => "dns",
        80 => "http",
        110 => "pop3",
        143 => "imap",
        443 => "https",
        445 => "microsoft-ds",
        587 => "submission",
        993 => "imaps",
        995 => "pop3s",
        1433 => "mssql",
        3306 => "mysql",
        3389 => "rdp",
        5432 => "postgresql",
        5900 => "vnc",
        6379 => "redis",
        8080 => "http-alt",
        8443 => "https-alt",
        27017 => "mongodb",
        _ => "",
    };
    String::from_str(name)
}

/// Index of the last device of `s` with address `ip`, or -1; a map built
/// from the devices by address keeps the last one
pub open spec fn last_device_with_ip(s: Seq<DeviceData>, ip: u32) -> int
    decreases s.len(),
{
    if s.len() == 0 {
        -1
    } else if s.last().ip == ip {
        s.len() - 1
    } else {
        last_device_with_ip(s.drop_last(), ip)
    }
}

/// The plain contents of a sequence of devices
pub open spec fn device_views(s: Seq<Device>) -> Seq<DeviceData> {
    Seq::new(s.len(), |i: int| s[i]@)
}

/// What SYN scanning does with a SYN-ACK: the RST frame it sends back and
/// the device it reports with the port found open
pub struct SynResponse {
    /// The RST frame that closes the half-open connection
    pub rst: [u8; 54],
    /// The device that answered, with the open port as its only port
    pub device: Device,
}

/// `d` is `base` with `port` (and its service name) as the only open port
pub open spec fn with_open_port(base: DeviceData, port: u16) -> DeviceData {
    DeviceData { open_ports: seq![(port, spec_service_name(port))], ..base }
}

/// The sequence number one past `s`, wrapping at the top
pub open spec fn next_sequence(s: u32) -> u32 {
    if s == 0xffff_ffff { 0 } else { (s + 1) as u32 }
}

/// What SYN scanning answers a received frame with: when the frame is a
/// SYN-ACK to `source_port` from a target, the RST frame to send back
/// (acknowledging the sequence number plus one) and the target reported
/// with the answering port open; otherwise nothing
pub open spec fn spec_syn_response(
    frame: Seq<u8>,
    source_port: u16,
    interface_ip: u32,
    interface_mac: MacAddr,
    targets: Seq<DeviceData>,
) -> Option<(Seq<u8>, DeviceData)> {
    match spec_syn_ack(frame, source_port) {
        None => None,
        Some((ip, port, sequence)) => {
            let k = last_device_with_ip(targets, ip);
            if k < 0 {
                None
            } else {
                let d = targets[k];
                Some((
                    spec_tcp_frame(interface_mac, interface_ip, source_port, d.ip, d.mac, port, next_sequence(sequence), TCP_RST),
                    with_open_port(d, port),
                ))
            }
        },
    }
}

proof fn lemma_last_device(s: Seq<DeviceData>, ip: u32)
    ensures
        -1 <= last_device_with_ip(s, ip) < s.len(),
        last_device_with_ip(s, ip) >= 0 ==> s[last_device_with_ip(s, ip)].ip == ip,
    decreases s.len(),
{
    if s.len() > 0 {
        lemma_last_device(s.drop_last(), ip);
    }
}

/// Index of the last target with address `ip`
fn find_last_target(targets: &Vec<Device>, ip: u32) -> (k: Option<usize>)
    ensures
        match k {
            None => last_device_with_ip(device_views(targets@), ip) < 0,
            Some(i) => last_device_with_ip(device_views(targets@), ip) == i && i < targets@.len(),
        },
{
    let ghost views = device_views(targets@);
    let mut k: usize = targets.len();
    assert(views.take(k as int) =~= views);
    while k > 0
        invariant
            k <= targets@.len(),
            views == device_views(targets@),
            last_device_with_ip(views, ip) == last_device_with_ip(views.take(k as int), ip),
        decreases k,
    {
        assert(views.take(k as int).last() == targets@[k - 1]@);
        if targets[k - 1].ip == ip {
            proof {
                lemma_last_device(views.take(k as int), ip);
            }
            return Some(k - 1);
        }
        assert(views.take(k as int).drop_last() =~= views.take(k - 1));
        k = k - 1;
    }
    assert(views.take(0) =~= Seq::<DeviceData>::empty());
    None
}

/// `d` reported with `port` as its only open port
fn device_with_open_port(d: &Device, port: u16) -> (r: Device)
    ensures
        r@ == with_open_port(d@, port),
{
    let mut ports = PortSet::new();
    ports.insert(Port::new(port, service_name(port)));
    proof {
        assert(ports@.len() == 1);
        assert(ports@.to_set().contains((port, spec_service_name(port))));
        assert(ports@[0] == (port, spec_service_name(port)));
        assert(ports@ =~= seq![(port, spec_service_name(port))]);
    }
    let mut device = d.copy();
    device.open_ports = ports;
    device
}

/// Decides what SYN scanning does with a received frame; see
/// `spec_syn_response`
pub fn syn_scan_response(
    frame: &[u8],
    source_port: u16,
    interface_ip: u32,
    interface_mac: MacAddr,
    targets: &Vec<Device>,
) -> (r: Option<SynResponse>)
    ensures
        match spec_syn_response(frame@, source_port, interface_ip, interface_mac, device_views(targets@)) {
            None => r is None,
            Some((rst, d)) => r matches Some(resp) && resp.rst@ == rst && resp.device@ == d,
        },
{
    let (ip, port, sequence) = match syn_ack(frame, source_port) {
        Some(t) => t,
        None => return None,
    };
    let k = match find_last_target(targets, ip) {
        Some(k) => k,
        None => return None,
    };
    let d = &targets[k];
    assert(device_views(targets@)[k as int] == d@);
    let rst = RSTPacket::new(interface_mac, interface_ip, source_port, d.ip, d.mac, port, sequence.wrapping_add(1));
    let device = device_with_open_port(d, port);
    Some(SynResponse { rst, device })
}

/// What ARP scanning does for one target
pub enum ArpTargetAction {
    /// The target is the scanning host itself, which never answers its own
    /// ARP request: report this device straight away
    CurrentHost(Device),
    /// Broadcast this ARP request frame for the target
    Request([u8; 42]),
}

/// The device reported for the scanning host itself: no name or vendor,
/// latency zero
pub open spec fn spec_current_host(interface_ip: u32, interface_mac: MacAddr, gateway: Option<u32>) -> DeviceData {
    DeviceData {
        hostname: Seq::empty(),
        ip: interface_ip,
        mac: interface_mac,
        vendor: Seq::empty(),
        is_current_host: true,
        is_gateway: gateway == Some(interface_ip),
        open_ports: Seq::empty(),
        latency_ms: Some(0),
        response_ttl: None,
    }
}

/// Decides what ARP scanning does for one target: the scanning host is
/// reported at once, any other target gets an ARP request
pub fn arp_target_action(target: u32, interface_ip: u32, interface_mac: MacAddr, gateway: Option<u32>) -> (a: ArpTargetAction)
    ensures
        target == interface_ip ==> (a matches ArpTargetAction::CurrentHost(d) && d@ == spec_current_host(interface_ip, interface_mac, gateway)),
        target != interface_ip ==> (a matches ArpTargetAction::Request(f) && f@ == spec_arp_request(interface_ip, interface_mac, target)),
{
    if target == interface_ip {
        let is_gateway = match gateway {
            Some(gw) => gw == interface_ip,
            None => false,
        };
        let d = Device {
            hostname: String::new(),
            ip: interface_ip,
            mac: interface_mac,
            vendor: String::new(),
            is_current_host: true,
            is_gateway,
            open_ports: PortSet::new(),
            latency_ms: Some(0),
            response_ttl: None,
        };
        ArpTargetAction::CurrentHost(d)
    } else {
        ArpTargetAction::Request(ArpPacket::new(interface_ip, interface_mac, target).to_raw())
    }
}

/// The device that ARP scanning reports for a reply from `ip`/`mac`, with
/// the names looked up for it and the measured latency
pub fn arp_reply_device(
    ip: u32,
    mac: MacAddr,
    hostname: String,
    vendor: String,
    interface_ip: u32,
    gateway: Option<u32>,
    latency_ms: Option<u128>,
) -> (d: Device)
    ensures
        d@ == (DeviceData {
            hostname: hostname@,
            ip,
            mac,
            vendor: vendor@,
            is_current_host: ip == interface_ip,
            is_gateway: gateway == Some(ip),
            open_ports: Seq::empty(),
            latency_ms,
            response_ttl: None,
        }),
{
    let is_gateway = match gateway {
        Some(gw) => gw == ip,
        None => false,
    };
    Device {
        hostname,
        ip,
        mac,
        vendor,
        is_current_host: ip == interface_ip,
        is_gateway,
        open_ports: PortSet::new(),
        latency_ms,
        response_ttl: None,
    }
}

/// Law: SYN scanning answers exactly the SYN-ACKs to its port from one of
/// its targets. The answer is a RST from the scanning interface and port
/// to the answering device's MAC, address and port, acknowledging its
/// sequence number plus one (modulo 2^32); the device reported is a target
/// with that address, everything about it kept but its open ports, which
/// are the answering port alone, with its service name
pub proof fn lemma_syn_response_answers_syn_acks(
    frame: Seq<u8>,
    source_port: u16,
    interface_ip: u32,
    interface_mac: MacAddr,
    targets: Seq<DeviceData>,
)
    ensures
        spec_syn_response(frame, source_port, interface_ip, interface_mac, targets) is Some <==> (
            spec_syn_ack(frame, source_port) matches Some((ip, _, _)) && exists|k: int| 0 <= k < targets.len() && targets[k].ip == ip),
        spec_syn_response(frame, source_port, interface_ip, interface_mac, targets) matches Some((rst, d)) ==> ({
            let (ip, port, sequence) = spec_syn_ack(frame, source_port)->Some_0;
            &&& exists|k: int| 0 <= k < targets.len() && targets[k] == (DeviceData { open_ports: targets[k].open_ports, ..d })
            &&& d.ip == ip
            &&& d.open_ports == seq![(port, spec_service_name(port))]
            &&& rst.len() == 54
            &&& rst.subrange(0, 6) == crate::net::mac_bytes(d.mac)
            &&& rst.subrange(6, 12) == crate::net::mac_bytes(interface_mac)
            &&& read_be32(rst, 26) == interface_ip
            &&& read_be32(rst, 30) == ip
            &&& read_be16(rst, 34) == source_port
            &&& read_be16(rst, 36) == port
            &&& read_be32(rst, 38) as int == (sequence as int + 1) % 0x1_0000_0000
            &&& rst[47] == TCP_RST
        }),
{
    if let Some((ip, port, sequence)) = spec_syn_ack(frame, source_port) {
        lemma_last_device(targets, ip);
        let k = last_device_with_ip(targets, ip);
        if k >= 0 {
            let d = targets[k];
            lemma_rst_fields(interface_mac, interface_ip, source_port, d, port, sequence);
            assert(targets[k] == (DeviceData { open_ports: targets[k].open_ports, ..with_open_port(d, port) }));
        } else {
            assert forall|j: int| 0 <= j < targets.len() implies targets[j].ip != ip by {
                lemma_no_device_with_ip(targets, ip, j);
            }
        }
    }
}

/// The fields of the RST that answers `port` of `d` after sequence number
/// `sequence`
proof fn lemma_rst_fields(interface_mac: MacAddr, interface_ip: u32, source_port: u16, d: DeviceData, port: u16, sequence: u32)
    ensures
        ({
            let rst = spec_tcp_frame(interface_mac, interface_ip, source_port, d.ip, d.mac, port, next_sequence(sequence), TCP_RST);
            &&& rst.len() == 54
            &&& rst.subrange(0, 6) == crate::net::mac_bytes(d.mac)
            &&& rst.subrange(6, 12) == crate::net::mac_bytes(interface_mac)
            &&& read_be32(rst, 26) == interface_ip
            &&& read_be32(rst, 30) == d.ip
            &&& read_be16(rst, 34) == source_port
            &&& read_be16(rst, 36) == port
            &&& read_be32(rst, 38) as int == (sequence as int + 1) % 0x1_0000_0000
            &&& rst[47] == TCP_RST
        }),
{
    lemma_tcp_frame_layout(interface_mac, interface_ip, source_port, d.ip, d.mac, port, next_sequence(sequence), TCP_RST);
}

/// Where no device is found, none has the address
proof fn lemma_no_device_with_ip(s: Seq<DeviceData>, ip: u32, j: int)
    requires
        0 <= j < s.len(),
        last_device_with_ip(s, ip) < 0,
    ensures
        s[j].ip != ip,
    decreases s.len(),
{
    if s.last().ip != ip && j < s.len() - 1 {
        lemma_no_device_with_ip(s.drop_last(), ip, j);
    }
}

} // verus!
