use r_lanscan::net::MacAddr;
use r_lanscan::packet::frames::{create_arp_reply, tcp_frame, ArpPacket, RSTPacket};
use r_lanscan::packet::{TCP_ACK, TCP_SYN};
use r_lanscan::report::{arp_row_texts, syn_row_texts, ArpResults, RecordOutcome, SynResults};
use r_lanscan::scanners::decide::{arp_reply_device, arp_target_action, service_name, syn_scan_response, ArpTargetAction};
use r_lanscan::scanners::{Device, Port, PortSet, ScanMessage, Scanning};

fn ip(a: u32, b: u32, c: u32, d: u32) -> u32 {
    (a << 24) | (b << 16) | (c << 8) | d
}

fn device(ip_addr: u32, mac: MacAddr, hostname: &str) -> Device {
    Device {
        hostname: hostname.to_string(),
        ip: ip_addr,
        mac,
        vendor: String::new(),
        is_current_host: false,
        is_gateway: false,
        open_ports: PortSet::new(),
        latency_ms: None,
        response_ttl: None,
    }
}

fn ports_of(d: &Device) -> Vec<u16> {
    d.open_ports.to_sorted_vec().iter().map(|p| p.id).collect()
}

#[test]
fn port_set_keeps_the_first_port_of_an_id() {
    let mut s = PortSet::new();
    assert!(s.insert(Port::new(22, "ssh".to_string())));
    assert!(!s.insert(Port::new(22, "other".to_string())));
    assert!(s.insert(Port::new(21, "ftp".to_string())));
    let v = s.to_sorted_vec();
    assert_eq!(v.len(), 2);
    assert_eq!(v[0].id, 21);
    assert_eq!(v[1].service, "ssh");
    assert!(s.contains(22) && !s.contains(23));
}

#[test]
fn port_text_shows_the_service_when_known() {
    assert_eq!(Port::new(22, "ssh".to_string()).to_text(), "22:ssh");
    assert_eq!(Port::new(8081, String::new()).to_text(), "8081");
}

#[test]
fn service_names_of_well_known_ports() {
    assert_eq!(service_name(22), "ssh");
    assert_eq!(service_name(443), "https");
    assert_eq!(service_name(1), "");
}

#[test]
fn arp_target_is_requested_unless_it_is_the_host() {
    let mac = MacAddr::new(1, 2, 3, 4, 5, 6);
    match arp_target_action(ip(192, 168, 1, 2), ip(192, 168, 1, 2), mac, Some(ip(192, 168, 1, 1))) {
        ArpTargetAction::CurrentHost(d) => {
            assert!(d.is_current_host);
            assert!(!d.is_gateway);
            assert_eq!(d.latency_ms, Some(0));
            assert_eq!(d.mac, mac);
        },
        ArpTargetAction::Request(_) => panic!("the host was sent a request"),
    }
    match arp_target_action(ip(192, 168, 1, 7), ip(192, 168, 1, 2), mac, None) {
        ArpTargetAction::Request(f) => {
            assert_eq!(f, ArpPacket::new(ip(192, 168, 1, 2), mac, ip(192, 168, 1, 7)).to_raw())
        },
        ArpTargetAction::CurrentHost(_) => panic!("another device was taken for the host"),
    }
}

#[test]
fn arp_reply_device_marks_the_gateway() {
    let d = arp_reply_device(
        ip(192, 168, 1, 1),
        MacAddr::new(9, 9, 9, 9, 9, 9),
        "router".to_string(),
        "Acme".to_string(),
        ip(192, 168, 1, 2),
        Some(ip(192, 168, 1, 1)),
        Some(3),
    );
    assert!(d.is_gateway);
    assert!(!d.is_current_host);
    assert_eq!(d.hostname, "router");
    assert_eq!(d.latency_ms, Some(3));
}

#[test]
fn syn_ack_from_a_target_is_answered_with_a_reset() {
    let ours = MacAddr::new(1, 2, 3, 4, 5, 6);
    let theirs = MacAddr::new(0xaa, 0, 0, 0, 0, 1);
    let targets = vec![device(ip(192, 168, 1, 9), theirs, "box")];
    let f = tcp_frame(theirs, ip(192, 168, 1, 9), 22, ip(192, 168, 1, 2), ours, 54321, 41, TCP_SYN | TCP_ACK);
    let r = syn_scan_response(&f, 54321, ip(192, 168, 1, 2), ours, &targets).unwrap();
    assert_eq!(r.rst, RSTPacket::new(ours, ip(192, 168, 1, 2), 54321, ip(192, 168, 1, 9), theirs, 22, 42));
    assert_eq!(r.device.hostname, "box");
    assert_eq!(ports_of(&r.device), vec![22]);
    assert_eq!(r.device.open_ports.to_sorted_vec()[0].service, "ssh");
    // a frame from an address that is no target is ignored
    let g = tcp_frame(theirs, ip(192, 168, 2, 2), 22, ip(192, 168, 1, 2), ours, 54321, 41, TCP_SYN | TCP_ACK);
    assert!(syn_scan_response(&g, 54321, ip(192, 168, 1, 2), ours, &targets).is_none());
    // as is one to another port of ours
    assert!(syn_scan_response(&f, 54322, ip(192, 168, 1, 2), ours, &targets).is_none());
}

#[test]
fn syn_ack_with_the_last_sequence_number_wraps() {
    let ours = MacAddr::new(1, 2, 3, 4, 5, 6);
    let theirs = MacAddr::new(0xaa, 0, 0, 0, 0, 1);
    let targets = vec![device(ip(10, 0, 0, 5), theirs, "")];
    let f = tcp_frame(theirs, ip(10, 0, 0, 5), 80, ip(10, 0, 0, 2), ours, 5000, u32::MAX, TCP_SYN | TCP_ACK);
    let r = syn_scan_response(&f, 5000, ip(10, 0, 0, 2), ours, &targets).unwrap();
    assert_eq!(r.rst, RSTPacket::new(ours, ip(10, 0, 0, 2), 5000, ip(10, 0, 0, 5), theirs, 80, 0));
}

#[test]
fn arp_results_keep_the_first_report_and_sort_by_address() {
    let mut r = ArpResults::new();
    let a = MacAddr::new(0, 0, 0, 0, 0, 1);
    let b = MacAddr::new(0, 0, 0, 0, 0, 2);
    assert_eq!(r.record(ScanMessage::ARPScanDevice(device(ip(10, 0, 0, 9), a, "first"))), RecordOutcome::Recorded);
    assert_eq!(r.record(ScanMessage::ARPScanDevice(device(ip(10, 0, 0, 3), b, "low"))), RecordOutcome::Recorded);
    assert_eq!(r.record(ScanMessage::ARPScanDevice(device(ip(10, 0, 0, 9), a, "again"))), RecordOutcome::NotRecorded);
    assert_eq!(r.record(ScanMessage::Info(Scanning { ip: 1, port: None })), RecordOutcome::Ignored);
    assert_eq!(r.record(ScanMessage::Done), RecordOutcome::Done);
    let v = r.to_sorted_vec();
    assert_eq!(v.len(), 2);
    assert_eq!(v[0].hostname, "low");
    assert_eq!(v[1].hostname, "first");
}

#[test]
fn syn_results_merge_ports_into_known_devices() {
    let a = MacAddr::new(0, 0, 0, 0, 0, 1);
    let seeds = vec![device(ip(10, 0, 0, 9), a, "old"), device(ip(10, 0, 0, 1), a, "one"), device(ip(10, 0, 0, 9), a, "new")];
    let mut r = SynResults::seed(&seeds);
    let mut found = device(ip(10, 0, 0, 9), a, "");
    found.open_ports.insert(Port::new(80, "http".to_string()));
    assert_eq!(r.record(ScanMessage::SYNScanDevice(found)), RecordOutcome::Recorded);
    let mut other = device(ip(10, 0, 0, 9), a, "");
    other.open_ports.insert(Port::new(22, "ssh".to_string()));
    assert_eq!(r.record(ScanMessage::SYNScanDevice(other)), RecordOutcome::Recorded);
    let stranger = device(ip(10, 0, 0, 77), a, "");
    assert_eq!(r.record(ScanMessage::SYNScanDevice(stranger)), RecordOutcome::NotRecorded);
    let v = r.to_sorted_vec();
    assert_eq!(v.len(), 2);
    assert_eq!(v[0].hostname, "one");
    assert_eq!(v[1].hostname, "new");
    assert_eq!(ports_of(&v[1]), vec![22, 80]);
}

#[test]
fn report_rows_show_marks_latency_and_ports() {
    let mut d = device(ip(192, 168, 1, 1), MacAddr::new(0xde, 0xad, 0xbe, 0xef, 0, 1), "hostname");
    d.is_gateway = true;
    d.vendor = "vendor".to_string();
    d.latency_ms = Some(12);
    d.open_ports.insert(Port::new(443, "https".to_string()));
    d.open_ports.insert(Port::new(22, "ssh".to_string()));
    assert_eq!(
        arp_row_texts(&d),
        vec!["192.168.1.1 [GTWY]", "hostname", "de:ad:be:ef:00:01", "vendor", "12ms"]
    );
    d.is_current_host = true;
    d.latency_ms = None;
    assert_eq!(
        syn_row_texts(&d),
        vec!["192.168.1.1 [YOU]", "hostname", "de:ad:be:ef:00:01", "vendor", "", "22:ssh, 443:https"]
    );
}

#[test]
fn ignores_unrelated_packets() {
    let iface_mac = MacAddr::new(1, 2, 3, 4, 5, 6);
    let iface_ip = ip(192, 168, 0, 9);
    let device_ip = ip(192, 168, 0, 2);
    let device_mac = MacAddr::default();
    let targets = vec![device(device_ip, device_mac, "")];
    // incorrect destination port
    let wrong_port = tcp_frame(device_mac, device_ip, 2222, iface_ip, iface_mac, 54322, 0, TCP_SYN | TCP_ACK);
    assert!(syn_scan_response(&wrong_port, 54321, iface_ip, iface_mac, &targets).is_none());
    // incorrect address
    let wrong_ip = tcp_frame(device_mac, ip(192, 168, 2, 2), 2222, iface_ip, iface_mac, 54321, 0, TCP_SYN | TCP_ACK);
    assert!(syn_scan_response(&wrong_ip, 54321, iface_ip, iface_mac, &targets).is_none());
    // an ARP frame
    let arp = create_arp_reply(device_mac, device_ip, iface_mac, iface_ip);
    assert!(syn_scan_response(&arp, 54321, iface_ip, iface_mac, &targets).is_none());
    // the matching SYN-ACK is answered
    let right = tcp_frame(device_mac, device_ip, 2222, iface_ip, iface_mac, 54321, 0, TCP_SYN | TCP_ACK);
    assert!(syn_scan_response(&right, 54321, iface_ip, iface_mac, &targets).is_some());
}
