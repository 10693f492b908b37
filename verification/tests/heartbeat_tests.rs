use r_lanscan::error::RLanLibError;
use r_lanscan::net::MacAddr;
use r_lanscan::packet::frames::HeartbeatPacket;
use r_lanscan::packet::Sender;
use r_lanscan::scanners::heartbeat::HeartBeat;

fn ip(a: u32, b: u32, c: u32, d: u32) -> u32 {
    (a << 24) | (b << 16) | (c << 8) | d
}

/// Keeps every packet it is asked to send, and answers with `answer`
struct RecordingSender {
    sent: Vec<Vec<u8>>,
    answer: Result<(), RLanLibError>,
}

impl Sender for RecordingSender {
    fn send(&mut self, packet: &[u8]) -> Result<(), RLanLibError> {
        self.sent.push(packet.to_vec());
        self.answer.clone()
    }
}

#[test]
fn heartbeat_tests_new() {
    let source_ip = ip(192, 168, 1, 1);
    let source_mac = MacAddr::default();
    let source_port = 54321;
    let heart_beat = HeartBeat::new(source_mac, source_ip, source_port);
    assert_eq!(heart_beat.source_mac, source_mac);
    assert_eq!(heart_beat.source_ipv4, source_ip);
    assert_eq!(heart_beat.source_port, source_port);
}

#[test]
fn sends_heartbeat_packets() {
    let source_ip = ip(192, 168, 1, 1);
    let source_mac = MacAddr::default();
    let source_port = 54321;
    let expected_packet = HeartbeatPacket { source_ip, source_mac, source_port }.to_raw();
    let mut sender = RecordingSender { sent: Vec::new(), answer: Ok(()) };
    let heart_beat = HeartBeat::new(source_mac, source_ip, source_port);
    heart_beat.beat(|f| sender.send(&f)).unwrap();
    assert_eq!(sender.sent, vec![expected_packet.to_vec()]);
}

#[test]
fn heartbeat_passes_on_the_senders_error() {
    let mut sender = RecordingSender { sent: Vec::new(), answer: Err(RLanLibError::Wire("down".to_string())) };
    let heart_beat = HeartBeat::new(MacAddr::new(1, 2, 3, 4, 5, 6), ip(10, 0, 0, 1), 40000);
    let result = heart_beat.beat(|f| sender.send(&f));
    assert!(matches!(result, Err(RLanLibError::Wire(m)) if m == "down"));
    assert_eq!(sender.sent.len(), 1);
}

#[test]
fn heartbeat_packet_is_a_syn_to_itself() {
    let mac = MacAddr::new(1, 2, 3, 4, 5, 6);
    let heart_beat = HeartBeat::new(mac, ip(10, 0, 0, 1), 40000);
    let f = heart_beat.packet();
    // sent from and to the host's MAC address, address and port
    assert_eq!(&f[0..6], &[1, 2, 3, 4, 5, 6]);
    assert_eq!(&f[6..12], &[1, 2, 3, 4, 5, 6]);
    assert_eq!(&f[26..30], &[10, 0, 0, 1]);
    assert_eq!(&f[30..34], &[10, 0, 0, 1]);
    assert_eq!(&f[34..36], &40000u16.to_be_bytes());
    assert_eq!(&f[36..38], &40000u16.to_be_bytes());
    assert_eq!(f[47], 2);
}
