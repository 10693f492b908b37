use r_lanscan::error::RLanLibError;
use r_lanscan::targets::ips::IPTargets;
use r_lanscan::targets::ports::PortTargets;

fn ip(a: u32, b: u32, c: u32, d: u32) -> u32 {
    (a << 24) | (b << 16) | (c << 8) | d
}

fn strings(v: &[&str]) -> Vec<String> {
    v.iter().map(|s| s.to_string()).collect()
}

#[test]
fn returns_new_ip_targets() {
    let targets = IPTargets::new(strings(&["192.128.28.1", "192.128.28.2", "192.128.28.3"])).unwrap();
    assert!(!targets.is_empty());
}

#[test]
fn returns_port_target_len() {
    let list = strings(&[
        "192.128.28.1",
        "192.128.28.2",
        "192.128.28.3",
        "192.128.28.4",
        "192.128.30.1",
        "192.128.30.2",
    ]);
    let targets = IPTargets::new(list).unwrap();
    assert_eq!(targets.len(), 6);
}

#[test]
fn lazy_loops_ips() {
    let list = strings(&["192.128.28.1", "192.128.28.2-192.128.28.4", "192.128.30.0/30"]);
    let expected = [
        ip(192, 128, 28, 1),
        ip(192, 128, 28, 2),
        ip(192, 128, 28, 3),
        ip(192, 128, 28, 4),
        ip(192, 128, 30, 1),
        ip(192, 128, 30, 2),
    ];
    let targets = IPTargets::new(list).unwrap();
    let mut idx = 0;
    targets
        .lazy_loop(|a: u32| {
            assert_eq!(a, expected[idx]);
            idx += 1;
            Ok(())
        })
        .unwrap();
    assert_eq!(idx, expected.len());
}

#[test]
fn returns_error_for_malformed_ip() {
    assert!(IPTargets::new(strings(&["nope"])).is_err());
}

#[test]
fn returns_error_for_malformed_ip_with_slash() {
    assert!(IPTargets::new(strings(&["no/pe"])).is_err());
}

#[test]
fn returns_error_for_malformed_range_start() {
    assert!(IPTargets::new(strings(&["nope-192.168.0.3"])).is_err());
}

#[test]
fn returns_error_for_malformed_range_end() {
    assert!(IPTargets::new(strings(&["192.168.0.4-nope"])).is_err());
}

#[test]
fn ip_error_names_the_target() {
    match IPTargets::new(strings(&["192.168.0.1", "nope"])) {
        Err(RLanLibError::Scan { ip, port, .. }) => {
            assert_eq!(ip, Some("nope".to_string()));
            assert_eq!(port, None);
        },
        _ => panic!("expected a scanning error"),
    }
}

#[test]
fn cidr_block_length_counts_every_address() {
    let targets = IPTargets::new(strings(&["192.168.0.1/24"])).unwrap();
    assert_eq!(targets.len(), 256);
    assert!(!targets.is_empty());
    // the loop visits the hosts: network and broadcast addresses are left out
    let mut visited = Vec::new();
    targets
        .lazy_loop(|a: u32| {
            visited.push(a);
            Ok(())
        })
        .unwrap();
    assert_eq!(visited.len(), 254);
    assert_eq!(visited[0], ip(192, 168, 0, 1));
    assert_eq!(visited[253], ip(192, 168, 0, 254));
}

#[test]
fn cidr_prefixes_of_31_and_32_keep_every_address() {
    let targets = IPTargets::new(strings(&["10.0.0.7/31", "10.0.0.9/32"])).unwrap();
    assert_eq!(targets.len(), 3);
    let mut visited = Vec::new();
    targets
        .lazy_loop(|a: u32| {
            visited.push(a);
            Ok(())
        })
        .unwrap();
    assert_eq!(visited, vec![ip(10, 0, 0, 6), ip(10, 0, 0, 7), ip(10, 0, 0, 9)]);
}

#[test]
fn cidr_blocks_are_read_as_ipnet_reads_them() {
    // leading zeros in an octet are accepted, a prefix above 32 is not
    let targets = IPTargets::new(strings(&["010.000.000.001/30"])).unwrap();
    assert_eq!(targets.len(), 4);
    assert!(IPTargets::new(strings(&["10.0.0.1/33"])).is_err());
    assert!(IPTargets::new(strings(&["10.0.0.1/024"])).is_err());
    assert!(IPTargets::new(strings(&["10.0.0.256/24"])).is_err());
    assert!(IPTargets::new(strings(&["10.0.0.1/"])).is_err());
}

#[test]
fn lazy_loop_stops_at_the_first_error() {
    let targets = IPTargets::new(strings(&["10.0.0.1-10.0.0.5"])).unwrap();
    let mut seen = Vec::new();
    let r = targets.lazy_loop(|a: u32| {
        seen.push(a);
        if a == ip(10, 0, 0, 3) {
            Err(RLanLibError::Wire("stop".to_string()))
        } else {
            Ok(())
        }
    });
    assert!(r.is_err());
    assert_eq!(seen, vec![ip(10, 0, 0, 1), ip(10, 0, 0, 2), ip(10, 0, 0, 3)]);
}

#[test]
fn checked_new_accepts_an_ordinary_list() {
    let r = IPTargets::checked_new(strings(&["192.168.1.1"]));
    assert!(matches!(r, Some(Ok(_))));
}

#[test]
fn port_targets_expand_ranges_in_order() {
    let targets = PortTargets::new(strings(&["22", "80-82", "443"])).unwrap();
    assert_eq!(targets.len(), 5);
    let mut seen = Vec::new();
    targets
        .lazy_loop(|p: u16| {
            seen.push(p);
            Ok(())
        })
        .unwrap();
    assert_eq!(seen, vec![22, 80, 81, 82, 443]);
}

#[test]
fn port_targets_reject_a_port_that_is_no_number() {
    match PortTargets::new(strings(&["22", "ssh"])) {
        Err(RLanLibError::Scan { error, ip, port }) => {
            assert_eq!(error, "invalid digit found in string");
            assert_eq!(ip, None);
            assert_eq!(port, Some("ssh".to_string()));
        },
        _ => panic!("expected a scanning error"),
    }
}

#[test]
fn port_targets_reject_a_port_above_65535() {
    match PortTargets::new(strings(&["65536"])) {
        Err(RLanLibError::Scan { error, .. }) => assert_eq!(error, "number too large to fit in target type"),
        _ => panic!("expected a scanning error"),
    }
}

#[test]
fn empty_port_list_is_empty() {
    let targets = PortTargets::new(Vec::new()).unwrap();
    assert!(targets.is_empty());
    assert_eq!(targets.len(), 0);
}

#[test]
fn dotted_text_of_an_address_parses_back() {
    for a in [0u32, 1, ip(10, 0, 0, 1), ip(192, 168, 100, 255), u32::MAX] {
        let text = r_lanscan::net::ipv4_to_text(a);
        assert_eq!(r_lanscan::text::parse_ipv4(&text), Some(a));
    }
    assert_eq!(r_lanscan::net::ipv4_to_text(ip(192, 168, 1, 10)), "192.168.1.10");
    assert_eq!(r_lanscan::text::parse_ipv4("192.168.01.1"), None);
    assert_eq!(r_lanscan::text::parse_ipv4("256.1.1.1"), None);
}

#[test]
fn port_targets_checked_new_builds_ordinary_lists() {
    match PortTargets::checked_new(strings(&["22", "80-82"])) {
        Some(Ok(t)) => assert_eq!(t.len(), 4),
        _ => panic!("expected port targets"),
    }
    assert!(matches!(PortTargets::checked_new(strings(&["ssh"])), Some(Err(_))));
}
