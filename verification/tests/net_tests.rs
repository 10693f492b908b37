use r_lanscan::net::{parse_mac, MacAddr};

#[test]
fn parses_mac_addresses() {
    assert_eq!(parse_mac("00:00:00:00:00:00"), Some(MacAddr::zero()));
    assert_eq!(parse_mac("ff:ff:ff:ff:ff:ff"), Some(MacAddr::broadcast()));
    assert_eq!(parse_mac("12:34:56:78:90:AB"), Some(MacAddr::new(0x12, 0x34, 0x56, 0x78, 0x90, 0xab)));
    // one digit, leading zeros and a plus sign are read too
    assert_eq!(parse_mac("1:2:3:4:5:006"), Some(MacAddr::new(1, 2, 3, 4, 5, 6)));
    assert_eq!(parse_mac("+1:2:3:4:5:6"), Some(MacAddr::new(1, 2, 3, 4, 5, 6)));
}

#[test]
fn refuses_malformed_mac_addresses() {
    assert_eq!(parse_mac(""), None);
    assert_eq!(parse_mac("::::::"), None);
    assert_eq!(parse_mac("0::::::"), None);
    assert_eq!(parse_mac("00:00:00:00:00"), None);
    assert_eq!(parse_mac("00:00:00:00:00:00:00"), None);
    assert_eq!(parse_mac("00:00:00:00:00:100"), None);
    assert_eq!(parse_mac("00:00:00:00:00:0g"), None);
    assert_eq!(parse_mac("00:00:00:00:00:-1"), None);
}
