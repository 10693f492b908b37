use r_lanscan::cli::{log_filter, should_print_arp_report, ArgError, Args, LogLevel, TermArgs};

fn parse(flags: &[&str]) -> Args {
    let mut argv: Vec<&str> = vec!["r-lancli"];
    argv.extend_from_slice(flags);
    Args::try_parse_from(&argv).unwrap()
}

#[test]
fn arp_report_prints_for_a_plain_full_scan() {
    assert!(should_print_arp_report(&parse(&[])));
}

#[test]
fn arp_report_is_skipped_for_a_json_full_scan() {
    assert!(!should_print_arp_report(&parse(&["--json"])));
}

#[test]
fn arp_report_is_skipped_for_a_quiet_full_scan() {
    assert!(!should_print_arp_report(&parse(&["--quiet"])));
}

#[test]
fn arp_report_prints_when_arp_only() {
    assert!(should_print_arp_report(&parse(&["--arp-only"])));
    assert!(should_print_arp_report(&parse(&["--arp-only", "--json"])));
    assert!(should_print_arp_report(&parse(&["--arp-only", "--quiet"])));
}

#[test]
fn from_arp_json_conflicts_with_arp_only() {
    let result = Args::try_parse_from(&["r-lancli", "--from-arp-json", "devices.json", "--arp-only"]);
    assert!(result.is_err());
}

#[test]
fn from_arp_json_conflicts_with_targets() {
    let result =
        Args::try_parse_from(&["r-lancli", "--from-arp-json", "devices.json", "--targets", "192.168.1.0/24"]);
    assert!(result.is_err());
}

#[test]
fn from_arp_json_parses_on_its_own() {
    let args = Args::try_parse_from(&["r-lancli", "--from-arp-json", "devices.json"]).unwrap();
    assert_eq!(args.from_arp_json, Some("devices.json".to_string()));
}

#[test]
fn log_filter_defaults_to_info() {
    assert_eq!(log_filter(&parse(&[])), LogLevel::Info);
}

#[test]
fn log_filter_is_error_when_quiet() {
    assert_eq!(log_filter(&parse(&["--quiet"])), LogLevel::Error);
}

#[test]
fn log_filter_is_error_when_json() {
    assert_eq!(log_filter(&parse(&["--json"])), LogLevel::Error);
}

#[test]
fn log_filter_lets_debug_override_json() {
    assert_eq!(log_filter(&parse(&["--json", "--debug"])), LogLevel::Debug);
}

#[test]
fn log_filter_is_debug_when_debug() {
    assert_eq!(log_filter(&parse(&["--debug"])), LogLevel::Debug);
}

#[test]
fn log_filter_lets_quiet_win_over_debug() {
    assert_eq!(log_filter(&parse(&["--quiet", "--debug"])), LogLevel::Error);
}

#[test]
fn cli_defaults_apply_when_nothing_is_given() {
    let args = parse(&[]);
    assert!(args.targets.is_empty());
    assert_eq!(args.ports, vec!["1-65535".to_string()]);
    assert_eq!(args.idle_timeout_ms, 10000);
    assert_eq!(args.throttle_nanos, 200_000);
    assert_eq!(args.source_port, None);
    assert_eq!(args.interface, None);
    assert!(!args.json && !args.quiet && !args.arp_only && !args.vendor && !args.host_names && !args.debug);
}

#[test]
fn cli_lists_split_at_commas() {
    let args = parse(&["-t", "192.168.1.1,192.168.1.2", "--ports", "22,80-90", "-p", "443"]);
    assert_eq!(args.targets, vec!["192.168.1.1".to_string(), "192.168.1.2".to_string()]);
    assert_eq!(args.ports, vec!["22".to_string(), "80-90".to_string(), "443".to_string()]);
}

#[test]
fn cli_values_are_read() {
    let args = parse(&[
        "--idle-timeout-ms",
        "2000",
        "-i",
        "eth0",
        "--source-port",
        "54321",
        "--throttle",
        "1ms",
        "--vendor",
        "--host-names",
    ]);
    assert_eq!(args.idle_timeout_ms, 2000);
    assert_eq!(args.interface, Some("eth0".to_string()));
    assert_eq!(args.source_port, Some(54321));
    assert_eq!(args.throttle_nanos, 1_000_000);
    assert!(args.vendor && args.host_names);
}

#[test]
fn cli_rejects_an_idle_timeout_that_is_no_u16() {
    match Args::try_parse_from(&["r-lancli", "--idle-timeout-ms", "70000"]) {
        Err(e) => {
            assert_eq!(e.message(), "invalid value '70000' for '--idle-timeout-ms'");
            assert_eq!(e.exit_code(), 2);
        },
        Ok(_) => panic!("accepted an idle timeout above 65535"),
    }
}

#[test]
fn cli_rejects_a_throttle_that_is_no_duration() {
    match Args::try_parse_from(&["r-lancli", "--throttle", "fast"]) {
        Err(ArgError::InvalidValue { arg, value }) => {
            assert_eq!(arg, "throttle");
            assert_eq!(value, "fast");
        },
        _ => panic!("accepted a throttle that is no duration"),
    }
}

#[test]
fn cli_conflict_names_both_arguments() {
    match Args::try_parse_from(&["r-lancli", "--from-arp-json", "d.json", "--arp-only"]) {
        Err(e) => assert_eq!(e.message(), "the argument '--from-arp-json' cannot be used with '--arp-only'"),
        Ok(_) => panic!("accepted conflicting arguments"),
    }
}

#[test]
fn cli_rejects_an_unknown_argument_as_usage_error() {
    match Args::try_parse_from(&["r-lancli", "--bogus"]) {
        Err(ArgError::Usage { exit_code, .. }) => assert_eq!(exit_code, 2),
        _ => panic!("accepted an unknown argument"),
    }
}

#[test]
fn cli_help_is_a_usage_answer_with_exit_code_zero() {
    match Args::try_parse_from(&["r-lancli", "--help"]) {
        Err(ArgError::Usage { exit_code, message }) => {
            assert_eq!(exit_code, 0);
            assert!(message.contains("--arp-only"));
            assert!(message.contains("CLI for LAN Network ARP and SYN scanning"));
            assert!(message.contains("Perform only an ARP scan (omits SYN scanning)"));
        },
        _ => panic!("--help gave no help"),
    }
}

#[test]
fn scan_interval_rejects_zero() {
    let result = TermArgs::try_parse_from(&["r-lanterm", "--scan-interval", "0s"]);
    assert!(result.is_err());
}

#[test]
fn scan_interval_rejects_a_non_duration() {
    let result = TermArgs::try_parse_from(&["r-lanterm", "--scan-interval", "soonish"]);
    assert!(result.is_err());
}

#[test]
fn scan_interval_parses_a_human_duration() {
    let args = TermArgs::try_parse_from(&["r-lanterm", "--scan-interval", "90s"]).unwrap();
    assert_eq!(args.scan_interval_nanos, Some(90_000_000_000));
}

#[test]
fn from_arp_json_parses_as_a_path() {
    let args = TermArgs::try_parse_from(&["r-lanterm", "--from-arp-json", "devices.json"]).unwrap();
    assert_eq!(args.from_arp_json, Some("devices.json".to_string()));
}

#[test]
fn term_args_leave_absent_values_to_the_caller() {
    let args = TermArgs::try_parse_from(&["r-lanterm", "--debug", "-p", "80,443"]).unwrap();
    assert!(args.debug);
    assert_eq!(args.ports, vec!["80".to_string(), "443".to_string()]);
    assert_eq!(args.throttle_nanos, None);
    assert_eq!(args.scan_interval_nanos, None);
}

#[test]
fn durations_of_more_than_eleven_digits_are_refused() {
    let r = TermArgs::try_parse_from(&["r-lanterm", "--scan-interval", "18446744073709551615s 1000000000ns"]);
    assert!(r.is_err());
    assert!(Args::try_parse_from(&["r-lancli", "--throttle", "100000000000ns"]).is_err());
    let args = Args::try_parse_from(&["r-lancli", "--throttle", "10000000000ns"]).unwrap();
    assert_eq!(args.throttle_nanos, 10_000_000_000);
}

#[test]
fn term_help_describes_the_scan_interval() {
    match TermArgs::try_parse_from(&["r-lanterm", "--help"]) {
        Err(ArgError::Usage { exit_code, message }) => {
            assert_eq!(exit_code, 0);
            assert!(message.contains("--scan-interval"));
            assert!(message.contains("Time to wait between network scans"));
        },
        _ => panic!("--help gave no help"),
    }
}
