//! The commands the terminal interface runs for a device: SSH,
//! traceroute, and a browser on one of its ports.

use vstd::prelude::*;
use crate::net::{decimal, ipv4_text, ipv4_to_text, push_decimal};
use crate::term::device_view::{BrowseArgs, DeviceConfig};
use crate::scanners::Device;

verus! {

/// Runs the commands of the interface
pub struct Shell {}

impl Shell {
    /// Creates a new shell
    pub fn new() -> (s: Shell) {
        Shell {}
    }
}

/// The arguments of `ssh` for a device: its identity file, `user@ip`, and
/// its port
pub open spec fn ssh_args(ip: u32, config: crate::term::device_view::DeviceConfigData) -> Seq<Seq<char>> {
    seq![
        "-i"@,
        config.ssh_identity_file,
        config.ssh_user + "@"@ + ipv4_text(ip),
        "-p"@,
        decimal(config.ssh_port as nat),
    ]
}

/// The arguments of `traceroute` for a device: wait 2 s, ICMP, verbose, at
/// most 5 hops
pub open spec fn traceroute_args(ip: u32) -> Seq<Seq<char>> {
    seq!["-w"@, "2"@, "-I"@, "-v"@, "-m"@, "5"@, ipv4_text(ip)]
}

/// The URL a browser opens on a device port: https on port 443, else http
pub open spec fn browse_url(ip: u32, port: u16) -> Seq<char> {
    (if port == 443 {
        "https"@
    } else {
        "http"@
    }) + "://"@ + ipv4_text(ip) + ":"@ + decimal(port as nat)
}

impl Shell {
    /// The arguments of `ssh` for the device and its configuration
    pub fn ssh_args(&self, device: &Device, config: &DeviceConfig) -> (v: Vec<String>)
        ensures
            v@.map_values(|s: String| s@) == ssh_args(device.ip, config@),
    {
        let mut target = config.ssh_user.clone();
        target.append("@");
        target.append(ipv4_to_text(device.ip).as_str());
        let mut port = String::new();
        push_decimal(&mut port, config.ssh_port as u128);
        let v = vec![
            String::from_str("-i"),
            config.ssh_identity_file.clone(),
            target,
            String::from_str("-p"),
            port,
        ];
        assert(v@.map_values(|s: String| s@) =~= ssh_args(device.ip, config@));
        v
    }

    /// The arguments of `traceroute` for the device
    pub fn traceroute_args(&self, device: &Device) -> (v: Vec<String>)
        ensures
            v@.map_values(|s: String| s@) == traceroute_args(device.ip),
    {
        let v = vec![
            String::from_str("-w"),
            String::from_str("2"),
            String::from_str("-I"),
            String::from_str("-v"),
            String::from_str("-m"),
            String::from_str("5"),
            ipv4_to_text(device.ip),
        ];
        assert(v@.map_values(|s: String| s@) =~= traceroute_args(device.ip));
        v
    }

    /// The URL to open for the browse arguments
    pub fn browse_url(&self, args: &BrowseArgs) -> (u: String)
        ensures
            u@ == browse_url(args.device.ip, args.port),
    {
        let mut u = if args.port == 443 {
            String::from_str("https")
        } else {
            String::from_str("http")
        };
        u.append("://");
        u.append(ipv4_to_text(args.device.ip).as_str());
        u.append(":");
        push_decimal(&mut u, args.port as u128);
        u
    }
}

} // verus!
