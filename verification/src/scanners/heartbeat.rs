//! Heartbeats: frames the scanning host sends itself while it scans, so
//! that the loops reading frames keep waking up and can tell when the idle
//! timeout has passed

use vstd::prelude::*;
use crate::error::RLanLibError;
use crate::net::MacAddr;
use crate::packet::TCP_SYN;
use crate::packet::frames::{HeartbeatPacket, spec_tcp_frame};

verus! {

/// Sends heartbeat frames from the scanning host to itself
#[derive(Debug, Clone, Copy)]
pub struct HeartBeat {
    /// MAC address to use as source in heartbeat frames
    pub source_mac: MacAddr,
    /// IPv4 address to use as source in heartbeat frames
    pub source_ipv4: u32,
    /// Port to use as source in heartbeat frames
    pub source_port: u16,
}

impl HeartBeat {
    /// A heartbeat for the given host address, MAC address and port
    pub fn new(source_mac: MacAddr, source_ipv4: u32, source_port: u16) -> (h: HeartBeat)
        ensures
            h.source_mac == source_mac,
            h.source_ipv4 == source_ipv4,
            h.source_port == source_port,
    {
        HeartBeat { source_mac, source_ipv4, source_port }
    }

    /// The frame each beat sends: `heartbeat_frame`
    pub fn packet(&self) -> (f: [u8; 54])
        ensures
            f@ == heartbeat_frame(*self),
    {
        let p = HeartbeatPacket { source_ip: self.source_ipv4, source_mac: self.source_mac, source_port: self.source_port };
        p.to_raw()
    }

    /// Hands one heartbeat frame (`packet`) to `send`, once, and returns
    /// what `send` returns
    pub fn beat<F: FnMut([u8; 54]) -> Result<(), RLanLibError>>(&self, send: F) -> (r: Result<(), RLanLibError>)
        requires
            forall|f: [u8; 54]| call_requires(send, (f,)),
        ensures
            exists|f: [u8; 54]| f@ == heartbeat_frame(*self) && call_ensures(send, (f,), r),
    {
        let f = self.packet();
        let mut send = send;
        send(f)
    }
}

/// The frame a heartbeat sends: a SYN from the host's address and port to
/// themselves, sequence number zero
pub open spec fn heartbeat_frame(h: HeartBeat) -> Seq<u8> {
    spec_tcp_frame(h.source_mac, h.source_ipv4, h.source_port, h.source_ipv4, h.source_mac, h.source_port, 0, TCP_SYN)
}

} // verus!
