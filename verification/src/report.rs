//! The text of scan results: the cells of the ARP and SYN report tables,
//! and the collections the reports are built from as scan messages come in.

use vstd::prelude::*;
use crate::net::{decimal, ipv4_text, ipv4_to_text, mac_text, push_decimal};
use crate::net::MacAddr;
use crate::scanners::{has_port_id, port_text, port_views, ports_sorted, Device, DeviceData, Port, ScanMessage};
use crate::scanners::decide::device_views;

verus! {

/// The parts joined by the separator, as `[String]::join` does
pub open spec fn join(parts: Seq<Seq<char>>, sep: Seq<char>) -> Seq<char>
    decreases parts.len(),
{
    if parts.len() == 0 {
        Seq::empty()
    } else if parts.len() == 1 {
        parts[0]
    } else {
        join(parts.drop_last(), sep) + sep + parts.last()
    }
}

/// The text of each port
pub open spec fn port_texts(ports: Seq<(u16, Seq<char>)>) -> Seq<Seq<char>> {
    ports.map_values(|p: (u16, Seq<char>)| port_text(p))
}

/// The IP cell of a device: its address, marked ` [YOU]` for the host
/// running the scan, else ` [GTWY]` for the gateway
pub open spec fn ip_field(d: DeviceData) -> Seq<char> {
    if d.is_current_host {
        ipv4_text(d.ip) + " [YOU]"@
    } else if d.is_gateway {
        ipv4_text(d.ip) + " [GTWY]"@
    } else {
        ipv4_text(d.ip)
    }
}

/// The latency cell of a device: `<ms>ms`, or empty when unknown
pub open spec fn latency_field(d: DeviceData) -> Seq<char> {
    match d.latency_ms {
        Some(ms) => decimal(ms as nat) + "ms"@,
        None => Seq::empty(),
    }
}

/// The open ports cell of a device: the ports by id, joined by `, `
pub open spec fn ports_field(d: DeviceData) -> Seq<char> {
    join(port_texts(d.open_ports), ", "@)
}

/// The texts joined by the separator
pub fn join_texts(parts: &Vec<String>, sep: &str) -> (s: String)
    ensures
        s@ == join(parts@.map_values(|p: String| p@), sep@),
{
    let ghost views = parts@.map_values(|p: String| p@);
    let mut s = String::new();
    let mut i: usize = 0;
    while i < parts.len()
        invariant
            i <= parts@.len(),
            views == parts@.map_values(|p: String| p@),
            s@ == join(views.take(i as int), sep@),
        decreases parts@.len() - i,
    {
        proof {
            assert(views.take(i as int + 1).drop_last() =~= views.take(i as int));
        }
        if i > 0 {
            s.append(sep);
        }
        s.append(parts[i].as_str());
        proof {
            if i == 0 {
                assert(views.take(1) =~= seq![views[0]]);
            }
        }
        i = i + 1;
    }
    assert(views.take(i as int) =~= views);
    s
}

/// The text of each port of the vector
pub fn ports_to_texts(ports: &Vec<Port>) -> (v: Vec<String>)
    ensures
        v@.map_values(|p: String| p@) == port_texts(port_views(ports@)),
{
    let mut v: Vec<String> = Vec::new();
    let mut i: usize = 0;
    while i < ports.len()
        invariant
            i <= ports@.len(),
            v@.map_values(|p: String| p@) == port_texts(port_views(ports@)).take(i as int),
        decreases ports@.len() - i,
    {
        let t = ports[i].to_text();
        let ghost old_v = v@;
        v.push(t);
        proof {
            assert(port_views(ports@)[i as int] == ports@[i as int]@);
            assert(v@.map_values(|p: String| p@) =~= old_v.map_values(|p: String| p@).push(t@));
            assert(v@.map_values(|p: String| p@) =~= port_texts(port_views(ports@)).take(i as int + 1));
        }
        i = i + 1;
    }
    assert(port_texts(port_views(ports@)).take(i as int) =~= port_texts(port_views(ports@)));
    v
}

/// The IP cell of a device
pub fn ip_field_text(d: &Device) -> (s: String)
    ensures
        s@ == ip_field(d@),
{
    let mut s = ipv4_to_text(d.ip);
    if d.is_current_host {
        s.append(" [YOU]");
    } else if d.is_gateway {
        s.append(" [GTWY]");
    }
    s
}

/// The latency cell of a device
pub fn latency_field_text(d: &Device) -> (s: String)
    ensures
        s@ == latency_field(d@),
{
    let mut s = String::new();
    match d.latency_ms {
        Some(ms) => {
            push_decimal(&mut s, ms);
            s.append("ms");
        },
        None => {},
    }
    s
}

/// The open ports cell of a device
pub fn ports_field_text(d: &Device) -> (s: String)
    ensures
        s@ == ports_field(d@),
{
    let sorted = d.open_ports.to_sorted_vec();
    let texts = ports_to_texts(&sorted);
    join_texts(&texts, ", ")
}

/// The cells of a device's row in the ARP report: IP, hostname, MAC,
/// vendor, latency
pub open spec fn arp_row(d: DeviceData) -> Seq<Seq<char>> {
    seq![ip_field(d), d.hostname, mac_text(d.mac), d.vendor, latency_field(d)]
}

/// The cells of a device's row in the SYN report: those of the ARP report,
/// then the open ports
pub open spec fn syn_row(d: DeviceData) -> Seq<Seq<char>> {
    arp_row(d).push(ports_field(d))
}

/// The cells of a device's row in the ARP report
pub fn arp_row_texts(d: &Device) -> (v: Vec<String>)
    ensures
        v@.map_values(|s: String| s@) == arp_row(d@),
{
    let mut v: Vec<String> = Vec::new();
    v.push(ip_field_text(d));
    v.push(d.hostname.clone());
    v.push(d.mac.to_text());
    v.push(d.vendor.clone());
    v.push(latency_field_text(d));
    assert(v@.map_values(|s: String| s@) =~= arp_row(d@));
    v
}

/// The cells of a device's row in the SYN report
pub fn syn_row_texts(d: &Device) -> (v: Vec<String>)
    ensures
        v@.map_values(|s: String| s@) == syn_row(d@),
{
    let mut v = arp_row_texts(d);
    v.push(ports_field_text(d));
    assert(v@.map_values(|s: String| s@) =~= syn_row(d@));
    v
}

/// The devices are in order of address
pub open spec fn sorted_by_ip(s: Seq<DeviceData>) -> bool {
    forall|i: int, j: int| 0 <= i <= j < s.len() ==> s[i].ip <= s[j].ip
}

/// No device occurs twice: no two agree in address and MAC address, the
/// two fields by which devices are told apart
pub open spec fn distinct_devices(s: Seq<DeviceData>) -> bool {
    forall|i: int, j: int| 0 <= i < j < s.len() ==> !(s[i].ip == s[j].ip && s[i].mac == s[j].mac)
}

/// Some device of `s` has this address and MAC address
pub open spec fn has_device(s: Seq<DeviceData>, ip: u32, mac: MacAddr) -> bool {
    exists|k: int| 0 <= k < s.len() && s[k].ip == ip && s[k].mac == mac
}

/// The devices found by ARP scanning, kept once each (the first report of
/// a device is kept) and in order of address
pub struct ArpResults {
    devices: Vec<Device>,
}

impl View for ArpResults {
    type V = Seq<DeviceData>;

    closed spec fn view(&self) -> Seq<DeviceData> {
        device_views(self.devices@)
    }
}

/// What recording a scan message did
#[derive(Clone, Copy, PartialEq, Eq, Structural, Debug)]
pub enum RecordOutcome {
    /// The scan is over
    Done,
    /// The device reported was recorded
    Recorded,
    /// The device reported was not recorded: it was known already (ARP),
    /// or it is no target of the scan (SYN)
    NotRecorded,
    /// The message reports no device
    Ignored,
}

impl ArpResults {
    #[verifier::type_invariant]
    spec fn inv(self) -> bool {
        sorted_by_ip(self@) && distinct_devices(self@)
    }

    /// No devices yet
    pub fn new() -> (r: ArpResults)
        ensures
            r@ == Seq::<DeviceData>::empty(),
    {
        let r = ArpResults { devices: Vec::new() };
        assert(r@ =~= Seq::<DeviceData>::empty());
        r
    }

    /// The devices are in order of address, each once
    pub fn sorted(&self)
        ensures
            sorted_by_ip(self@),
            distinct_devices(self@),
    {
        proof {
            use_type_invariant(self);
        }
    }

    /// Adds a device unless one with its address and MAC address is there
    /// already (that one is then kept, as `HashSet::insert` keeps it); a
    /// new device goes after those with an address no greater than its own.
    /// Returns whether it was added.
    pub fn insert(&mut self, d: Device) -> (added: bool)
        ensures
            added == !has_device(old(self)@, d.ip, d.mac),
            !added ==> final(self)@ == old(self)@,
            added ==> exists|pos: int|
                0 <= pos <= old(self)@.len()
                && final(self)@ == old(self)@.insert(pos, d@)
                && (forall|k: int| 0 <= k < pos ==> old(self)@[k].ip <= d.ip)
                && (forall|k: int| pos <= k < old(self)@.len() ==> old(self)@[k].ip > d.ip),
            sorted_by_ip(final(self)@),
            distinct_devices(final(self)@),
    {
        proof {
            use_type_invariant(&*self);
        }
        let n = self.devices.len();
        let mut i: usize = 0;
        while i < n
            invariant
                n == self.devices@.len(),
                i <= n,
                sorted_by_ip(self@),
                distinct_devices(self@),
                forall|k: int| 0 <= k < i ==> !(self@[k].ip == d.ip && self@[k].mac == d.mac),
            decreases n - i,
        {
            if self.devices[i].ip == d.ip && self.devices[i].mac == d.mac {
                assert(self@[i as int].ip == d.ip && self@[i as int].mac == d.mac);
                return false;
            }
            i = i + 1;
        }
        let mut pos: usize = 0;
        while pos < n && self.devices[pos].ip <= d.ip
            invariant
                n == self.devices@.len(),
                pos <= n,
                forall|k: int| 0 <= k < pos ==> self@[k].ip <= d.ip,
            decreases n - pos,
        {
            pos = pos + 1;
        }
        let ghost old_view = self@;
        proof {
            assert forall|k: int| pos <= k < n implies old_view[k].ip > d.ip by {
                assert(old_view[pos as int].ip > d.ip);
                assert(old_view[pos as int].ip <= old_view[k].ip);
            }
        }
        let mut v: Vec<Device> = Vec::new();
        std::mem::swap(&mut v, &mut self.devices);
        let ghost dv = d@;
        v.insert(pos, d);
        assert(device_views(v@) =~= old_view.insert(pos as int, dv));
        self.devices = v;
        true
    }

    /// Records a message of ARP scanning: a device reported is inserted
    pub fn record(&mut self, msg: ScanMessage) -> (r: RecordOutcome)
        ensures
            msg is Done ==> r == RecordOutcome::Done && final(self)@ == old(self)@,
            msg matches ScanMessage::ARPScanDevice(d) ==> (r == RecordOutcome::Recorded) == !has_device(
                old(self)@,
                d.ip,
                d.mac,
            ) && r != RecordOutcome::Done && r != RecordOutcome::Ignored && (has_device(old(self)@, d.ip, d.mac)
                ==> final(self)@ == old(self)@) && (!has_device(old(self)@, d.ip, d.mac) ==> exists|pos: int|
                0 <= pos <= old(self)@.len() && final(self)@ == old(self)@.insert(pos, d@)),
            !(msg is Done) && !(msg is ARPScanDevice) ==> r == RecordOutcome::Ignored && final(self)@ == old(self)@,
    {
        match msg {
            ScanMessage::Done => RecordOutcome::Done,
            ScanMessage::ARPScanDevice(d) => {
                if self.insert(d) {
                    RecordOutcome::Recorded
                } else {
                    RecordOutcome::NotRecorded
                }
            },
            _ => RecordOutcome::Ignored,
        }
    }

    /// The devices in order of address
    pub fn to_sorted_vec(&self) -> (v: Vec<Device>)
        ensures
            device_views(v@) == self@,
            sorted_by_ip(device_views(v@)),
    {
        proof {
            use_type_invariant(self);
        }
        copy_devices(&self.devices)
    }
}

/// A copy of each device, in order
fn copy_devices(devices: &Vec<Device>) -> (v: Vec<Device>)
    ensures
        device_views(v@) == device_views(devices@),
{
    let mut v: Vec<Device> = Vec::new();
    let mut i: usize = 0;
    while i < devices.len()
        invariant
            i <= devices@.len(),
            v@.len() == i,
            device_views(v@) == device_views(devices@).take(i as int),
        decreases devices@.len() - i,
    {
        let d = devices[i].copy();
        let ghost old_v = v@;
        v.push(d);
        assert forall|k: int| 0 <= k < i implies device_views(v@)[k] == device_views(devices@)[k] by {
            assert(v@[k] == old_v[k]);
            assert(device_views(old_v)[k] == device_views(devices@).take(i as int)[k]);
        }
        assert(device_views(v@) =~= device_views(devices@).take(i as int + 1));
        i = i + 1;
    }
    assert(device_views(devices@).take(i as int) =~= device_views(devices@));
    v
}

/// The devices are in strictly increasing order of address
pub open spec fn strictly_sorted_by_ip(s: Seq<DeviceData>) -> bool {
    forall|i: int, j: int| 0 <= i < j < s.len() ==> s[i].ip < s[j].ip
}

/// Some device of `s` has this address
pub open spec fn has_ip(s: Seq<DeviceData>, ip: u32) -> bool {
    exists|k: int| 0 <= k < s.len() && s[k].ip == ip
}

/// The map from address to device that inserting the devices one by one
/// builds: of devices with one address the last is kept
pub open spec fn devices_by_ip(s: Seq<DeviceData>) -> Map<u32, DeviceData>
    decreases s.len(),
{
    if s.len() == 0 {
        Map::empty()
    } else {
        devices_by_ip(s.drop_last()).insert(s.last().ip, s.last())
    }
}

/// `s` lists the entries of `m`: each device of `s` is the entry of its
/// address, and each address of `m` has a device in `s`
pub open spec fn lists_map(s: Seq<DeviceData>, m: Map<u32, DeviceData>) -> bool {
    &&& forall|k: int| 0 <= k < s.len() ==> m.contains_key(#[trigger] s[k].ip) && m[s[k].ip] == s[k]
    &&& forall|ip: u32| #[trigger] m.contains_key(ip) ==> has_ip(s, ip)
}

/// `c` is `a` extended by the ports of `b` whose id `a` lacks, in order of
/// id, as `HashSet::extend` does for ports
pub open spec fn extended_ports(
    a: Seq<(u16, Seq<char>)>,
    b: Seq<(u16, Seq<char>)>,
    c: Seq<(u16, Seq<char>)>,
) -> bool {
    &&& ports_sorted(c)
    &&& forall|x: (u16, Seq<char>)| #[trigger] c.contains(x) <==> (a.contains(x) || (b.contains(x) && !has_port_id(a, x.0)))
}

/// `new` is `old` with the open ports of `d` added to the device of its
/// address, which `old` has
pub open spec fn merged(old: Seq<DeviceData>, new: Seq<DeviceData>, d: DeviceData) -> bool {
    exists|k: int|
        0 <= k < old.len() && old[k].ip == d.ip && new.len() == old.len()
        && (forall|j: int| 0 <= j < old.len() && j != k ==> new[j] == old[j])
        && new[k] == (DeviceData { open_ports: new[k].open_ports, ..old[k] })
        && extended_ports(old[k].open_ports, d.open_ports, new[k].open_ports)
}

/// The devices of a SYN scan, one per address and in order of address,
/// each with the open ports found on it
pub struct SynResults {
    devices: Vec<Device>,
}

impl View for SynResults {
    type V = Seq<DeviceData>;

    closed spec fn view(&self) -> Seq<DeviceData> {
        device_views(self.devices@)
    }
}

impl SynResults {
    #[verifier::type_invariant]
    spec fn inv(self) -> bool {
        strictly_sorted_by_ip(self@)
    }

    /// The devices are in strictly increasing order of address
    pub fn sorted(&self)
        ensures
            strictly_sorted_by_ip(self@),
    {
        proof {
            use_type_invariant(self);
        }
    }

    /// Puts the device under its address, replacing the device there
    fn upsert(&mut self, d: Device)
        ensures
            strictly_sorted_by_ip(final(self)@),
            forall|m: Map<u32, DeviceData>| #[trigger] lists_map(old(self)@, m) ==> lists_map(
                final(self)@,
                m.insert(d.ip, d@),
            ),
    {
        proof {
            use_type_invariant(&*self);
        }
        let n = self.devices.len();
        let mut pos: usize = 0;
        while pos < n && self.devices[pos].ip < d.ip
            invariant
                n == self.devices@.len(),
                pos <= n,
                strictly_sorted_by_ip(self@),
                forall|k: int| 0 <= k < pos ==> self@[k].ip < d.ip,
            decreases n - pos,
        {
            pos = pos + 1;
        }
        let ghost old_view = self@;
        let ghost dv = d@;
        let mut v: Vec<Device> = Vec::new();
        std::mem::swap(&mut v, &mut self.devices);
        if pos < n && v[pos].ip == d.ip {
            v[pos] = d;
            assert(device_views(v@) =~= old_view.update(pos as int, dv));
            proof {
                assert forall|m: Map<u32, DeviceData>| #[trigger] lists_map(old_view, m) implies lists_map(
                    device_views(v@),
                    m.insert(dv.ip, dv),
                ) by {
                    let s = device_views(v@);
                    let m2 = m.insert(dv.ip, dv);
                    assert forall|ip: u32| #[trigger] m2.contains_key(ip) implies has_ip(s, ip) by {
                        if ip == dv.ip {
                            assert(s[pos as int].ip == ip);
                        } else {
                            let k = choose|k: int| 0 <= k < old_view.len() && old_view[k].ip == ip;
                            assert(s[k].ip == ip);
                        }
                    }
                    assert forall|k: int| 0 <= k < s.len() implies m2.contains_key(#[trigger] s[k].ip) && m2[s[k].ip]
                        == s[k] by {
                        if k != pos {
                            assert(s[k] == old_view[k]);
                            assert(old_view[k].ip != dv.ip);
                        }
                    }
                }
            }
        } else {
            proof {
                assert forall|k: int| pos <= k < n implies old_view[k].ip > dv.ip by {
                    assert(old_view[pos as int].ip >= dv.ip);
                    if k > pos {
                        assert(old_view[pos as int].ip < old_view[k].ip);
                    }
                }
            }
            v.insert(pos, d);
            assert(device_views(v@) =~= old_view.insert(pos as int, dv));
            proof {
                assert forall|m: Map<u32, DeviceData>| #[trigger] lists_map(old_view, m) implies lists_map(
                    device_views(v@),
                    m.insert(dv.ip, dv),
                ) by {
                    let s = device_views(v@);
                    let m2 = m.insert(dv.ip, dv);
                    assert forall|ip: u32| #[trigger] m2.contains_key(ip) implies has_ip(s, ip) by {
                        if ip == dv.ip {
                            assert(s[pos as int].ip == ip);
                        } else {
                            let k = choose|k: int| 0 <= k < old_view.len() && old_view[k].ip == ip;
                            if k < pos {
                                assert(s[k].ip == ip);
                            } else {
                                assert(s[k + 1].ip == ip);
                            }
                        }
                    }
                    assert forall|k: int| 0 <= k < s.len() implies m2.contains_key(#[trigger] s[k].ip) && m2[s[k].ip]
                        == s[k] by {
                        if k < pos {
                            assert(s[k] == old_view[k]);
                        } else if k > pos {
                            assert(s[k] == old_view[k - 1]);
                        }
                    }
                }
            }
        }
        self.devices = v;
    }

    /// The devices a SYN scan starts from, under their addresses: of
    /// devices with one address the last is kept, as inserting them into a
    /// map by address does
    pub fn seed(devices: &Vec<Device>) -> (r: SynResults)
        ensures
            lists_map(r@, devices_by_ip(device_views(devices@))),
            strictly_sorted_by_ip(r@),
    {
        let mut r = SynResults { devices: Vec::new() };
        assert(lists_map(r@, devices_by_ip(device_views(devices@).take(0)))) by {
            assert(device_views(devices@).take(0) =~= Seq::<DeviceData>::empty());
            assert(r@ =~= Seq::<DeviceData>::empty());
        }
        let mut i: usize = 0;
        while i < devices.len()
            invariant
                i <= devices@.len(),
                lists_map(r@, devices_by_ip(device_views(devices@).take(i as int))),
            decreases devices@.len() - i,
        {
            let ghost before = devices_by_ip(device_views(devices@).take(i as int));
            let d = devices[i].copy();
            r.upsert(d);
            proof {
                let t = device_views(devices@).take(i as int + 1);
                assert(t.drop_last() =~= device_views(devices@).take(i as int));
                assert(t.last() == devices@[i as int]@);
                assert(lists_map(r@, before.insert(t.last().ip, t.last())));
            }
            i = i + 1;
        }
        assert(device_views(devices@).take(i as int) =~= device_views(devices@));
        proof {
            use_type_invariant(&r);
        }
        r
    }

    /// Adds the open ports of a device that SYN scanning reported to the
    /// device of its address; returns whether there is such a device
    pub fn merge(&mut self, d: &Device) -> (found: bool)
        ensures
            found == has_ip(old(self)@, d.ip),
            !found ==> final(self)@ == old(self)@,
            found ==> merged(old(self)@, final(self)@, d@),
            strictly_sorted_by_ip(final(self)@),
    {
        proof {
            use_type_invariant(&*self);
        }
        let n = self.devices.len();
        let mut k: usize = 0;
        while k < n && self.devices[k].ip != d.ip
            invariant
                n == self.devices@.len(),
                k <= n,
                forall|j: int| 0 <= j < k ==> self@[j].ip != d.ip,
            decreases n - k,
        {
            k = k + 1;
        }
        if k == n {
            return false;
        }
        assert(self@[k as int].ip == d.ip);
        let ghost old_view = self@;
        let mut v: Vec<Device> = Vec::new();
        std::mem::swap(&mut v, &mut self.devices);
        let ghost old_ports = v@[k as int].open_ports@;
        v[k].open_ports.extend(&d.open_ports);
        proof {
            let s = device_views(v@);
            assert forall|j: int| 0 <= j < old_view.len() && j != k implies s[j] == old_view[j] by {}
            assert(s[k as int] == (DeviceData { open_ports: s[k as int].open_ports, ..old_view[k as int] }));
            assert(old_ports == old_view[k as int].open_ports);
            assert(s[k as int].open_ports == v@[k as int].open_ports@);
            assert(extended_ports(old_view[k as int].open_ports, d@.open_ports, s[k as int].open_ports));
            assert(s.len() == old_view.len());
            assert(strictly_sorted_by_ip(s)) by {
                assert forall|i: int, j: int| 0 <= i < j < s.len() implies s[i].ip < s[j].ip by {
                    assert(s[i].ip == old_view[i].ip);
                    assert(s[j].ip == old_view[j].ip);
                }
            }
        }
        self.devices = v;
        true
    }

    /// Records a message of SYN scanning: the open ports of a device
    /// reported are added to the device of its address
    pub fn record(&mut self, msg: ScanMessage) -> (r: RecordOutcome)
        ensures
            msg is Done ==> r == RecordOutcome::Done && final(self)@ == old(self)@,
            msg matches ScanMessage::SYNScanDevice(d) ==> ((r == RecordOutcome::Recorded) == has_ip(old(self)@, d.ip))
                && r != RecordOutcome::Done && r != RecordOutcome::Ignored,
            msg matches ScanMessage::SYNScanDevice(d) ==> !has_ip(old(self)@, d.ip) ==> final(self)@ == old(self)@,
            msg matches ScanMessage::SYNScanDevice(d) ==> has_ip(old(self)@, d.ip) ==> merged(old(self)@, final(self)@, d@),
            !(msg is Done) && !(msg is SYNScanDevice) ==> r == RecordOutcome::Ignored && final(self)@ == old(self)@,
    {
        match msg {
            ScanMessage::Done => RecordOutcome::Done,
            ScanMessage::SYNScanDevice(d) => {
                if self.merge(&d) {
                    RecordOutcome::Recorded
                } else {
                    RecordOutcome::NotRecorded
                }
            },
            _ => RecordOutcome::Ignored,
        }
    }

    /// The devices in order of address
    pub fn to_sorted_vec(&self) -> (v: Vec<Device>)
        ensures
            device_views(v@) == self@,
            strictly_sorted_by_ip(device_views(v@)),
    {
        proof {
            use_type_invariant(self);
        }
        copy_devices(&self.devices)
    }
}

/// Every device that inserting devices by address puts into the map has
/// its address there
proof fn lemma_devices_by_ip_has_every_address(s: Seq<DeviceData>, k: int)
    requires
        0 <= k < s.len(),
    ensures
        devices_by_ip(s).contains_key(s[k].ip),
    decreases s.len(),
{
    if k < s.len() - 1 {
        lemma_devices_by_ip_has_every_address(s.drop_last(), k);
    }
}

/// The SYN report covers the ARP report: the results a SYN scan starts
/// from have a device at the address of every device it was seeded with
pub proof fn lemma_syn_results_cover_seed(seed: Seq<DeviceData>, r: Seq<DeviceData>)
    requires
        lists_map(r, devices_by_ip(seed)),
    ensures
        forall|k: int| 0 <= k < seed.len() ==> has_ip(r, #[trigger] seed[k].ip),
{
    assert forall|k: int| 0 <= k < seed.len() implies has_ip(r, #[trigger] seed[k].ip) by {
        lemma_devices_by_ip_has_every_address(seed, k);
    }
}

/// Merging what SYN scanning found never loses a device nor adds one: the
/// addresses stay those the results were seeded with
pub proof fn lemma_merge_keeps_addresses(old: Seq<DeviceData>, new: Seq<DeviceData>, d: DeviceData)
    requires
        merged(old, new, d),
    ensures
        forall|ip: u32| has_ip(new, ip) <==> has_ip(old, ip),
{
    let k = choose|k: int|
        0 <= k < old.len() && old[k].ip == d.ip && new.len() == old.len()
        && (forall|j: int| 0 <= j < old.len() && j != k ==> new[j] == old[j])
        && new[k] == (DeviceData { open_ports: new[k].open_ports, ..old[k] })
        && extended_ports(old[k].open_ports, d.open_ports, new[k].open_ports);
    assert forall|ip: u32| has_ip(new, ip) <==> has_ip(old, ip) by {
        if has_ip(new, ip) {
            let j = choose|j: int| 0 <= j < new.len() && new[j].ip == ip;
            assert(old[j].ip == ip);
        }
        if has_ip(old, ip) {
            let j = choose|j: int| 0 <= j < old.len() && old[j].ip == ip;
            assert(new[j].ip == ip);
        }
    }
}

} // verus!
