//! Data of network scanning (ports, devices, scan messages) and the
//! decisions that ARP and SYN scanning take on each target and on each
//! frame received

use vstd::prelude::*;
use crate::net::MacAddr;

pub mod decide;
pub mod heartbeat;

verus! {

/// The default idle timeout for a scanner, in milliseconds
pub const IDLE_TIMEOUT: u16 = 10000;

/// Data structure representing a port
#[derive(Debug, Clone)]
pub struct Port {
    /// The ID of the port i.e. 22, 80, 443 etc.
    pub id: u16,
    /// The associated service name for the port if known
    pub service: String,
}

impl View for Port {
    type V = (u16, Seq<char>);

    open spec fn view(&self) -> (u16, Seq<char>) {
        (self.id, self.service@)
    }
}

impl Port {
    /// A port with the given id and service name
    pub fn new(id: u16, service: String) -> (p: Port)
        ensures
            p@ == (id, service@),
    {
        Port { id, service }
    }

    /// A copy of this port
    pub fn copy(&self) -> (p: Port)
        ensures
            p@ == self@,
    {
        Port { id: self.id, service: self.service.clone() }
    }

    /// The text of a port: `"22:ssh"`, or just `"22"` when the service is
    /// not known (empty)
    pub fn to_text(&self) -> (t: String)
        ensures
            t@ == port_text(self@),
    {
        let mut t = String::new();
        crate::net::push_decimal(&mut t, self.id as u128);
        if self.service.as_str().unicode_len() > 0 {
            t.push(':');
            t.append(self.service.as_str());
        }
        t
    }
}

/// The text of a port: its id, then a colon and the service when known
pub open spec fn port_text(p: (u16, Seq<char>)) -> Seq<char> {
    if p.1.len() == 0 {
        crate::net::decimal(p.0 as nat)
    } else {
        crate::net::decimal(p.0 as nat) + seq![':'] + p.1
    }
}

/// The plain contents of a sequence of ports
pub open spec fn port_views(s: Seq<Port>) -> Seq<(u16, Seq<char>)> {
    Seq::new(s.len(), |i: int| s[i]@)
}

/// The ports are in strictly increasing order of id, so no id occurs twice
pub open spec fn ports_sorted(s: Seq<(u16, Seq<char>)>) -> bool {
    forall|i: int, j: int| 0 <= i < j < s.len() ==> s[i].0 < s[j].0
}

/// Some port of `s` has the id `id`
pub open spec fn has_port_id(s: Seq<(u16, Seq<char>)>, id: u16) -> bool {
    exists|i: int| 0 <= i < s.len() && s[i].0 == id
}

/// A set of ports in which a port is identified by its id alone; kept in
/// increasing order of id
#[derive(Debug)]
pub struct PortSet {
    ports: Vec<Port>,
}

impl View for PortSet {
    type V = Seq<(u16, Seq<char>)>;

    closed spec fn view(&self) -> Seq<(u16, Seq<char>)> {
        port_views(self.ports@)
    }
}

impl PortSet {
    #[verifier::type_invariant]
    spec fn inv(self) -> bool {
        ports_sorted(self@)
    }

    /// Returns a new, empty PortSet
    pub fn new() -> (s: Self)
        ensures
            s@ == Seq::<(u16, Seq<char>)>::empty(),
    {
        let s = PortSet { ports: Vec::new() };
        assert(s@ =~= Seq::<(u16, Seq<char>)>::empty());
        s
    }

    /// The set's ports are in strictly increasing order of id
    pub fn sorted(&self)
        ensures
            ports_sorted(self@),
    {
        proof {
            use_type_invariant(self);
        }
    }

    /// Number of ports in the set
    pub fn len(&self) -> (n: usize)
        ensures
            n == self@.len(),
    {
        self.ports.len()
    }

    /// Whether the set holds a port with this id
    pub fn contains(&self, id: u16) -> (b: bool)
        ensures
            b == has_port_id(self@, id),
    {
        let mut i: usize = 0;
        while i < self.ports.len()
            invariant
                i <= self.ports@.len(),
                forall|k: int| 0 <= k < i ==> self@[k].0 != id,
            decreases self.ports@.len() - i,
        {
            if self.ports[i].id == id {
                assert(self@[i as int].0 == id);
                return true;
            }
            i = i + 1;
        }
        false
    }

    /// Adds a port unless one with the same id is present already (the
    /// present one is then kept), as `HashSet::insert` does for ports;
    /// returns whether it was added
    pub fn insert(&mut self, p: Port) -> (added: bool)
        ensures
            added == !has_port_id(old(self)@, p.id),
            added ==> final(self)@.to_set() == old(self)@.to_set().insert(p@),
            added ==> final(self)@.len() == old(self)@.len() + 1,
            !added ==> final(self)@ == old(self)@,
            forall|id: u16| has_port_id(final(self)@, id) <==> (has_port_id(old(self)@, id) || id == p.id),
            ports_sorted(final(self)@),
    {
        proof {
            use_type_invariant(&*self);
        }
        let n = self.ports.len();
        let mut i: usize = 0;
        while i < n && self.ports[i].id < p.id
            invariant
                n == self.ports@.len(),
                i <= n,
                ports_sorted(self@),
                forall|k: int| 0 <= k < i ==> self@[k].0 < p.id,
            decreases n - i,
        {
            i = i + 1;
        }
        if i < n && self.ports[i].id == p.id {
            assert(self@[i as int].0 == p.id);
            return false;
        }
        proof {
            assert forall|k: int| i <= k < n implies self@[k].0 > p.id by {
                assert(self@[i as int].0 > p.id);
                if k > i {
                    assert(self@[i as int].0 < self@[k].0);
                }
            }
            assert(!has_port_id(self@, p.id));
        }
        let ghost old_view = self@;
        let mut ports = Vec::new();
        std::mem::swap(&mut ports, &mut self.ports);
        assert(port_views(ports@) == old_view);
        ports.insert(i, p);
        proof {
            assert(port_views(ports@) =~= old_view.insert(i as int, p@));
            assert(ports_sorted(old_view.insert(i as int, p@)));
        }
        self.ports = ports;
        proof {
            assert(self@ =~= old_view.insert(i as int, p@));
            assert(self@.to_set() =~= old_view.to_set().insert(p@)) by {
                assert forall|x| self@.contains(x) <==> old_view.to_set().insert(p@).contains(x) by {
                    if self@.contains(x) {
                        let k = choose|k: int| 0 <= k < self@.len() && self@[k] == x;
                        if k < i {
                            assert(old_view[k] == x);
                        } else if k > i {
                            assert(old_view[k - 1] == x);
                        }
                    }
                    if old_view.contains(x) {
                        let k = choose|k: int| 0 <= k < old_view.len() && old_view[k] == x;
                        if k < i {
                            assert(self@[k] == x);
                        } else {
                            assert(self@[k + 1] == x);
                        }
                    }
                    if x == p@ {
                        assert(self@[i as int] == x);
                    }
                }
            }
            assert forall|id: u16| has_port_id(self@, id) <==> (has_port_id(old_view, id) || id == p.id) by {
                if has_port_id(self@, id) {
                    let k = choose|k: int| 0 <= k < self@.len() && self@[k].0 == id;
                    if k < i {
                        assert(old_view[k].0 == id);
                    } else if k > i {
                        assert(old_view[k - 1].0 == id);
                    }
                }
                if has_port_id(old_view, id) {
                    let k = choose|k: int| 0 <= k < old_view.len() && old_view[k].0 == id;
                    if k < i {
                        assert(self@[k].0 == id);
                    } else {
                        assert(self@[k + 1].0 == id);
                    }
                }
                if id == p.id {
                    assert(self@[i as int].0 == id);
                }
            }
        }
        true
    }

    /// Adds every port of `other` whose id is not present yet, as
    /// `HashSet::extend` does for ports
    pub fn extend(&mut self, other: &PortSet)
        ensures
            ports_sorted(final(self)@),
            forall|x: (u16, Seq<char>)| #[trigger] final(self)@.contains(x) <==>
                (old(self)@.contains(x) || (other@.contains(x) && !has_port_id(old(self)@, x.0))),
    {
        proof {
            use_type_invariant(&*self);
            use_type_invariant(other);
        }
        let mut j: usize = 0;
        while j < other.ports.len()
            invariant
                j <= other@.len(),
                ports_sorted(self@),
                ports_sorted(other@),
                forall|id: u16| has_port_id(self@, id) <==> (has_port_id(old(self)@, id) || has_port_id(other@.take(j as int), id)),
                forall|x: (u16, Seq<char>)| #[trigger] self@.contains(x) <==>
                    (old(self)@.contains(x) || (other@.take(j as int).contains(x) && !has_port_id(old(self)@, x.0))),
            decreases other@.len() - j,
        {
            let p = other.ports[j].copy();
            let ghost before = self@;
            let ghost x0 = other@[j as int];
            assert(p@ == x0);
            proof {
                assert(!has_port_id(other@.take(j as int), x0.0)) by {
                    if has_port_id(other@.take(j as int), x0.0) {
                        let t = choose|t: int| 0 <= t < j && other@.take(j as int)[t].0 == x0.0;
                        assert(other@[t].0 < other@[j as int].0);
                    }
                }
            }
            let added = self.insert(p);
            proof {
                let tj = other@.take(j as int);
                let tj1 = other@.take(j + 1);
                assert(tj1 =~= tj.push(x0));
                assert(has_port_id(before, x0.0) <==> (has_port_id(old(self)@, x0.0) || has_port_id(tj, x0.0)));
                assert(!tj.contains(x0)) by {
                    if tj.contains(x0) {
                        let t = choose|t: int| 0 <= t < tj.len() && tj[t] == x0;
                        assert(tj[t].0 == x0.0);
                    }
                }
                assert forall|id: u16| has_port_id(self@, id) <==> (has_port_id(old(self)@, id) || has_port_id(tj1, id)) by {
                    if has_port_id(tj1, id) && !has_port_id(tj, id) {
                        let t = choose|t: int| 0 <= t < tj1.len() && tj1[t].0 == id;
                        assert(t == j);
                    }
                    if has_port_id(tj, id) {
                        let t = choose|t: int| 0 <= t < tj.len() && tj[t].0 == id;
                        assert(tj1[t].0 == id);
                    }
                    if id == x0.0 {
                        assert(tj1[j as int].0 == id);
                    }
                }
                assert forall|x: (u16, Seq<char>)| #[trigger] self@.contains(x) <==>
                    (old(self)@.contains(x) || (tj1.contains(x) && !has_port_id(old(self)@, x.0))) by {
                    assert(tj1.contains(x) <==> (tj.contains(x) || x == x0)) by {
                        if tj1.contains(x) {
                            let t = choose|t: int| 0 <= t < tj1.len() && tj1[t] == x;
                            if t < j {
                                assert(tj[t] == x);
                            }
                        }
                        if tj.contains(x) {
                            let t = choose|t: int| 0 <= t < tj.len() && tj[t] == x;
                            assert(tj1[t] == x);
                        }
                        if x == x0 {
                            assert(tj1[j as int] == x);
                        }
                    }
                    assert(before.contains(x) <==> (old(self)@.contains(x) || (tj.contains(x) && !has_port_id(old(self)@, x.0))));
                    if added {
                        assert(self@.to_set().contains(x) == self@.contains(x));
                        assert(before.to_set().contains(x) == before.contains(x));
                        assert(self@.contains(x) <==> (before.contains(x) || x == x0));
                        assert(!has_port_id(old(self)@, x0.0));
                    } else {
                        assert(self@ == before);
                        assert(has_port_id(old(self)@, x0.0));
                        if x == x0 {
                            assert(!tj.contains(x));
                        }
                    }
                }
            }
            let ghost jj = j;
            j = j + 1;
            assert(other@.take(j as int) == other@.take(jj + 1));
        }
        assert(other@.take(j as int) =~= other@);
    }

    /// The ports as a vector sorted by id
    pub fn to_sorted_vec(&self) -> (v: Vec<Port>)
        ensures
            port_views(v@) == self@,
            ports_sorted(self@),
    {
        proof {
            use_type_invariant(self);
        }
        let mut v: Vec<Port> = Vec::new();
        let mut i: usize = 0;
        while i < self.ports.len()
            invariant
                i <= self.ports@.len(),
                port_views(v@) == self@.take(i as int),
            decreases self.ports@.len() - i,
        {
            let ghost old_v = v@;
            let c = self.ports[i].copy();
            v.push(c);
            assert(v@ == old_v.push(c));
            assert(self@[i as int] == c@);
            proof {
                assert(self@.len() == self.ports@.len());
                assert(port_views(old_v).len() == old_v.len());
                assert(old_v.len() == i);
                assert forall|k: int| 0 <= k < i implies v@[k]@ == self@[k] by {
                    assert(port_views(old_v)[k] == old_v[k]@);
                    assert(port_views(old_v)[k] == self@.take(i as int)[k]);
                    assert(v@[k] == old_v[k]);
                }
            }
            i = i + 1;
            assert(port_views(v@) =~= self@.take(i as int));
        }
        assert(self@.take(i as int) =~= self@);
        v
    }

    /// A copy of this set
    pub fn copy(&self) -> (s: PortSet)
        ensures
            s@ == self@,
    {
        proof {
            use_type_invariant(self);
        }
        let v = self.to_sorted_vec();
        PortSet { ports: v }
    }
}

impl Clone for PortSet {
    fn clone(&self) -> (s: Self)
        ensures
            s@ == self@,
    {
        self.copy()
    }
}

/// Data structure representing a device on the network
#[derive(Debug, Clone)]
pub struct Device {
    /// Hostname of the device
    pub hostname: String,
    /// IPv4 address of the device, as its big-endian number
    pub ip: u32,
    /// MAC address of the device
    pub mac: MacAddr,
    /// Vendor of the device if known
    pub vendor: String,
    /// Whether or not the device is the current host running the scan
    pub is_current_host: bool,
    /// Whether or not the device is the default gateway
    pub is_gateway: bool,
    /// Open ports found on this device
    pub open_ports: PortSet,
    /// Time between the ARP request and its reply, in milliseconds
    pub latency_ms: Option<u128>,
    /// TTL of the response the device answered with
    pub response_ttl: Option<u8>,
}

/// The plain contents of a device
pub struct DeviceData {
    pub hostname: Seq<char>,
    pub ip: u32,
    pub mac: MacAddr,
    pub vendor: Seq<char>,
    pub is_current_host: bool,
    pub is_gateway: bool,
    pub open_ports: Seq<(u16, Seq<char>)>,
    pub latency_ms: Option<u128>,
    pub response_ttl: Option<u8>,
}

impl View for Device {
    type V = DeviceData;

    open spec fn view(&self) -> DeviceData {
        DeviceData {
            hostname: self.hostname@,
            ip: self.ip,
            mac: self.mac,
            vendor: self.vendor@,
            is_current_host: self.is_current_host,
            is_gateway: self.is_gateway,
            open_ports: self.open_ports@,
            latency_ms: self.latency_ms,
            response_ttl: self.response_ttl,
        }
    }
}

impl Device {
    /// A copy of this device
    pub fn copy(&self) -> (d: Device)
        ensures
            d@ == self@,
    {
        Device {
            hostname: self.hostname.clone(),
            ip: self.ip,
            mac: self.mac,
            vendor: self.vendor.clone(),
            is_current_host: self.is_current_host,
            is_gateway: self.is_gateway,
            open_ports: self.open_ports.copy(),
            latency_ms: self.latency_ms,
            response_ttl: self.response_ttl,
        }
    }

    /// Two devices are the same device when IP and MAC address agree
    pub fn same_device(&self, other: &Device) -> (b: bool)
        ensures
            b == (self.ip == other.ip && self.mac == other.mac),
    {
        self.ip == other.ip && self.mac == other.mac
    }
}

/// Data structure representing a message that a device is being scanned
#[derive(Debug, Clone, Copy)]
pub struct Scanning {
    /// IPv4 address of the device
    pub ip: u32,
    /// Port being scanned
    pub port: Option<u16>,
}

/// The kinds of scanning messages sent to the consumer of a scan
#[derive(Debug)]
pub enum ScanMessage {
    /// Indicates that scanning has completed
    Done,
    /// Sent to inform that a device is about to be scanned
    Info(Scanning),
    /// Sent whenever an ARP response is received from a device
    ARPScanDevice(Device),
    /// Sent whenever a SYN response is received from a device
    SYNScanDevice(Device),
}

} // verus!
