//! Provides helpers for managing IP target lists
//!
//! Addresses are handled as their big-endian `u32` numbers.

use std::sync::Arc;
use vstd::prelude::*;
use vstd::arithmetic::power2::pow2;

use crate::error::{IpTargetErrorKind, RLanLibError, is_ip_parse_error};
use crate::text::{
    find_char, find_char_from, lemma_parse_digits_bounded, parse_digits_from, parse_ipv4, spec_octet_value,
    spec_parse_ipv4, split_first_two, split_two,
};

verus! {

/// One octet of an address as ipnet reads it: one to three decimal digits
/// (leading zeros allowed) with a value no larger than 255
pub open spec fn ipnet_octet_ok(g: Seq<char>) -> bool {
    &&& 1 <= g.len() <= 3
    &&& parse_digits_from(g, 0, 0, 255) is Ok
}

/// Reads the octets of a dotted address as ipnet does, from position `pos`
/// of `s`, `count` octets having been read with value `acc`
pub open spec fn ipnet_addr_from(s: Seq<char>, pos: int, count: int, acc: int) -> Option<int>
    decreases 4 - count,
{
    if count < 0 || count > 3 || pos < 0 || pos > s.len() {
        None
    } else {
        let k = find_char_from(s, '.', pos);
        let g = s.subrange(pos, k);
        if !ipnet_octet_ok(g) {
            None
        } else if count == 3 {
            if k == s.len() {
                Some(acc * 256 + spec_octet_value(g))
            } else {
                None
            }
        } else if k == s.len() {
            None
        } else {
            ipnet_addr_from(s, k + 1, count + 1, acc * 256 + spec_octet_value(g))
        }
    }
}

/// What `ipnet::Ipv4Net::from_str` gives for `s`: four dotted octets
/// (`ipnet_octet_ok`), a `/`, and a prefix length of one or two decimal
/// digits no larger than 32, with nothing after it. The result is the
/// address as written, as a big-endian number, and the prefix length.
pub open spec fn spec_ipnet_parse(s: Seq<char>) -> Option<(u32, u8)> {
    let k = find_char(s, '/');
    let p = s.skip(k + 1);
    if k < s.len() && 1 <= p.len() <= 2 && parse_digits_from(p, 0, 0, 32) is Ok {
        match ipnet_addr_from(s.take(k), 0, 0, 0) {
            Some(v) => Some((v as u32, parse_digits_from(p, 0, 0, 32)->Ok_0 as u8)),
            None => None,
        }
    } else {
        None
    }
}

/// Parses a CIDR block with `ipnet::Ipv4Net::from_str`.
///
/// Trusted: ipnet reads the text byte by byte with the grammar that
/// `spec_ipnet_parse` states (its octets and prefix are maximal runs of
/// digits with at most 3 and 2 digits, below 256 and 33), and `Ipv4Net`
/// keeps the address as written; the result is the address and prefix.
#[verifier::external_body]
fn ipnet_parse(s: &str) -> (r: Option<(u32, u8)>)
    ensures
        r == spec_ipnet_parse(s@),
{
    match s.parse::<ipnet::Ipv4Net>() {
        Ok(net) => Some((u32::from(net.addr()), net.prefix_len())),
        Err(_) => None,
    }
}

/// A prefix length that ipnet reads is at most 32
proof fn lemma_ipnet_prefix_bounded(s: Seq<char>)
    ensures
        spec_ipnet_parse(s) matches Some((_, p)) ==> p <= 32,
{
    let k = find_char(s, '/');
    lemma_parse_digits_bounded(s.skip(k + 1), 0, 0, 32);
}

/// The network mask of a prefix length, as `Ipv4Net::netmask` computes it
pub open spec fn netmask(prefix: u8) -> u32 {
    if prefix == 0 {
        0
    } else {
        0xffff_ffffu32 << ((32 - prefix) as u32)
    }
}

/// The first and last host address of a CIDR block, as `Ipv4Net::hosts`
/// yields them: network and broadcast addresses are left out unless the
/// prefix is /31 or /32
pub open spec fn spec_cidr_hosts(addr: u32, prefix: u8) -> (u32, u32) {
    let network = addr & netmask(prefix);
    let broadcast = addr | !netmask(prefix);
    if prefix < 31 {
        (
            if network < 0xffff_ffff { (network + 1) as u32 } else { network },
            if broadcast > 0 { (broadcast - 1) as u32 } else { broadcast },
        )
    } else {
        (network, broadcast)
    }
}

/// The inclusive address range that one target names: an address, a range
/// `a-b` (text after a second `-` ignored) or a CIDR block `a/n`
pub open spec fn spec_ip_range(t: Seq<char>) -> Result<(u32, u32), IpTargetErrorKind> {
    if find_char(t, '-') < t.len() {
        let (a, b) = split_first_two(t, '-');
        match spec_parse_ipv4(a) {
            None => Err(IpTargetErrorKind::Addr),
            Some(begin) => match spec_parse_ipv4(b) {
                None => Err(IpTargetErrorKind::Addr),
                Some(end) => Ok((begin, end)),
            },
        }
    } else if find_char(t, '/') < t.len() {
        match spec_ipnet_parse(t) {
            None => Err(IpTargetErrorKind::Net),
            Some((addr, prefix)) => Ok(spec_cidr_hosts(addr, prefix)),
        }
    } else {
        match spec_parse_ipv4(t) {
            None => Err(IpTargetErrorKind::Addr),
            Some(ip) => Ok((ip, ip)),
        }
    }
}

/// The ranges of a list of targets, or the index of the first target that
/// does not parse together with the reason
pub open spec fn spec_ip_ranges(list: Seq<Seq<char>>) -> Result<Seq<(u32, u32)>, (int, IpTargetErrorKind)>
    decreases list.len(),
{
    if list.len() == 0 {
        Ok(Seq::empty())
    } else {
        match spec_ip_ranges(list.drop_last()) {
            Err(x) => Err(x),
            Ok(rs) => match spec_ip_range(list.last()) {
                Err(e) => Err((list.len() - 1, e)),
                Ok(r) => Ok(rs.push(r)),
            },
        }
    }
}

/// The addresses of `begin..=end` in ascending order (none when `begin > end`)
pub open spec fn ip_range_seq(begin: u32, end: u32) -> Seq<u32> {
    if begin <= end {
        Seq::new((end - begin + 1) as nat, |i: int| (begin + i) as u32)
    } else {
        Seq::empty()
    }
}

/// All addresses of a list of ranges, range by range
pub open spec fn expand_ip_ranges(rs: Seq<(u32, u32)>) -> Seq<u32>
    decreases rs.len(),
{
    if rs.len() == 0 {
        Seq::empty()
    } else {
        expand_ip_ranges(rs.drop_last()) + ip_range_seq(rs.last().0, rs.last().1)
    }
}

/// The addresses that a list of targets names, in the order in which
/// `lazy_loop` visits them; `Err` holds the index of the first target that
/// does not parse and why
pub open spec fn spec_ip_targets(list: Seq<Seq<char>>) -> Result<Seq<u32>, (int, IpTargetErrorKind)> {
    match spec_ip_ranges(list) {
        Ok(rs) => Ok(expand_ip_ranges(rs)),
        Err(x) => Err(x),
    }
}

/// The number of addresses of a CIDR block, its network and broadcast
/// addresses included (2 to the power of 32 less the prefix length)
pub open spec fn cidr_block_size(addr: u32, prefix: u8) -> nat {
    ((addr | !netmask(prefix)) - (addr & netmask(prefix)) + 1) as nat
}

/// How many addresses a target counts for in the length of a list: every
/// address of a CIDR block, network and broadcast included; the addresses
/// of a range; one for an address; none for a target that does not parse
pub open spec fn spec_ip_size(t: Seq<char>) -> nat {
    match spec_ip_range(t) {
        Err(_) => 0,
        Ok((b, e)) => if find_char(t, '-') >= t.len() && find_char(t, '/') < t.len() {
            match spec_ipnet_parse(t) {
                Some((a, p)) => cidr_block_size(a, p),
                None => 0,
            }
        } else {
            ip_range_seq(b, e).len()
        },
    }
}

/// The length of a list of targets: the sum of `spec_ip_size` over them
pub open spec fn spec_ip_len(list: Seq<Seq<char>>) -> nat
    decreases list.len(),
{
    if list.len() == 0 {
        0
    } else {
        spec_ip_len(list.drop_last()) + spec_ip_size(list.last())
    }
}

/// `r` is what `IPTargets::new` gives for the targets `list`
pub open spec fn ip_targets_result(list: Seq<Seq<char>>, r: Result<Arc<IPTargets>, RLanLibError>) -> bool {
    match spec_ip_targets(list) {
        Ok(ips) => r matches Ok(t) && t.ips() == ips && t.targets() == list,
        Err((i, kind)) => r matches Err(e) && is_ip_parse_error(e, list[i], kind),
    }
}

/// Adding up the length of the targets, up to the first target that does
/// not parse, never passes `usize::MAX`
pub open spec fn ip_count_fits(list: Seq<Seq<char>>) -> bool {
    forall|n: int| 0 <= n <= list.len() ==> (#[trigger] spec_ip_ranges(list.take(n)) is Ok ==> spec_ip_len(list.take(n)) <= usize::MAX)
}

proof fn lemma_fits_before_err(list: Seq<Seq<char>>, n: int)
    requires
        0 < n <= list.len(),
        spec_ip_ranges(list.take(n)) is Err,
        forall|m: int| 0 <= m < n ==> (#[trigger] spec_ip_ranges(list.take(m)) is Ok ==> spec_ip_len(list.take(m)) <= usize::MAX),
    ensures
        ip_count_fits(list),
{
    assert forall|m: int| 0 <= m <= list.len() implies (#[trigger] spec_ip_ranges(list.take(m)) is Ok ==> spec_ip_len(list.take(m)) <= usize::MAX) by {
        if m >= n {
            lemma_ip_ranges_take_err(list, n, m);
        }
    }
}

proof fn lemma_ip_ranges_take_err(list: Seq<Seq<char>>, n: int, m: int)
    requires
        0 < n <= m <= list.len(),
        spec_ip_ranges(list.take(n)) is Err,
    ensures
        spec_ip_ranges(list.take(m)) is Err,
    decreases m - n,
{
    if m > n {
        lemma_ip_ranges_take_err(list, n, m - 1);
        assert(list.take(m).drop_last() =~= list.take(m - 1));
    }
}

/// Represents a list of IP targets
///
/// Rather than storing all addresses of a CIDR block or a range, only the
/// targets and their ranges are stored, and the addresses are visited when
/// needed.
#[derive(Debug)]
pub struct IPTargets {
    list: Vec<String>,
    ranges: Vec<(u32, u32)>,
    len: usize,
}

impl IPTargets {
    #[verifier::type_invariant]
    spec fn inv(self) -> bool {
        &&& spec_ip_ranges(self.list@.map_values(|s: String| s@)) == Ok::<Seq<(u32, u32)>, (int, IpTargetErrorKind)>(self.ranges@)
        &&& self.len == spec_ip_len(self.list@.map_values(|s: String| s@))
    }

    /// The addresses of this list, in the order in which they are visited
    pub closed spec fn ips(&self) -> Seq<u32> {
        expand_ip_ranges(self.ranges@)
    }

    /// The targets this list was made from
    pub closed spec fn targets(&self) -> Seq<Seq<char>> {
        self.list@.map_values(|s: String| s@)
    }
}

/// The host range of a CIDR block, as `Ipv4Net::hosts` gives it
fn cidr_hosts(addr: u32, prefix: u8) -> (r: (u32, u32))
    requires
        prefix <= 32,
    ensures
        r == spec_cidr_hosts(addr, prefix),
{
    let mask: u32 = if prefix == 0 { 0 } else { 0xffff_ffffu32 << (32 - prefix as u32) };
    let network = addr & mask;
    let broadcast = addr | !mask;
    if prefix < 31 {
        (
            if network < 0xffff_ffff { network + 1 } else { network },
            if broadcast > 0 { broadcast - 1 } else { broadcast },
        )
    } else {
        (network, broadcast)
    }
}

/// The number of addresses of a CIDR block
fn cidr_size(addr: u32, prefix: u8) -> (n: u64)
    requires
        prefix <= 32,
    ensures
        n == cidr_block_size(addr, prefix),
{
    let mask: u32 = if prefix == 0 { 0 } else { 0xffff_ffffu32 << (32 - prefix as u32) };
    let network = addr & mask;
    let broadcast = addr | !mask;
    assert(broadcast >= network) by (bit_vector)
        requires
            network == addr & mask,
            broadcast == addr | !mask,
    ;
    (broadcast - network) as u64 + 1
}

/// Parses one IP target into the inclusive address range it names and the
/// number of addresses it counts for
fn ip_range(t: &str) -> (r: Result<(u32, u32, u64), IpTargetErrorKind>)
    ensures
        r is Ok <==> spec_ip_range(t@) is Ok,
        r matches Ok((b, e, n)) ==> spec_ip_range(t@) == Ok::<(u32, u32), IpTargetErrorKind>((b, e)) && n == spec_ip_size(t@),
        r matches Err(k) ==> spec_ip_range(t@) == Err::<(u32, u32), IpTargetErrorKind>(k),
{
    match split_two(t, '-') {
        Some((a, b)) => {
            let begin = match parse_ipv4(a) {
                Some(v) => v,
                None => return Err(IpTargetErrorKind::Addr),
            };
            let end = match parse_ipv4(b) {
                Some(v) => v,
                None => return Err(IpTargetErrorKind::Addr),
            };
            let count: u64 = if begin <= end { (end - begin) as u64 + 1 } else { 0 };
            Ok((begin, end, count))
        },
        None => {
            if split_two(t, '/').is_some() {
                proof {
                    lemma_ipnet_prefix_bounded(t@);
                }
                match ipnet_parse(t) {
                    Some((addr, prefix)) => {
                        let (first, last) = cidr_hosts(addr, prefix);
                        Ok((first, last, cidr_size(addr, prefix)))
                    },
                    None => Err(IpTargetErrorKind::Net),
                }
            } else {
                match parse_ipv4(t) {
                    Some(ip) => Ok((ip, ip, 1)),
                    None => Err(IpTargetErrorKind::Addr),
                }
            }
        },
    }
}

impl IPTargets {
    /// Builds the list, or `None` when the count of its addresses passes
    /// `usize::MAX` before a target fails to parse
    fn build(list: Vec<String>) -> (r: Option<Result<Arc<Self>, RLanLibError>>)
        ensures
            r is None <==> !ip_count_fits(list@.map_values(|s: String| s@)),
            r matches Some(res) ==> ip_targets_result(list@.map_values(|s: String| s@), res),
    {
        let ghost views = list@.map_values(|s: String| s@);
        let mut ranges: Vec<(u32, u32)> = Vec::new();
        let mut len: usize = 0;
        let mut i: usize = 0;
        while i < list.len()
            invariant
                i <= list@.len(),
                views == list@.map_values(|s: String| s@),
                spec_ip_ranges(views.take(i as int)) == Ok::<Seq<(u32, u32)>, (int, IpTargetErrorKind)>(ranges@),
                ranges@.len() == i,
                len == spec_ip_len(views.take(i as int)),
                forall|m: int| 0 <= m <= i ==> (#[trigger] spec_ip_ranges(views.take(m)) is Ok ==> spec_ip_len(views.take(m)) <= usize::MAX),
            decreases list@.len() - i,
        {
            let t = list[i].as_str();
            assert(views.take(i + 1).drop_last() =~= views.take(i as int));
            assert(views.take(i + 1).last() == t@);
            match ip_range(t) {
                Ok((begin, end, count)) => {
                    let ghost old_ranges = ranges@;
                    ranges.push((begin, end));
                    assert(ranges@.drop_last() =~= old_ranges);
                    if count as u128 + len as u128 > usize::MAX as u128 {
                        proof {
                            assert(spec_ip_ranges(views.take(i + 1)) == Ok::<Seq<(u32, u32)>, (int, IpTargetErrorKind)>(ranges@));
                            assert(spec_ip_len(views.take(i + 1)) > usize::MAX);
                        }
                        return None;
                    }
                    len = len + count as usize;
                    assert(spec_ip_ranges(views.take(i + 1)) == Ok::<Seq<(u32, u32)>, (int, IpTargetErrorKind)>(ranges@));
                },
                Err(kind) => {
                    proof {
                        lemma_ip_ranges_prefix_err(views, i as int + 1);
                        lemma_fits_before_err(views, i as int + 1);
                    }
                    return Some(Err(RLanLibError::from_ip_parse_error(t, kind)));
                },
            }
            i = i + 1;
        }
        assert(views.take(i as int) =~= views);
        Some(Ok(Arc::new(IPTargets { list, ranges, len })))
    }

    /// Returns a new instance of IPTargets using the provided list, or the
    /// scanning error for the first target that is not an address, a range
    /// or a CIDR block
    pub fn new(list: Vec<String>) -> (r: Result<Arc<Self>, RLanLibError>)
        requires
            ip_count_fits(list@.map_values(|s: String| s@)),
        ensures
            ip_targets_result(list@.map_values(|s: String| s@), r),
    {
        match Self::build(list) {
            Some(r) => r,
            None => vstd::pervasive::unreached(),
        }
    }

    /// As `new`, but `None` where the number of addresses the list names
    /// would not fit in a `usize`
    pub fn checked_new(list: Vec<String>) -> (r: Option<Result<Arc<Self>, RLanLibError>>)
        ensures
            r is None <==> !ip_count_fits(list@.map_values(|s: String| s@)),
            r matches Some(res) ==> ip_targets_result(list@.map_values(|s: String| s@), res),
    {
        Self::build(list)
    }

    /// Returns the true length of the target list: a CIDR block counts all
    /// its addresses, so `["192.168.0.1/24"]` has length 256
    pub fn len(&self) -> (n: usize)
        ensures
            n == spec_ip_len(self.targets()),
    {
        proof {
            use_type_invariant(self);
        }
        self.len
    }

    /// Returns true if the list is empty
    pub fn is_empty(&self) -> (b: bool)
        ensures
            b == (spec_ip_len(self.targets()) == 0),
    {
        proof {
            use_type_invariant(self);
        }
        self.len == 0
    }

    /// Calls `callback` on every address of the list in order, stopping at
    /// the first error that it returns
    pub fn lazy_loop<F: FnMut(u32) -> Result<(), RLanLibError>>(&self, callback: F) -> (r: Result<(), RLanLibError>)
        requires
            forall|ip: u32| call_requires(callback, (ip,)),
        ensures
            r is Ok ==> forall|k: int| 0 <= k < self.ips().len() ==> call_ensures(callback, (#[trigger] self.ips()[k],), Ok::<(), RLanLibError>(())),
            r matches Err(e) ==> exists|k: int|
                0 <= k < self.ips().len() && call_ensures(callback, (#[trigger] self.ips()[k],), Err::<(), RLanLibError>(e))
                && forall|j: int| 0 <= j < k ==> call_ensures(callback, (#[trigger] self.ips()[j],), Ok::<(), RLanLibError>(())),
    {
        broadcast use vstd::function::group_function_axioms;
        let mut j: usize = 0;
        let ghost cb0 = callback;
        let mut cb = callback;
        while j < self.ranges.len()
            invariant
                j <= self.ranges@.len(),
                cb == cb0,
                cb0 == callback,
                forall|ip: u32| call_requires(cb, (ip,)),
                forall|k: int| 0 <= k < expand_ip_ranges(self.ranges@.take(j as int)).len() ==>
                    call_ensures(cb, (#[trigger] expand_ip_ranges(self.ranges@.take(j as int))[k],), Ok::<(), RLanLibError>(())),
            decreases self.ranges@.len() - j,
        {
            let (begin, end) = self.ranges[j];
            let ghost before = expand_ip_ranges(self.ranges@.take(j as int));
            assert(self.ranges@.take(j + 1).drop_last() =~= self.ranges@.take(j as int));
            let mut a: u64 = begin as u64;
            while a <= end as u64
                invariant
                    j < self.ranges@.len(),
                    (begin, end) == self.ranges@[j as int],
                    before == expand_ip_ranges(self.ranges@.take(j as int)),
                    begin as u64 <= a,
                    a <= end as u64 + 1 || a == begin as u64,
                    cb == cb0,
                    cb0 == callback,
                    forall|ip: u32| call_requires(cb, (ip,)),
                    forall|k: int| 0 <= k < before.len() ==> call_ensures(cb, (#[trigger] before[k],), Ok::<(), RLanLibError>(())),
                    forall|k: int| 0 <= k < a - begin ==> call_ensures(cb, (#[trigger] ip_range_seq(begin, end)[k],), Ok::<(), RLanLibError>(())),
                decreases end as u64 + 1 - a,
            {
                let ghost arg = a as u32;
                let res = cb(a as u32);
                assert(cb == cb0);
                assert(ip_range_seq(begin, end)[a - begin] == a as u32);
                if res.is_err() {
                    proof {
                        lemma_expand_prefix(self.ranges@, j as int);
                        let k = before.len() + (a - begin);
                        let now = expand_ip_ranges(self.ranges@.take(j + 1));
                        assert(now[k] == ip_range_seq(begin, end)[a - begin]);
                        assert(self.ips()[k] == arg);
                        assert forall|i: int| 0 <= i < k implies call_ensures(callback, (#[trigger] self.ips()[i],), Ok::<(), RLanLibError>(())) by {
                            assert(self.ips()[i] == now[i]);
                            if i < before.len() {
                                assert(now[i] == before[i]);
                            } else {
                                assert(now[i] == ip_range_seq(begin, end)[i - before.len()]);
                            }
                        }
                    }
                    return res;
                }
                assert(res->Ok_0 == ());
                a = a + 1;
            }
            proof {
                let now = expand_ip_ranges(self.ranges@.take(j + 1));
                assert(now =~= before + ip_range_seq(begin, end));
            }
            j = j + 1;
        }
        assert(self.ranges@.take(j as int) =~= self.ranges@);
        Ok(())
    }
}

proof fn lemma_expand_take_prefix(rs: Seq<(u32, u32)>, m: int)
    requires
        0 <= m <= rs.len(),
    ensures
        expand_ip_ranges(rs.take(m)).len() <= expand_ip_ranges(rs).len(),
        forall|k: int| 0 <= k < expand_ip_ranges(rs.take(m)).len() ==>
            expand_ip_ranges(rs)[k] == #[trigger] expand_ip_ranges(rs.take(m))[k],
    decreases rs.len(),
{
    if m == rs.len() {
        assert(rs.take(m) =~= rs);
    } else {
        let d = rs.drop_last();
        assert(d.take(m) =~= rs.take(m));
        lemma_expand_take_prefix(d, m);
    }
}

proof fn lemma_expand_prefix(rs: Seq<(u32, u32)>, j: int)
    requires
        0 <= j < rs.len(),
    ensures
        expand_ip_ranges(rs.take(j + 1)) == expand_ip_ranges(rs.take(j)) + ip_range_seq(rs[j].0, rs[j].1),
        forall|k: int| 0 <= k < expand_ip_ranges(rs.take(j + 1)).len() ==>
            expand_ip_ranges(rs)[k] == #[trigger] expand_ip_ranges(rs.take(j + 1))[k],
        expand_ip_ranges(rs.take(j + 1)).len() <= expand_ip_ranges(rs).len(),
{
    assert(rs.take(j + 1).drop_last() =~= rs.take(j));
    lemma_expand_take_prefix(rs, j + 1);
}

proof fn lemma_ip_ranges_prefix_err(list: Seq<Seq<char>>, n: int)
    requires
        0 < n <= list.len(),
        spec_ip_ranges(list.take(n)) is Err,
    ensures
        spec_ip_ranges(list) == spec_ip_ranges(list.take(n)),
    decreases list.len() - n,
{
    if n < list.len() {
        assert(list.take(n + 1).drop_last() =~= list.take(n));
        lemma_ip_ranges_prefix_err(list, n + 1);
    } else {
        assert(list.take(n) =~= list);
    }
}

/// Law: the length of a list of addresses and ranges (no CIDR block) is
/// the number of addresses `lazy_loop` visits for it: every address of a
/// range counts, and an empty range none
pub proof fn lemma_len_counts_every_visited_address(list: Seq<Seq<char>>)
    requires
        spec_ip_targets(list) is Ok,
        forall|i: int| 0 <= i < list.len() ==> find_char(#[trigger] list[i], '/') >= list[i].len(),
    ensures
        spec_ip_len(list) == spec_ip_targets(list)->Ok_0.len(),
    decreases list.len(),
{
    if list.len() > 0 {
        let init = list.drop_last();
        let rs = spec_ip_ranges(list)->Ok_0;
        let rs0 = spec_ip_ranges(init)->Ok_0;
        let r = spec_ip_range(list.last())->Ok_0;
        assert(spec_ip_ranges(init) is Ok);
        assert(rs == rs0.push(r));
        assert forall|i: int| 0 <= i < init.len() implies find_char(#[trigger] init[i], '/') >= init[i].len() by {
            assert(init[i] == list[i]);
        }
        lemma_len_counts_every_visited_address(init);
        assert(rs.drop_last() =~= rs0);
        assert(list.last() == list[list.len() - 1]);
    }
}

/// Law: a range written as two dotted addresses joined by `-` is a valid
/// target; `lazy_loop` visits every address from the first to the last in
/// ascending order (none when the first is larger), and the list's length
/// counts each of them
pub proof fn lemma_ip_range_names_every_address(first: u32, last: u32)
    ensures
        ({
            let t = crate::net::ipv4_text(first) + seq!['-'] + crate::net::ipv4_text(last);
            let r = spec_ip_targets(seq![t]);
            &&& r is Ok
            &&& r->Ok_0.len() == if first <= last { last - first + 1 } else { 0 }
            &&& forall|i: int| 0 <= i < r->Ok_0.len() ==> r->Ok_0[i] == first + i
            &&& spec_ip_len(seq![t]) == r->Ok_0.len()
        }),
{
    let a = crate::net::ipv4_text(first);
    let b = crate::net::ipv4_text(last);
    let t = a + seq!['-'] + b;
    crate::text::lemma_ipv4_text_parses_back(first);
    crate::text::lemma_ipv4_text_parses_back(last);
    crate::text::lemma_ipv4_text_chars(first);
    crate::text::lemma_ipv4_text_chars(last);
    assert forall|j: int| 0 <= j < a.len() implies t[j] != '-' by {
        assert(t[j] == a[j]);
    }
    crate::text::lemma_char_at(t, '-', 0, a.len() as int);
    let rest = t.skip(a.len() as int + 1);
    assert(rest =~= b);
    crate::text::lemma_char_at(rest, '-', 0, b.len() as int);
    assert(t.take(a.len() as int) =~= a);
    assert(rest.take(b.len() as int) =~= b);
    assert(split_first_two(t, '-') == (a, b));
    assert(spec_ip_range(t) == Ok::<(u32, u32), IpTargetErrorKind>((first, last)));
    let l = seq![t];
    assert(l.drop_last() =~= Seq::<Seq<char>>::empty());
    assert(l.last() == t);
    assert(spec_ip_ranges(Seq::<Seq<char>>::empty()) == Ok::<Seq<(u32, u32)>, (int, IpTargetErrorKind)>(Seq::empty()));
    assert(Seq::<(u32, u32)>::empty().push((first, last)) =~= seq![(first, last)]);
    assert(spec_ip_ranges(l) == Ok::<Seq<(u32, u32)>, (int, IpTargetErrorKind)>(seq![(first, last)]));
    let rs = seq![(first, last)];
    assert(rs.drop_last() =~= Seq::<(u32, u32)>::empty());
    assert(rs.last() == (first, last));
    assert(expand_ip_ranges(Seq::<(u32, u32)>::empty()) == Seq::<u32>::empty());
    assert(expand_ip_ranges(rs) =~= ip_range_seq(first, last));
    assert(spec_ip_len(Seq::<Seq<char>>::empty()) == 0);
}

/// A list of one target that parses visits the addresses of its range and
/// has the target's size as its length
proof fn lemma_single_target(t: Seq<char>)
    requires
        spec_ip_range(t) is Ok,
    ensures
        spec_ip_targets(seq![t]) == Ok::<Seq<u32>, (int, IpTargetErrorKind)>(
            ip_range_seq(spec_ip_range(t)->Ok_0.0, spec_ip_range(t)->Ok_0.1),
        ),
        spec_ip_len(seq![t]) == spec_ip_size(t),
{
    let r = spec_ip_range(t)->Ok_0;
    let l = seq![t];
    assert(l.drop_last() =~= Seq::<Seq<char>>::empty());
    assert(l.last() == t);
    assert(spec_ip_ranges(Seq::<Seq<char>>::empty()) == Ok::<Seq<(u32, u32)>, (int, IpTargetErrorKind)>(Seq::empty()));
    assert(Seq::<(u32, u32)>::empty().push(r) =~= seq![r]);
    let rs = seq![r];
    assert(rs.drop_last() =~= Seq::<(u32, u32)>::empty());
    assert(rs.last() == r);
    assert(expand_ip_ranges(Seq::<(u32, u32)>::empty()) == Seq::<u32>::empty());
    assert(expand_ip_ranges(rs) =~= ip_range_seq(r.0, r.1));
    assert(spec_ip_len(Seq::<Seq<char>>::empty()) == 0);
}

/// The block of prefix `p` around `a` spans 2^(32-p) addresses: its
/// broadcast address is its network address plus 2^(32-p) - 1
proof fn lemma_block_span(a: u32, p: u8)
    requires
        p <= 32,
    ensures
        (a | !netmask(p)) as int - (a & netmask(p)) as int + 1 == pow2((32 - p) as nat),
        (a | !netmask(p)) as int - (a & netmask(p)) as int == !netmask(p) as int,
{
    let m = netmask(p);
    if p == 0 {
        assert(m == 0);
        assert(a & 0 == 0 && a | !0u32 == 0xffff_ffff && !0u32 == 0xffff_ffff) by (bit_vector);
        vstd::arithmetic::power2::lemma2_to64();
    } else {
        let sh: u32 = (32 - p) as u32;
        assert(m == 0xffff_ffffu32 << sh);
        assert((a | !m) - (a & m) == !m && (a | !m) >= (a & m) && !m < 0xffff_ffff && !m + 1 == (1u32 << sh)) by (bit_vector)
            requires
                m == 0xffff_ffffu32 << sh,
                sh < 32,
        ;
        vstd::bits::lemma_u32_pow2_no_overflow(sh as nat);
        vstd::bits::lemma_u32_shl_is_mul(1, sh);
    }
}

/// Law: a CIDR block `a/p` counts all of its 2^(32-p) addresses in the
/// length of a list; `lazy_loop` visits all of them but the network and
/// broadcast addresses when `p` is at most 30, and all of them for /31
/// and /32
pub proof fn lemma_cidr_block_counts(t: Seq<char>)
    requires
        find_char(t, '-') >= t.len(),
        spec_ipnet_parse(t) is Some,
    ensures
        ({
            let p = spec_ipnet_parse(t)->Some_0.1;
            let size = pow2((32 - p) as nat);
            let r = spec_ip_targets(seq![t]);
            &&& r is Ok
            &&& spec_ip_len(seq![t]) == size
            &&& r->Ok_0.len() == if p <= 30 { size - 2 } else { size as int }
        }),
{
    let (a, p) = spec_ipnet_parse(t)->Some_0;
    lemma_ipnet_prefix_bounded(t);
    assert(find_char(t, '/') < t.len());
    assert(spec_ip_range(t) == Ok::<(u32, u32), IpTargetErrorKind>(spec_cidr_hosts(a, p)));
    lemma_single_target(t);
    lemma_block_span(a, p);
    let m = netmask(p);
    let network = a & m;
    let broadcast = a | !m;
    if p <= 30 {
        if p > 0 {
            let sh: u32 = (32 - p) as u32;
            assert(m == 0xffff_ffffu32 << sh);
            assert(!m >= 3) by (bit_vector)
                requires
                    m == 0xffff_ffffu32 << sh,
                    2 <= sh < 32,
            ;
        } else {
            assert(m == 0);
            assert(!0u32 == 0xffff_ffff) by (bit_vector);
        }
        assert(network < 0xffff_ffff);
        assert(broadcast > 0);
    }
}

/// Law: a CIDR block written as an address's dotted text, `/` and a
/// prefix length up to 32 in decimal reads as that address and prefix
pub proof fn lemma_cidr_text_reads_back(ip: u32, prefix: u8)
    requires
        prefix <= 32,
    ensures
        spec_ipnet_parse(crate::net::ipv4_text(ip) + seq!['/'] + crate::net::decimal(prefix as nat)) == Some((ip, prefix)),
{
    let a = (ip / 0x100_0000) as nat;
    let b = ((ip / 0x1_0000) % 256) as nat;
    let c = ((ip / 256) % 256) as nat;
    let d = (ip % 256) as nat;
    let da = crate::net::decimal(a);
    let db = crate::net::decimal(b);
    let dc = crate::net::decimal(c);
    let dd = crate::net::decimal(d);
    crate::text::lemma_decimal_octet(a);
    crate::text::lemma_decimal_octet(b);
    crate::text::lemma_decimal_octet(c);
    crate::text::lemma_decimal_octet(d);
    crate::text::lemma_ipv4_text_chars(ip);
    let dot = seq!['.'];
    let s = da + dot + db + dot + dc + dot + dd;
    assert(crate::net::ipv4_text(ip) == s);
    let dp = crate::net::decimal(prefix as nat);
    crate::text::lemma_decimal_is_digits(prefix as nat);
    let t = s + seq!['/'] + dp;
    assert forall|j: int| 0 <= j < s.len() implies t[j] != '/' by {
        assert(t[j] == s[j]);
    }
    crate::text::lemma_char_at(t, '/', 0, s.len() as int);
    assert(t.take(s.len() as int) =~= s);
    assert(t.skip(s.len() as int + 1) =~= dp);
    // the prefix: one or two digits, value at most 32
    assert(dp.len() <= 2) by {
        if prefix >= 10 {
            assert(crate::net::decimal((prefix / 10) as nat).len() == 1);
        }
    }
    lemma_prefix_digits(prefix);
    // the address
    let k0 = da.len() as int;
    let p1 = k0 + 1;
    let k1 = p1 + db.len();
    let p2 = k1 + 1;
    let k2 = p2 + dc.len();
    let p3 = k2 + 1;
    let k3 = p3 + dd.len();
    assert(k3 == s.len());
    assert forall|j: int| 0 <= j < k0 implies s[j] != '.' by {
        assert(s[j] == da[j]);
    }
    assert forall|j: int| p1 <= j < k1 implies s[j] != '.' by {
        assert(s[j] == db[j - p1]);
    }
    assert forall|j: int| p2 <= j < k2 implies s[j] != '.' by {
        assert(s[j] == dc[j - p2]);
    }
    assert forall|j: int| p3 <= j < k3 implies s[j] != '.' by {
        assert(s[j] == dd[j - p3]);
    }
    crate::text::lemma_char_at(s, '.', 0, k0);
    crate::text::lemma_char_at(s, '.', p1, k1);
    crate::text::lemma_char_at(s, '.', p2, k2);
    crate::text::lemma_char_at(s, '.', p3, k3);
    assert(s.subrange(0, k0) =~= da);
    assert(s.subrange(p1, k1) =~= db);
    assert(s.subrange(p2, k2) =~= dc);
    assert(s.subrange(p3, k3) =~= dd);
    let v1 = a as int;
    let v2 = v1 * 256 + b;
    let v3 = v2 * 256 + c;
    let v4 = v3 * 256 + d;
    assert(ipnet_addr_from(s, p3, 3, v3) == Some(v4));
    assert(ipnet_addr_from(s, p2, 2, v2) == Some(v4));
    assert(ipnet_addr_from(s, p1, 1, v1) == Some(v4));
    assert(ipnet_addr_from(s, 0, 0, 0) == Some(v4));
    assert(v4 == ip) by (nonlinear_arith)
        requires
            a == ip / 0x100_0000,
            b == (ip / 0x1_0000) % 256,
            c == (ip / 256) % 256,
            d == ip % 256,
            v4 == ((a * 256 + b) * 256 + c) * 256 + d,
            0 <= ip < 0x1_0000_0000,
    ;
}

/// The decimal text of a prefix length reads as that length under the
/// bound of 32
proof fn lemma_prefix_digits(prefix: u8)
    requires
        prefix <= 32,
    ensures
        parse_digits_from(crate::net::decimal(prefix as nat), 0, 0, 32) == Ok::<int, crate::error::IntErrorKind>(prefix as int),
{
    let dp = crate::net::decimal(prefix as nat);
    if prefix < 10 {
        assert(dp =~= seq![((prefix + 48) as u8) as char]);
        assert(parse_digits_from(dp, 1, prefix as int, 32) == Ok::<int, crate::error::IntErrorKind>(prefix as int));
    } else {
        let hi = prefix / 10;
        let lo = prefix % 10;
        assert(crate::net::decimal(hi as nat) =~= seq![((hi + 48) as u8) as char]);
        assert(dp =~= seq![((hi + 48) as u8) as char, ((lo + 48) as u8) as char]);
        assert(hi * 10 + lo == prefix);
        assert(parse_digits_from(dp, 2, prefix as int, 32) == Ok::<int, crate::error::IntErrorKind>(prefix as int));
        assert(parse_digits_from(dp, 1, hi as int, 32) == Ok::<int, crate::error::IntErrorKind>(prefix as int));
    }
}

} // verus!
