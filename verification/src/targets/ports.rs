//! Provides helpers for managing port target lists

use std::sync::Arc;
use vstd::prelude::*;

use crate::error::{IntErrorKind, RLanLibError, is_port_parse_error};
use crate::text::{find_char, parse_u16, spec_parse_u16, split_first_two, split_two};

verus! {

/// The inclusive port range that one target names: `"22"` names `22..=22`,
/// `"1-1024"` names `1..=1024`; the text after a second `-` is ignored.
pub open spec fn spec_port_range(t: Seq<char>) -> Result<(u16, u16), IntErrorKind> {
    if find_char(t, '-') < t.len() {
        let (a, b) = split_first_two(t, '-');
        match spec_parse_u16(a) {
            Err(e) => Err(e),
            Ok(begin) => match spec_parse_u16(b) {
                Err(e) => Err(e),
                Ok(end) => Ok((begin, end)),
            },
        }
    } else {
        match spec_parse_u16(t) {
            Err(e) => Err(e),
            Ok(p) => Ok((p, p)),
        }
    }
}

/// The ranges that a list of targets names, or the index of the first
/// target that does not parse together with the reason
pub open spec fn spec_port_ranges(list: Seq<Seq<char>>) -> Result<Seq<(u16, u16)>, (int, IntErrorKind)>
    decreases list.len(),
{
    if list.len() == 0 {
        Ok(Seq::empty())
    } else {
        match spec_port_ranges(list.drop_last()) {
            Err(x) => Err(x),
            Ok(rs) => match spec_port_range(list.last()) {
                Err(e) => Err((list.len() - 1, e)),
                Ok(r) => Ok(rs.push(r)),
            },
        }
    }
}

/// The ports of `begin..=end` in ascending order (none when `begin > end`)
pub open spec fn port_range_seq(begin: u16, end: u16) -> Seq<u16> {
    if begin <= end {
        Seq::new((end - begin + 1) as nat, |i: int| (begin + i) as u16)
    } else {
        Seq::empty()
    }
}

/// All ports of a list of ranges, range by range
pub open spec fn expand_port_ranges(rs: Seq<(u16, u16)>) -> Seq<u16>
    decreases rs.len(),
{
    if rs.len() == 0 {
        Seq::empty()
    } else {
        expand_port_ranges(rs.drop_last()) + port_range_seq(rs.last().0, rs.last().1)
    }
}

/// The ports that a list of targets names, in the order in which
/// `lazy_loop` visits them; `Err` holds the index of the first target that
/// does not parse and why
pub open spec fn spec_port_targets(list: Seq<Seq<char>>) -> Result<Seq<u16>, (int, IntErrorKind)> {
    match spec_port_ranges(list) {
        Ok(rs) => Ok(expand_port_ranges(rs)),
        Err(x) => Err(x),
    }
}

/// Counting the ports of the targets, up to the first target that does
/// not parse, never passes `usize::MAX`
pub open spec fn port_count_fits(list: Seq<Seq<char>>) -> bool {
    forall|n: int| 0 <= n <= list.len() ==> (#[trigger] spec_port_ranges(list.take(n)) matches Ok(rs) ==> expand_port_ranges(rs).len() <= usize::MAX)
}

proof fn lemma_port_ranges_take_err(list: Seq<Seq<char>>, n: int, m: int)
    requires
        0 < n <= m <= list.len(),
        spec_port_ranges(list.take(n)) is Err,
    ensures
        spec_port_ranges(list.take(m)) is Err,
    decreases m - n,
{
    if m > n {
        lemma_port_ranges_take_err(list, n, m - 1);
        assert(list.take(m).drop_last() =~= list.take(m - 1));
    }
}

proof fn lemma_port_fits_before_err(list: Seq<Seq<char>>, n: int)
    requires
        0 < n <= list.len(),
        spec_port_ranges(list.take(n)) is Err,
        forall|m: int| 0 <= m < n ==> (#[trigger] spec_port_ranges(list.take(m)) matches Ok(rs) ==> expand_port_ranges(rs).len() <= usize::MAX),
    ensures
        port_count_fits(list),
{
    assert forall|m: int| 0 <= m <= list.len() implies (#[trigger] spec_port_ranges(list.take(m)) matches Ok(rs) ==> expand_port_ranges(rs).len() <= usize::MAX) by {
        if m >= n {
            lemma_port_ranges_take_err(list, n, m);
        }
    }
}

/// `r` is what `PortTargets::new` gives for the targets `list`
pub open spec fn port_targets_result(list: Seq<Seq<char>>, r: Result<Arc<PortTargets>, RLanLibError>) -> bool {
    match spec_port_targets(list) {
        Ok(ports) => r matches Ok(t) && t.ports() == ports && t.targets() == list,
        Err((i, kind)) => r matches Err(e) && is_port_parse_error(e, list[i], kind),
    }
}

/// Represents a list of Port targets
///
/// Rather than storing all ports of a range such as 1-65535, only the
/// targets and their ranges are stored, and the ports are visited when
/// needed.
#[derive(Debug)]
pub struct PortTargets {
    list: Vec<String>,
    ranges: Vec<(u16, u16)>,
    len: usize,
}

impl PortTargets {
    #[verifier::type_invariant]
    spec fn inv(self) -> bool {
        &&& spec_port_ranges(self.list@.map_values(|s: String| s@)) == Ok::<Seq<(u16, u16)>, (int, IntErrorKind)>(self.ranges@)
        &&& self.len == expand_port_ranges(self.ranges@).len()
    }

    /// The ports of this list, in the order in which they are visited
    pub closed spec fn ports(&self) -> Seq<u16> {
        expand_port_ranges(self.ranges@)
    }

    /// The targets this list was made from
    pub closed spec fn targets(&self) -> Seq<Seq<char>> {
        self.list@.map_values(|s: String| s@)
    }
}

/// Parses one port target into the inclusive range it names
fn port_range(t: &str) -> (r: Result<(u16, u16), IntErrorKind>)
    ensures
        r == spec_port_range(t@),
{
    match split_two(t, '-') {
        Some((a, b)) => {
            let begin = parse_u16(a)?;
            let end = parse_u16(b)?;
            Ok((begin, end))
        },
        None => {
            let p = parse_u16(t)?;
            Ok((p, p))
        },
    }
}

impl PortTargets {
    /// Builds the list, or `None` when the count of its ports passes
    /// `usize::MAX` before a target fails to parse
    fn build(list: Vec<String>) -> (r: Option<Result<Arc<Self>, RLanLibError>>)
        ensures
            r is None <==> !port_count_fits(list@.map_values(|s: String| s@)),
            r matches Some(res) ==> port_targets_result(list@.map_values(|s: String| s@), res),
    {
        let ghost views = list@.map_values(|s: String| s@);
        let mut ranges: Vec<(u16, u16)> = Vec::new();
        let mut len: usize = 0;
        let mut i: usize = 0;
        while i < list.len()
            invariant
                i <= list@.len(),
                views == list@.map_values(|s: String| s@),
                spec_port_ranges(views.take(i as int)) == Ok::<Seq<(u16, u16)>, (int, IntErrorKind)>(ranges@),
                ranges@.len() == i,
                len == expand_port_ranges(ranges@).len(),
                forall|m: int| 0 <= m <= i ==> (#[trigger] spec_port_ranges(views.take(m)) matches Ok(rs) ==> expand_port_ranges(rs).len() <= usize::MAX),
            decreases list@.len() - i,
        {
            let t = list[i].as_str();
            assert(views.take(i + 1).drop_last() =~= views.take(i as int));
            assert(views.take(i + 1).last() == t@);
            match port_range(t) {
                Ok((begin, end)) => {
                    let count: u64 = if begin <= end { (end - begin) as u64 + 1 } else { 0 };
                    let ghost old_ranges = ranges@;
                    ranges.push((begin, end));
                    assert(ranges@.drop_last() =~= old_ranges);
                    if count as u128 + len as u128 > usize::MAX as u128 {
                        proof {
                            assert(spec_port_ranges(views.take(i + 1)) == Ok::<Seq<(u16, u16)>, (int, IntErrorKind)>(ranges@));
                            assert(expand_port_ranges(ranges@).len() > usize::MAX);
                        }
                        return None;
                    }
                    len = len + count as usize;
                    assert(spec_port_ranges(views.take(i + 1)) == Ok::<Seq<(u16, u16)>, (int, IntErrorKind)>(ranges@));
                },
                Err(kind) => {
                    proof {
                        lemma_port_ranges_prefix_err(views, i as int + 1);
                        lemma_port_fits_before_err(views, i as int + 1);
                    }
                    return Some(Err(RLanLibError::from_port_parse_int_err(t, kind)));
                },
            }
            i = i + 1;
        }
        assert(views.take(i as int) =~= views);
        Some(Ok(Arc::new(PortTargets { list, ranges, len })))
    }

    /// Returns a new instance of PortTargets using the provided list, or
    /// the scanning error for the first target that is not a port or a
    /// port range
    pub fn new(list: Vec<String>) -> (r: Result<Arc<Self>, RLanLibError>)
        requires
            port_count_fits(list@.map_values(|s: String| s@)),
        ensures
            port_targets_result(list@.map_values(|s: String| s@), r),
    {
        match Self::build(list) {
            Some(r) => r,
            None => vstd::pervasive::unreached(),
        }
    }

    /// As `new`, but `None` where the number of ports the list names would
    /// not fit in a `usize`
    pub fn checked_new(list: Vec<String>) -> (r: Option<Result<Arc<Self>, RLanLibError>>)
        ensures
            r is None <==> !port_count_fits(list@.map_values(|s: String| s@)),
            r matches Some(res) ==> port_targets_result(list@.map_values(|s: String| s@), res),
    {
        Self::build(list)
    }

    /// Returns true if the list is empty
    pub fn is_empty(&self) -> (b: bool)
        ensures
            b == (self.ports().len() == 0),
    {
        proof {
            use_type_invariant(self);
        }
        self.len == 0
    }

    /// Returns the true length of the target list: `["22-24"]` has length 3
    pub fn len(&self) -> (n: usize)
        ensures
            n == self.ports().len(),
    {
        proof {
            use_type_invariant(self);
        }
        self.len
    }

    /// Calls `cb` on every port of the list in order, stopping at the first
    /// error that `cb` returns
    pub fn lazy_loop<F: FnMut(u16) -> Result<(), RLanLibError>>(&self, callback: F) -> (r: Result<(), RLanLibError>)
        requires
            forall|p: u16| call_requires(callback, (p,)),
        ensures
            r is Ok ==> forall|k: int| 0 <= k < self.ports().len() ==> call_ensures(callback, (#[trigger] self.ports()[k],), Ok::<(), RLanLibError>(())),
            r matches Err(e) ==> exists|k: int|
                0 <= k < self.ports().len() && call_ensures(callback, (#[trigger] self.ports()[k],), Err::<(), RLanLibError>(e))
                && forall|j: int| 0 <= j < k ==> call_ensures(callback, (#[trigger] self.ports()[j],), Ok::<(), RLanLibError>(())),
    {
        broadcast use vstd::function::group_function_axioms;
        let mut j: usize = 0;
        let ghost cb0 = callback;
        let mut cb = callback;
        while j < self.ranges.len()
            invariant
                j <= self.ranges@.len(),
                cb == cb0,
                cb0 == callback,
                forall|p: u16| call_requires(cb, (p,)),
                forall|k: int| 0 <= k < expand_port_ranges(self.ranges@.take(j as int)).len() ==>
                    call_ensures(cb, (#[trigger] expand_port_ranges(self.ranges@.take(j as int))[k],), Ok::<(), RLanLibError>(())),
            decreases self.ranges@.len() - j,
        {
            let (begin, end) = self.ranges[j];
            let ghost before = expand_port_ranges(self.ranges@.take(j as int));
            assert(self.ranges@.take(j + 1).drop_last() =~= self.ranges@.take(j as int));
            let mut p: u32 = begin as u32;
            while p <= end as u32
                invariant
                    j < self.ranges@.len(),
                    (begin, end) == self.ranges@[j as int],
                    before == expand_port_ranges(self.ranges@.take(j as int)),
                    begin as u32 <= p,
                    p <= end as u32 + 1 || p == begin as u32,
                    cb == cb0,
                cb0 == callback,
                    forall|q: u16| call_requires(cb, (q,)),
                    forall|k: int| 0 <= k < before.len() ==> call_ensures(cb, (#[trigger] before[k],), Ok::<(), RLanLibError>(())),
                    forall|k: int| 0 <= k < p - begin ==> call_ensures(cb, (#[trigger] port_range_seq(begin, end)[k],), Ok::<(), RLanLibError>(())),
                decreases end as u32 + 1 - p,
            {
                let ghost arg = p as u16;
                let res = cb(p as u16);
                assert(cb == cb0);
                assert(call_ensures(cb, (arg,), res));
                assert(port_range_seq(begin, end)[p - begin] == p as u16);
                if res.is_err() {
                    proof {
                        lemma_expand_prefix(self.ranges@, j as int);
                        let k = before.len() + (p - begin);
                        let now = expand_port_ranges(self.ranges@.take(j + 1));
                        assert(now[k] == port_range_seq(begin, end)[p - begin]);
                        assert(self.ports()[k] == arg);
                        assert forall|i: int| 0 <= i < k implies call_ensures(callback, (#[trigger] self.ports()[i],), Ok::<(), RLanLibError>(())) by {
                            assert(self.ports()[i] == now[i]);
                            if i < before.len() {
                                assert(now[i] == before[i]);
                            } else {
                                assert(now[i] == port_range_seq(begin, end)[i - before.len()]);
                            }
                        }
                    }
                    return res;
                }
                assert(res is Ok);
                assert(res->Ok_0 == ());
                assert(res == Ok::<(), RLanLibError>(()));
                p = p + 1;
            }
            proof {
                let now = expand_port_ranges(self.ranges@.take(j + 1));
                assert(now =~= before + port_range_seq(begin, end));
            }
            j = j + 1;
        }
        assert(self.ranges@.take(j as int) =~= self.ranges@);
        Ok(())
    }
}

proof fn lemma_expand_take_prefix(rs: Seq<(u16, u16)>, m: int)
    requires
        0 <= m <= rs.len(),
    ensures
        expand_port_ranges(rs.take(m)).len() <= expand_port_ranges(rs).len(),
        forall|k: int| 0 <= k < expand_port_ranges(rs.take(m)).len() ==>
            expand_port_ranges(rs)[k] == #[trigger] expand_port_ranges(rs.take(m))[k],
    decreases rs.len(),
{
    if m == rs.len() {
        assert(rs.take(m) =~= rs);
    } else {
        let d = rs.drop_last();
        assert(d.take(m) =~= rs.take(m));
        lemma_expand_take_prefix(d, m);
    }
}

proof fn lemma_expand_prefix(rs: Seq<(u16, u16)>, j: int)
    requires
        0 <= j < rs.len(),
    ensures
        expand_port_ranges(rs.take(j + 1)) == expand_port_ranges(rs.take(j)) + port_range_seq(rs[j].0, rs[j].1),
        forall|k: int| 0 <= k < expand_port_ranges(rs.take(j + 1)).len() ==>
            expand_port_ranges(rs)[k] == #[trigger] expand_port_ranges(rs.take(j + 1))[k],
        expand_port_ranges(rs.take(j + 1)).len() <= expand_port_ranges(rs).len(),
{
    assert(rs.take(j + 1).drop_last() =~= rs.take(j));
    lemma_expand_take_prefix(rs, j + 1);
}

proof fn lemma_port_ranges_prefix_err(list: Seq<Seq<char>>, n: int)
    requires
        0 < n <= list.len(),
        spec_port_ranges(list.take(n)) is Err,
    ensures
        spec_port_ranges(list) == spec_port_ranges(list.take(n)),
    decreases list.len() - n,
{
    if n < list.len() {
        assert(list.take(n + 1).drop_last() =~= list.take(n));
        lemma_port_ranges_prefix_err(list, n + 1);
    } else {
        assert(list.take(n) =~= list);
    }
}

/// Law: a port range written as two decimal ports joined by `-` (such as
/// the default `1-65535`) is a valid target that names every port from
/// the first to the last, in ascending order, and none when the first is
/// larger
pub proof fn lemma_port_range_names_every_port(first: u16, last: u16)
    ensures
        ({
            let t = crate::net::decimal(first as nat) + seq!['-'] + crate::net::decimal(last as nat);
            let r = spec_port_targets(seq![t]);
            &&& r is Ok
            &&& r->Ok_0.len() == if first <= last { last - first + 1 } else { 0 }
            &&& forall|i: int| 0 <= i < r->Ok_0.len() ==> r->Ok_0[i] == first + i
        }),
{
    let a = crate::net::decimal(first as nat);
    let b = crate::net::decimal(last as nat);
    let t = a + seq!['-'] + b;
    crate::text::lemma_parse_u16_reads_every_decimal(first);
    crate::text::lemma_parse_u16_reads_every_decimal(last);
    crate::text::lemma_decimal_is_digits(first as nat);
    crate::text::lemma_decimal_is_digits(last as nat);
    assert forall|j: int| 0 <= j < a.len() implies t[j] != '-' by {
        assert(t[j] == a[j]);
    }
    crate::text::lemma_char_at(t, '-', 0, a.len() as int);
    let rest = t.skip(a.len() as int + 1);
    assert(rest =~= b);
    crate::text::lemma_char_at(rest, '-', 0, b.len() as int);
    assert(t.take(a.len() as int) =~= a);
    assert(rest.take(b.len() as int) =~= b);
    assert(split_first_two(t, '-') == (a, b));
    assert(spec_port_range(t) == Ok::<(u16, u16), IntErrorKind>((first, last)));
    let l = seq![t];
    assert(l.drop_last() =~= Seq::<Seq<char>>::empty());
    assert(l.last() == t);
    assert(spec_port_ranges(Seq::<Seq<char>>::empty()) == Ok::<Seq<(u16, u16)>, (int, IntErrorKind)>(Seq::empty()));
    assert(Seq::<(u16, u16)>::empty().push((first, last)) =~= seq![(first, last)]);
    assert(spec_port_ranges(l) == Ok::<Seq<(u16, u16)>, (int, IntErrorKind)>(seq![(first, last)]));
    let rs = seq![(first, last)];
    assert(rs.drop_last() =~= Seq::<(u16, u16)>::empty());
    assert(rs.last() == (first, last));
    assert(expand_port_ranges(Seq::<(u16, u16)>::empty()) == Seq::<u16>::empty());
    assert(expand_port_ranges(rs) =~= port_range_seq(first, last));
}

} // verus!
