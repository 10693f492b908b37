//! Decimal number parsing on text, as the standard library does it for
//! unsigned integers.

use vstd::prelude::*;
use crate::error::IntErrorKind;

verus! {

/// `String::push`: appends one character to the end of the string
pub assume_specification[ String::push ](s: &mut String, ch: char)
    ensures
        final(s)@ == old(s)@.push(ch),
;

/// `c` is an ASCII decimal digit
pub open spec fn is_digit(c: char) -> bool {
    '0' <= c && c <= '9'
}

/// The value of an ASCII decimal digit
pub open spec fn digit_value(c: char) -> int {
    (c as int) - ('0' as int)
}

/// Reads the digits of `s` from position `i` on, with `acc` the value read
/// so far: the first non-digit is an `InvalidDigit`, and a value that
/// passes `max` is a `PosOverflow`, whichever comes first.
pub open spec fn parse_digits_from(s: Seq<char>, i: int, acc: int, max: int) -> Result<int, IntErrorKind>
    decreases s.len() - i,
{
    if i < 0 || i >= s.len() {
        Ok(acc)
    } else if !is_digit(s[i]) {
        Err(IntErrorKind::InvalidDigit)
    } else if acc * 10 + digit_value(s[i]) > max {
        Err(IntErrorKind::PosOverflow)
    } else {
        parse_digits_from(s, i + 1, acc * 10 + digit_value(s[i]), max)
    }
}

/// The result of parsing `s` as an unsigned integer no larger than `max`:
/// an optional leading `+`, then one or more decimal digits.
pub open spec fn spec_parse_uint(s: Seq<char>, max: int) -> Result<int, IntErrorKind> {
    if s.len() == 0 {
        Err(IntErrorKind::Empty)
    } else if s.len() == 1 && (s[0] == '+' || s[0] == '-') {
        Err(IntErrorKind::InvalidDigit)
    } else if s[0] == '+' {
        parse_digits_from(s, 1, 0, max)
    } else {
        parse_digits_from(s, 0, 0, max)
    }
}

/// `spec_parse_uint` for the range of a `u16`
pub open spec fn spec_parse_u16(s: Seq<char>) -> Result<u16, IntErrorKind> {
    match spec_parse_uint(s, 0xffff) {
        Ok(v) => Ok(v as u16),
        Err(e) => Err(e),
    }
}

pub proof fn lemma_parse_digits_bounded(s: Seq<char>, i: int, acc: int, max: int)
    requires
        0 <= acc <= max,
    ensures
        parse_digits_from(s, i, acc, max) matches Ok(v) ==> 0 <= v <= max,
    decreases s.len() - i,
{
    if 0 <= i < s.len() && is_digit(s[i]) && acc * 10 + digit_value(s[i]) <= max {
        lemma_parse_digits_bounded(s, i + 1, acc * 10 + digit_value(s[i]), max);
    }
}

pub proof fn lemma_spec_parse_uint_bounded(s: Seq<char>, max: int)
    requires
        0 <= max,
    ensures
        spec_parse_uint(s, max) matches Ok(v) ==> 0 <= v <= max,
{
    lemma_parse_digits_bounded(s, 0, 0, max);
    lemma_parse_digits_bounded(s, 1, 0, max);
}

/// Parses `s` as an unsigned integer no larger than `max`, as
/// `str::parse` does for unsigned integer types.
pub fn parse_uint(s: &str, max: u32) -> (r: Result<u32, IntErrorKind>)
    ensures
        match spec_parse_uint(s@, max as int) {
            Ok(v) => r == Ok::<u32, IntErrorKind>(v as u32),
            Err(e) => r == Err::<u32, IntErrorKind>(e),
        },
        r matches Ok(v) ==> v <= max,
{
    let n = s.unicode_len();
    if n == 0 {
        return Err(IntErrorKind::Empty);
    }
    let first = s.get_char(0);
    if n == 1 && (first == '+' || first == '-') {
        return Err(IntErrorKind::InvalidDigit);
    }
    let mut i: usize = if first == '+' { 1 } else { 0 };
    let ghost start: int = i as int;
    let mut acc: u32 = 0;
    proof {
        lemma_parse_digits_bounded(s@, start, 0, max as int);
    }
    while i < n
        invariant
            n == s@.len(),
            i <= n,
            acc <= max,
            spec_parse_uint(s@, max as int) == parse_digits_from(s@, i as int, acc as int, max as int),
        decreases n - i,
    {
        let c = s.get_char(i);
        if !('0' <= c && c <= '9') {
            return Err(IntErrorKind::InvalidDigit);
        }
        let d: u32 = (c as u32) - ('0' as u32);
        let next: u64 = (acc as u64) * 10 + (d as u64);
        if next > max as u64 {
            return Err(IntErrorKind::PosOverflow);
        }
        acc = next as u32;
        i = i + 1;
    }
    Ok(acc)
}

/// Parses `s` as a `u16`, as `s.parse::<u16>()` does.
pub fn parse_u16(s: &str) -> (r: Result<u16, IntErrorKind>)
    ensures
        r == spec_parse_u16(s@),
{
    proof {
        lemma_spec_parse_uint_bounded(s@, 0xffff);
    }
    match parse_uint(s, 0xffff) {
        Ok(v) => Ok(v as u16),
        Err(e) => Err(e),
    }
}

} // verus!

verus! {

/// Position of the first `c` in `s` at or after `i`, or `s.len()` when
/// there is none
pub open spec fn find_char_from(s: Seq<char>, c: char, i: int) -> int
    decreases s.len() - i,
{
    if i < 0 || i >= s.len() {
        s.len() as int
    } else if s[i] == c {
        i
    } else {
        find_char_from(s, c, i + 1)
    }
}

/// Position of the first `c` in `s`, or `s.len()` when there is none
pub open spec fn find_char(s: Seq<char>, c: char) -> int {
    find_char_from(s, c, 0)
}

/// The first two pieces of `s` split at `c`, as `s.split(c)` yields them,
/// when `s` holds `c` at all
pub open spec fn split_first_two(s: Seq<char>, c: char) -> (Seq<char>, Seq<char>) {
    let k = find_char(s, c);
    let rest = s.skip(k + 1);
    (s.take(k), rest.take(find_char(rest, c)))
}

pub proof fn lemma_find_char_from(s: Seq<char>, c: char, i: int)
    requires
        0 <= i <= s.len(),
    ensures
        i <= find_char_from(s, c, i) <= s.len(),
        find_char_from(s, c, i) < s.len() ==> s[find_char_from(s, c, i)] == c,
        forall|j: int| i <= j < find_char_from(s, c, i) ==> s[j] != c,
    decreases s.len() - i,
{
    if i < s.len() && s[i] != c {
        lemma_find_char_from(s, c, i + 1);
    }
}

/// Finds the first `c` in `s` at or after `from`, or `s@.len()`
pub fn find_char_exec(s: &str, c: char, from: usize) -> (k: usize)
    requires
        from <= s@.len(),
    ensures
        k == find_char_from(s@, c, from as int),
{
    let n = s.unicode_len();
    let mut i = from;
    while i < n
        invariant
            n == s@.len(),
            from <= i <= n,
            find_char_from(s@, c, from as int) == find_char_from(s@, c, i as int),
        decreases n - i,
    {
        if s.get_char(i) == c {
            return i;
        }
        i = i + 1;
    }
    i
}

/// Splits `s` at its first `c`, returning the piece before it and the
/// piece after it up to the next `c`, as `s.split(c)` yields its first two
/// items; `None` when `s` holds no `c`
pub fn split_two(s: &str, c: char) -> (r: Option<(&str, &str)>)
    ensures
        find_char(s@, c) < s@.len() <==> r is Some,
        r matches Some((a, b)) ==> (a@, b@) == split_first_two(s@, c),
{
    let n = s.unicode_len();
    let k = find_char_exec(s, c, 0);
    proof {
        lemma_find_char_from(s@, c, 0);
    }
    if k >= n {
        return None;
    }
    let k2 = find_char_exec(s, c, k + 1);
    proof {
        lemma_find_char_from(s@, c, k + 1);
        let rest = s@.skip(k + 1);
        lemma_find_char_from(rest, c, 0);
        assert(find_char_from(rest, c, 0) == k2 - (k + 1)) by {
            lemma_find_shift(s@, c, k as int + 1, k as int + 1);
        }
    }
    let a = s.substring_char(0, k);
    let b = s.substring_char(k + 1, k2);
    proof {
        assert(b@ =~= s@.skip(k + 1).take(k2 - (k + 1)));
        assert(a@ =~= s@.take(k as int));
    }
    Some((a, b))
}

proof fn lemma_find_shift(s: Seq<char>, c: char, off: int, i: int)
    requires
        0 <= off <= i <= s.len(),
    ensures
        find_char_from(s.skip(off), c, i - off) == find_char_from(s, c, i) - off,
    decreases s.len() - i,
{
    if i < s.len() && s[i] != c {
        lemma_find_shift(s, c, off, i + 1);
    }
}

} // verus!

verus! {

/// `g` is one octet of a dotted IPv4 address as the standard library reads
/// it: one to three decimal digits, no leading zero unless the octet is
/// `0`, and a value no larger than 255
pub open spec fn spec_octet_ok(g: Seq<char>) -> bool {
    &&& 1 <= g.len() <= 3
    &&& !(g.len() > 1 && g[0] == '0')
    &&& parse_digits_from(g, 0, 0, 255) is Ok
}

/// The value of an octet that `spec_octet_ok` accepts
pub open spec fn spec_octet_value(g: Seq<char>) -> int {
    match parse_digits_from(g, 0, 0, 255) {
        Ok(v) => v,
        Err(_) => 0,
    }
}

/// Reads the octets of a dotted IPv4 address from position `pos` of `s`,
/// `count` octets having been read with value `acc`
pub open spec fn parse_ipv4_from(s: Seq<char>, pos: int, count: int, acc: int) -> Option<int>
    decreases 4 - count,
{
    if count < 0 || count > 3 || pos < 0 || pos > s.len() {
        None
    } else {
        let k = find_char_from(s, '.', pos);
        let g = s.subrange(pos, k);
        if !spec_octet_ok(g) {
            None
        } else if count == 3 {
            if k == s.len() {
                Some(acc * 256 + spec_octet_value(g))
            } else {
                None
            }
        } else if k == s.len() {
            None
        } else {
            parse_ipv4_from(s, k + 1, count + 1, acc * 256 + spec_octet_value(g))
        }
    }
}

/// The address that `s` names in dotted notation (`a.b.c.d`), as
/// `Ipv4Addr::from_str` reads it, as a big-endian number
pub open spec fn spec_parse_ipv4(s: Seq<char>) -> Option<u32> {
    match parse_ipv4_from(s, 0, 0, 0) {
        Some(v) => Some(v as u32),
        None => None,
    }
}

proof fn lemma_parse_ipv4_bounded(s: Seq<char>, pos: int, count: int, acc: int)
    requires
        0 <= count <= 3,
        0 <= acc < pow256(count),
    ensures
        parse_ipv4_from(s, pos, count, acc) matches Some(v) ==> 0 <= v < 0x1_0000_0000,
    decreases 4 - count,
{
    if 0 <= pos <= s.len() {
        let k = find_char_from(s, '.', pos);
        let g = s.subrange(pos, k);
        lemma_parse_digits_bounded(g, 0, 0, 255);
        if spec_octet_ok(g) && count < 3 && k != s.len() {
            lemma_parse_ipv4_bounded(s, k + 1, count + 1, acc * 256 + spec_octet_value(g));
        }
    }
}

spec fn pow256(n: int) -> int {
    if n <= 0 { 1 } else if n == 1 { 256 } else if n == 2 { 65536 } else { 16777216 }
}

/// Reads an octet at `s[from..to]`
fn octet(s: &str, from: usize, to: usize) -> (r: Option<u32>)
    requires
        from <= to <= s@.len(),
    ensures
        spec_octet_ok(s@.subrange(from as int, to as int)) <==> r is Some,
        r matches Some(v) ==> v == spec_octet_value(s@.subrange(from as int, to as int)) && v <= 255,
{
    let ghost g = s@.subrange(from as int, to as int);
    proof {
        lemma_parse_digits_bounded(g, 0, 0, 255);
    }
    if to - from < 1 || to - from > 3 {
        return None;
    }
    if to - from > 1 && s.get_char(from) == '0' {
        return None;
    }
    let mut i = from;
    let mut acc: u32 = 0;
    while i < to
        invariant
            from <= i <= to <= s@.len(),
            g == s@.subrange(from as int, to as int),
            acc <= 255,
            parse_digits_from(g, 0, 0, 255) == parse_digits_from(g, i - from, acc as int, 255),
        decreases to - i,
    {
        let c = s.get_char(i);
        if !('0' <= c && c <= '9') {
            return None;
        }
        let next = acc * 10 + ((c as u32) - ('0' as u32));
        if next > 255 {
            return None;
        }
        acc = next;
        i = i + 1;
    }
    Some(acc)
}

/// Parses a dotted IPv4 address, as `Ipv4Addr::from_str` does, into its
/// big-endian number
pub fn parse_ipv4(s: &str) -> (r: Option<u32>)
    ensures
        r == spec_parse_ipv4(s@),
{
    let n = s.unicode_len();
    let mut pos: usize = 0;
    let mut count: usize = 0;
    let mut acc: u32 = 0;
    proof {
        lemma_parse_ipv4_bounded(s@, 0, 0, 0);
    }
    while count < 4
        invariant
            n == s@.len(),
            count <= 3,
            pos <= n,
            acc < pow256(count as int),
            parse_ipv4_from(s@, 0, 0, 0) == parse_ipv4_from(s@, pos as int, count as int, acc as int),
        decreases 4 - count,
    {
        let k = find_char_exec(s, '.', pos);
        proof {
            lemma_find_char_from(s@, '.', pos as int);
            lemma_parse_ipv4_bounded(s@, pos as int, count as int, acc as int);
        }
        let v = match octet(s, pos, k) {
            Some(v) => v,
            None => return None,
        };
        if count == 3 {
            if k == n {
                assert(acc * 256 + v < 0x1_0000_0000);
                return Some(acc * 256 + v);
            }
            return None;
        }
        if k == n {
            return None;
        }
        acc = acc * 256 + v;
        pos = k + 1;
        count = count + 1;
    }
    None
}

/// The characters of a text
pub fn chars_of(s: &str) -> (v: Vec<char>)
    ensures
        v@ == s@,
{
    let n = s.unicode_len();
    let mut v: Vec<char> = Vec::new();
    let mut i: usize = 0;
    while i < n
        invariant
            n == s@.len(),
            i <= n,
            v@ == s@.take(i as int),
        decreases n - i,
    {
        v.push(s.get_char(i));
        assert(v@ =~= s@.take(i as int + 1));
        i = i + 1;
    }
    assert(s@.take(n as int) =~= s@);
    v
}

/// The text of the characters
pub fn string_of(v: &Vec<char>) -> (s: String)
    ensures
        s@ == v@,
{
    let mut s = String::new();
    let mut i: usize = 0;
    while i < v.len()
        invariant
            i <= v@.len(),
            s@ == v@.take(i as int),
        decreases v@.len() - i,
    {
        s.push(v[i]);
        assert(s@ =~= v@.take(i as int + 1));
        i = i + 1;
    }
    assert(v@.take(i as int) =~= v@);
    s
}

/// The first `.` at or after `pos` is at `k` when the characters between
/// are no dots and `k` is a dot or the end
proof fn lemma_dot_at(s: Seq<char>, pos: int, k: int)
    requires
        0 <= pos <= k <= s.len(),
        forall|j: int| pos <= j < k ==> s[j] != '.',
        k == s.len() || s[k] == '.',
    ensures
        find_char_from(s, '.', pos) == k,
    decreases k - pos,
{
    if pos < k {
        lemma_dot_at(s, pos + 1, k);
    }
}

/// The decimal text of a value up to 255 is an octet the parser takes
/// back to that value
pub proof fn lemma_decimal_octet(n: nat)
    requires
        n <= 255,
    ensures
        1 <= crate::net::decimal(n).len() <= 3,
        forall|j: int| 0 <= j < crate::net::decimal(n).len() ==> #[trigger] crate::net::decimal(n)[j] != '.',
        spec_octet_ok(crate::net::decimal(n)),
        spec_octet_value(crate::net::decimal(n)) == n,
{
    let g = crate::net::decimal(n);
    if n < 10 {
        assert(g =~= seq![((n + 48) as u8) as char]);
        assert(parse_digits_from(g, 1, n as int, 255) == Ok::<int, IntErrorKind>(n as int));
    } else if n < 100 {
        let hi = n / 10;
        let lo = n % 10;
        assert(crate::net::decimal(hi) =~= seq![((hi + 48) as u8) as char]);
        assert(g =~= seq![((hi + 48) as u8) as char, ((lo + 48) as u8) as char]);
        assert(hi * 10 + lo == n);
        assert(parse_digits_from(g, 2, n as int, 255) == Ok::<int, IntErrorKind>(n as int));
        assert(parse_digits_from(g, 1, hi as int, 255) == Ok::<int, IntErrorKind>(n as int));
    } else {
        let h = n / 100;
        let t = (n / 10) % 10;
        let lo = n % 10;
        let q = n / 10;
        assert(q / 10 == h && q % 10 == t);
        assert(crate::net::decimal(h) =~= seq![((h + 48) as u8) as char]);
        assert(crate::net::decimal(q) =~= seq![((h + 48) as u8) as char, ((t + 48) as u8) as char]);
        assert(g =~= seq![((h + 48) as u8) as char, ((t + 48) as u8) as char, ((lo + 48) as u8) as char]);
        assert(h * 10 + t == q);
        assert(q * 10 + lo == n);
        assert(parse_digits_from(g, 3, n as int, 255) == Ok::<int, IntErrorKind>(n as int));
        assert(parse_digits_from(g, 2, q as int, 255) == Ok::<int, IntErrorKind>(n as int));
        assert(parse_digits_from(g, 1, h as int, 255) == Ok::<int, IntErrorKind>(n as int));
    }
}

/// The dotted text of an address reads back as that address: what
/// `ipv4_to_text` writes, `parse_ipv4` takes back
pub proof fn lemma_ipv4_text_parses_back(ip: u32)
    ensures
        spec_parse_ipv4(crate::net::ipv4_text(ip)) == Some(ip),
{
    let a = (ip / 0x100_0000) as nat;
    let b = ((ip / 0x1_0000) % 256) as nat;
    let c = ((ip / 256) % 256) as nat;
    let d = (ip % 256) as nat;
    let da = crate::net::decimal(a);
    let db = crate::net::decimal(b);
    let dc = crate::net::decimal(c);
    let dd = crate::net::decimal(d);
    lemma_decimal_octet(a);
    lemma_decimal_octet(b);
    lemma_decimal_octet(c);
    lemma_decimal_octet(d);
    let dot = seq!['.'];
    let s = da + dot + db + dot + dc + dot + dd;
    assert(crate::net::ipv4_text(ip) == s);
    let k0 = da.len() as int;
    let p1 = k0 + 1;
    let k1 = p1 + db.len();
    let p2 = k1 + 1;
    let k2 = p2 + dc.len();
    let p3 = k2 + 1;
    let k3 = p3 + dd.len();
    assert(k3 == s.len());
    assert forall|j: int| 0 <= j < k0 implies s[j] != '.' by {
        assert(s[j] == da[j]);
    }
    assert forall|j: int| p1 <= j < k1 implies s[j] != '.' by {
        assert(s[j] == db[j - p1]);
    }
    assert forall|j: int| p2 <= j < k2 implies s[j] != '.' by {
        assert(s[j] == dc[j - p2]);
    }
    assert forall|j: int| p3 <= j < k3 implies s[j] != '.' by {
        assert(s[j] == dd[j - p3]);
    }
    lemma_dot_at(s, 0, k0);
    lemma_dot_at(s, p1, k1);
    lemma_dot_at(s, p2, k2);
    lemma_dot_at(s, p3, k3);
    assert(s.subrange(0, k0) =~= da);
    assert(s.subrange(p1, k1) =~= db);
    assert(s.subrange(p2, k2) =~= dc);
    assert(s.subrange(p3, k3) =~= dd);
    let v1 = a as int;
    let v2 = v1 * 256 + b;
    let v3 = v2 * 256 + c;
    let v4 = v3 * 256 + d;
    assert(parse_ipv4_from(s, p3, 3, v3) == Some(v4));
    assert(parse_ipv4_from(s, p2, 2, v2) == Some(v4));
    assert(parse_ipv4_from(s, p1, 1, v1) == Some(v4));
    assert(parse_ipv4_from(s, 0, 0, 0) == Some(v4));
    assert(v4 == ip) by (nonlinear_arith)
        requires
            a == ip / 0x100_0000,
            b == (ip / 0x1_0000) % 256,
            c == (ip / 256) % 256,
            d == ip % 256,
            v4 == ((a * 256 + b) * 256 + c) * 256 + d,
            0 <= ip < 0x1_0000_0000,
    ;
}

/// The value of a run of decimal digits, most significant first
pub open spec fn digits_value(s: Seq<char>) -> int
    decreases s.len(),
{
    if s.len() == 0 {
        0
    } else {
        digits_value(s.drop_last()) * 10 + digit_value(s.last())
    }
}

/// Reading a run of digits from position `i` on, with the value of the
/// digits before `i` read so far, gives the value of the whole run when no
/// prefix of it passes `max`
proof fn lemma_parse_digit_run(s: Seq<char>, i: int, max: int)
    requires
        0 <= i <= s.len(),
        forall|j: int| 0 <= j < s.len() ==> is_digit(#[trigger] s[j]),
        forall|k: int| i <= k <= s.len() ==> #[trigger] digits_value(s.take(k)) <= max,
    ensures
        parse_digits_from(s, i, digits_value(s.take(i)), max) == Ok::<int, IntErrorKind>(digits_value(s)),
    decreases s.len() - i,
{
    if i < s.len() {
        assert(s.take(i + 1).drop_last() =~= s.take(i));
        assert(s.take(i + 1).last() == s[i]);
        assert(digits_value(s.take(i + 1)) <= max);
        lemma_parse_digit_run(s, i + 1, max);
    } else {
        assert(s.take(i) =~= s);
    }
}

/// The decimal text of `n` is a non-empty run of digits of value `n`, and
/// no prefix of it has a larger value
proof fn lemma_decimal_digits(n: nat)
    ensures
        crate::net::decimal(n).len() >= 1,
        forall|j: int| 0 <= j < crate::net::decimal(n).len() ==> is_digit(#[trigger] crate::net::decimal(n)[j]),
        digits_value(crate::net::decimal(n)) == n,
        forall|k: int| 0 <= k <= crate::net::decimal(n).len() ==> #[trigger] digits_value(crate::net::decimal(n).take(k)) <= n,
    decreases n,
{
    let d = crate::net::decimal(n);
    if n < 10 {
        assert(d.take(0) =~= Seq::<char>::empty());
        assert(d.take(1) =~= d);
        assert(d.drop_last() =~= Seq::<char>::empty());
        assert(digits_value(Seq::<char>::empty()) == 0);
        assert(digit_value(d.last()) == n);
        assert(digits_value(d) == n);
        assert(digits_value(d.take(0)) == 0);
    } else {
        let q = n / 10;
        let hd = crate::net::decimal(q);
        lemma_decimal_digits(q);
        assert(d.drop_last() =~= hd);
        assert(forall|j: int| 0 <= j < hd.len() ==> d[j] == hd[j]);
        assert(q * 10 + n % 10 == n);
        assert(digit_value(d.last()) == n % 10);
        assert(digits_value(d) == n);
        assert forall|k: int| 0 <= k <= d.len() implies #[trigger] digits_value(d.take(k)) <= n by {
            if k < d.len() {
                assert(d.take(k) =~= hd.take(k));
            } else {
                assert(d.take(k) =~= d);
            }
        }
    }
}

/// Law: every `u16` written in decimal reads back as itself, from `0`
/// up to `65535`
pub proof fn lemma_parse_u16_reads_every_decimal(n: u16)
    ensures
        spec_parse_u16(crate::net::decimal(n as nat)) == Ok::<u16, IntErrorKind>(n),
{
    let d = crate::net::decimal(n as nat);
    lemma_decimal_digits(n as nat);
    assert(d.take(0) =~= Seq::<char>::empty());
    assert(is_digit(d[0]));
    lemma_parse_digit_run(d, 0, 0xffff);
}

/// The decimal text of a number is a non-empty run of digits
pub proof fn lemma_decimal_is_digits(n: nat)
    ensures
        crate::net::decimal(n).len() >= 1,
        forall|j: int| 0 <= j < crate::net::decimal(n).len() ==> is_digit(#[trigger] crate::net::decimal(n)[j]),
{
    lemma_decimal_digits(n);
}

/// The first `c` at or after `pos` is at `k` when the characters between
/// are other characters and `k` is a `c` or the end
pub proof fn lemma_char_at(s: Seq<char>, c: char, pos: int, k: int)
    requires
        0 <= pos <= k <= s.len(),
        forall|j: int| pos <= j < k ==> s[j] != c,
        k == s.len() || s[k] == c,
    ensures
        find_char_from(s, c, pos) == k,
    decreases k - pos,
{
    if pos < k {
        lemma_char_at(s, c, pos + 1, k);
    }
}

/// The dotted text of an address holds only digits and dots
pub proof fn lemma_ipv4_text_chars(ip: u32)
    ensures
        forall|j: int| 0 <= j < crate::net::ipv4_text(ip).len() ==> is_digit(#[trigger] crate::net::ipv4_text(ip)[j])
            || crate::net::ipv4_text(ip)[j] == '.',
{
    let da = crate::net::decimal((ip / 0x100_0000) as nat);
    let db = crate::net::decimal(((ip / 0x1_0000) % 256) as nat);
    let dc = crate::net::decimal(((ip / 256) % 256) as nat);
    let dd = crate::net::decimal((ip % 256) as nat);
    lemma_decimal_is_digits((ip / 0x100_0000) as nat);
    lemma_decimal_is_digits(((ip / 0x1_0000) % 256) as nat);
    lemma_decimal_is_digits(((ip / 256) % 256) as nat);
    lemma_decimal_is_digits((ip % 256) as nat);
    let dot = seq!['.'];
    let s = da + dot + db + dot + dc + dot + dd;
    assert(crate::net::ipv4_text(ip) == s);
    let p1 = da.len() + 1;
    let p2 = p1 + db.len() + 1;
    let p3 = p2 + dc.len() + 1;
    assert forall|j: int| 0 <= j < s.len() implies is_digit(#[trigger] s[j]) || s[j] == '.' by {
        if j < da.len() {
            assert(s[j] == da[j]);
        } else if j < p1 {
            assert(s[j] == '.');
        } else if j < p1 + db.len() {
            assert(s[j] == db[j - p1]);
        } else if j < p2 {
            assert(s[j] == '.');
        } else if j < p2 + dc.len() {
            assert(s[j] == dc[j - p2]);
        } else if j < p3 {
            assert(s[j] == '.');
        } else {
            assert(s[j] == dd[j - p3]);
        }
    }
}

/// Reading digits from `i` on in `s` is reading them from `i - off` on in
/// `s` without its first `off` characters
proof fn lemma_parse_digits_shift(s: Seq<char>, off: int, i: int, acc: int, max: int)
    requires
        0 <= off <= i <= s.len(),
    ensures
        parse_digits_from(s.skip(off), i - off, acc, max) == parse_digits_from(s, i, acc, max),
    decreases s.len() - i,
{
    if i < s.len() {
        assert(s.skip(off)[i - off] == s[i]);
        if is_digit(s[i]) && acc * 10 + digit_value(s[i]) <= max {
            lemma_parse_digits_shift(s, off, i + 1, acc * 10 + digit_value(s[i]), max);
        }
    }
}

/// What a successful read of digits from `i` on gives: the characters
/// from `i` on are digits and the value is that of the whole run
proof fn lemma_parse_digits_ok(s: Seq<char>, i: int, max: int)
    requires
        0 <= i <= s.len(),
        parse_digits_from(s, i, digits_value(s.take(i)), max) is Ok,
    ensures
        forall|j: int| i <= j < s.len() ==> is_digit(#[trigger] s[j]),
        parse_digits_from(s, i, digits_value(s.take(i)), max) == Ok::<int, IntErrorKind>(digits_value(s)),
    decreases s.len() - i,
{
    if i < s.len() {
        assert(s.take(i + 1).drop_last() =~= s.take(i));
        assert(s.take(i + 1).last() == s[i]);
        lemma_parse_digits_ok(s, i + 1, max);
    } else {
        assert(s.take(i) =~= s);
    }
}

/// Law: a text read as a `u16` is an optional `+` and then one or more
/// decimal digits, and the number read is the value of those digits
pub proof fn lemma_parse_u16_reads_digits(s: Seq<char>)
    ensures
        spec_parse_u16(s) matches Ok(v) ==> ({
            let d = if s.len() > 0 && s[0] == '+' { s.skip(1) } else { s };
            &&& d.len() >= 1
            &&& forall|j: int| 0 <= j < d.len() ==> is_digit(#[trigger] d[j])
            &&& digits_value(d) == v as int
        }),
{
    if spec_parse_u16(s) is Ok {
        lemma_spec_parse_uint_bounded(s, 0xffff);
        let d = if s.len() > 0 && s[0] == '+' { s.skip(1) } else { s };
        if s[0] == '+' {
            lemma_parse_digits_shift(s, 1, 1, 0, 0xffff);
        }
        assert(d.take(0) =~= Seq::<char>::empty());
        assert(parse_digits_from(d, 0, 0, 0xffff) == spec_parse_uint(s, 0xffff));
        lemma_parse_digits_ok(d, 0, 0xffff);
    }
}

/// An octet the parser accepts is the decimal text of its value: no sign,
/// no leading zero
proof fn lemma_octet_is_decimal(g: Seq<char>)
    requires
        spec_octet_ok(g),
    ensures
        g == crate::net::decimal(spec_octet_value(g) as nat),
        0 <= spec_octet_value(g) <= 255,
{
    lemma_parse_digits_bounded(g, 0, 0, 255);
    assert(g.take(0) =~= Seq::<char>::empty());
    lemma_parse_digits_ok(g, 0, 255);
    let v = spec_octet_value(g);
    assert(v == digits_value(g));
    if g.len() == 1 {
        assert(g.drop_last() =~= Seq::<char>::empty());
        let c = g[0];
        assert(v == digit_value(c));
        assert(crate::net::decimal(v as nat) =~= seq![((v + 48) as u8) as char]);
        assert(((v + 48) as u8) as char == c);
        assert(crate::net::decimal(v as nat) =~= g);
    } else if g.len() == 2 {
        let h = g.drop_last();
        assert(h =~= seq![g[0]]);
        assert(h.drop_last() =~= Seq::<char>::empty());
        let d0 = digit_value(g[0]);
        let d1 = digit_value(g[1]);
        assert(digits_value(h) == d0);
        assert(v == d0 * 10 + d1);
        assert(g[0] != '0');
        assert(1 <= d0 <= 9 && 0 <= d1 <= 9);
        assert(v / 10 == d0 && v % 10 == d1);
        assert(crate::net::decimal(d0 as nat) =~= seq![((d0 + 48) as u8) as char]);
        assert(((d0 + 48) as u8) as char == g[0]);
        assert(((d1 + 48) as u8) as char == g[1]);
        assert(crate::net::decimal(v as nat) =~= g);
    } else {
        let h = g.drop_last();
        let hh = h.drop_last();
        assert(hh =~= seq![g[0]]);
        assert(hh.drop_last() =~= Seq::<char>::empty());
        assert(h =~= seq![g[0], g[1]]);
        let d0 = digit_value(g[0]);
        let d1 = digit_value(g[1]);
        let d2 = digit_value(g[2]);
        assert(digits_value(hh) == d0);
        assert(digits_value(h) == d0 * 10 + d1);
        assert(v == (d0 * 10 + d1) * 10 + d2);
        assert(g[0] != '0');
        assert(1 <= d0 <= 9 && 0 <= d1 <= 9 && 0 <= d2 <= 9);
        let q = d0 * 10 + d1;
        assert(v / 10 == q && v % 10 == d2);
        assert(q / 10 == d0 && q % 10 == d1);
        assert(crate::net::decimal(d0 as nat) =~= seq![((d0 + 48) as u8) as char]);
        assert(crate::net::decimal(q as nat) =~= seq![((d0 + 48) as u8) as char, ((d1 + 48) as u8) as char]);
        assert(((d0 + 48) as u8) as char == g[0]);
        assert(((d1 + 48) as u8) as char == g[1]);
        assert(((d2 + 48) as u8) as char == g[2]);
        assert(crate::net::decimal(v as nat) =~= g);
    }
}

/// Law: the parser takes an address only in its dotted text, four
/// decimal octets without sign or leading zeros: whatever `parse_ipv4`
/// accepts is exactly what `ipv4_to_text` writes for the result
pub proof fn lemma_parse_ipv4_accepts_only_dotted_text(s: Seq<char>)
    ensures
        spec_parse_ipv4(s) matches Some(ip) ==> s == crate::net::ipv4_text(ip),
{
    if spec_parse_ipv4(s) is Some {
        let k0 = find_char_from(s, '.', 0);
        let g0 = s.subrange(0, k0);
        lemma_find_char_from(s, '.', 0);
        assert(spec_octet_ok(g0) && k0 != s.len());
        let o0 = spec_octet_value(g0);
        let p1 = k0 + 1;
        assert(parse_ipv4_from(s, 0, 0, 0) == parse_ipv4_from(s, p1, 1, o0));
        let k1 = find_char_from(s, '.', p1);
        let g1 = s.subrange(p1, k1);
        lemma_find_char_from(s, '.', p1);
        assert(spec_octet_ok(g1) && k1 != s.len());
        let o1 = spec_octet_value(g1);
        let p2 = k1 + 1;
        assert(parse_ipv4_from(s, p1, 1, o0) == parse_ipv4_from(s, p2, 2, o0 * 256 + o1));
        let k2 = find_char_from(s, '.', p2);
        let g2 = s.subrange(p2, k2);
        lemma_find_char_from(s, '.', p2);
        assert(spec_octet_ok(g2) && k2 != s.len());
        let o2 = spec_octet_value(g2);
        let p3 = k2 + 1;
        assert(parse_ipv4_from(s, p2, 2, o0 * 256 + o1) == parse_ipv4_from(s, p3, 3, (o0 * 256 + o1) * 256 + o2));
        let k3 = find_char_from(s, '.', p3);
        let g3 = s.subrange(p3, k3);
        lemma_find_char_from(s, '.', p3);
        assert(spec_octet_ok(g3) && k3 == s.len());
        let o3 = spec_octet_value(g3);
        lemma_octet_is_decimal(g0);
        lemma_octet_is_decimal(g1);
        lemma_octet_is_decimal(g2);
        lemma_octet_is_decimal(g3);
        let v = ((o0 * 256 + o1) * 256 + o2) * 256 + o3;
        assert(parse_ipv4_from(s, 0, 0, 0) == Some(v));
        let ip = v as u32;
        assert(spec_parse_ipv4(s) == Some(ip));
        assert(0 <= v < 0x1_0000_0000) by (nonlinear_arith)
            requires
                0 <= o0 <= 255,
                0 <= o1 <= 255,
                0 <= o2 <= 255,
                0 <= o3 <= 255,
                v == ((o0 * 256 + o1) * 256 + o2) * 256 + o3,
        ;
        assert(ip / 0x100_0000 == o0 && (ip / 0x1_0000) % 256 == o1 && (ip / 256) % 256 == o2 && ip % 256 == o3)
            by (nonlinear_arith)
            requires
                0 <= o0 <= 255,
                0 <= o1 <= 255,
                0 <= o2 <= 255,
                0 <= o3 <= 255,
                ip == ((o0 * 256 + o1) * 256 + o2) * 256 + o3,
        ;
        let dot = seq!['.'];
        assert(s =~= g0 + dot + g1 + dot + g2 + dot + g3);
    }
}

} // verus!
