//! Link and network layer addresses as plain values

use vstd::prelude::*;

verus! {

/// A MAC address, its six bytes in transmission order
#[derive(Debug, Clone, Copy, PartialEq, Eq, Structural, Default)]
pub struct MacAddr(pub u8, pub u8, pub u8, pub u8, pub u8, pub u8);

/// The six bytes of a MAC address in transmission order
pub open spec fn mac_bytes(m: MacAddr) -> Seq<u8> {
    seq![m.0, m.1, m.2, m.3, m.4, m.5]
}

impl MacAddr {
    /// The address of the given six bytes
    pub fn new(a: u8, b: u8, c: u8, d: u8, e: u8, f: u8) -> (m: MacAddr)
        ensures
            mac_bytes(m) == seq![a, b, c, d, e, f],
    {
        MacAddr(a, b, c, d, e, f)
    }

    /// The broadcast address ff:ff:ff:ff:ff:ff
    pub fn broadcast() -> (m: MacAddr)
        ensures
            mac_bytes(m) == seq![0xffu8, 0xff, 0xff, 0xff, 0xff, 0xff],
    {
        MacAddr(0xff, 0xff, 0xff, 0xff, 0xff, 0xff)
    }

    /// The all-zero address 00:00:00:00:00:00
    pub fn zero() -> (m: MacAddr)
        ensures
            mac_bytes(m) == seq![0u8, 0, 0, 0, 0, 0],
    {
        MacAddr(0, 0, 0, 0, 0, 0)
    }
}

/// The lower-case hex digit of a value below 16
pub open spec fn hex_lower(d: int) -> char {
    if d < 10 { ((d + 48) as u8) as char } else { ((d + 87) as u8) as char }
}

/// A byte as two lower-case hex digits
pub open spec fn byte_hex(b: u8) -> Seq<char> {
    seq![hex_lower((b / 16) as int), hex_lower((b % 16) as int)]
}

/// The text of a MAC address: six two-digit lower-case hex bytes joined by
/// colons, as it is displayed
pub open spec fn mac_text(m: MacAddr) -> Seq<char> {
    byte_hex(m.0) + seq![':'] + byte_hex(m.1) + seq![':'] + byte_hex(m.2) + seq![':'] + byte_hex(m.3)
        + seq![':'] + byte_hex(m.4) + seq![':'] + byte_hex(m.5)
}

/// The decimal digits of a number, most significant first
pub open spec fn decimal(n: nat) -> Seq<char>
    decreases n,
{
    if n < 10 {
        seq![((n + 48) as u8) as char]
    } else {
        decimal(n / 10) + seq![((n % 10 + 48) as u8) as char]
    }
}

/// The dotted text of an IPv4 address given as its big-endian number
pub open spec fn ipv4_text(ip: u32) -> Seq<char> {
    decimal((ip / 0x100_0000) as nat) + seq!['.'] + decimal(((ip / 0x1_0000) % 256) as nat) + seq!['.']
        + decimal(((ip / 256) % 256) as nat) + seq!['.'] + decimal((ip % 256) as nat)
}

fn push_hex(s: &mut String, b: u8)
    ensures
        final(s)@ == old(s)@ + byte_hex(b),
{
    let hi = b / 16;
    let lo = b % 16;
    let c1 = if hi < 10 { (hi + 48) as char } else { (hi + 87) as char };
    let c2 = if lo < 10 { (lo + 48) as char } else { (lo + 87) as char };
    s.push(c1);
    s.push(c2);
}

impl MacAddr {
    /// The text of this address, as `aa:bb:cc:dd:ee:ff`
    pub fn to_text(&self) -> (t: String)
        ensures
            t@ == mac_text(*self),
    {
        let mut s = String::new();
        push_hex(&mut s, self.0);
        s.push(':');
        push_hex(&mut s, self.1);
        s.push(':');
        push_hex(&mut s, self.2);
        s.push(':');
        push_hex(&mut s, self.3);
        s.push(':');
        push_hex(&mut s, self.4);
        s.push(':');
        push_hex(&mut s, self.5);
        assert(s@ =~= mac_text(*self));
        s
    }
}

/// Appends the decimal digits of `n`
pub fn push_decimal(s: &mut String, n: u128)
    ensures
        final(s)@ == old(s)@ + decimal(n as nat),
    decreases n,
{
    if n >= 10 {
        push_decimal(s, n / 10);
        s.push(((n % 10) as u8 + 48) as char);
    } else {
        s.push((n as u8 + 48) as char);
    }
}

/// The dotted text of an IPv4 address, as `Ipv4Addr` displays it
pub fn ipv4_to_text(ip: u32) -> (t: String)
    ensures
        t@ == ipv4_text(ip),
{
    let mut s = String::new();
    push_decimal(&mut s, (ip / 0x100_0000) as u128);
    s.push('.');
    push_decimal(&mut s, ((ip / 0x1_0000) % 256) as u128);
    s.push('.');
    push_decimal(&mut s, ((ip / 256) % 256) as u128);
    s.push('.');
    push_decimal(&mut s, (ip % 256) as u128);
    assert(s@ =~= ipv4_text(ip));
    s
}

/// `c` is a hex digit (either case)
pub open spec fn is_hex_digit(c: char) -> bool {
    ('0' <= c && c <= '9') || ('a' <= c && c <= 'f') || ('A' <= c && c <= 'F')
}

/// The value of a hex digit
pub open spec fn hex_digit_value(c: char) -> int {
    if '0' <= c && c <= '9' {
        (c as int) - ('0' as int)
    } else if 'a' <= c && c <= 'f' {
        (c as int) - ('a' as int) + 10
    } else {
        (c as int) - ('A' as int) + 10
    }
}

/// The value of a run of hex digits, most significant first
pub open spec fn hex_value(s: Seq<char>) -> int
    decreases s.len(),
{
    if s.len() == 0 {
        0
    } else {
        hex_value(s.drop_last()) * 16 + hex_digit_value(s.last())
    }
}

/// The byte one component of a MAC address text names, as
/// `u8::from_str_radix(c, 16)` reads it: an optional `+` and then one or
/// more hex digits with a value no larger than 255
pub open spec fn mac_component(c: Seq<char>) -> Option<u8> {
    let d = if c.len() > 0 && c[0] == '+' { c.skip(1) } else { c };
    if d.len() > 0 && (forall|i: int| 0 <= i < d.len() ==> is_hex_digit(#[trigger] d[i])) && hex_value(d) <= 255 {
        Some(hex_value(d) as u8)
    } else {
        None
    }
}

/// The pieces of `s` between the colons, as `s.split(':')` yields them
pub open spec fn colon_pieces(s: Seq<char>) -> Seq<Seq<char>>
    decreases s.len(),
{
    let k = crate::text::find_char(s, ':');
    if k < 0 || k >= s.len() {
        seq![s]
    } else {
        seq![s.take(k)] + colon_pieces(s.skip(k + 1))
    }
}

/// The MAC address a text names, as `pnet`'s `MacAddr::from_str` reads it:
/// exactly six colon-separated components, each a `mac_component`
pub open spec fn spec_parse_mac(s: Seq<char>) -> Option<MacAddr> {
    let p = colon_pieces(s);
    if p.len() == 6 && (forall|i: int| 0 <= i < 6 ==> (#[trigger] mac_component(p[i])) is Some) {
        Some(
            MacAddr(
                mac_component(p[0])->Some_0,
                mac_component(p[1])->Some_0,
                mac_component(p[2])->Some_0,
                mac_component(p[3])->Some_0,
                mac_component(p[4])->Some_0,
                mac_component(p[5])->Some_0,
            ),
        )
    } else {
        None
    }
}

/// Reads a MAC address with `pnet::util::MacAddr::from_str`.
///
/// Trusted: pnet splits the text at every `:`, refuses more or fewer than
/// six pieces, and reads each with `u8::from_str_radix(piece, 16)`, which
/// takes an optional `+` and hex digits up to 255: `spec_parse_mac`.
#[verifier::external_body]
fn pnet_parse_mac(s: &str) -> (r: Option<MacAddr>)
    ensures
        r == spec_parse_mac(s@),
{
    match s.parse::<pnet::util::MacAddr>() {
        Ok(m) => Some(MacAddr(m.0, m.1, m.2, m.3, m.4, m.5)),
        Err(_) => None,
    }
}

/// The MAC address a text such as `aa:bb:cc:00:11:22` names, or `None`
pub fn parse_mac(s: &str) -> (r: Option<MacAddr>)
    ensures
        r == spec_parse_mac(s@),
{
    pnet_parse_mac(s)
}

/// The two hex digits of a byte read back as that byte, and are digits or
/// lower-case letters
proof fn lemma_byte_hex(b: u8)
    ensures
        byte_hex(b).len() == 2,
        mac_component(byte_hex(b)) == Some(b),
        forall|j: int| 0 <= j < 2 ==> ('0' <= #[trigger] byte_hex(b)[j] <= '9' || 'a' <= byte_hex(b)[j] <= 'f'),
{
    let h = byte_hex(b);
    let hi = (b / 16) as int;
    let lo = (b % 16) as int;
    assert(is_hex_digit(h[0]) && hex_digit_value(h[0]) == hi);
    assert(is_hex_digit(h[1]) && hex_digit_value(h[1]) == lo);
    assert(h.drop_last() =~= seq![h[0]]);
    assert(h.drop_last().drop_last() =~= Seq::<char>::empty());
    let one = seq![h[0]];
    assert(one.drop_last() =~= Seq::<char>::empty());
    assert(one.last() == h[0]);
    assert(hex_value(Seq::<char>::empty()) == 0);
    assert(hex_value(one) == hex_value(Seq::<char>::empty()) * 16 + hex_digit_value(h[0]));
    assert(hex_value(one) == hi);
    assert(hex_value(h) == hi * 16 + lo);
    assert(hi * 16 + lo == b);
}

/// The pieces of a text that starts with `h` and a colon, `h` holding no
/// colon
proof fn lemma_colon_pieces_step(h: Seq<char>, rest: Seq<char>)
    requires
        forall|j: int| 0 <= j < h.len() ==> h[j] != ':',
    ensures
        colon_pieces(h + seq![':'] + rest) == seq![h] + colon_pieces(rest),
{
    let s = h + seq![':'] + rest;
    crate::text::lemma_char_at(s, ':', 0, h.len() as int);
    assert(s.take(h.len() as int) =~= h);
    assert(s.skip(h.len() as int + 1) =~= rest);
}

/// Law: the text of a MAC address (`to_text`) is written in lower-case hex
/// digits and colons, and reads back as the same address
pub proof fn lemma_mac_text_reads_back(m: MacAddr)
    ensures
        spec_parse_mac(mac_text(m)) == Some(m),
        mac_text(m).len() == 17,
        forall|j: int| 0 <= j < 17 ==> ('0' <= #[trigger] mac_text(m)[j] <= '9' || 'a' <= mac_text(m)[j] <= 'f'
            || mac_text(m)[j] == ':'),
{
    let (h0, h1, h2, h3, h4, h5) = (byte_hex(m.0), byte_hex(m.1), byte_hex(m.2), byte_hex(m.3), byte_hex(m.4), byte_hex(m.5));
    lemma_byte_hex(m.0);
    lemma_byte_hex(m.1);
    lemma_byte_hex(m.2);
    lemma_byte_hex(m.3);
    lemma_byte_hex(m.4);
    lemma_byte_hex(m.5);
    let c = seq![':'];
    let r4 = h4 + c + h5;
    let r3 = h3 + c + r4;
    let r2 = h2 + c + r3;
    let r1 = h1 + c + r2;
    let r0 = h0 + c + r1;
    assert(mac_text(m) =~= r0);
    lemma_colon_pieces_step(h4, h5);
    lemma_colon_pieces_step(h3, r4);
    lemma_colon_pieces_step(h2, r3);
    lemma_colon_pieces_step(h1, r2);
    lemma_colon_pieces_step(h0, r1);
    crate::text::lemma_char_at(h5, ':', 0, 2);
    assert(colon_pieces(h5) == seq![h5]);
    let p = colon_pieces(r0);
    assert(p =~= seq![h0, h1, h2, h3, h4, h5]);
    assert(forall|j: int| 0 <= j < 6 ==> (#[trigger] mac_component(p[j])) is Some);
    let t = mac_text(m);
    assert forall|j: int| 0 <= j < 17 implies ('0' <= #[trigger] t[j] <= '9' || 'a' <= t[j] <= 'f' || t[j] == ':') by {
        if j % 3 == 2 {
            assert(t[j] == ':');
        } else {
            let k = j / 3;
            let hk = if k == 0 { h0 } else if k == 1 { h1 } else if k == 2 { h2 } else if k == 3 { h3 } else if k == 4 { h4 } else { h5 };
            assert(t[j] == hk[j % 3]);
        }
    }
}

} // verus!
