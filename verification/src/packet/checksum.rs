//! The Internet checksum: the one's-complement sum of big-endian 16-bit
//! words that IPv4 and TCP headers carry

use vstd::prelude::*;

verus! {

/// The big-endian 16-bit word at word offset `i` of `b`
pub open spec fn be_word(b: Seq<u8>, i: int) -> nat {
    (b[2 * i] as nat) * 256 + (b[2 * i + 1] as nat)
}

/// The sum of the first `n` words of `b`, leaving out the word at offset
/// `skip` (no word is left out where `skip` is not below `n`)
pub open spec fn word_sum(b: Seq<u8>, n: nat, skip: int) -> nat
    decreases n,
{
    if n == 0 {
        0
    } else {
        word_sum(b, (n - 1) as nat, skip) + if n - 1 == skip {
            0nat
        } else {
            be_word(b, n - 1)
        }
    }
}

/// The sum of the first `n` words of `b`
pub open spec fn all_words_sum(b: Seq<u8>, n: nat) -> nat {
    word_sum(b, n, -1)
}

/// `s` with its carries out of the low 16 bits added back in, until it
/// fits in 16 bits
pub open spec fn fold_carries(s: nat) -> nat
    decreases s,
{
    if s < 0x10000 {
        s
    } else {
        proof {
            assert(s / 0x10000 + s % 0x10000 < s) by (nonlinear_arith)
                requires
                    s >= 0x10000,
            ;
        }
        fold_carries(s / 0x10000 + s % 0x10000)
    }
}

/// The checksum of a sum of words: the complement of its folded sum
pub open spec fn ones_complement(s: nat) -> u16 {
    (0xffff - fold_carries(s)) as u16
}

/// The sum of the two 16-bit halves of an IPv4 address
pub open spec fn addr_word_sum(ip: u32) -> nat {
    (ip / 0x10000) as nat + (ip % 0x10000) as nat
}

/// The checksum of a 20-byte IPv4 header, its checksum field (word 5)
/// counted as zero
pub open spec fn ipv4_header_checksum(header: Seq<u8>) -> u16 {
    ones_complement(word_sum(header, 10, 5))
}

/// The sum of the IPv4 pseudo header of a 20-byte TCP segment from
/// `source` to `dest`: the two addresses, the protocol number and the
/// segment's length
pub open spec fn tcp_pseudo_sum(source: u32, dest: u32) -> nat {
    addr_word_sum(source) + addr_word_sum(dest) + 6 + 20
}

/// The checksum of a 20-byte TCP segment sent from `source` to `dest`,
/// its checksum field (word 8) counted as zero
pub open spec fn tcp_ipv4_checksum(segment: Seq<u8>, source: u32, dest: u32) -> u16 {
    ones_complement(tcp_pseudo_sum(source, dest) + word_sum(segment, 10, 8))
}

/// An IPv4 header of 20 bytes whose checksum verifies: its words, the
/// checksum among them, fold to all ones
pub open spec fn ipv4_header_checks(header: Seq<u8>) -> bool {
    fold_carries(all_words_sum(header, 10)) == 0xffff
}

/// A TCP segment of 20 bytes from `source` to `dest` whose checksum
/// verifies: its words and those of its pseudo header fold to all ones
pub open spec fn tcp_segment_checks(segment: Seq<u8>, source: u32, dest: u32) -> bool {
    fold_carries(tcp_pseudo_sum(source, dest) + all_words_sum(segment, 10)) == 0xffff
}

/// Folding keeps the sum modulo 0xffff, keeps it at least 1 where it was,
/// and leaves it at most 0xffff
pub proof fn lemma_fold_carries(s: nat)
    ensures
        fold_carries(s) % 0xffff == s % 0xffff,
        fold_carries(s) <= 0xffff,
        s >= 1 ==> fold_carries(s) >= 1,
    decreases s,
{
    if s >= 0x10000 {
        let q: nat = s / 0x10000;
        let r: nat = s % 0x10000;
        assert(s == 0xffff * q + (q + r) && q >= 1) by (nonlinear_arith)
            requires
                q == s / 0x10000,
                r == s % 0x10000,
                s >= 0x10000,
        ;
        vstd::arithmetic::div_mod::lemma_mod_multiples_vanish(q as int, (q + r) as int, 0xffff);
        assert(s / 0x10000 + s % 0x10000 < s) by (nonlinear_arith)
            requires
                s >= 0x10000,
        ;
        lemma_fold_carries(q + r);
    }
}

/// Words that agree outside the left-out word give the same sum
pub proof fn lemma_word_sum_agree(a: Seq<u8>, b: Seq<u8>, n: nat, skip: int)
    requires
        forall|i: int| 0 <= i < n && i != skip ==> be_word(a, i) == be_word(b, i),
    ensures
        word_sum(a, n, skip) == word_sum(b, n, skip),
    decreases n,
{
    if n > 0 {
        lemma_word_sum_agree(a, b, (n - 1) as nat, skip);
    }
}

/// The sum of all words is the sum without one of them, plus that one
pub proof fn lemma_word_sum_split(b: Seq<u8>, n: nat, k: int)
    requires
        0 <= k < n,
    ensures
        all_words_sum(b, n) == word_sum(b, n, k) + be_word(b, k),
    decreases n,
{
    if n - 1 > k {
        lemma_word_sum_split(b, (n - 1) as nat, k);
    } else {
        lemma_skip_beyond(b, (n - 1) as nat, k);
    }
}

/// Leaving out a word at or past `n` leaves out none
proof fn lemma_skip_beyond(b: Seq<u8>, n: nat, skip: int)
    requires
        skip >= n,
    ensures
        word_sum(b, n, skip) == all_words_sum(b, n),
    decreases n,
{
    if n > 0 {
        lemma_skip_beyond(b, (n - 1) as nat, skip);
    }
}

/// A sum with its own checksum added folds to all ones
pub proof fn lemma_checksum_completes(s: nat)
    ensures
        fold_carries(s + ones_complement(s) as nat) == 0xffff,
{
    lemma_fold_carries(s);
    let f = fold_carries(s);
    let t: nat = s + (0xffff - f) as nat;
    assert(ones_complement(s) as nat == (0xffff - f) as nat);
    lemma_fold_carries(t);
    if s == 0 {
        assert(f == 0);
        assert(t == 0xffff);
    } else {
        assert(t >= 1);
        assert(t == (s - f) + 0xffff);
        assert((s - f) % 0xffff == 0) by {
            vstd::arithmetic::div_mod::lemma_sub_mod_noop(s as int, f as int, 0xffff);
        }
        vstd::arithmetic::div_mod::lemma_mod_add_multiples_vanish((s - f) as int, 0xffff);
        assert(fold_carries(t) % 0xffff == 0);
    }
}

} // verus!
