//! Integers on the wire: little-endian counters for nonces, big-endian
//! 16-bit and 64-bit fields for lengths, ports and timestamps.

use vstd::prelude::*;

verus! {

/// The `n` low-order bytes of `v`, least significant first.
pub open spec fn le_bytes(v: nat, n: nat) -> Seq<u8>
    decreases n,
{
    if n == 0 {
        Seq::empty()
    } else {
        seq![(v % 256) as u8] + le_bytes(v / 256, (n - 1) as nat)
    }
}

/// The number that `s` spells, least significant byte first.
pub open spec fn le_value(s: Seq<u8>) -> nat
    decreases s.len(),
{
    if s.len() == 0 {
        0
    } else {
        s[0] as nat + 256 * le_value(s.skip(1))
    }
}

/// Whether `v` can be written in `n` bytes.
pub open spec fn fits(v: nat, n: nat) -> bool
    decreases n,
{
    if n == 0 {
        v == 0
    } else {
        fits(v / 256, (n - 1) as nat)
    }
}

/// The two bytes of `v`, most significant first.
pub open spec fn be16(v: u16) -> Seq<u8> {
    seq![(v / 256) as u8, (v % 256) as u8]
}

/// The number that the first two bytes of `s` spell, most significant first.
pub open spec fn be16_value(s: Seq<u8>) -> nat {
    (s[0] as nat) * 256 + s[1] as nat
}

/// The eight bytes of `v`, most significant first.
pub open spec fn be64(v: u64) -> Seq<u8> {
    seq![
        (v / 0x100_0000_0000_0000) as u8,
        (v / 0x1_0000_0000_0000 % 256) as u8,
        (v / 0x100_0000_0000 % 256) as u8,
        (v / 0x1_0000_0000 % 256) as u8,
        (v / 0x100_0000 % 256) as u8,
        (v / 0x1_0000 % 256) as u8,
        (v / 0x100 % 256) as u8,
        (v % 256) as u8,
    ]
}

/// The number that the first eight bytes of `s` spell, most significant first.
pub open spec fn be64_value(s: Seq<u8>) -> nat {
    (s[0] as nat) * 0x100_0000_0000_0000 + (s[1] as nat) * 0x1_0000_0000_0000 + (s[2] as nat)
        * 0x100_0000_0000 + (s[3] as nat) * 0x1_0000_0000 + (s[4] as nat) * 0x100_0000 + (s[5] as nat)
        * 0x1_0000 + (s[6] as nat) * 0x100 + (s[7] as nat)
}

pub proof fn lemma_le_bytes_len(v: nat, n: nat)
    ensures
        le_bytes(v, n).len() == n,
    decreases n,
{
    if n > 0 {
        lemma_le_bytes_len(v / 256, (n - 1) as nat);
    }
}

/// Writing a number that fits and reading it back gives the number.
pub proof fn lemma_le_roundtrip(v: nat, n: nat)
    requires
        fits(v, n),
    ensures
        le_value(le_bytes(v, n)) == v,
    decreases n,
{
    if n > 0 {
        let rest = le_bytes(v / 256, (n - 1) as nat);
        lemma_le_roundtrip(v / 256, (n - 1) as nat);
        lemma_le_bytes_len(v / 256, (n - 1) as nat);
        let s = le_bytes(v, n);
        assert(s.skip(1) =~= rest);
        assert(s[0] as nat == v % 256);
    }
}

/// Every 64-bit number fits in eight bytes, and so in any longer field.
pub proof fn lemma_u64_fits(v: u64, n: nat)
    requires
        n >= 8,
    ensures
        fits(v as nat, n),
{
    let v0 = v as nat;
    let v8 = v0 / 256 / 256 / 256 / 256 / 256 / 256 / 256 / 256;
    assert(v8 == 0);
    lemma_zero_fits((n - 8) as nat);
    reveal_with_fuel(fits, 9);
    assert(fits(v0, n) == fits(v8, (n - 8) as nat));
}

pub proof fn lemma_zero_fits(n: nat)
    ensures
        fits(0, n),
    decreases n,
{
    if n > 0 {
        lemma_zero_fits((n - 1) as nat);
    }
}

/// Reading back a 16-bit length gives the length.
pub proof fn lemma_be16_roundtrip(v: u16)
    ensures
        be16(v).len() == 2,
        be16_value(be16(v)) == v,
{
}

/// Reading back a 64-bit number gives the number.
pub proof fn lemma_be64_roundtrip(v: u64)
    ensures
        be64(v).len() == 8,
        be64_value(be64(v)) == v,
{
    let b0: u64 = v / 0x100_0000_0000_0000;
    let b1: u64 = v / 0x1_0000_0000_0000 % 256;
    let b2: u64 = v / 0x100_0000_0000 % 256;
    let b3: u64 = v / 0x1_0000_0000 % 256;
    let b4: u64 = v / 0x100_0000 % 256;
    let b5: u64 = v / 0x1_0000 % 256;
    let b6: u64 = v / 0x100 % 256;
    let b7: u64 = v % 256;
    assert(v == b0 * 0x100_0000_0000_0000 + b1 * 0x1_0000_0000_0000 + b2 * 0x100_0000_0000 + b3
        * 0x1_0000_0000 + b4 * 0x100_0000 + b5 * 0x1_0000 + b6 * 0x100 + b7 && b0 < 256) by (bit_vector)
        requires
            b0 == v / 0x100_0000_0000_0000,
            b1 == v / 0x1_0000_0000_0000 % 256,
            b2 == v / 0x100_0000_0000 % 256,
            b3 == v / 0x1_0000_0000 % 256,
            b4 == v / 0x100_0000 % 256,
            b5 == v / 0x1_0000 % 256,
            b6 == v / 0x100 % 256,
            b7 == v % 256,
    ;
    let s = be64(v);
    assert(s[0] == b0 && s[1] == b1 && s[2] == b2 && s[3] == b3);
    assert(s[4] == b4 && s[5] == b5 && s[6] == b6 && s[7] == b7);
}

/// Puts `v` on the wire in `n` bytes, least significant first.
pub fn put_le(v: u64, n: usize) -> (out: Vec<u8>)
    ensures
        out@ == le_bytes(v as nat, n as nat),
        out@.len() == n,
{
    let mut out: Vec<u8> = Vec::new();
    let mut rest: u64 = v;
    let mut i: usize = 0;
    while i < n
        invariant
            i <= n,
            out@.len() == i,
            le_bytes(v as nat, n as nat) == out@ + le_bytes(rest as nat, (n - i) as nat),
        decreases n - i,
    {
        proof {
            let tail = le_bytes(rest as nat / 256, (n - i - 1) as nat);
            assert(out@.push((rest % 256) as u8) + tail =~= out@ + (seq![(rest % 256) as u8] + tail));
        }
        out.push((rest % 256) as u8);
        rest = rest / 256;
        i = i + 1;
    }
    proof {
        assert(out@ + le_bytes(rest as nat, 0) =~= out@);
    }
    out
}

/// Puts a 16-bit number on the wire, most significant byte first.
pub fn put_be16(v: u16) -> (out: Vec<u8>)
    ensures
        out@ == be16(v),
{
    let mut out: Vec<u8> = Vec::new();
    out.push((v / 256) as u8);
    out.push((v % 256) as u8);
    assert(out@ =~= be16(v));
    out
}

/// Reads a 16-bit number, most significant byte first.
pub fn get_be16(s: &[u8]) -> (v: u16)
    requires
        s@.len() >= 2,
    ensures
        v == be16_value(s@),
{
    let hi: u16 = s[0] as u16;
    let lo: u16 = s[1] as u16;
    hi * 256 + lo
}

/// Puts a 64-bit number on the wire, most significant byte first.
pub fn put_be64(v: u64) -> (out: Vec<u8>)
    ensures
        out@ == be64(v),
{
    let mut out: Vec<u8> = Vec::new();
    out.push((v / 0x100_0000_0000_0000) as u8);
    out.push((v / 0x1_0000_0000_0000 % 256) as u8);
    out.push((v / 0x100_0000_0000 % 256) as u8);
    out.push((v / 0x1_0000_0000 % 256) as u8);
    out.push((v / 0x100_0000 % 256) as u8);
    out.push((v / 0x1_0000 % 256) as u8);
    out.push((v / 0x100 % 256) as u8);
    out.push((v % 256) as u8);
    assert(out@ =~= be64(v));
    out
}

/// Reads a 64-bit number, most significant byte first.
pub fn get_be64(s: &[u8]) -> (v: u64)
    requires
        s@.len() >= 8,
    ensures
        v == be64_value(s@),
{
    (s[0] as u64) * 0x100_0000_0000_0000 + (s[1] as u64) * 0x1_0000_0000_0000 + (s[2] as u64)
        * 0x100_0000_0000 + (s[3] as u64) * 0x1_0000_0000 + (s[4] as u64) * 0x100_0000 + (s[5] as u64)
        * 0x1_0000 + (s[6] as u64) * 0x100 + (s[7] as u64)
}

} // verus!
