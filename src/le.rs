//! Little-endian encoding and decoding of fixed-width integers.

use vstd::prelude::*;
use vstd::arithmetic::div_mod::{lemma_fundamental_div_mod, lemma_mod_breakdown};

verus! {

/// `256` raised to `n`: the number of values that `n` bytes can hold.
pub open spec fn pow256(n: nat) -> nat
    decreases n,
{
    if n == 0 { 1 } else { 256 * pow256((n - 1) as nat) }
}

/// The unsigned value of a little-endian byte string.
pub open spec fn le_value(b: Seq<u8>) -> nat
    decreases b.len(),
{
    if b.len() == 0 { 0 } else { b[0] as nat + 256 * le_value(b.drop_first()) }
}

/// The `n` low-order bytes of `v`, least significant first.
pub open spec fn le_bytes(v: nat, n: nat) -> Seq<u8>
    decreases n,
{
    if n == 0 { Seq::empty() } else { seq![(v % 256) as u8] + le_bytes(v / 256, (n - 1) as nat) }
}

/// The two's complement reading of the `n`-byte unsigned value `v`.
pub open spec fn signed_of(v: nat, n: nat) -> int {
    if v >= pow256(n) / 2 { v - pow256(n) } else { v as int }
}

pub proof fn lemma_pow256_pos(n: nat)
    ensures pow256(n) > 0,
    decreases n,
{
    if n > 0 { lemma_pow256_pos((n - 1) as nat); }
}

pub proof fn lemma_le_value_bound(b: Seq<u8>)
    ensures le_value(b) < pow256(b.len()),
    decreases b.len(),
{
    if b.len() > 0 {
        lemma_le_value_bound(b.drop_first());
    }
}

pub proof fn lemma_le_bytes_len(v: nat, n: nat)
    ensures le_bytes(v, n).len() == n,
    decreases n,
{
    if n > 0 { lemma_le_bytes_len(v / 256, (n - 1) as nat); }
}

/// Encoding `v` in `n` bytes and decoding the result gives back `v` modulo `256^n`.
pub proof fn lemma_decode_encode(v: nat, n: nat)
    ensures le_value(le_bytes(v, n)) == v % pow256(n),
    decreases n,
{
    if n == 0 {
        assert(v % 1 == 0) by (nonlinear_arith);
    } else {
        let rest = le_bytes(v / 256, (n - 1) as nat);
        lemma_decode_encode(v / 256, (n - 1) as nat);
        assert(le_bytes(v, n).drop_first() =~= rest);
        lemma_pow256_pos((n - 1) as nat);
        lemma_mod_breakdown(v as int, 256, pow256((n - 1) as nat) as int);
    }
}

/// Decoding `b` and encoding the value in `b.len()` bytes gives back `b`.
pub proof fn lemma_encode_decode(b: Seq<u8>)
    ensures le_bytes(le_value(b), b.len()) == b,
    decreases b.len(),
{
    if b.len() > 0 {
        let r = le_value(b.drop_first());
        lemma_encode_decode(b.drop_first());
        let v = le_value(b);
        assert(v % 256 == b[0] as nat && v / 256 == r) by {
            lemma_fundamental_div_mod(v as int, 256);
            assert(v == b[0] as nat + 256 * r);
            assert((b[0] as nat + 256 * r) % 256 == b[0] as nat && (b[0] as nat + 256 * r) / 256 == r)
                by (nonlinear_arith) requires b[0] < 256;
        }
        assert(le_bytes(v, b.len()) =~= b);
    }
}

proof fn lemma_pow256_16()
    ensures pow256(16) == 0x1_0000_0000_0000_0000_0000_0000_0000_0000,
{
    reveal_with_fuel(pow256, 17);
}

/// The unsigned value of at most sixteen little-endian bytes.
pub fn decode_le(b: &[u8]) -> (r: u128)
    requires
        b@.len() <= 16,
    ensures
        r as nat == le_value(b@),
{
    let n = b.len();
    let mut i: usize = n;
    let mut v: u128 = 0;
    proof { lemma_pow256_16(); }
    while i > 0
        invariant
            n == b@.len(),
            n <= 16,
            i <= n,
            v as nat == le_value(b@.subrange(i as int, n as int)),
            v < pow256((n - i) as nat),
            pow256(16) == 0x1_0000_0000_0000_0000_0000_0000_0000_0000,
        decreases i,
    {
        i = i - 1;
        let ghost tail = b@.subrange(i as int + 1, n as int);
        assert(b@.subrange(i as int, n as int).drop_first() =~= tail);
        proof { lemma_pow_monotone((n - i) as nat, 16); }
        v = v * 256 + b[i] as u128;
    }
    assert(b@.subrange(0, n as int) =~= b@);
    v
}

proof fn lemma_pow_monotone(a: nat, b: nat)
    requires a <= b,
    ensures pow256(a) <= pow256(b),
    decreases b,
{
    if a < b {
        lemma_pow_monotone(a, (b - 1) as nat);
        lemma_pow256_pos((b - 1) as nat);
    }
}

/// The `n` low-order bytes of `v`, least significant first.
pub fn encode_le(v: u128, n: usize) -> (r: Vec<u8>)
    requires
        n <= 16,
    ensures
        r@ == le_bytes(v as nat, n as nat),
{
    let mut r: Vec<u8> = Vec::new();
    let mut x: u128 = v;
    let mut i: usize = 0;
    while i < n
        invariant
            i <= n,
            le_bytes(v as nat, n as nat) == r@ + le_bytes(x as nat, (n - i) as nat),
        decreases n - i,
    {
        let ghost before = r@;
        let ghost rest = le_bytes(x as nat / 256, (n - i - 1) as nat);
        assert(le_bytes(x as nat, (n - i) as nat) == seq![(x as nat % 256) as u8] + rest);
        r.push((x % 256) as u8);
        assert(before + (seq![(x as nat % 256) as u8] + rest) =~= r@ + rest);
        x = x / 256;
        i = i + 1;
    }
    assert(r@ + le_bytes(x as nat, 0) =~= r@);
    r
}

/// The `n`-byte unsigned pattern that stores the signed value `x` in two's complement.
pub open spec fn unsigned_of(x: int, n: nat) -> nat {
    if x < 0 { (x + pow256(n)) as nat } else { x as nat }
}

/// Every unsigned value that fits in `n` bytes survives encoding and decoding.
pub proof fn lemma_unsigned_round_trip(v: nat, n: nat)
    requires
        v < pow256(n),
    ensures
        le_value(le_bytes(v, n)) == v,
{
    lemma_decode_encode(v, n);
    assert(v % pow256(n) == v) by {
        vstd::arithmetic::div_mod::lemma_small_mod(v, pow256(n));
    }
}

/// Every signed value that fits in `n` bytes survives encoding in two's
/// complement and decoding.
pub proof fn lemma_signed_round_trip(x: int, n: nat)
    requires
        n > 0,
        -(pow256(n) / 2) <= x < pow256(n) / 2,
    ensures
        signed_of(le_value(le_bytes(unsigned_of(x, n), n)), n) == x,
{
    assert(pow256(n) == 256 * pow256((n - 1) as nat));
    lemma_pow256_pos((n - 1) as nat);
    lemma_unsigned_round_trip(unsigned_of(x, n), n);
}

/// The byte at `i` of the `n`-byte encoding of `v` is digit `i` of `v` in base 256.
pub proof fn lemma_le_bytes_digit(v: nat, n: nat, i: nat)
    requires
        i < n,
    ensures
        le_bytes(v, n)[i as int] == ((v / pow256(i)) % 256) as u8,
    decreases i,
{
    lemma_le_bytes_len(v, n);
    let rest = le_bytes(v / 256, (n - 1) as nat);
    assert(le_bytes(v, n) == seq![(v % 256) as u8] + rest);
    if i == 0 {
        assert(v / 1 == v) by (nonlinear_arith);
    } else {
        lemma_le_bytes_len(v / 256, (n - 1) as nat);
        assert(le_bytes(v, n)[i as int] == rest[i - 1]);
        lemma_le_bytes_digit(v / 256, (n - 1) as nat, (i - 1) as nat);
        lemma_pow256_pos((i - 1) as nat);
        vstd::arithmetic::div_mod::lemma_div_denominator(v as int, 256, pow256((i - 1) as nat) as int);
    }
}

/// Reads a `u16` from its two little-endian bytes.
pub fn u16_from_le(b: [u8; 2]) -> (r: u16)
    ensures
        r as nat == le_value(b@),
{
    proof { lemma_le_value_bound(b@); reveal_with_fuel(pow256, 3); }
    decode_le(&b) as u16
}

/// Reads a `u32` from its four little-endian bytes.
pub fn u32_from_le(b: [u8; 4]) -> (r: u32)
    ensures
        r as nat == le_value(b@),
{
    proof { lemma_le_value_bound(b@); reveal_with_fuel(pow256, 5); }
    decode_le(&b) as u32
}

/// Reads a `u64` from its eight little-endian bytes.
pub fn u64_from_le(b: [u8; 8]) -> (r: u64)
    ensures
        r as nat == le_value(b@),
{
    proof { lemma_le_value_bound(b@); reveal_with_fuel(pow256, 9); }
    decode_le(&b) as u64
}

/// Reads a `u128` from its sixteen little-endian bytes.
pub fn u128_from_le(b: [u8; 16]) -> (r: u128)
    ensures
        r as nat == le_value(b@),
{
    decode_le(&b)
}

/// Reads an `i16` from its two little-endian bytes in two's complement.
pub fn i16_from_le(b: [u8; 2]) -> (r: i16)
    ensures
        r as int == signed_of(le_value(b@), 2),
{
    proof { reveal_with_fuel(pow256, 3); }
    let u = u16_from_le(b);
    if u < 0x8000 { u as i16 } else { ((u - 0x8000) as i16) - 0x7fff - 1 }
}

/// Reads an `i32` from its four little-endian bytes in two's complement.
pub fn i32_from_le(b: [u8; 4]) -> (r: i32)
    ensures
        r as int == signed_of(le_value(b@), 4),
{
    proof { reveal_with_fuel(pow256, 5); }
    let u = u32_from_le(b);
    if u < 0x8000_0000 { u as i32 } else { ((u - 0x8000_0000) as i32) - 0x7fff_ffff - 1 }
}

/// Reads an `i64` from its eight little-endian bytes in two's complement.
pub fn i64_from_le(b: [u8; 8]) -> (r: i64)
    ensures
        r as int == signed_of(le_value(b@), 8),
{
    proof { reveal_with_fuel(pow256, 9); }
    let u = u64_from_le(b);
    if u < 0x8000_0000_0000_0000 {
        u as i64
    } else {
        ((u - 0x8000_0000_0000_0000) as i64) - 0x7fff_ffff_ffff_ffff - 1
    }
}

/// The two little-endian bytes of a `u16`.
pub fn u16_to_le(v: u16) -> (r: Vec<u8>)
    ensures
        r@ == le_bytes(v as nat, 2),
{
    encode_le(v as u128, 2)
}

/// The four little-endian bytes of a `u32`.
pub fn u32_to_le(v: u32) -> (r: Vec<u8>)
    ensures
        r@ == le_bytes(v as nat, 4),
{
    encode_le(v as u128, 4)
}

/// The eight little-endian bytes of a `u64`.
pub fn u64_to_le(v: u64) -> (r: Vec<u8>)
    ensures
        r@ == le_bytes(v as nat, 8),
{
    encode_le(v as u128, 8)
}

/// The sixteen little-endian bytes of a `u128`.
pub fn u128_to_le(v: u128) -> (r: Vec<u8>)
    ensures
        r@ == le_bytes(v as nat, 16),
{
    encode_le(v, 16)
}

/// The two little-endian bytes of an `i16` in two's complement.
pub fn i16_to_le(x: i16) -> (r: Vec<u8>)
    ensures
        r@ == le_bytes(unsigned_of(x as int, 2), 2),
{
    proof { reveal_with_fuel(pow256, 3); }
    let u: u128 = if x >= 0 { x as u128 } else { (x as i32 + 0x8000) as u128 + 0x8000 };
    encode_le(u, 2)
}

/// The four little-endian bytes of an `i32` in two's complement.
pub fn i32_to_le(x: i32) -> (r: Vec<u8>)
    ensures
        r@ == le_bytes(unsigned_of(x as int, 4), 4),
{
    proof { reveal_with_fuel(pow256, 5); }
    let u: u128 = if x >= 0 { x as u128 } else { (x as i64 + 0x8000_0000) as u128 + 0x8000_0000 };
    encode_le(u, 4)
}

/// The eight little-endian bytes of an `i64` in two's complement.
pub fn i64_to_le(x: i64) -> (r: Vec<u8>)
    ensures
        r@ == le_bytes(unsigned_of(x as int, 8), 8),
{
    proof { reveal_with_fuel(pow256, 9); }
    let u: u128 = if x >= 0 {
        x as u128
    } else {
        (x as i128 + 0x8000_0000_0000_0000) as u128 + 0x8000_0000_0000_0000
    };
    encode_le(u, 8)
}

} // verus!
