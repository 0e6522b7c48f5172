//! The primitive codec engine.
//!
//! A logical value is modelled as a `nat`; its packed representation is the
//! base-256 decomposition of that number over a fixed number of bytes. The
//! little-endian layout puts the least significant byte first; the big-endian
//! layout is exactly the reverse of it. The `Native` selector resolves to the
//! little-endian layout (see [`crate::sentinels::Endianness`]).
//!
//! Signed values travel as their two's-complement reinterpretation:
//! [`unsigned_of`] maps a signed value into the unsigned range before
//! encoding, and [`signed_of`] maps it back after decoding.

use vstd::prelude::*;
use vstd::arithmetic::div_mod::{
    lemma_fundamental_div_mod, lemma_fundamental_div_mod_converse_div,
    lemma_fundamental_div_mod_converse_mod, lemma_mod_bound,
};
use crate::sentinels::Endianness;

verus! {

/// 256 raised to the power `n`: the number of values representable in `n`
/// bytes.
pub open spec fn pow256(n: nat) -> nat
    decreases n,
{
    if n == 0 {
        1
    } else {
        256 * pow256((n - 1) as nat)
    }
}

/// `pow256` is always positive.
pub proof fn lemma_pow256_pos(n: nat)
    ensures
        pow256(n) >= 1,
    decreases n,
{
    if n > 0 {
        lemma_pow256_pos((n - 1) as nat);
    }
}

/// The concrete values of `pow256` at the packed sizes this library uses.
pub proof fn lemma_pow256_values()
    ensures
        pow256(0) == 1,
        pow256(1) == 0x100,
        pow256(2) == 0x1_0000,
        pow256(4) == 0x1_0000_0000,
        pow256(8) == 0x1_0000_0000_0000_0000,
        pow256(15) == 0x100_0000_0000_0000_0000_0000_0000_0000,
        pow256(16) == 0x1_0000_0000_0000_0000_0000_0000_0000_0000,
{
    assert(pow256(0) == 1);
    assert(pow256(1) == 0x100);
    assert(pow256(2) == 0x1_0000);
    assert(pow256(3) == 0x100_0000);
    assert(pow256(4) == 0x1_0000_0000);
    assert(pow256(5) == 0x100_0000_0000);
    assert(pow256(6) == 0x1_0000_0000_0000);
    assert(pow256(7) == 0x100_0000_0000_0000);
    assert(pow256(8) == 0x1_0000_0000_0000_0000);
    assert(pow256(9) == 0x100_0000_0000_0000_0000);
    assert(pow256(10) == 0x1_0000_0000_0000_0000_0000);
    assert(pow256(11) == 0x100_0000_0000_0000_0000_0000);
    assert(pow256(12) == 0x1_0000_0000_0000_0000_0000_0000);
    assert(pow256(13) == 0x100_0000_0000_0000_0000_0000_0000);
    assert(pow256(14) == 0x1_0000_0000_0000_0000_0000_0000_0000);
    assert(pow256(15) == 0x100_0000_0000_0000_0000_0000_0000_0000);
    assert(pow256(16) == 0x1_0000_0000_0000_0000_0000_0000_0000_0000);
}

/// The `n`-byte little-endian decomposition of `v`: least significant byte
/// first, one base-256 digit per byte.
pub open spec fn le_bytes_of(v: nat, n: nat) -> Seq<u8>
    decreases n,
{
    if n == 0 {
        Seq::empty()
    } else {
        seq![(v % 256) as u8] + le_bytes_of(v / 256, (n - 1) as nat)
    }
}

/// The number encoded by a little-endian byte sequence.
pub open spec fn le_value_of(s: Seq<u8>) -> nat
    decreases s.len(),
{
    if s.len() == 0 {
        0
    } else {
        (s[0] + 256 * le_value_of(s.drop_first())) as nat
    }
}

/// The packed bytes of `v` in `n` bytes under the byte order that `e`
/// selects. `Native` and `Little` lay the least significant byte first; `Big`
/// is the exact reversal of that layout.
pub open spec fn encoded_bytes(e: Endianness, v: nat, n: nat) -> Seq<u8> {
    if e.spec_is_big() {
        le_bytes_of(v, n).reverse()
    } else {
        le_bytes_of(v, n)
    }
}

/// The number that a packed byte sequence denotes under the byte order that
/// `e` selects.
pub open spec fn decoded_value(e: Endianness, s: Seq<u8>) -> nat {
    if e.spec_is_big() {
        le_value_of(s.reverse())
    } else {
        le_value_of(s)
    }
}

/// The two's-complement reinterpretation of the signed value `v` as an
/// unsigned number of `n` bytes.
pub open spec fn unsigned_of(v: int, n: nat) -> int {
    if v >= 0 {
        v
    } else {
        v + pow256(n)
    }
}

/// The signed value whose `n`-byte two's-complement representation is the
/// unsigned number `v`.
pub open spec fn signed_of(v: nat, n: nat) -> int {
    if 2 * v < pow256(n) {
        v as int
    } else {
        v - pow256(n)
    }
}

/// A little-endian decomposition has exactly the requested length.
pub proof fn lemma_le_bytes_len(v: nat, n: nat)
    ensures
        le_bytes_of(v, n).len() == n,
    decreases n,
{
    if n > 0 {
        lemma_le_bytes_len(v / 256, (n - 1) as nat);
    }
}

/// The value of a byte sequence is bounded by the count of its bytes.
pub proof fn lemma_le_value_bound(s: Seq<u8>)
    ensures
        le_value_of(s) < pow256(s.len()),
    decreases s.len(),
{
    if s.len() > 0 {
        lemma_le_value_bound(s.drop_first());
        lemma_pow256_pos((s.len() - 1) as nat);
    }
}

/// Decoding the little-endian encoding of any representable value gives the
/// value back.
pub proof fn lemma_le_round_trip(v: nat, n: nat)
    requires
        v < pow256(n),
    ensures
        le_value_of(le_bytes_of(v, n)) == v,
    decreases n,
{
    if n == 0 {
        assert(v == 0);
    } else {
        lemma_fundamental_div_mod(v as int, 256);
        lemma_mod_bound(v as int, 256);
        let rest = le_bytes_of(v / 256, (n - 1) as nat);
        assert((seq![(v % 256) as u8] + rest).drop_first() =~= rest);
        assert(256 * (v / 256) < 256 * pow256((n - 1) as nat));
        lemma_le_round_trip(v / 256, (n - 1) as nat);
        lemma_le_bytes_len(v, n);
    }
}

/// Re-encoding the value of a little-endian byte sequence over its own
/// length gives the sequence back: together with [`lemma_le_round_trip`]
/// this makes the codec a bijection between byte sequences of a width and
/// the values representable in it.
pub proof fn lemma_le_bytes_of_value(s: Seq<u8>)
    ensures
        le_bytes_of(le_value_of(s), s.len()) == s,
    decreases s.len(),
{
    if s.len() > 0 {
        let rest = s.drop_first();
        let v = le_value_of(s) as int;
        lemma_le_value_bound(rest);
        lemma_fundamental_div_mod_converse_mod(v, 256, le_value_of(rest) as int, s[0] as int);
        lemma_fundamental_div_mod_converse_div(v, 256, le_value_of(rest) as int, s[0] as int);
        lemma_le_bytes_of_value(rest);
        assert(le_bytes_of(le_value_of(s), s.len()) =~= s);
    } else {
        assert(le_bytes_of(le_value_of(s), s.len()) =~= s);
    }
}

/// Decoding a byte sequence and encoding the value again over the same
/// width and byte order restores the sequence exactly: no two distinct
/// equal-width byte patterns decode to the same value under one byte order.
pub proof fn lemma_codec_inverse(e: Endianness, s: Seq<u8>)
    ensures
        encoded_bytes(e, decoded_value(e, s), s.len()) == s,
{
    if e.spec_is_big() {
        lemma_le_bytes_of_value(s.reverse());
        assert(le_bytes_of(le_value_of(s.reverse()), s.len()).reverse() =~= s);
    } else {
        lemma_le_bytes_of_value(s);
    }
}

/// Reversal is an involution on byte sequences.
pub proof fn lemma_reverse_reverse(s: Seq<u8>)
    ensures
        s.reverse().reverse() == s,
{
    assert(s.reverse().reverse() =~= s);
}

/// Encoding a value under one byte order and decoding the bytes under the
/// same order gives the value back, for every representable value, every
/// packed width and all three endianness selectors.
pub proof fn lemma_codec_round_trip(e: Endianness, v: nat, n: nat)
    requires
        v < pow256(n),
    ensures
        decoded_value(e, encoded_bytes(e, v, n)) == v,
{
    lemma_le_round_trip(v, n);
    if e.spec_is_big() {
        lemma_reverse_reverse(le_bytes_of(v, n));
    }
}

/// Encoding a value big-endian yields exactly the byte-reversed form of its
/// little-endian encoding; the `Native` selector coincides with the
/// little-endian layout.
pub proof fn lemma_endianness_reversal(v: nat, n: nat)
    ensures
        encoded_bytes(Endianness::Big, v, n) == encoded_bytes(Endianness::Little, v, n).reverse(),
        encoded_bytes(Endianness::Native, v, n) == encoded_bytes(Endianness::Little, v, n),
{
}

/// The two's-complement reinterpretation is a bijection between the signed
/// and the unsigned range of an `n`-byte width.
pub proof fn lemma_signed_round_trip(v: int, n: nat)
    requires
        0 - pow256(n) <= 2 * v < pow256(n),
    ensures
        0 <= unsigned_of(v, n) < pow256(n),
        signed_of(unsigned_of(v, n) as nat, n) == v,
{
    lemma_pow256_pos(n);
}

/// Encoding a signed value under one byte order and decoding the bytes
/// under the same order gives the value back, for every value of an
/// `n`-byte signed width and all three endianness selectors: the composite
/// round trip through the two's-complement reinterpretation.
pub proof fn lemma_signed_codec_round_trip(e: Endianness, v: int, n: nat)
    requires
        0 - pow256(n) <= 2 * v < pow256(n),
    ensures
        signed_of(decoded_value(e, encoded_bytes(e, unsigned_of(v, n) as nat, n)), n) == v,
{
    lemma_signed_round_trip(v, n);
    lemma_codec_round_trip(e, unsigned_of(v, n) as nat, n);
}

/// A decoded value is bounded by the count of the bytes it came from,
/// whatever the byte order.
pub proof fn lemma_decoded_bound(e: Endianness, s: Seq<u8>)
    ensures
        decoded_value(e, s) < pow256(s.len()),
{
    if e.spec_is_big() {
        lemma_le_value_bound(s.reverse());
    } else {
        lemma_le_value_bound(s);
    }
}

/// The little-endian byte decomposition of `v` over `n` bytes, computed
/// digit by digit.
fn le_bytes_exec(v: u128, n: usize) -> (r: Vec<u8>)
    ensures
        r@ == le_bytes_of(v as nat, n as nat),
{
    let mut out: Vec<u8> = Vec::new();
    let mut rem: u128 = v;
    let mut i: usize = 0;
    while i < n
        invariant
            i <= n,
            out@.len() == i as nat,
            out@ + le_bytes_of(rem as nat, (n - i) as nat) == le_bytes_of(v as nat, n as nat),
        decreases n - i,
    {
        proof {
            lemma_mod_bound(rem as int, 256);
        }
        let b: u8 = (rem % 256) as u8;
        proof {
            let rest = le_bytes_of((rem as nat) / 256, (n - i - 1) as nat);
            assert(le_bytes_of(rem as nat, (n - i) as nat) == seq![b] + rest);
            assert((out@ + seq![b]) + rest =~= out@ + (seq![b] + rest));
        }
        out.push(b);
        rem = rem / 256;
        i = i + 1;
    }
    proof {
        assert(out@ + le_bytes_of(rem as nat, 0) =~= out@);
    }
    out
}

/// A fresh vector holding the bytes of `b` in reverse order.
fn reverse_bytes(b: &[u8]) -> (r: Vec<u8>)
    ensures
        r@ == b@.reverse(),
{
    let len = b.len();
    let mut out: Vec<u8> = Vec::new();
    let mut i: usize = 0;
    while i < len
        invariant
            i <= len,
            len == b@.len(),
            out@.len() == i as nat,
            forall|k: int| 0 <= k < i ==> out@[k] == b@[len - 1 - k],
        decreases len - i,
    {
        let byte = b[len - 1 - i];
        out.push(byte);
        i = i + 1;
    }
    proof {
        assert(out@ =~= b@.reverse());
    }
    out
}

/// The number encoded by a little-endian byte sequence of at most 16 bytes.
fn le_value_exec(b: &[u8]) -> (r: u128)
    requires
        b@.len() <= 16,
    ensures
        r as nat == le_value_of(b@),
{
    let len = b.len();
    let mut acc: u128 = 0;
    let mut j: usize = len;
    while j > 0
        invariant
            j <= len,
            len == b@.len() <= 16,
            acc as nat == le_value_of(b@.skip(j as int)),
        decreases j,
    {
        proof {
            lemma_le_value_bound(b@.skip(j as int));
            lemma_pow256_values();
            assert(pow256(b@.skip(j as int).len()) <= pow256(15)) by {
                lemma_pow256_mono(b@.skip(j as int).len(), 15);
            }
            assert(b@.skip(j - 1).drop_first() =~= b@.skip(j as int));
        }
        let byte = b[j - 1];
        acc = (byte as u128) + 256 * acc;
        j = j - 1;
    }
    proof {
        assert(b@.skip(0) =~= b@);
    }
    acc
}

/// `pow256` is monotone in its exponent.
pub proof fn lemma_pow256_mono(a: nat, b: nat)
    requires
        a <= b,
    ensures
        pow256(a) <= pow256(b),
    decreases b,
{
    if a < b {
        lemma_pow256_mono(a, (b - 1) as nat);
        lemma_pow256_pos((b - 1) as nat);
    }
}

/// Packs the low `n` bytes of `v` under the byte order that `e` selects.
pub fn encode_unsigned(e: Endianness, v: u128, n: usize) -> (r: Vec<u8>)
    ensures
        r@ == encoded_bytes(e, v as nat, n as nat),
        r@.len() == n as nat,
{
    proof {
        lemma_le_bytes_len(v as nat, n as nat);
    }
    let le = le_bytes_exec(v, n);
    if e.is_big() {
        reverse_bytes(le.as_slice())
    } else {
        le
    }
}

/// Unpacks the number that `b` denotes under the byte order that `e`
/// selects.
pub fn decode_unsigned(e: Endianness, b: &[u8]) -> (r: u128)
    requires
        b@.len() <= 16,
    ensures
        r as nat == decoded_value(e, b@),
{
    if e.is_big() {
        let rb = reverse_bytes(b);
        le_value_exec(rb.as_slice())
    } else {
        le_value_exec(b)
    }
}

/// The one-byte two's-complement representation of `v`.
pub fn i8_to_repr(v: i8) -> (r: u8)
    ensures
        r as int == unsigned_of(v as int, 1),
{
    proof {
        lemma_pow256_values();
    }
    if v >= 0 {
        v as u8
    } else {
        let m: u8 = (-(v + 1)) as u8;
        0xffu8 - m
    }
}

/// The signed value of a one-byte two's-complement representation.
pub fn repr_to_i8(u: u8) -> (r: i8)
    ensures
        r as int == signed_of(u as nat, 1),
{
    proof {
        lemma_pow256_values();
    }
    if u < 0x80 {
        u as i8
    } else {
        -((0xffu8 - u) as i8) - 1
    }
}

/// The two-byte two's-complement representation of `v`.
pub fn i16_to_repr(v: i16) -> (r: u16)
    ensures
        r as int == unsigned_of(v as int, 2),
{
    proof {
        lemma_pow256_values();
    }
    if v >= 0 {
        v as u16
    } else {
        let m: u16 = (-(v + 1)) as u16;
        0xffffu16 - m
    }
}

/// The signed value of a two-byte two's-complement representation.
pub fn repr_to_i16(u: u16) -> (r: i16)
    ensures
        r as int == signed_of(u as nat, 2),
{
    proof {
        lemma_pow256_values();
    }
    if u < 0x8000 {
        u as i16
    } else {
        -((0xffffu16 - u) as i16) - 1
    }
}

/// The four-byte two's-complement representation of `v`.
pub fn i32_to_repr(v: i32) -> (r: u32)
    ensures
        r as int == unsigned_of(v as int, 4),
{
    proof {
        lemma_pow256_values();
    }
    if v >= 0 {
        v as u32
    } else {
        let m: u32 = (-(v + 1)) as u32;
        0xffff_ffffu32 - m
    }
}

/// The signed value of a four-byte two's-complement representation.
pub fn repr_to_i32(u: u32) -> (r: i32)
    ensures
        r as int == signed_of(u as nat, 4),
{
    proof {
        lemma_pow256_values();
    }
    if u < 0x8000_0000 {
        u as i32
    } else {
        -((0xffff_ffffu32 - u) as i32) - 1
    }
}

/// The eight-byte two's-complement representation of `v`.
pub fn i64_to_repr(v: i64) -> (r: u64)
    ensures
        r as int == unsigned_of(v as int, 8),
{
    proof {
        lemma_pow256_values();
    }
    if v >= 0 {
        v as u64
    } else {
        let m: u64 = (-(v + 1)) as u64;
        0xffff_ffff_ffff_ffffu64 - m
    }
}

/// The signed value of an eight-byte two's-complement representation.
pub fn repr_to_i64(u: u64) -> (r: i64)
    ensures
        r as int == signed_of(u as nat, 8),
{
    proof {
        lemma_pow256_values();
    }
    if u < 0x8000_0000_0000_0000 {
        u as i64
    } else {
        -((0xffff_ffff_ffff_ffffu64 - u) as i64) - 1
    }
}

/// The sixteen-byte two's-complement representation of `v`.
pub fn i128_to_repr(v: i128) -> (r: u128)
    ensures
        r as int == unsigned_of(v as int, 16),
{
    proof {
        lemma_pow256_values();
    }
    if v >= 0 {
        v as u128
    } else {
        let m: u128 = (-(v + 1)) as u128;
        0xffff_ffff_ffff_ffff_ffff_ffff_ffff_ffffu128 - m
    }
}

/// The signed value of a sixteen-byte two's-complement representation.
pub fn repr_to_i128(u: u128) -> (r: i128)
    ensures
        r as int == signed_of(u as nat, 16),
{
    proof {
        lemma_pow256_values();
    }
    if u < 0x8000_0000_0000_0000_0000_0000_0000_0000 {
        u as i128
    } else {
        -((0xffff_ffff_ffff_ffff_ffff_ffff_ffff_ffffu128 - u) as i128) - 1
    }
}

} // verus!
