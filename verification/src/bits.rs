//! Bit fields of hardware registers.

use vstd::prelude::*;
use vstd::arithmetic::power2::*;
use vstd::bits::*;

verus! {

/// The field of `v` that starts at bit `lo` and is as wide as `mask`.
pub open spec fn spec_bits(v: u64, lo: u64, mask: u64) -> u64 {
    (v >> lo) & mask
}

/// Bit `n` of `v`.
pub open spec fn spec_bit(v: u64, n: u64) -> bool {
    (v >> n) & 1 != 0
}

pub proof fn lemma_masked(v: u64, mask: u64)
    by (bit_vector)
    ensures
        v & mask <= mask,
        v & mask <= v,
{
}

#[verifier::when_used_as_spec(spec_bits)]
pub fn bits(v: u64, lo: u64, mask: u64) -> (r: u64)
    requires
        lo < 64,
    ensures
        r == bits(v, lo, mask),
        r <= mask,
{
    proof {
        lemma_masked(v >> lo, mask);
    }
    (v >> lo) & mask
}

#[verifier::when_used_as_spec(spec_bit)]
pub fn bit(v: u64, n: u64) -> (r: bool)
    requires
        n < 64,
    ensures
        r == bit(v, n),
{
    (v >> n) & 1 != 0
}

/// A field is what a division and a remainder take out of the register.
pub proof fn law_bits_divide(v: u64, lo: u64, n: nat, mask: u64)
    requires
        lo < 64,
        n < 64,
        mask == pow2(n) - 1,
    ensures
        bits(v, lo, mask) == (v as int / pow2(lo as nat) as int) % (pow2(n) as int),
{
    let x = v >> lo;
    lemma_u64_shr_is_div(v, lo);
    lemma_pow2_pos(lo as nat);
    lemma_pow2_pos(n);
    lemma_u64_low_bits_mask_is_mod(x, n);
    lemma2_to64_rest();
    if n < 63 {
        lemma_pow2_strictly_increases(n, 63);
    }
    assert(low_bits_mask(n) == mask);
    assert(x as int == v as int / pow2(lo as nat) as int);
}

/// A single bit is the parity of what stands above it.
pub proof fn law_bit_is_parity(v: u64, n: u64)
    requires
        n < 64,
    ensures
        bit(v, n) <==> (v as int / pow2(n as nat) as int) % 2 == 1,
{
    lemma2_to64();
    law_bits_divide(v, n, 1, 1);
}

proof fn lemma_or_above(a: u64, b: u64, s: u64)
    by (bit_vector)
    requires
        s < 64,
        a >> s == 0,
    ensures
        a | (b << s) == a + (b << s),
{
}

/// A field placed above others is added to them.
pub proof fn lemma_placed_above(a: u64, b: u64, s: u64)
    requires
        s < 64,
        a < pow2(s as nat),
        b * pow2(s as nat) <= u64::MAX,
    ensures
        a | (b << s) == a + b * pow2(s as nat),
{
    lemma_u64_shr_is_div(a, s);
    lemma_pow2_pos(s as nat);
    vstd::arithmetic::div_mod::lemma_basic_div(a as int, pow2(s as nat) as int);
    lemma_u64_shl_is_mul(b, s);
    lemma_or_above(a, b, s);
}

/// The bitwise operators, bit by bit.
pub proof fn lemma_common_bits(v: u64, x: u64, k: u64)
    by (bit_vector)
    requires
        k < 64,
    ensures
        v & v == v,
        v & 0 == 0,
        (v >> k) & 1 == 1 && (x >> k) & 1 == 1 ==> v & x != 0,
        (v >> k) & 1 != 1 && (x >> k) & 1 == 1 ==> v & x != x,
        (v >> k) & 1 != 1 && x == 1u64 << k ==> v & x == 0,
        (v >> k) & 1 == 1 && x == 1u64 << k ==> v & x == x,
        ((v | x) >> k) & 1 == 1 <==> (v >> k) & 1 == 1 || (x >> k) & 1 == 1,
        ((v & x) >> k) & 1 == 1 <==> (v >> k) & 1 == 1 && (x >> k) & 1 == 1,
        ((v ^ x) >> k) & 1 == 1 <==> ((v >> k) & 1 == 1) != ((x >> k) & 1 == 1),
        ((!v) >> k) & 1 == 1 <==> (v >> k) & 1 != 1,
        !v == 0xFFFF_FFFF_FFFF_FFFF - v,
        (v ^ x) ^ x == v,
        v < 0x1_0000_0000 && x < 0x1_0000_0000 ==> v | x < 0x1_0000_0000,
        v < 0x1_0000_0000 && x < 0x1_0000_0000 ==> v & x < 0x1_0000_0000,
        v < 0x1_0000_0000 && x < 0x1_0000_0000 ==> v ^ x < 0x1_0000_0000,
{
}

} // verus!
