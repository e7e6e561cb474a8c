//! The EE's integer arithmetic: 32-bit results sign-extended into 64 bits,
//! the multiply and divide pipelines, and the 128-bit lane operations.

use vstd::prelude::*;

verus! {

/// A 128-bit register, or one 64-bit register per pipeline.
#[derive(Clone, Copy, PartialEq, Eq, Structural, Debug)]
pub struct Reg {
    pub lo: u64,
    pub hi: u64,
}

// --- words and signs ------------------------------------------------------------

pub open spec fn low_word(v: u64) -> u32 {
    (v % 0x1_0000_0000) as u32
}

#[verifier::when_used_as_spec(low_word)]
pub fn low32(v: u64) -> (r: u32)
    ensures
        r == low_word(v),
{
    (v % 0x1_0000_0000) as u32
}

pub open spec fn high_word(v: u64) -> u32 {
    (v / 0x1_0000_0000) as u32
}

#[verifier::when_used_as_spec(high_word)]
pub fn high32(v: u64) -> (r: u32)
    ensures
        r == high_word(v),
{
    (v / 0x1_0000_0000) as u32
}

pub open spec fn extended32(v: u32) -> u64 {
    if v >= 0x8000_0000 {
        (v + 0xFFFF_FFFF_0000_0000) as u64
    } else {
        v as u64
    }
}

/// A word sign-extended.
#[verifier::when_used_as_spec(extended32)]
pub fn sext32(v: u32) -> (r: u64)
    ensures
        r == extended32(v),
{
    if v >= 0x8000_0000 {
        v as u64 + 0xFFFF_FFFF_0000_0000
    } else {
        v as u64
    }
}

pub open spec fn extended16(v: u16) -> u64 {
    if v >= 0x8000 {
        (v + 0xFFFF_FFFF_FFFF_0000) as u64
    } else {
        v as u64
    }
}

/// A halfword sign-extended.
#[verifier::when_used_as_spec(extended16)]
pub fn sext16(v: u16) -> (r: u64)
    ensures
        r == extended16(v),
{
    if v >= 0x8000 {
        v as u64 + 0xFFFF_FFFF_FFFF_0000
    } else {
        v as u64
    }
}

pub open spec fn extended8(v: u8) -> u64 {
    if v >= 0x80 {
        (v + 0xFFFF_FFFF_FFFF_FF00) as u64
    } else {
        v as u64
    }
}

/// A byte sign-extended.
#[verifier::when_used_as_spec(extended8)]
pub fn sext8(v: u8) -> (r: u64)
    ensures
        r == extended8(v),
{
    if v >= 0x80 {
        v as u64 + 0xFFFF_FFFF_FFFF_FF00
    } else {
        v as u64
    }
}

/// The signed number that a word stands for.
pub open spec fn signed32(v: u32) -> int {
    if v >= 0x8000_0000 {
        v - 0x1_0000_0000
    } else {
        v as int
    }
}

fn number32(v: u32) -> (r: i64)
    ensures
        r == signed32(v),
        -0x8000_0000 <= r < 0x8000_0000,
{
    if v >= 0x8000_0000 {
        v as i64 - 0x1_0000_0000
    } else {
        v as i64
    }
}

/// The signed number that a doubleword stands for.
pub open spec fn signed64(v: u64) -> int {
    if v >= 0x8000_0000_0000_0000 {
        v - 0x1_0000_0000_0000_0000
    } else {
        v as int
    }
}

pub open spec fn spec_less(a: u64, b: u64) -> bool {
    signed64(a) < signed64(b)
}

/// Signed comparison.
#[verifier::when_used_as_spec(spec_less)]
pub fn less(a: u64, b: u64) -> (r: bool)
    ensures
        r == spec_less(a, b),
{
    let (x, y) = (a >= 0x8000_0000_0000_0000, b >= 0x8000_0000_0000_0000);
    if x == y {
        a < b
    } else {
        x
    }
}

pub open spec fn spec_negative(a: u64) -> bool {
    signed64(a) < 0
}

#[verifier::when_used_as_spec(spec_negative)]
pub fn negative(a: u64) -> (r: bool)
    ensures
        r == spec_negative(a),
{
    a >= 0x8000_0000_0000_0000
}

pub open spec fn spec_flag(b: bool) -> u64 {
    if b {
        1
    } else {
        0
    }
}

#[verifier::when_used_as_spec(spec_flag)]
pub fn flag(b: bool) -> (r: u64)
    ensures
        r == spec_flag(b),
{
    if b {
        1
    } else {
        0
    }
}

/// Arithmetic shift right of a word.
pub open spec fn spec_sra32(v: u32, n: u32) -> u32 {
    if v < 0x8000_0000 {
        v >> n
    } else {
        !((!v) >> n)
    }
}

#[verifier::when_used_as_spec(spec_sra32)]
pub fn sra32(v: u32, n: u32) -> (r: u32)
    requires
        n < 32,
    ensures
        r == spec_sra32(v, n),
{
    if v < 0x8000_0000 {
        v >> n
    } else {
        !((!v) >> n)
    }
}

/// Arithmetic shift right of a doubleword.
pub open spec fn spec_sra64(v: u64, n: u32) -> u64 {
    if v < 0x8000_0000_0000_0000 {
        v >> n
    } else {
        !((!v) >> n)
    }
}

#[verifier::when_used_as_spec(spec_sra64)]
pub fn sra64(v: u64, n: u32) -> (r: u64)
    requires
        n < 64,
    ensures
        r == spec_sra64(v, n),
{
    if v < 0x8000_0000_0000_0000 {
        v >> n
    } else {
        !((!v) >> n)
    }
}

proof fn lemma_complement(v: u32)
    by (bit_vector)
    ensures
        !v == 0xFFFF_FFFF - v,
{
}

/// A shift right is a division by a power of two, rounding down.
pub proof fn law_sra_divides(v: u32, n: u32)
    requires
        n < 32,
    ensures
        signed32(sra32(v, n)) == signed32(v) / (vstd::arithmetic::power2::pow2(n as nat) as int),
{
    let p = vstd::arithmetic::power2::pow2(n as nat) as int;
    vstd::arithmetic::power2::lemma_pow2_pos(n as nat);
    let w = !v;
    vstd::bits::lemma_u32_shr_is_div(v, n);
    vstd::bits::lemma_u32_shr_is_div(w, n);
    let y = w >> n;
    lemma_complement(v);
    lemma_complement(y);
    if v < 0x8000_0000 {
        assert(v as int / p <= v) by (nonlinear_arith)
            requires
                p >= 1,
                v >= 0,
        ;
    } else {
        let s = v - 0x1_0000_0000;
        let q = -1 - (w as int) / p;
        vstd::arithmetic::div_mod::lemma_fundamental_div_mod(w as int, p);
        vstd::arithmetic::div_mod::lemma_mod_bound(w as int, p);
        let r = w as int % p;
        let k = w as int / p;
        assert(0 <= k <= w) by (nonlinear_arith)
            requires
                w == p * k + r,
                0 <= r,
                p >= 1,
                w >= 0,
                k == w as int / p,
        ;
        assert(s == q * p + (p - 1 - r)) by (nonlinear_arith)
            requires
                w == p * k + r,
                w == -1 - s,
                q == -1 - k,
        ;
        vstd::arithmetic::div_mod::lemma_fundamental_div_mod_converse(s, p, q, p - 1 - r);
    }
}

// --- multiply and divide -----------------------------------------------------------

/// LO and HI after a 64-bit result: its halves, sign-extended.
pub open spec fn halves(v: u64) -> Reg {
    Reg { lo: sext32(low32(v)), hi: sext32(high32(v)) }
}

fn split(v: u64) -> (r: Reg)
    ensures
        r == halves(v),
{
    Reg { lo: sext32(low32(v)), hi: sext32(high32(v)) }
}

/// A number modulo 2^64.
pub open spec fn wrapped(v: int) -> u64 {
    (v % 0x1_0000_0000_0000_0000) as u64
}

fn wrap(v: i64) -> (r: u64)
    ensures
        r == wrapped(v as int),
{
    if v >= 0 {
        v as u64
    } else {
        u64::MAX - ((-(v + 1)) as u64)
    }
}

/// mult / multu: the product's halves.
#[verifier::opaque]
pub open spec fn product(a: u32, b: u32, signed: bool) -> u64 {
    if signed {
        wrapped(signed32(a) * signed32(b))
    } else {
        wrapped(a * b)
    }
}

fn multiply(a: u32, b: u32, signed: bool) -> (r: u64)
    ensures
        r == product(a, b, signed),
{
    proof {
        reveal(product);
    }
    if signed {
        let x: i64 = number32(a);
        let y: i64 = number32(b);
        assert(-0x4000_0000_0000_0000 <= x * y <= 0x4000_0000_0000_0000) by (nonlinear_arith)
            requires
                -0x8000_0000 <= x < 0x8000_0000,
                -0x8000_0000 <= y < 0x8000_0000,
        ;
        wrap(x * y)
    } else {
        let (x, y): (u64, u64) = (a as u64, b as u64);
        assert(0 <= x * y <= 0xFFFF_FFFF * 0xFFFF_FFFF) by (nonlinear_arith)
            requires
                0 <= x <= 0xFFFF_FFFF,
                0 <= y <= 0xFFFF_FFFF,
        ;
        assert(a * b == x * y);
        x * y
    }
}

pub fn mult(a: u32, b: u32, signed: bool) -> (r: Reg)
    ensures
        r == halves(product(a, b, signed)),
{
    split(multiply(a, b, signed))
}

/// madd / maddu: the product added to what LO and HI hold.
pub open spec fn accumulated(lo: u64, hi: u64, a: u32, b: u32, signed: bool) -> Reg {
    halves(wrapped(low32(lo) + 0x1_0000_0000 * low32(hi) + product(a, b, signed)))
}

pub fn madd(lo: u64, hi: u64, a: u32, b: u32, signed: bool) -> (r: Reg)
    ensures
        r == accumulated(lo, hi, a, b, signed),
{
    let acc: u64 = low32(lo) as u64 + 0x1_0000_0000 * low32(hi) as u64;
    let p: u64 = multiply(a, b, signed);
    split(acc.wrapping_add(p))
}

pub open spec fn magnitude(v: int) -> int {
    if v < 0 {
        -v
    } else {
        v
    }
}

/// Quotient rounded towards zero.
pub open spec fn quotient(n: int, d: int) -> int {
    let q = magnitude(n) / magnitude(d);
    if (n < 0) != (d < 0) {
        -q
    } else {
        q
    }
}

/// What is left, with the dividend's sign.
pub open spec fn remainder(n: int, d: int) -> int {
    let r = magnitude(n) % magnitude(d);
    if n < 0 {
        -r
    } else {
        r
    }
}

/// A number as a sign-extended word.
pub open spec fn as_word(v: int) -> u64 {
    sext32((v % 0x1_0000_0000) as u32)
}

/// div / divu: LO gets the quotient and HI the remainder. A division by
/// zero gives -1 (signed: 1 for a negative dividend) and the dividend.
#[verifier::opaque]
pub open spec fn divided(a: u32, b: u32, signed: bool) -> Reg {
    let (n, d) = if signed {
        (signed32(a), signed32(b))
    } else {
        (a as int, b as int)
    };
    if d == 0 {
        Reg {
            lo: as_word(
                if n >= 0 {
                    -1
                } else {
                    1
                },
            ),
            hi: as_word(n),
        }
    } else {
        Reg { lo: as_word(quotient(n, d)), hi: as_word(remainder(n, d)) }
    }
}

fn word_of(v: u64, minus: bool) -> (r: u32)
    requires
        v <= 0xFFFF_FFFF,
    ensures
        r == (if minus {
            -v
        } else {
            v as int
        }) % 0x1_0000_0000,
{
    if minus && v > 0 {
        (0x1_0000_0000 - v) as u32
    } else {
        v as u32
    }
}

pub fn divide(a: u32, b: u32, signed: bool) -> (r: Reg)
    ensures
        r == divided(a, b, signed),
{
    proof {
        reveal(divided);
    }
    let (x, y) = (signed && a >= 0x8000_0000, signed && b >= 0x8000_0000);
    let n: u64 = if x { 0x1_0000_0000 - a as u64 } else { a as u64 };
    let d: u64 = if y { 0x1_0000_0000 - b as u64 } else { b as u64 };
    if d == 0 {
        Reg { lo: sext32(word_of(1, !x)), hi: sext32(a) }
    } else {
        assert(n / d <= n && n % d <= n) by (nonlinear_arith)
            requires
                d >= 1,
        ;
        Reg { lo: sext32(word_of(n / d, x != y)), hi: sext32(word_of(n % d, x)) }
    }
}

/// Dividing and multiplying back gives the dividend.
pub proof fn law_division_multiplies_back(n: int, d: int)
    requires
        d != 0,
    ensures
        quotient(n, d) * d + remainder(n, d) == n,
        magnitude(remainder(n, d)) < magnitude(d),
{
    let (a, b) = (magnitude(n), magnitude(d));
    vstd::arithmetic::div_mod::lemma_fundamental_div_mod(a, b);
    vstd::arithmetic::div_mod::lemma_mod_bound(a, b);
    let (q, r) = (a / b, a % b);
    assert(b * q == q * b && (-q) * d == -(q * d) && (-q) * (-b) == q * b && q * (-b) == -(q * b) && (-q) * b == -(q * b))
        by (nonlinear_arith)
        requires
            true,
    ;
}

// --- lanes -----------------------------------------------------------------------------

/// What is done to each pair of lanes.
#[derive(Clone, Copy, PartialEq, Eq, Structural)]
pub enum LaneOp {
    Sum,
    Difference,
    /// All ones where the first is greater (signed).
    Greater,
    /// All ones where they are equal.
    Equal,
    Max,
    Min,
    /// Signed saturation.
    SumSigned,
    DifferenceSigned,
    /// Unsigned saturation.
    SumUnsigned,
    DifferenceUnsigned,
    /// Magnitude of the second.
    Magnitude,
}

/// The signed number that a lane of `size` values stands for.
pub open spec fn lane_signed(size: int, x: int) -> int {
    if x >= size / 2 {
        x - size
    } else {
        x
    }
}

pub open spec fn saturated(size: int, v: int) -> int {
    if v >= size / 2 {
        size / 2 - 1
    } else if v < -(size / 2) {
        -(size / 2)
    } else {
        v
    }
}

/// One lane's result.
pub open spec fn lane(op: LaneOp, size: int, x: int, y: int) -> int {
    let (s, t) = (lane_signed(size, x), lane_signed(size, y));
    match op {
        LaneOp::Sum => (x + y) % size,
        LaneOp::Difference => (x - y) % size,
        LaneOp::Greater => if s > t {
            size - 1
        } else {
            0
        },
        LaneOp::Equal => if x == y {
            size - 1
        } else {
            0
        },
        LaneOp::Max => if s > t {
            x
        } else {
            y
        },
        LaneOp::Min => if s < t {
            x
        } else {
            y
        },
        LaneOp::SumSigned => saturated(size, s + t) % size,
        LaneOp::DifferenceSigned => saturated(size, s - t) % size,
        LaneOp::SumUnsigned => if x + y < size {
            x + y
        } else {
            size - 1
        },
        LaneOp::DifferenceUnsigned => if x >= y {
            x - y
        } else {
            0
        },
        LaneOp::Magnitude => magnitude(t),
    }
}

pub open spec fn is_lane_size(size: u64) -> bool {
    size == 0x100 || size == 0x1_0000 || size == 0x1_0000_0000
}

fn unsign(size: u64, v: i64) -> (r: u64)
    requires
        is_lane_size(size),
        -size <= v < 2 * size,
    ensures
        r == v as int % size as int,
        r < size,
{
    proof {
        if v >= size {
            vstd::arithmetic::div_mod::lemma_fundamental_div_mod_converse(v as int, size as int, 1, v - size);
        } else if v >= 0 {
            vstd::arithmetic::div_mod::lemma_fundamental_div_mod_converse(v as int, size as int, 0, v as int);
        } else {
            vstd::arithmetic::div_mod::lemma_fundamental_div_mod_converse(v as int, size as int, -1, v + size);
        }
    }
    if v >= size as i64 {
        (v - size as i64) as u64
    } else if v >= 0 {
        v as u64
    } else {
        (v + size as i64) as u64
    }
}

#[verifier::rlimit(40)]
fn lane_of(op: LaneOp, size: u64, x: u64, y: u64) -> (r: u64)
    requires
        is_lane_size(size),
        x < size,
        y < size,
    ensures
        r == lane(op, size as int, x as int, y as int),
        r < size,
{
    let half: i64 = (size / 2) as i64;
    let s: i64 = if x as i64 >= half { x as i64 - size as i64 } else { x as i64 };
    let t: i64 = if y as i64 >= half { y as i64 - size as i64 } else { y as i64 };
    match op {
        LaneOp::Sum => unsign(size, x as i64 + y as i64),
        LaneOp::Difference => unsign(size, x as i64 - y as i64),
        LaneOp::Greater => if s > t {
            size - 1
        } else {
            0
        },
        LaneOp::Equal => if x == y {
            size - 1
        } else {
            0
        },
        LaneOp::Max => if s > t {
            x
        } else {
            y
        },
        LaneOp::Min => if s < t {
            x
        } else {
            y
        },
        LaneOp::SumSigned => unsign(size, saturate(half, s + t)),
        LaneOp::DifferenceSigned => unsign(size, saturate(half, s - t)),
        LaneOp::SumUnsigned => if x + y < size {
            x + y
        } else {
            size - 1
        },
        LaneOp::DifferenceUnsigned => if x >= y {
            x - y
        } else {
            0
        },
        LaneOp::Magnitude => if t < 0 {
            (-t) as u64
        } else {
            t as u64
        },
    }
}

fn saturate(half: i64, v: i64) -> (r: i64)
    requires
        0 < half <= 0x8000_0000,
    ensures
        r == saturated(2 * half as int, v as int),
        -half <= r < half,
{
    if v >= half {
        half - 1
    } else if v < -half {
        -half
    } else {
        v
    }
}

pub open spec fn word_lanes(op: LaneOp, a: u64, b: u64) -> u64 {
    (lane(op, 0x1_0000_0000, a as int % 0x1_0000_0000, b as int % 0x1_0000_0000) + 0x1_0000_0000 * lane(
        op,
        0x1_0000_0000,
        a as int / 0x1_0000_0000,
        b as int / 0x1_0000_0000,
    )) as u64
}

fn words(op: LaneOp, a: u64, b: u64) -> (r: u64)
    ensures
        r == word_lanes(op, a, b),
{
    let l: u64 = lane_of(op, 0x1_0000_0000, a % 0x1_0000_0000, b % 0x1_0000_0000);
    let h: u64 = lane_of(op, 0x1_0000_0000, a / 0x1_0000_0000, b / 0x1_0000_0000);
    l + 0x1_0000_0000 * h
}

/// Halfword `i` of a doubleword.
pub open spec fn half_at(v: u64, i: int) -> int {
    if i == 0 {
        v as int % 0x1_0000
    } else if i == 1 {
        v as int / 0x1_0000 % 0x1_0000
    } else if i == 2 {
        v as int / 0x1_0000_0000 % 0x1_0000
    } else {
        v as int / 0x1_0000_0000_0000
    }
}

fn half(v: u64, i: u32) -> (r: u64)
    ensures
        r == half_at(v, i as int),
        r < 0x1_0000,
{
    match i {
        0 => v % 0x1_0000,
        1 => v / 0x1_0000 % 0x1_0000,
        2 => v / 0x1_0000_0000 % 0x1_0000,
        _ => v / 0x1_0000_0000_0000,
    }
}

/// Four halfwords, low first.
pub open spec fn of_halves(a: int, b: int, c: int, d: int) -> u64 {
    (a + 0x1_0000 * b + 0x1_0000_0000 * c + 0x1_0000_0000_0000 * d) as u64
}

fn join_halves(a: u64, b: u64, c: u64, d: u64) -> (r: u64)
    requires
        a < 0x1_0000,
        b < 0x1_0000,
        c < 0x1_0000,
        d < 0x1_0000,
    ensures
        r == of_halves(a as int, b as int, c as int, d as int),
{
    a + 0x1_0000 * b + 0x1_0000_0000 * c + 0x1_0000_0000_0000 * d
}

pub open spec fn half_lanes(op: LaneOp, a: u64, b: u64) -> u64 {
    of_halves(
        lane(op, 0x1_0000, half_at(a, 0), half_at(b, 0)),
        lane(op, 0x1_0000, half_at(a, 1), half_at(b, 1)),
        lane(op, 0x1_0000, half_at(a, 2), half_at(b, 2)),
        lane(op, 0x1_0000, half_at(a, 3), half_at(b, 3)),
    )
}

fn halfwords(op: LaneOp, a: u64, b: u64) -> (r: u64)
    ensures
        r == half_lanes(op, a, b),
{
    let w: u64 = lane_of(op, 0x1_0000, half(a, 0), half(b, 0));
    let x: u64 = lane_of(op, 0x1_0000, half(a, 1), half(b, 1));
    let y: u64 = lane_of(op, 0x1_0000, half(a, 2), half(b, 2));
    let z: u64 = lane_of(op, 0x1_0000, half(a, 3), half(b, 3));
    join_halves(w, x, y, z)
}

/// Two bytes as a halfword.
pub open spec fn of_bytes(l: int, h: int) -> int {
    l + 0x100 * h
}

/// The two byte lanes of a halfword.
pub open spec fn byte_pair(op: LaneOp, x: int, y: int) -> int {
    of_bytes(lane(op, 0x100, x % 0x100, y % 0x100), lane(op, 0x100, x / 0x100, y / 0x100))
}

fn byte_pair_of(op: LaneOp, x: u64, y: u64) -> (r: u64)
    requires
        x < 0x1_0000,
        y < 0x1_0000,
    ensures
        r == byte_pair(op, x as int, y as int),
        r < 0x1_0000,
{
    lane_of(op, 0x100, x % 0x100, y % 0x100) + 0x100 * lane_of(op, 0x100, x / 0x100, y / 0x100)
}

pub open spec fn byte_lanes(op: LaneOp, a: u64, b: u64) -> u64 {
    of_halves(
        byte_pair(op, half_at(a, 0), half_at(b, 0)),
        byte_pair(op, half_at(a, 1), half_at(b, 1)),
        byte_pair(op, half_at(a, 2), half_at(b, 2)),
        byte_pair(op, half_at(a, 3), half_at(b, 3)),
    )
}

fn bytes(op: LaneOp, a: u64, b: u64) -> (r: u64)
    ensures
        r == byte_lanes(op, a, b),
{
    let w: u64 = byte_pair_of(op, half(a, 0), half(b, 0));
    let x: u64 = byte_pair_of(op, half(a, 1), half(b, 1));
    let y: u64 = byte_pair_of(op, half(a, 2), half(b, 2));
    let z: u64 = byte_pair_of(op, half(a, 3), half(b, 3));
    join_halves(w, x, y, z)
}

/// Lane widths.
#[derive(Clone, Copy, PartialEq, Eq, Structural)]
pub enum Width {
    Byte,
    Half,
    Word,
}

/// An operation on every lane of two registers.
pub open spec fn lanes(op: LaneOp, w: Width, a: Reg, b: Reg) -> Reg {
    match w {
        Width::Byte => Reg { lo: byte_lanes(op, a.lo, b.lo), hi: byte_lanes(op, a.hi, b.hi) },
        Width::Half => Reg { lo: half_lanes(op, a.lo, b.lo), hi: half_lanes(op, a.hi, b.hi) },
        Width::Word => Reg { lo: word_lanes(op, a.lo, b.lo), hi: word_lanes(op, a.hi, b.hi) },
    }
}

pub fn on_lanes(op: LaneOp, w: Width, a: Reg, b: Reg) -> (r: Reg)
    ensures
        r == lanes(op, w, a, b),
{
    match w {
        Width::Byte => Reg { lo: bytes(op, a.lo, b.lo), hi: bytes(op, a.hi, b.hi) },
        Width::Half => Reg { lo: halfwords(op, a.lo, b.lo), hi: halfwords(op, a.hi, b.hi) },
        Width::Word => Reg { lo: words(op, a.lo, b.lo), hi: words(op, a.hi, b.hi) },
    }
}

// --- moving lanes -------------------------------------------------------------------------

/// Two words, low first.
pub open spec fn of_words(l: int, h: int) -> u64 {
    (l + 0x1_0000_0000 * h) as u64
}

#[verifier::when_used_as_spec(of_words_u32)]
fn join_words(l: u32, h: u32) -> (r: u64)
    ensures
        r == of_words(l as int, h as int),
{
    l as u64 + 0x1_0000_0000 * h as u64
}

pub open spec fn of_words_u32(l: u32, h: u32) -> u64 {
    of_words(l as int, h as int)
}

/// pextlw / pextuw: the words of two doublewords alternate.
pub open spec fn interleaved_words(b: u64, a: u64) -> Reg {
    Reg { lo: of_words_u32(low32(b), low32(a)), hi: of_words_u32(high32(b), high32(a)) }
}

pub fn interleave_u32(b: u64, a: u64) -> (r: Reg)
    ensures
        r == interleaved_words(b, a),
{
    Reg { lo: join_words(low32(b), low32(a)), hi: join_words(high32(b), high32(a)) }
}

/// pextlh / pextuh: the halfwords alternate.
pub open spec fn interleaved_halves(b: u64, a: u64) -> Reg {
    Reg {
        lo: of_halves(half_at(b, 0), half_at(a, 0), half_at(b, 1), half_at(a, 1)),
        hi: of_halves(half_at(b, 2), half_at(a, 2), half_at(b, 3), half_at(a, 3)),
    }
}

pub fn interleave_u16(b: u64, a: u64) -> (r: Reg)
    ensures
        r == interleaved_halves(b, a),
{
    Reg {
        lo: join_halves(half(b, 0), half(a, 0), half(b, 1), half(a, 1)),
        hi: join_halves(half(b, 2), half(a, 2), half(b, 3), half(a, 3)),
    }
}

/// Byte 0 or 1 of halfword `i`.
pub open spec fn byte_at(v: u64, i: int, h: int) -> int {
    if h == 0 {
        half_at(v, i) % 0x100
    } else {
        half_at(v, i) / 0x100
    }
}

fn byte(v: u64, i: u32, h: u32) -> (r: u64)
    ensures
        r == byte_at(v, i as int, h as int),
        r < 0x100,
{
    if h == 0 {
        half(v, i) % 0x100
    } else {
        half(v, i) / 0x100
    }
}

/// pextlb / pextub: the bytes alternate.
pub open spec fn interleaved_bytes(b: u64, a: u64) -> Reg {
    let at = |i: int, h: int| of_bytes(byte_at(b, i, h), byte_at(a, i, h));
    Reg { lo: of_halves(at(0, 0), at(0, 1), at(1, 0), at(1, 1)), hi: of_halves(at(2, 0), at(2, 1), at(3, 0), at(3, 1)) }
}

fn alternate(b: u64, a: u64, i: u32, h: u32) -> (r: u64)
    ensures
        r == of_bytes(byte_at(b, i as int, h as int), byte_at(a, i as int, h as int)),
        r < 0x1_0000,
{
    byte(b, i, h) + 0x100 * byte(a, i, h)
}

pub fn interleave_u8(b: u64, a: u64) -> (r: Reg)
    ensures
        r == interleaved_bytes(b, a),
{
    Reg {
        lo: join_halves(alternate(b, a, 0, 0), alternate(b, a, 0, 1), alternate(b, a, 1, 0), alternate(b, a, 1, 1)),
        hi: join_halves(alternate(b, a, 2, 0), alternate(b, a, 2, 1), alternate(b, a, 3, 0), alternate(b, a, 3, 1)),
    }
}

/// ppacw: the even words.
pub open spec fn packed_words(v: Reg) -> u64 {
    of_words_u32(low32(v.lo), low32(v.hi))
}

pub fn pack_u32(v: Reg) -> (r: u64)
    ensures
        r == packed_words(v),
{
    join_words(low32(v.lo), low32(v.hi))
}

/// ppach: the even halfwords.
pub open spec fn packed_halves(v: Reg) -> u64 {
    of_halves(half_at(v.lo, 0), half_at(v.lo, 2), half_at(v.hi, 0), half_at(v.hi, 2))
}

pub fn pack_u16(v: Reg) -> (r: u64)
    ensures
        r == packed_halves(v),
{
    join_halves(half(v.lo, 0), half(v.lo, 2), half(v.hi, 0), half(v.hi, 2))
}

/// ppacb: the even bytes.
pub open spec fn packed_bytes(v: Reg) -> u64 {
    let two = |w: u64, i: int| of_bytes(byte_at(w, i, 0), byte_at(w, i + 1, 0));
    of_halves(two(v.lo, 0), two(v.lo, 2), two(v.hi, 0), two(v.hi, 2))
}

fn even_bytes(w: u64, i: u32) -> (r: u64)
    requires
        i <= 2,
    ensures
        r == of_bytes(byte_at(w, i as int, 0), byte_at(w, i + 1, 0)),
        r < 0x1_0000,
{
    byte(w, i, 0) + 0x100 * byte(w, i + 1, 0)
}

pub fn pack_u8(v: Reg) -> (r: u64)
    ensures
        r == packed_bytes(v),
{
    join_halves(even_bytes(v.lo, 0), even_bytes(v.lo, 2), even_bytes(v.hi, 0), even_bytes(v.hi, 2))
}

/// pinteh: the even halfwords of two doublewords alternate.
pub open spec fn even_halves(b: u64, a: u64) -> u64 {
    of_halves(half_at(b, 0), half_at(a, 0), half_at(b, 2), half_at(a, 2))
}

pub fn interleave_even_u16(b: u64, a: u64) -> (r: u64)
    ensures
        r == even_halves(b, a),
{
    join_halves(half(b, 0), half(a, 0), half(b, 2), half(a, 2))
}

/// pcpyh: the low halfword in every place.
pub open spec fn repeated(v: u64) -> u64 {
    of_halves(half_at(v, 0), half_at(v, 0), half_at(v, 0), half_at(v, 0))
}

pub fn repeat_u16(v: u64) -> (r: u64)
    ensures
        r == repeated(v),
{
    join_halves(half(v, 0), half(v, 0), half(v, 0), half(v, 0))
}

// --- shifts by lane -----------------------------------------------------------------------

/// How a lane is shifted.
#[derive(Clone, Copy, PartialEq, Eq, Structural)]
pub enum Shift {
    Left,
    Right,
    Arithmetic,
}

/// A word shifted.
pub open spec fn shifted_word(s: Shift, v: u32, n: u32) -> u32 {
    match s {
        Shift::Left => v << n,
        Shift::Right => v >> n,
        Shift::Arithmetic => sra32(v, n),
    }
}

fn shift_word(s: Shift, v: u32, n: u32) -> (r: u32)
    requires
        n < 32,
    ensures
        r == shifted_word(s, v, n),
{
    match s {
        Shift::Left => v << n,
        Shift::Right => v >> n,
        Shift::Arithmetic => sra32(v, n),
    }
}

/// A halfword shifted (by less than 16).
pub open spec fn shifted_half(s: Shift, v: u16, n: u32) -> u16 {
    match s {
        Shift::Left => v << n,
        Shift::Right => v >> n,
        Shift::Arithmetic => if v < 0x8000 {
            v >> n
        } else {
            !((!v) >> n)
        },
    }
}

fn shift_half(s: Shift, v: u64, n: u32) -> (r: u64)
    requires
        n < 16,
        v < 0x1_0000,
    ensures
        r == shifted_half(s, v as u16, n),
        r < 0x1_0000,
{
    let w: u16 = v as u16;
    (match s {
        Shift::Left => w << n,
        Shift::Right => w >> n,
        Shift::Arithmetic => if w < 0x8000 {
            w >> n
        } else {
            !((!w) >> n)
        },
    }) as u64
}

/// Every word of a register shifted.
pub open spec fn shifted_words(s: Shift, v: Reg, n: u32) -> Reg {
    Reg {
        lo: of_words_u32(shifted_word(s, low32(v.lo), n), shifted_word(s, high32(v.lo), n)),
        hi: of_words_u32(shifted_word(s, low32(v.hi), n), shifted_word(s, high32(v.hi), n)),
    }
}

pub fn shift_words(s: Shift, v: Reg, n: u32) -> (r: Reg)
    requires
        n < 32,
    ensures
        r == shifted_words(s, v, n),
{
    Reg {
        lo: join_words(shift_word(s, low32(v.lo), n), shift_word(s, high32(v.lo), n)),
        hi: join_words(shift_word(s, low32(v.hi), n), shift_word(s, high32(v.hi), n)),
    }
}

pub open spec fn shifted_halves_of(s: Shift, v: u64, n: u32) -> u64 {
    of_halves(
        shifted_half(s, half_at(v, 0) as u16, n) as int,
        shifted_half(s, half_at(v, 1) as u16, n) as int,
        shifted_half(s, half_at(v, 2) as u16, n) as int,
        shifted_half(s, half_at(v, 3) as u16, n) as int,
    )
}

fn shift_halves_of(s: Shift, v: u64, n: u32) -> (r: u64)
    requires
        n < 16,
    ensures
        r == shifted_halves_of(s, v, n),
{
    join_halves(
        shift_half(s, half(v, 0), n),
        shift_half(s, half(v, 1), n),
        shift_half(s, half(v, 2), n),
        shift_half(s, half(v, 3), n),
    )
}

/// Every halfword of a register shifted.
pub open spec fn shifted_halves(s: Shift, v: Reg, n: u32) -> Reg {
    Reg { lo: shifted_halves_of(s, v.lo, n), hi: shifted_halves_of(s, v.hi, n) }
}

pub fn shift_halves(s: Shift, v: Reg, n: u32) -> (r: Reg)
    requires
        n < 16,
    ensures
        r == shifted_halves(s, v, n),
{
    Reg { lo: shift_halves_of(s, v.lo, n), hi: shift_halves_of(s, v.hi, n) }
}

// --- the rest ---------------------------------------------------------------------------------

pub open spec fn wide(v: Reg) -> u128 {
    (v.lo + 0x1_0000_0000_0000_0000 * v.hi) as u128
}

/// qfsrv: a 256-bit funnel shift right of `a`:`b`.
pub open spec fn funnelled(a: Reg, b: Reg, shift: u32) -> Reg {
    let v = if shift == 0 {
        wide(b)
    } else if shift < 128 {
        (wide(b) >> shift) | (wide(a) << ((128 - shift) as u32))
    } else {
        wide(a) >> ((shift - 128) as u32)
    };
    Reg { lo: (v % 0x1_0000_0000_0000_0000) as u64, hi: (v / 0x1_0000_0000_0000_0000) as u64 }
}

pub fn funnel(a: Reg, b: Reg, shift: u32) -> (r: Reg)
    requires
        shift < 256,
    ensures
        r == funnelled(a, b, shift),
{
    let lo: u128 = b.lo as u128 + 0x1_0000_0000_0000_0000 * b.hi as u128;
    let hi: u128 = a.lo as u128 + 0x1_0000_0000_0000_0000 * a.hi as u128;
    let v: u128 = if shift == 0 {
        lo
    } else if shift < 128 {
        (lo >> shift) | (hi << (128 - shift))
    } else {
        hi >> (shift - 128)
    };
    Reg { lo: (v % 0x1_0000_0000_0000_0000) as u64, hi: (v / 0x1_0000_0000_0000_0000) as u64 }
}

/// Zero bits above the highest one bit of a 32-bit number.
pub open spec fn leading_zeros(v: int) -> int
    decreases v,
{
    if v <= 0 {
        32
    } else {
        leading_zeros(v / 2) - 1
    }
}

/// plzcw: sign bits below the top one of a word.
pub open spec fn sign_bits(v: u32) -> int {
    let zeros = leading_zeros(
        if v < 0x8000_0000 {
            v as int
        } else {
            0xFFFF_FFFF - v
        },
    );
    if zeros > 0 {
        zeros - 1
    } else {
        0
    }
}

proof fn lemma_leading_zeros(v: int, n: int)
    requires
        0 <= n <= 32,
        0 <= v,
        v < vstd::arithmetic::power2::pow2(n as nat),
    ensures
        32 - n <= leading_zeros(v) <= 32,
    decreases n,
{
    if n == 0 {
        vstd::arithmetic::power2::lemma2_to64();
    } else if v > 0 {
        vstd::arithmetic::power2::lemma_pow2_unfold(n as nat);
        lemma_leading_zeros(v / 2, n - 1);
    }
}

fn count_sign_bits(v: u32) -> (r: u64)
    ensures
        r == sign_bits(v),
        r <= 31,
{
    let mut x: u32 = if v < 0x8000_0000 { v } else { 0xFFFF_FFFF - v };
    let ghost start = x as int;
    proof {
        vstd::arithmetic::power2::lemma2_to64();
        vstd::arithmetic::power2::lemma2_to64_rest();
        lemma_leading_zeros(start, 31);
    }
    let mut n: u64 = 32;
    while x > 0
        invariant
            leading_zeros(start) == leading_zeros(x as int) - (32 - n),
            1 <= leading_zeros(start) <= 32,
            0 <= n <= 32,
        decreases x,
    {
        assert(leading_zeros(x as int) == leading_zeros(x as int / 2) - 1);
        proof {
            lemma_at_most(x as int / 2);
        }
        x = x / 2;
        n = n - 1;
    }
    n - 1
}

proof fn lemma_at_most(v: int)
    ensures
        leading_zeros(v) <= 32,
    decreases v,
{
    if v > 0 {
        lemma_at_most(v / 2);
    }
}

/// Sign bits of both words.
pub open spec fn sign_counts(v: u64) -> u64 {
    of_words(sign_bits(low32(v)), sign_bits(high32(v)))
}

pub fn count_signs(v: u64) -> (r: u64)
    ensures
        r == sign_counts(v),
{
    count_sign_bits(low32(v)) + 0x1_0000_0000 * count_sign_bits(high32(v))
}

} // verus!
