//! What instructions compute, in numbers.

use vstd::prelude::*;
use vstd::arithmetic::div_mod::*;
use vstd::arithmetic::power2::*;
use vstd::bits::*;
use crate::bits::lemma_common_bits;
use super::alu::{
    accumulated, as_word, divided, halves, lane, law_division_multiplies_back, low32, magnitude, product, quotient,
    remainder, saturated, signed32, signed64, sra64, wrapped, LaneOp,
};
use super::cpu::{branch_taken, jump_target, relative, trap_taken, CpuModel};
use super::exec::{access_size, loaded_value, stored_value};

verus! {

/// Loads by opcode: lb, lh and lw read 1, 2 and 4 bytes as signed numbers,
/// lbu, lhu and lwu as unsigned ones, and ld takes eight bytes whole. Stores
/// by size keep the low bytes.
pub proof fn law_loads_extend(v: u64)
    ensures
        ({
            let signed = |op: u32, size: int| if v as int % size < size / 2 {
                signed64(loaded_value(op, v)) == v as int % size
            } else {
                signed64(loaded_value(op, v)) == v as int % size - size
            };
            &&& signed(0x20, 0x100) && access_size(0x20) == 1
            &&& signed(0x21, 0x1_0000) && access_size(0x21) == 2
            &&& signed(0x23, 0x1_0000_0000) && access_size(0x23) == 4
            &&& loaded_value(0x24, v) == v as int % 0x100 && access_size(0x24) == 1
            &&& loaded_value(0x25, v) == v as int % 0x1_0000 && access_size(0x25) == 2
            &&& loaded_value(0x27, v) == v as int % 0x1_0000_0000 && access_size(0x27) == 4
            &&& loaded_value(0x37, v) == v && access_size(0x37) == 8
            &&& access_size(0x28) == 1 && access_size(0x29) == 2 && access_size(0x2B) == 4 && access_size(0x3F) == 8
            &&& stored_value(1, v) == v as int % 0x100
            &&& stored_value(2, v) == v as int % 0x1_0000
            &&& stored_value(4, v) == v as int % 0x1_0000_0000
            &&& stored_value(8, v) == v
        }),
{
}

/// A 64-bit arithmetic shift right divides by a power of two, rounding down.
pub proof fn law_sra64_divides(v: u64, n: u32)
    requires
        n < 64,
    ensures
        signed64(sra64(v, n)) == signed64(v) / (pow2(n as nat) as int),
{
    let p = pow2(n as nat) as int;
    lemma_pow2_pos(n as nat);
    let w = !v;
    lemma_common_bits(v, 0, 0);
    lemma_u64_shr_is_div(v, n as u64);
    lemma_u64_shr_is_div(w, n as u64);
    let y = w >> n;
    lemma_common_bits(y, 0, 0);
    lemma_fundamental_div_mod(w as int, p);
    lemma_mod_bound(w as int, p);
    let r = w as int % p;
    let k = w as int / p;
    if v < 0x8000_0000_0000_0000 {
        assert(v as int / p <= v) by (nonlinear_arith)
            requires
                p >= 1,
                v >= 0,
        ;
    } else {
        let s = signed64(v);
        let q = -1 - k;
        assert(0 <= k <= w) by (nonlinear_arith)
            requires
                w == p * k + r,
                0 <= r,
                p >= 1,
                w >= 0,
                k == w as int / p,
        ;
        assert(s == q * p + (p - 1 - r)) by (nonlinear_arith)
            requires
                w == p * k + r,
                w == -1 - s,
                q == -1 - k,
        ;
        lemma_fundamental_div_mod_converse(s, p, q, p - 1 - r);
    }
}

/// A multiplication leaves the 64-bit product in LO and HI, low word in LO,
/// each sign-extended: read together they are the product of the signed (or
/// unsigned) words modulo 2^64.
pub proof fn law_product_in_lo_hi(a: u32, b: u32, signed: bool)
    ensures
        ({
            let r = halves(product(a, b, signed));
            let both = low32(r.lo) + 0x1_0000_0000 * low32(r.hi);
            &&& signed ==> both == (signed32(a) * signed32(b)) % 0x1_0000_0000_0000_0000
            &&& !signed ==> both == (a * b) % 0x1_0000_0000_0000_0000
            &&& signed64(r.lo) == signed32(low32(r.lo)) && signed64(r.hi) == signed32(low32(r.hi))
        }),
{
    reveal(product);
}

proof fn lemma_halves(v: u64)
    ensures
        low32(halves(v).lo) + 0x1_0000_0000 * low32(halves(v).hi) == v,
{
}

/// A multiply-add adds the product to what LO and HI held together.
pub proof fn law_accumulation_adds(lo: u64, hi: u64, a: u32, b: u32, signed: bool)
    ensures
        ({
            let r = accumulated(lo, hi, a, b, signed);
            let p = halves(product(a, b, signed));
            let both = |l: u64, h: u64| low32(l) + 0x1_0000_0000 * low32(h);
            both(r.lo, r.hi) == (both(lo, hi) + both(p.lo, p.hi)) % 0x1_0000_0000_0000_0000
        }),
{
    let p = product(a, b, signed);
    lemma_halves(p);
    lemma_halves(wrapped(low32(lo) + 0x1_0000_0000 * low32(hi) + p));
}

proof fn lemma_as_word(v: int)
    ensures
        -0x8000_0000 <= v < 0x8000_0000 ==> signed32(low32(as_word(v))) == v,
        0 <= v < 0x1_0000_0000 ==> low32(as_word(v)) == v,
        signed64(as_word(v)) == signed32(low32(as_word(v))),
{
}

proof fn lemma_quotient_range(n: int, d: int)
    requires
        d != 0,
        -0x8000_0000 <= n < 0x1_0000_0000,
    ensures
        n < 0x8000_0000 && !(n == -0x8000_0000 && d == -1) ==> -0x8000_0000 <= quotient(n, d) < 0x8000_0000,
        n < 0x8000_0000 ==> -0x8000_0000 <= remainder(n, d) < 0x8000_0000,
        n >= 0 && d > 0 ==> 0 <= quotient(n, d) < 0x1_0000_0000 && 0 <= remainder(n, d) < 0x1_0000_0000,
        remainder(n, d) == 0 || (remainder(n, d) < 0) == (n < 0),
{
    let (x, y) = (magnitude(n), magnitude(d));
    assert(0 <= x / y <= x && (y >= 2 ==> 2 * (x / y) <= x)) by (nonlinear_arith)
        requires
            x >= 0,
            y >= 1,
    ;
    lemma_mod_bound(x, y);
    assert(x % y <= x) by (nonlinear_arith)
        requires
            x >= 0,
            y >= 1,
    ;
}

/// A division: LO times the divisor plus HI is the dividend, with HI smaller
/// than the divisor and on the dividend's side of zero. Dividing by zero
/// leaves the dividend in HI and, in LO, 1 for a negative signed dividend
/// and -1 for every other. (The one signed quotient that no word holds is
/// left out.)
pub proof fn law_division_in_lo_hi(a: u32, b: u32, signed: bool)
    requires
        !(signed && a == 0x8000_0000 && b == 0xFFFF_FFFF),
    ensures
        ({
            let r = divided(a, b, signed);
            let number = |v: u32| if signed {
                signed32(v)
            } else {
                v as int
            };
            let (n, d, q, m) = (number(a), number(b), number(low32(r.lo)), number(low32(r.hi)));
            &&& b == 0 ==> low32(r.hi) == a && signed64(r.lo) == (if n < 0 {
                1int
            } else {
                -1int
            })
            &&& b != 0 ==> q * d + m == n && magnitude(m) < magnitude(d) && (m == 0 || (m < 0) == (n < 0))
            &&& signed64(r.lo) == signed32(low32(r.lo)) && signed64(r.hi) == signed32(low32(r.hi))
        }),
{
    reveal(divided);
    let (n, d) = if signed {
        (signed32(a), signed32(b))
    } else {
        (a as int, b as int)
    };
    if b != 0 {
        law_division_multiplies_back(n, d);
        lemma_quotient_range(n, d);
        lemma_as_word(quotient(n, d));
        lemma_as_word(remainder(n, d));
    } else {
        lemma_as_word(n);
        lemma_as_word(-1);
        lemma_as_word(1);
    }
}

/// Conditional traps come in pairs of which exactly one traps: tge and tlt
/// on signed numbers, tgeu and tltu on unsigned ones, teq and tne.
pub proof fn law_traps(a: u64, b: u64)
    ensures
        trap_taken(0x30, a, b) == Some(signed64(a) >= signed64(b)),
        trap_taken(0x31, a, b) == Some(a >= b),
        trap_taken(0x32, a, b) == Some(!trap_taken(0x30, a, b)->Some_0),
        trap_taken(0x33, a, b) == Some(!trap_taken(0x31, a, b)->Some_0),
        trap_taken(0x34, a, b) == Some(a == b),
        trap_taken(0x36, a, b) == Some(!trap_taken(0x34, a, b)->Some_0),
{
}

/// Branches come in pairs of which exactly one branches: beq and bne, blez
/// and bgtz; the likely forms, sixteen opcodes up, decide as the plain ones.
pub proof fn law_branches(a: u64, b: u64)
    ensures
        branch_taken(0x04, a, b) == Some(a == b),
        branch_taken(0x05, a, b) == Some(!branch_taken(0x04, a, b)->Some_0),
        branch_taken(0x07, a, b) == Some(signed64(a) > 0),
        branch_taken(0x06, a, b) == Some(!branch_taken(0x07, a, b)->Some_0),
        branch_taken(0x14, a, b) == branch_taken(0x04, a, b),
        branch_taken(0x15, a, b) == branch_taken(0x05, a, b),
        branch_taken(0x16, a, b) == branch_taken(0x06, a, b),
        branch_taken(0x17, a, b) == branch_taken(0x07, a, b),
{
}

/// A branch offset counts words from the delay slot, backwards from 0x8000
/// on; a jump keeps the top four bits of the delay slot's address.
pub proof fn law_targets(pc: u32, imm: u32, instr: u32)
    requires
        imm < 0x8000,
        0x2_0000 <= pc < 0xFFFE_0000,
    ensures
        relative(pc, imm) == pc + 4 * imm,
        relative(pc, (imm + 0x8000) as u32) == pc - 0x2_0000 + 4 * imm,
        jump_target(pc, instr) as int / 0x1000_0000 == pc as int / 0x1000_0000,
        jump_target(pc, instr) as int % 0x1000_0000 == 4 * (instr as int % 0x400_0000),
{
}

/// A taken branch continues at its target after the delay slot. One not
/// taken continues after it; a likely one not taken skips it.
pub proof fn law_delay_slots(c: CpuModel, imm: u32)
    ensures
        ({
            let taken = |likely: bool| c.branched_if(true, imm, likely);
            let plain = c.branched_if(false, imm, false);
            let likely = c.branched_if(false, imm, true);
            &&& taken(true) == taken(false)
            &&& taken(true).pc == c.pc && taken(true).delay && taken(true).next_pc == relative(c.pc, imm)
            &&& plain.pc == c.pc && plain.next_pc == c.next_pc && plain.delay
            &&& likely.pc == c.next_pc && likely.next_pc == (c.next_pc + 4) % 0x1_0000_0000 && likely.delay == c.delay
        }),
{
}

// --- lanes -----------------------------------------------------------------------------

proof fn lemma_wrap(size: int, v: int)
    requires
        size > 0,
        -size <= v < 2 * size,
    ensures
        v % size == (if v < 0 {
            v + size
        } else if v < size {
            v
        } else {
            v - size
        }),
{
    if v >= size {
        lemma_fundamental_div_mod_converse(v, size, 1, v - size);
    } else if v >= 0 {
        lemma_fundamental_div_mod_converse(v, size, 0, v);
    } else {
        lemma_fundamental_div_mod_converse(v, size, -1, v + size);
    }
}

/// Lanes of `size` values wrap around: adding and taking away undo each
/// other, and a sum that fits is the sum. With saturation an unsigned result
/// stops at the ends of the range instead.
pub proof fn law_lane_sums(size: int, x: int, y: int)
    requires
        size == 0x100 || size == 0x1_0000 || size == 0x1_0000_0000,
        0 <= x < size,
        0 <= y < size,
    ensures
        lane(LaneOp::Difference, size, lane(LaneOp::Sum, size, x, y), y) == x,
        lane(LaneOp::Sum, size, lane(LaneOp::Difference, size, x, y), y) == x,
        x + y < size ==> lane(LaneOp::Sum, size, x, y) == x + y,
        x + y < size ==> lane(LaneOp::SumUnsigned, size, x, y) == x + y,
        x + y >= size ==> lane(LaneOp::SumUnsigned, size, x, y) == size - 1,
        x >= y ==> lane(LaneOp::DifferenceUnsigned, size, x, y) == x - y,
        x < y ==> lane(LaneOp::DifferenceUnsigned, size, x, y) == 0,
{
    let (s, d) = ((x + y) % size, (x - y) % size);
    lemma_wrap(size, x + y);
    lemma_wrap(size, x - y);
    lemma_wrap(size, s - y);
    lemma_wrap(size, d + y);
}

/// The signed number in a lane of `size` values.
pub open spec fn number(size: int, v: int) -> int {
    if 2 * v < size {
        v
    } else {
        v - size
    }
}

/// Signed sums and differences with saturation are the exact ones, stopped
/// at the ends of the range.
pub proof fn law_lane_saturation(size: int, x: int, y: int)
    requires
        size == 0x100 || size == 0x1_0000 || size == 0x1_0000_0000,
        0 <= x < size,
        0 <= y < size,
    ensures
        ({
            let held = |v: int| if 2 * v >= size {
                size / 2 - 1
            } else if 2 * v < -size {
                -(size / 2)
            } else {
                v
            };
            &&& number(size, lane(LaneOp::SumSigned, size, x, y)) == held(number(size, x) + number(size, y))
            &&& number(size, lane(LaneOp::DifferenceSigned, size, x, y)) == held(number(size, x) - number(size, y))
        }),
{
    let (s, t) = (number(size, x), number(size, y));
    lemma_wrap(size, saturated(size, s + t));
    lemma_wrap(size, saturated(size, s - t));
}

/// Comparisons fill a lane with ones or clear it; the greater and the
/// smaller are the two lanes, in order of their signed size; the magnitude
/// is that of the second.
pub proof fn law_lane_order(size: int, x: int, y: int)
    requires
        size == 0x100 || size == 0x1_0000 || size == 0x1_0000_0000,
        0 <= x < size,
        0 <= y < size,
    ensures
        ({
            let f = |op: LaneOp| lane(op, size, x, y);
            let (s, t) = (number(size, x), number(size, y));
            &&& f(LaneOp::Greater) == size - 1 || f(LaneOp::Greater) == 0
            &&& f(LaneOp::Greater) == size - 1 <==> s > t
            &&& f(LaneOp::Equal) == size - 1 || f(LaneOp::Equal) == 0
            &&& f(LaneOp::Equal) == size - 1 <==> x == y
            &&& number(size, f(LaneOp::Max)) >= s && number(size, f(LaneOp::Max)) >= t
            &&& number(size, f(LaneOp::Min)) <= s && number(size, f(LaneOp::Min)) <= t
            &&& f(LaneOp::Max) + f(LaneOp::Min) == x + y
            &&& f(LaneOp::Magnitude) == t || f(LaneOp::Magnitude) == -t
            &&& f(LaneOp::Magnitude) >= 0
        }),
{
}

} // verus!
