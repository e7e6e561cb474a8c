//! What the unaligned loads and stores move: the bytes at an address that
//! spans two aligned words.

use vstd::prelude::*;
use vstd::arithmetic::power2::*;
use vstd::bits::*;
use crate::bits::law_bits_divide;
use crate::bytes::{get, lemma_get_split, lemma_le_bound, pow256};
use super::alu::{low32, sext32};
use super::cpu::Outcome;
use super::exec::{double_merged, double_spread, opcode, word_merged, word_spread, Machine};
use super::issue::rt;

verus! {

proof fn lemma_double_load_bits(reg: u64, mem: u64, s: u32, n: u32, t: u32)
    by (bit_vector)
    requires
        s == 8 || s == 16 || s == 24 || s == 32 || s == 40 || s == 48 || s == 56,
        n == 64 - s,
        t == s - 8,
    ensures
        ((reg & !(u64::MAX >> s)) | (mem >> s)) & (u64::MAX >> s) == mem >> s,
        ((reg & !(u64::MAX >> s)) | (mem >> s)) >> n == reg >> n,
        ((reg & (0x00FF_FFFF_FFFF_FFFFu64 >> t)) | (mem << n)) & (u64::MAX >> s) == reg & (u64::MAX >> s),
        ((reg & (0x00FF_FFFF_FFFF_FFFFu64 >> t)) | (mem << n)) >> n == mem & (u64::MAX >> n),
        (reg & 0u64) | (mem >> 0u32) == mem,
        (reg & (0x00FF_FFFF_FFFF_FFFFu64 >> 56u32)) | (mem << 0u32) == mem,
{
}

proof fn lemma_double_store_bits(reg: u64, mem: u64, s: u32, n: u32, t: u32)
    by (bit_vector)
    requires
        s == 8 || s == 16 || s == 24 || s == 32 || s == 40 || s == 48 || s == 56,
        n == 64 - s,
        t == s - 8,
    ensures
        ((reg << s) | (mem & (u64::MAX >> n))) & (u64::MAX >> n) == mem & (u64::MAX >> n),
        ((reg << s) | (mem & (u64::MAX >> n))) >> s == reg & (u64::MAX >> s),
        ((reg >> n) | (mem & (0xFFFF_FFFF_FFFF_FF00u64 << t))) & (u64::MAX >> n) == reg >> n,
        ((reg >> n) | (mem & (0xFFFF_FFFF_FFFF_FF00u64 << t))) >> s == mem >> s,
        (reg << 0u32) | (mem & 0u64) == reg,
        (reg >> 0u32) | (mem & (0xFFFF_FFFF_FFFF_FF00u64 << 56u32)) == reg,
{
}

proof fn lemma_word_bits(reg: u32, mem: u32, s: u32, n: u32, t: u32)
    by (bit_vector)
    requires
        s == 8 || s == 16 || s == 24,
        n == 32 - s,
        t == s - 8,
    ensures
        ((reg & !(u32::MAX >> s)) | (mem >> s)) & (u32::MAX >> s) == mem >> s,
        ((reg & !(u32::MAX >> s)) | (mem >> s)) >> n == reg >> n,
        ((reg & (0x00FF_FFFFu32 >> t)) | (mem << n)) & (u32::MAX >> s) == reg & (u32::MAX >> s),
        ((reg & (0x00FF_FFFFu32 >> t)) | (mem << n)) >> n == mem & (u32::MAX >> n),
        ((reg << s) | (mem & (u32::MAX >> n))) & (u32::MAX >> n) == mem & (u32::MAX >> n),
        ((reg << s) | (mem & (u32::MAX >> n))) >> s == reg & (u32::MAX >> s),
        ((reg >> n) | (mem & (0xFFFF_FF00u32 << t))) & (u32::MAX >> n) == reg >> n,
        ((reg >> n) | (mem & (0xFFFF_FF00u32 << t))) >> s == mem >> s,
        (reg & 0u32) | (mem >> 0u32) == mem,
        (reg & (0x00FF_FFFFu32 >> 24u32)) | (mem << 0u32) == mem,
        (reg << 0u32) | (mem & 0u32) == reg,
        (reg >> 0u32) | (mem & (0xFFFF_FF00u32 << 24u32)) == reg,
{
}

/// The masks that stay behind a shift of all ones.
proof fn lemma_double_masks(v: u64, s: u32, n: u32)
    requires
        0 < s < 64,
        n == 64 - s,
    ensures
        v & (u64::MAX >> s) == v as int % pow2(n as nat) as int,
        v >> s == v as int / pow2(s as nat) as int,
{
    lemma2_to64();
    lemma2_to64_rest();
    let p = pow2(s as nat) as int;
    let q = pow2(n as nat) as int;
    lemma_pow2_adds(s as nat, n as nat);
    lemma_pow2_pos(s as nat);
    lemma_pow2_pos(n as nat);
    lemma_u64_shr_is_div(u64::MAX, s as u64);
    lemma_u64_shr_is_div(v, s as u64);
    assert(u64::MAX as int == p * q - 1);
    assert((p * q - 1) / p == q - 1) by (nonlinear_arith)
        requires
            p > 0,
            q > 0,
    ;
    let m = u64::MAX >> s;
    assert(m == q - 1);
    law_bits_divide(v, 0, n as nat, m);
    lemma_u64_shr_is_div(v, 0);
    assert(v >> 0u64 == v);
}

proof fn lemma_word_masks(v: u32, s: u32, n: u32)
    requires
        0 < s < 32,
        n == 32 - s,
    ensures
        v & (u32::MAX >> s) == v as int % pow2(n as nat) as int,
        v >> s == v as int / pow2(s as nat) as int,
{
    lemma2_to64();
    let p = pow2(s as nat) as int;
    let q = pow2(n as nat) as int;
    lemma_pow2_adds(s as nat, n as nat);
    lemma_pow2_pos(s as nat);
    lemma_pow2_pos(n as nat);
    lemma_u32_shr_is_div(u32::MAX, s);
    lemma_u32_shr_is_div(v, s);
    assert(u32::MAX as int == p * q - 1);
    assert((p * q - 1) / p == q - 1) by (nonlinear_arith)
        requires
            p > 0,
            q > 0,
    ;
    let m = u32::MAX >> s;
    assert(m == q - 1);
    lemma_u32_low_bits_mask_is_mod(v, n as nat);
    lemma_pow2_strictly_increases(n as nat, 32);
}

/// ldr at byte `k` of an aligned doubleword brings its upper `8 - k` bytes
/// down and keeps the register above them; ldl at byte `k - 1` brings its
/// lower `k` bytes up and keeps the register below. At the first byte ldr,
/// and at the last ldl, loads the doubleword whole.
pub proof fn law_double_load_parts(reg: u64, mem: u64, k: u32)
    requires
        1 <= k <= 7,
    ensures
        ({
            let (low, high) = (pow2((64 - 8 * k) as nat) as int, pow2((8 * k) as nat) as int);
            let r = double_merged(false, reg, mem, (8 * k) as u32) as int;
            let l = double_merged(true, reg, mem, (8 * k - 8) as u32) as int;
            &&& r % low == mem as int / high
            &&& r / low == reg as int / low
            &&& l % low == reg as int % low
            &&& l / low == mem as int % high
        }),
        double_merged(false, reg, mem, 0) == mem,
        double_merged(true, reg, mem, 56) == mem,
{
    let s = (8 * k) as u32;
    let n = (64 - s) as u32;
    lemma_double_load_bits(reg, mem, s, n, (s - 8) as u32);
    lemma_double_load_bits(reg, mem, 8, 56, 0);
    let r = double_merged(false, reg, mem, s);
    let l = double_merged(true, reg, mem, (s - 8) as u32);
    assert((56 - (s - 8)) as u32 == n);
    lemma_double_masks(r, s, n);
    lemma_double_masks(l, s, n);
    lemma_double_masks(reg, s, n);
    lemma_double_masks(mem, s, n);
    lemma_double_masks(r, n, s);
    lemma_double_masks(l, n, s);
    lemma_double_masks(reg, n, s);
    lemma_double_masks(mem, n, s);
}

/// sdr at byte `k` stores the register's lower `8 - k` bytes from there up
/// and keeps the bytes below; sdl at byte `k - 1` stores its upper `k` bytes
/// from there down and keeps the bytes above. At the first byte sdr, and at
/// the last sdl, stores the register whole.
pub proof fn law_double_store_parts(reg: u64, mem: u64, k: u32)
    requires
        1 <= k <= 7,
    ensures
        ({
            let (low, high) = (pow2((64 - 8 * k) as nat) as int, pow2((8 * k) as nat) as int);
            let r = double_spread(false, reg, mem, (8 * k) as u32) as int;
            let l = double_spread(true, reg, mem, (8 * k - 8) as u32) as int;
            &&& r % high == mem as int % high
            &&& r / high == reg as int % low
            &&& l % high == reg as int / low
            &&& l / high == mem as int / high
        }),
        double_spread(false, reg, mem, 0) == reg,
        double_spread(true, reg, mem, 56) == reg,
{
    let s = (8 * k) as u32;
    let n = (64 - s) as u32;
    lemma_double_store_bits(reg, mem, s, n, (s - 8) as u32);
    lemma_double_store_bits(reg, mem, 8, 56, 0);
    let r = double_spread(false, reg, mem, s);
    let l = double_spread(true, reg, mem, (s - 8) as u32);
    assert((56 - (s - 8)) as u32 == n);
    lemma_double_masks(r, s, n);
    lemma_double_masks(l, s, n);
    lemma_double_masks(reg, s, n);
    lemma_double_masks(mem, s, n);
    lemma_double_masks(r, n, s);
    lemma_double_masks(l, n, s);
    lemma_double_masks(reg, n, s);
    lemma_double_masks(mem, n, s);
}

/// lwr and lwl, in the same way.
pub proof fn law_word_load_parts(reg: u32, mem: u32, k: u32)
    requires
        1 <= k <= 3,
    ensures
        ({
            let (low, high) = (pow2((32 - 8 * k) as nat) as int, pow2((8 * k) as nat) as int);
            let r = word_merged(false, reg, mem, (8 * k) as u32) as int;
            let l = word_merged(true, reg, mem, (8 * k - 8) as u32) as int;
            &&& r % low == mem as int / high
            &&& r / low == reg as int / low
            &&& l % low == reg as int % low
            &&& l / low == mem as int % high
        }),
        word_merged(false, reg, mem, 0) == mem,
        word_merged(true, reg, mem, 24) == mem,
{
    let s = (8 * k) as u32;
    let n = (32 - s) as u32;
    lemma_word_bits(reg, mem, s, n, (s - 8) as u32);
    lemma_word_bits(reg, mem, 8, 24, 0);
    let r = word_merged(false, reg, mem, s);
    let l = word_merged(true, reg, mem, (s - 8) as u32);
    assert((24 - (s - 8)) as u32 == n);
    lemma_word_masks(r, s, n);
    lemma_word_masks(l, s, n);
    lemma_word_masks(reg, s, n);
    lemma_word_masks(mem, s, n);
    lemma_word_masks(r, n, s);
    lemma_word_masks(l, n, s);
    lemma_word_masks(reg, n, s);
    lemma_word_masks(mem, n, s);
}

/// swr and swl, in the same way.
pub proof fn law_word_store_parts(reg: u32, mem: u32, k: u32)
    requires
        1 <= k <= 3,
    ensures
        ({
            let (low, high) = (pow2((32 - 8 * k) as nat) as int, pow2((8 * k) as nat) as int);
            let r = word_spread(false, reg, mem, (8 * k) as u32) as int;
            let l = word_spread(true, reg, mem, (8 * k - 8) as u32) as int;
            &&& r % high == mem as int % high
            &&& r / high == reg as int % low
            &&& l % high == reg as int / low
            &&& l / high == mem as int / high
        }),
        word_spread(false, reg, mem, 0) == reg,
        word_spread(true, reg, mem, 24) == reg,
{
    let s = (8 * k) as u32;
    let n = (32 - s) as u32;
    lemma_word_bits(reg, mem, s, n, (s - 8) as u32);
    lemma_word_bits(reg, mem, 8, 24, 0);
    let r = word_spread(false, reg, mem, s);
    let l = word_spread(true, reg, mem, (s - 8) as u32);
    assert((24 - (s - 8)) as u32 == n);
    lemma_word_masks(r, s, n);
    lemma_word_masks(l, s, n);
    lemma_word_masks(reg, s, n);
    lemma_word_masks(mem, s, n);
    lemma_word_masks(r, n, s);
    lemma_word_masks(l, n, s);
    lemma_word_masks(reg, n, s);
    lemma_word_masks(mem, n, s);
}

// --- what lies in memory ------------------------------------------------------------

proof fn lemma_get_bound(mem: Seq<u8>, at: int, n: int)
    requires
        0 <= at,
        0 <= n,
        at + n <= mem.len(),
    ensures
        get(mem, at, n) < pow256(n as nat),
{
    lemma_le_bound(mem.subrange(at, at + n));
}

proof fn lemma_pow256(k: nat)
    ensures
        pow256(k) == pow2(8 * k),
    decreases k,
{
    lemma2_to64();
    if k > 0 {
        lemma_pow256((k - 1) as nat);
        lemma_pow2_adds(8, (8 * (k - 1)) as nat);
    }
}

proof fn lemma_parts(x: int, a: int, b: int, p: int)
    requires
        x == a + p * b,
        0 <= a < p,
    ensures
        x % p == a,
        x / p == b,
{
    vstd::arithmetic::mul::lemma_mul_is_commutative(p, b);
    vstd::arithmetic::div_mod::lemma_fundamental_div_mod_converse(x, p, b, a);
}

proof fn lemma_whole(x: int, y: int, p: int)
    requires
        p > 0,
        x % p == y % p,
        x / p == y / p,
    ensures
        x == y,
{
    vstd::arithmetic::div_mod::lemma_fundamental_div_mod(x, p);
    vstd::arithmetic::div_mod::lemma_fundamental_div_mod(y, p);
}

/// An unaligned doubleword spans two aligned ones: ldr at its first byte and
/// ldl at its last load the eight bytes from the first on, lowest first,
/// whatever the register held.
pub proof fn law_double_loads_join(mem: Seq<u8>, at: int, reg: u64, k: u32)
    requires
        0 <= at,
        at + 16 <= mem.len(),
        1 <= k <= 7,
    ensures
        get(mem, at, 8) <= u64::MAX,
        get(mem, at + 8, 8) <= u64::MAX,
        double_merged(
            true,
            double_merged(false, reg, get(mem, at, 8) as u64, (8 * k) as u32),
            get(mem, at + 8, 8) as u64,
            (8 * k - 8) as u32,
        ) == get(mem, at + k, 8),
{
    lemma_pow256(8);
    lemma2_to64();
    lemma_get_bound(mem, at, 8);
    lemma_get_bound(mem, at + 8, 8);
    lemma_pow256(k as nat);
    lemma_pow256((8 - k) as nat);
    let n = 8 - k;
    lemma_get_split(mem, at, k as int, n);
    lemma_get_split(mem, at + 8, k as int, n);
    lemma_get_split(mem, at + k, n, k as int);
    lemma_get_bound(mem, at, k as int);
    lemma_get_bound(mem, at + 8, k as int);
    lemma_get_bound(mem, at + k, n);
    let (low, high) = (get(mem, at, 8) as u64, get(mem, at + 8, 8) as u64);
    let (p, q) = (pow2((64 - 8 * k) as nat) as int, pow2((8 * k) as nat) as int);
    lemma_pow2_pos((64 - 8 * k) as nat);
    let r = double_merged(false, reg, low, (8 * k) as u32);
    let l = double_merged(true, r, high, (8 * k - 8) as u32);
    law_double_load_parts(reg, low, k);
    law_double_load_parts(r, high, k);
    lemma_parts(low as int, get(mem, at, k as int) as int, get(mem, at + k, n) as int, q);
    lemma_parts(high as int, get(mem, at + 8, k as int) as int, get(mem, at + 8 + k, n) as int, q);
    lemma_parts(get(mem, at + k, 8) as int, get(mem, at + k, n) as int, get(mem, at + 8, k as int) as int, p);
    lemma_whole(l as int, get(mem, at + k, 8) as int, p);
}

/// The same of words: lwr at the first byte and lwl at the last.
pub proof fn law_word_loads_join(mem: Seq<u8>, at: int, reg: u32, k: u32)
    requires
        0 <= at,
        at + 8 <= mem.len(),
        1 <= k <= 3,
    ensures
        get(mem, at, 4) <= u32::MAX,
        get(mem, at + 4, 4) <= u32::MAX,
        word_merged(
            true,
            word_merged(false, reg, get(mem, at, 4) as u32, (8 * k) as u32),
            get(mem, at + 4, 4) as u32,
            (8 * k - 8) as u32,
        ) == get(mem, at + k, 4),
{
    lemma_pow256(4);
    lemma2_to64();
    lemma_get_bound(mem, at, 4);
    lemma_get_bound(mem, at + 4, 4);
    lemma_pow256(k as nat);
    lemma_pow256((4 - k) as nat);
    let n = 4 - k;
    lemma_get_split(mem, at, k as int, n);
    lemma_get_split(mem, at + 4, k as int, n);
    lemma_get_split(mem, at + k, n, k as int);
    lemma_get_bound(mem, at, k as int);
    lemma_get_bound(mem, at + 4, k as int);
    lemma_get_bound(mem, at + k, n);
    let (low, high) = (get(mem, at, 4) as u32, get(mem, at + 4, 4) as u32);
    let (p, q) = (pow2((32 - 8 * k) as nat) as int, pow2((8 * k) as nat) as int);
    lemma_pow2_pos((32 - 8 * k) as nat);
    let r = word_merged(false, reg, low, (8 * k) as u32);
    let l = word_merged(true, r, high, (8 * k - 8) as u32);
    law_word_load_parts(reg, low, k);
    law_word_load_parts(r, high, k);
    lemma_parts(low as int, get(mem, at, k as int) as int, get(mem, at + k, n) as int, q);
    lemma_parts(high as int, get(mem, at + 4, k as int) as int, get(mem, at + 4 + k, n) as int, q);
    lemma_parts(get(mem, at + k, 4) as int, get(mem, at + k, n) as int, get(mem, at + 4, k as int) as int, p);
    lemma_whole(l as int, get(mem, at + k, 4) as int, p);
}

// --- the instructions ----------------------------------------------------------------

/// The four partial loads, by opcode.
proof fn lemma_partial_loads(m: Machine, instr: u32)
    ensures
        opcode(instr) == 0x1A ==> m.executed(instr) == m.load_part(instr, true, true),
        opcode(instr) == 0x1B ==> m.executed(instr) == m.load_part(instr, false, true),
        opcode(instr) == 0x22 ==> m.executed(instr) == m.load_part(instr, true, false),
        opcode(instr) == 0x26 ==> m.executed(instr) == m.load_part(instr, false, false),
{
    reveal(Machine::accessed);
}

/// The four partial stores, by opcode.
proof fn lemma_partial_stores(m: Machine, instr: u32)
    ensures
        opcode(instr) == 0x2C ==> m.executed(instr) == m.store_part(instr, true, true),
        opcode(instr) == 0x2D ==> m.executed(instr) == m.store_part(instr, false, true),
        opcode(instr) == 0x2A ==> m.executed(instr) == m.store_part(instr, true, false),
        opcode(instr) == 0x2E ==> m.executed(instr) == m.store_part(instr, false, false),
{
    reveal(Machine::accessed);
}

proof fn lemma_loaded_word(m: Machine, instr: u32, left: bool)
    requires
        rt(instr) != 0,
        m.cpu.gpr.len() == 32,
        m.fits((m.address(instr) - m.address(instr) % 4) as u32, 4),
    ensures
        ({
            let a = m.address(instr);
            let t = rt(instr);
            let w = word_merged(left, m.cpu.r32(t), low32(m.value((a - a % 4) as u32, 4)), (a % 4 * 8) as u32);
            let r = m.load_part(instr, left, false);
            &&& r.1 == Outcome::Done
            &&& r.0.cpu.r64(t) == sext32(w)
            &&& r.0.cpu.r32(t) == w
            &&& r.0.cpu.gpr.len() == 32
        }),
{
    reveal(Machine::load_part);
}

/// ldr (opcode 0x1B) at `a` and then ldl (0x1A) at `a + 7` leave the eight
/// bytes from `a` on in the register, whatever it held; at an aligned
/// address ldr does so alone.
pub proof fn law_ldr_ldl(m: Machine, ldr: u32, ldl: u32, mem: Seq<u8>, at: int)
    requires
        opcode(ldr) == 0x1B,
        opcode(ldl) == 0x1A,
        rt(ldr) == rt(ldl),
        rt(ldr) != 0,
        m.cpu.gpr.len() == 32,
        0 <= at,
        at + 16 <= mem.len(),
        m.fits((m.address(ldr) - m.address(ldr) % 8) as u32, 8),
        m.value((m.address(ldr) - m.address(ldr) % 8) as u32, 8) == get(mem, at, 8),
    ensures
        ({
            let a = m.address(ldr);
            let first = m.executed(ldr).0;
            let t = rt(ldr);
            &&& m.executed(ldr).1 == Outcome::Done
            &&& a % 8 == 0 ==> first.cpu.r64(t) == get(mem, at, 8)
            &&& (a % 8 != 0 && first.address(ldl) == a + 7 && first.fits((a - a % 8 + 8) as u32, 8) && first.value(
                (a - a % 8 + 8) as u32,
                8,
            ) == get(mem, at + 8, 8)) ==> first.executed(ldl).1 == Outcome::Done && first.executed(ldl).0.cpu.r64(t)
                == get(mem, at + a % 8, 8)
        }),
{
    lemma_partial_loads(m, ldr);
    lemma_partial_loads(m.executed(ldr).0, ldl);
    reveal(Machine::load_part);
    let a = m.address(ldr);
    let k = a % 8;
    let reg = m.cpu.r64(rt(ldr));
    law_double_load_parts(reg, get(mem, at, 8) as u64, 1);
    if k != 0 {
        law_double_loads_join(mem, at, reg, k);
        let first = m.executed(ldr).0;
        if first.address(ldl) == a + 7 {
            assert((a + 7) % 8 == k - 1);
        }
    }
}

/// lwr (opcode 0x26) at `a` and then lwl (0x22) at `a + 3` leave the four
/// bytes from `a` on in the register, sign-extended; at an aligned address
/// lwr does so alone.
pub proof fn law_lwr_lwl(m: Machine, lwr: u32, lwl: u32, mem: Seq<u8>, at: int)
    requires
        opcode(lwr) == 0x26,
        opcode(lwl) == 0x22,
        rt(lwr) == rt(lwl),
        rt(lwr) != 0,
        m.cpu.gpr.len() == 32,
        0 <= at,
        at + 8 <= mem.len(),
        m.fits((m.address(lwr) - m.address(lwr) % 4) as u32, 4),
        m.value((m.address(lwr) - m.address(lwr) % 4) as u32, 4) == get(mem, at, 4),
    ensures
        ({
            let a = m.address(lwr);
            let first = m.executed(lwr).0;
            let t = rt(lwr);
            let loaded = |v: u64, w: int| if w < 0x8000_0000 {
                v == w
            } else {
                v == w + 0xFFFF_FFFF_0000_0000
            };
            &&& m.executed(lwr).1 == Outcome::Done
            &&& a % 4 == 0 ==> loaded(first.cpu.r64(t), get(mem, at, 4) as int)
            &&& (a % 4 != 0 && first.address(lwl) == a + 3 && first.fits((a - a % 4 + 4) as u32, 4) && first.value(
                (a - a % 4 + 4) as u32,
                4,
            ) == get(mem, at + 4, 4)) ==> first.executed(lwl).1 == Outcome::Done && loaded(
                first.executed(lwl).0.cpu.r64(t),
                get(mem, at + a % 4, 4) as int,
            )
        }),
{
    let a = m.address(lwr);
    let k = a % 4;
    let reg = m.cpu.r32(rt(lwr));
    lemma_get_bound(mem, at, 4);
    lemma_get_bound(mem, at + 4, 4);
    lemma_pow256(4);
    lemma2_to64();
    law_word_load_parts(reg, get(mem, at, 4) as u32, 1);
    lemma_partial_loads(m, lwr);
    lemma_loaded_word(m, lwr, false);
    let first = m.executed(lwr).0;
    lemma_partial_loads(first, lwl);
    if k != 0 && first.address(lwl) == a + 3 && first.fits((a - a % 4 + 4) as u32, 4) {
        law_word_loads_join(mem, at, reg, k);
        assert((a + 3) % 4 == k - 1);
        assert((a + 3) - (a + 3) % 4 == a - a % 4 + 4);
        lemma_loaded_word(first, lwl, true);
    }
}

/// The opcodes of the partial stores: sdr (0x2D) and swr (0x2E) write the
/// low end of the register, sdl (0x2C) and swl (0x2A) the high end, into the
/// aligned word around their address, by way of reading it.
pub proof fn law_partial_stores(m: Machine, instr: u32)
    requires
        m.fits((m.address(instr) - m.address(instr) % 8) as u32, 8),
        m.fits((m.address(instr) - m.address(instr) % 4) as u32, 4),
    ensures
        ({
            let a = m.address(instr);
            let t = rt(instr);
            let (d, w) = ((a - a % 8) as u32, (a - a % 4) as u32);
            let after = m.executed(instr).0;
            let (rd, rw) = (m.after_read(d), m.after_read(w));
            let double = |left: bool| rd.phys_written(
                rd.phys(d),
                8,
                double_spread(left, m.cpu.r64(t), m.value(d, 8), (a % 8 * 8) as u32),
            );
            let word = |left: bool| rw.phys_written(
                rw.phys(w),
                4,
                word_spread(left, m.cpu.r32(t), low32(m.value(w, 4)), (a % 4 * 8) as u32) as u64,
            );
            &&& opcode(instr) == 0x2D ==> after == (Machine { bus: double(false), ..m })
            &&& opcode(instr) == 0x2C ==> after == (Machine { bus: double(true), ..m })
            &&& opcode(instr) == 0x2E ==> after == (Machine { bus: word(false), ..m })
            &&& opcode(instr) == 0x2A ==> after == (Machine { bus: word(true), ..m })
        }),
{
    lemma_partial_stores(m, instr);
    reveal(Machine::store_part);
}

} // verus!
