//! What the words of a RAW code mean.

use vstd::prelude::*;
use crate::bus::regs::BusModel;
use crate::bytes::le_bytes;
use super::effects::{law_conditions_compare, law_conditions_on_bits, lets_run, little_endian, readable};
use super::parse::{bitwise, comparison, conditional, extended, increment, LineModel};
use super::{Bitwise, Compare, OpModel, Target};

verus! {

/// The data word of a conditional, nntsvvvv.
pub open spec fn condition_word(n: int, t: int, s: int, v: int) -> u32 {
    (0x100_0000 * n + 0x10_0000 * t + 0x1_0000 * s + v) as u32
}

/// A conditional code nntsvvvv compares a halfword (s = 0) or a byte (s = 1)
/// with as much of the value, and skips nn commands, one for zero.
pub proof fn law_conditional_fields(addr: u32, n: int, t: int, s: int, v: int)
    requires
        0 <= n < 256,
        0 <= t < 16,
        0 <= s < 16,
        0 <= v < 0x1_0000,
    ensures
        ({
            let r = conditional(addr, condition_word(n, t, s, v));
            &&& t >= 8 || s >= 2 ==> r is Err
            &&& t < 8 && s < 2 ==> r is Ok
            &&& t < 8 && s < 2 ==> (r->Ok_0 matches OpModel::Cond { addr: a, width, value, skip, .. } && a == addr && width == 2
                - s && value == (if s == 0 {
                v
            } else {
                v % 256
            }) && skip == (if n == 0 {
                1
            } else {
                n
            }))
        }),
{
    let d = condition_word(n, t, s, v) as int;
    assert(d / 0x100_0000 == n);
    assert(d / 0x10_0000 == 16 * n + t);
    assert(d / 0x1_0000 == 256 * n + 16 * t + s);
    assert(d % 0x1_0000 == v);
    assert(d % 0x100 == v % 0x100);
}

/// The comparisons by number, as they decide: 0 and 1 are each other's
/// opposite, and so are 4 and 5, and 6 and 7; 0 asks for the value itself, 2
/// for a smaller one and 3 for a greater.
pub proof fn law_comparisons_by_number(m: BusModel, tgt: Target, addr: u32, width: u8, value: u32, skip: usize)
    requires
        width == 1 || width == 2 || width == 4,
        readable(m, tgt, addr, width as int),
        skip > 0,
    ensures
        ({
            let runs = |t: int| lets_run(m, tgt, addr, width, comparison(t), value, skip);
            let v = little_endian(m, tgt, addr, width as int);
            &&& runs(0) <==> v == value
            &&& runs(1) <==> !runs(0)
            &&& runs(2) <==> v < value
            &&& runs(3) <==> v > value
            &&& runs(4) <==> !runs(5)
            &&& runs(6) <==> !runs(7)
            &&& v == value ==> runs(5)
            &&& value == 0 ==> runs(6)
        }),
{
    law_conditions_compare(m, tgt, addr, width, value, skip);
    law_conditions_on_bits(m, tgt, addr, width, value, skip, 0);
}

/// Codes 0, 1 and 2 write one, two and four bytes of their value, lowest
/// first; the type is the top digit of the address word and no part of the
/// address.
pub proof fn law_write_codes(addr: u32, d: u32, lines: Seq<LineModel>, i: int)
    requires
        addr < 0x1000_0000,
    ensures
        extended(addr, d, lines, i) == (Ok::<OpModel, Seq<char>>(OpModel::Write { addr, data: le_bytes(d as nat, 1) }), i),
        extended((0x1000_0000 + addr) as u32, d, lines, i) == (
            Ok::<OpModel, Seq<char>>(OpModel::Write { addr, data: le_bytes(d as nat, 2) }),
            i,
        ),
        extended((0x2000_0000 + addr) as u32, d, lines, i) == (
            Ok::<OpModel, Seq<char>>(OpModel::Write { addr, data: le_bytes(d as nat, 4) }),
            i,
        ),
{
}

/// Code 3 adds to a byte (0, 1) or a halfword (2, 3) at the address in its
/// second word; the odd operations take away as much as the even ones add.
pub proof fn law_increment_codes(s: int, v: int, d: u32, lines: Seq<LineModel>, i: int)
    requires
        0 <= s <= 3,
        0 <= v < 0x1_0000,
    ensures
        ({
            let r = increment((0x3000_0000 + 0x10_0000 * s + v) as u32, d, lines, i);
            let size = if s < 2 {
                v % 256
            } else {
                v
            };
            &&& r.1 == i
            &&& r.0 matches Ok(op) && op matches OpModel::Add { addr, width, amount } && addr == d as int % 0x1000_0000
                && width == 1 + s / 2 && amount == (if s % 2 == 0 {
                size
            } else {
                -size
            })
        }),
{
    let a = 0x3000_0000 + 0x10_0000 * s + v;
    assert(a / 0x10_0000 == 0x300 + s);
    assert(a % 0x1_0000 == v);
    assert(a % 0x100 == v % 0x100);
}

/// Code 7 sets, keeps or turns over bits: OR for 0 and 1, AND for 2 and 3,
/// XOR for 4 and 5, of a byte for the even and a halfword for the odd ones.
pub proof fn law_bitwise_codes(addr: u32, x: int, v: int)
    requires
        0 <= x <= 5,
        0 <= v < 0x1_0000,
    ensures
        bitwise(addr, (0x10_0000 * x + v) as u32) matches Ok(op) && op matches OpModel::Bitwise {
            addr: a,
            width,
            op: o,
            value,
        } && a == addr && width == 1 + x % 2 && (o == Bitwise::Or <==> x / 2 == 0) && (o == Bitwise::And <==> x / 2 == 1) && (o
            == Bitwise::Xor <==> x / 2 == 2) && value == (if x % 2 == 0 {
            v % 256
        } else {
            v
        }),
{
    let d = 0x10_0000 * x + v;
    assert(d / 0x10_0000 == x);
    assert(d % 0x1_0000 == v);
    assert(d % 0x100 == v % 0x100);
}

} // verus!
