//! Where the parallel instructions take their lanes from and put them.

use vstd::prelude::*;
use super::alu::{
    byte_at, byte_lanes, half_lanes, interleaved_bytes, lane, of_halves, of_words, packed_bytes, packed_halves, word_lanes,
    LaneOp, Reg, Width,
};
use super::cpu::{lane_function, mmi01_value, mmi23_value};

verus! {

/// The words of a doubleword, low first.
pub open spec fn words_of(v: u64) -> Seq<int> {
    seq![v as int % 0x1_0000_0000, v as int / 0x1_0000_0000]
}

/// The halfwords of a doubleword, low first.
pub open spec fn halves_of(v: u64) -> Seq<int> {
    seq![
        v as int % 0x1_0000,
        v as int / 0x1_0000 % 0x1_0000,
        v as int / 0x1_0000_0000 % 0x1_0000,
        v as int / 0x1_0000_0000_0000,
    ]
}

/// The bytes of a doubleword, low first.
#[verifier::opaque]
pub open spec fn bytes_of(v: u64) -> Seq<int> {
    let h = halves_of(v);
    seq![
        h[0] % 256,
        h[0] / 256,
        h[1] % 256,
        h[1] / 256,
        h[2] % 256,
        h[2] / 256,
        h[3] % 256,
        h[3] / 256,
    ]
}

proof fn lemma_of_halves(a: int, b: int, c: int, d: int)
    requires
        0 <= a < 0x1_0000,
        0 <= b < 0x1_0000,
        0 <= c < 0x1_0000,
        0 <= d < 0x1_0000,
    ensures
        halves_of(of_halves(a, b, c, d)) == seq![a, b, c, d],
{
    let e = c + 0x1_0000 * d;
    let f = b + 0x1_0000 * e;
    let v = a + 0x1_0000 * f;
    assert(v % 0x1_0000 == a && v / 0x1_0000 == f);
    assert(f % 0x1_0000 == b);
    assert(v == (a + 0x1_0000 * b) + 0x1_0000_0000 * e);
    assert(v / 0x1_0000_0000 == e);
    assert(e % 0x1_0000 == c);
    assert(v == (a + 0x1_0000 * b + 0x1_0000_0000 * c) + 0x1_0000_0000_0000 * d);
    assert(v / 0x1_0000_0000_0000 == d);
    assert(of_halves(a, b, c, d) == v);
    assert(halves_of(of_halves(a, b, c, d)) =~= seq![a, b, c, d]);
}

proof fn lemma_two(x: int, y: int)
    requires
        0 <= x < 0x100,
        0 <= y < 0x100,
    ensures
        0 <= x + 0x100 * y < 0x1_0000,
        (x + 0x100 * y) % 0x100 == x,
        (x + 0x100 * y) / 0x100 == y,
{
}

/// The bytes of four halfwords that are pairs of bytes.
proof fn lemma_of_bytes(b: Seq<int>, v: u64)
    requires
        b.len() == 8,
        forall|i: int| 0 <= i < 8 ==> 0 <= #[trigger] b[i] < 0x100,
        v == of_halves(b[0] + 0x100 * b[1], b[2] + 0x100 * b[3], b[4] + 0x100 * b[5], b[6] + 0x100 * b[7]),
    ensures
        bytes_of(v) == b,
{
    reveal(bytes_of);
    lemma_two(b[0], b[1]);
    lemma_two(b[2], b[3]);
    lemma_two(b[4], b[5]);
    lemma_two(b[6], b[7]);
    lemma_of_halves(b[0] + 0x100 * b[1], b[2] + 0x100 * b[3], b[4] + 0x100 * b[5], b[6] + 0x100 * b[7]);
    assert(bytes_of(v) =~= b);
}

proof fn lemma_bytes(v: u64)
    ensures
        bytes_of(v).len() == 8,
        forall|i: int| 0 <= i < 8 ==> 0 <= #[trigger] bytes_of(v)[i] < 0x100,
        bytes_of(v)[0] == byte_at(v, 0, 0) && bytes_of(v)[1] == byte_at(v, 0, 1),
        bytes_of(v)[2] == byte_at(v, 1, 0) && bytes_of(v)[3] == byte_at(v, 1, 1),
        bytes_of(v)[4] == byte_at(v, 2, 0) && bytes_of(v)[5] == byte_at(v, 2, 1),
        bytes_of(v)[6] == byte_at(v, 3, 0) && bytes_of(v)[7] == byte_at(v, 3, 1),
{
    reveal(bytes_of);
}

proof fn lemma_of_words(l: int, h: int)
    requires
        0 <= l < 0x1_0000_0000,
        0 <= h < 0x1_0000_0000,
    ensures
        words_of(of_words(l, h)) == seq![l, h],
{
}

proof fn lemma_lane_range(op: LaneOp, size: int, x: int, y: int)
    requires
        size == 0x100 || size == 0x1_0000 || size == 0x1_0000_0000,
        0 <= x < size,
        0 <= y < size,
    ensures
        0 <= lane(op, size, x, y) < size,
{
    vstd::arithmetic::div_mod::lemma_mod_bound(x + y, size);
    vstd::arithmetic::div_mod::lemma_mod_bound(x - y, size);
    match op {
        LaneOp::SumSigned | LaneOp::DifferenceSigned => {
            let s = if x >= size / 2 {
                x - size
            } else {
                x
            };
            let t = if y >= size / 2 {
                y - size
            } else {
                y
            };
            vstd::arithmetic::div_mod::lemma_mod_bound(super::alu::saturated(size, s + t), size);
            vstd::arithmetic::div_mod::lemma_mod_bound(super::alu::saturated(size, s - t), size);
        },
        _ => {},
    }
}

/// A lane operation works on each pair of lanes in the same place, and its
/// result stays there.
pub proof fn law_lanes_stay_in_place(op: LaneOp, a: u64, b: u64)
    ensures
        forall|i: int|
            0 <= i < 2 ==> #[trigger] words_of(word_lanes(op, a, b))[i] == lane(
                op,
                0x1_0000_0000,
                words_of(a)[i],
                words_of(b)[i],
            ),
        forall|i: int|
            0 <= i < 4 ==> #[trigger] halves_of(half_lanes(op, a, b))[i] == lane(
                op,
                0x1_0000,
                halves_of(a)[i],
                halves_of(b)[i],
            ),
{
    let (wa, wb) = (words_of(a), words_of(b));
    lemma_lane_range(op, 0x1_0000_0000, wa[0], wb[0]);
    lemma_lane_range(op, 0x1_0000_0000, wa[1], wb[1]);
    let f = |i: int| lane(op, 0x1_0000_0000, wa[i], wb[i]);
    lemma_of_words(f(0), f(1));
    let (ha, hb) = (halves_of(a), halves_of(b));
    lemma_lane_range(op, 0x1_0000, ha[0], hb[0]);
    lemma_lane_range(op, 0x1_0000, ha[1], hb[1]);
    lemma_lane_range(op, 0x1_0000, ha[2], hb[2]);
    lemma_lane_range(op, 0x1_0000, ha[3], hb[3]);
    let g = |i: int| lane(op, 0x1_0000, ha[i], hb[i]);
    lemma_of_halves(g(0), g(1), g(2), g(3));
    assert(half_lanes(op, a, b) == of_halves(g(0), g(1), g(2), g(3)));
}

/// The same of bytes.
pub proof fn law_byte_lanes_stay_in_place(op: LaneOp, a: u64, b: u64)
    ensures
        forall|i: int|
            0 <= i < 8 ==> #[trigger] bytes_of(byte_lanes(op, a, b))[i] == lane(op, 0x100, bytes_of(a)[i], bytes_of(b)[i]),
{
    let (x, y) = (bytes_of(a), bytes_of(b));
    lemma_bytes(a);
    lemma_bytes(b);
    let f = Seq::new(8, |i: int| lane(op, 0x100, x[i], y[i]));
    assert forall|i: int| 0 <= i < 8 implies 0 <= #[trigger] f[i] < 0x100 by {
        lemma_lane_range(op, 0x100, x[i], y[i]);
    }
    lemma_of_bytes(f, byte_lanes(op, a, b));
}

/// Which lanes and which operation each parallel instruction of MMI0 and
/// MMI1 means: the low two bits of its number tell the operation and the
/// next two the width (words, halfwords, bytes), with saturation from 16 on.
pub proof fn law_parallel_numbers(n: u32)
    requires
        n < 3,
    ensures
        ({
            let w = if n == 0 {
                Width::Word
            } else if n == 1 {
                Width::Half
            } else {
                Width::Byte
            };
            let k = |i: int| (4 * n + i) as u32;
            &&& lane_function(false, k(0)) == Some((LaneOp::Sum, w))
            &&& lane_function(false, k(1)) == Some((LaneOp::Difference, w))
            &&& lane_function(false, k(2)) == Some((LaneOp::Greater, w))
            &&& n < 2 ==> lane_function(false, k(3)) == Some((LaneOp::Max, w))
            &&& lane_function(false, k(16)) == Some((LaneOp::SumSigned, w))
            &&& lane_function(false, k(17)) == Some((LaneOp::DifferenceSigned, w))
            &&& n < 2 ==> lane_function(true, k(1)) == Some((LaneOp::Magnitude, w))
            &&& lane_function(true, k(2)) == Some((LaneOp::Equal, w))
            &&& n < 2 ==> lane_function(true, k(3)) == Some((LaneOp::Min, w))
            &&& lane_function(true, k(16)) == Some((LaneOp::SumUnsigned, w))
            &&& lane_function(true, k(17)) == Some((LaneOp::DifferenceUnsigned, w))
        }),
{
}

/// pextlw and pextuw, pextlh and pextuh: the lanes of the lower (upper)
/// halves of rt and rs alternate, rt's first.
pub proof fn law_extends_alternate(upper: bool, a: Reg, b: Reg, sa: u32)
    ensures
        ({
            let (x, y) = if upper {
                (a.hi, b.hi)
            } else {
                (a.lo, b.lo)
            };
            let w = mmi01_value(upper, 0x12, a, b, sa)->Some_0;
            let h = mmi01_value(upper, 0x16, a, b, sa)->Some_0;
            let (wx, wy, hx, hy) = (words_of(x), words_of(y), halves_of(x), halves_of(y));
            &&& mmi01_value(upper, 0x12, a, b, sa) is Some
            &&& mmi01_value(upper, 0x16, a, b, sa) is Some
            &&& words_of(w.lo) == seq![wy[0], wx[0]]
            &&& words_of(w.hi) == seq![wy[1], wx[1]]
            &&& halves_of(h.lo) == seq![hy[0], hx[0], hy[1], hx[1]]
            &&& halves_of(h.hi) == seq![hy[2], hx[2], hy[3], hx[3]]
        }),
{
    let (x, y) = if upper {
        (a.hi, b.hi)
    } else {
        (a.lo, b.lo)
    };
    let (wx, wy, hx, hy) = (words_of(x), words_of(y), halves_of(x), halves_of(y));
    lemma_of_words(wy[0], wx[0]);
    lemma_of_words(wy[1], wx[1]);
    lemma_of_halves(hy[0], hx[0], hy[1], hx[1]);
    lemma_of_halves(hy[2], hx[2], hy[3], hx[3]);
}

/// pextlb and pextub.
pub proof fn law_extends_alternate_bytes(upper: bool, a: Reg, b: Reg, sa: u32)
    ensures
        ({
            let (x, y) = if upper {
                (bytes_of(a.hi), bytes_of(b.hi))
            } else {
                (bytes_of(a.lo), bytes_of(b.lo))
            };
            let r = mmi01_value(upper, 0x1A, a, b, sa)->Some_0;
            &&& mmi01_value(upper, 0x1A, a, b, sa) is Some
            &&& bytes_of(r.lo) == seq![y[0], x[0], y[1], x[1], y[2], x[2], y[3], x[3]]
            &&& bytes_of(r.hi) == seq![y[4], x[4], y[5], x[5], y[6], x[6], y[7], x[7]]
        }),
{
    let (u, v) = if upper {
        (a.hi, b.hi)
    } else {
        (a.lo, b.lo)
    };
    let (x, y) = (bytes_of(u), bytes_of(v));
    lemma_bytes(u);
    lemma_bytes(v);
    lemma_of_bytes(seq![y[0], x[0], y[1], x[1], y[2], x[2], y[3], x[3]], interleaved_bytes(v, u).lo);
    lemma_of_bytes(seq![y[4], x[4], y[5], x[5], y[6], x[6], y[7], x[7]], interleaved_bytes(v, u).hi);
}

/// ppacw, ppach and ppacb: the even lanes of rt, then those of rs.
pub proof fn law_packs_take_even_lanes(a: Reg, b: Reg, sa: u32)
    ensures
        ({
            let w = mmi01_value(false, 0x13, a, b, sa)->Some_0;
            let h = mmi01_value(false, 0x17, a, b, sa)->Some_0;
            let c = mmi01_value(false, 0x1B, a, b, sa)->Some_0;
            let even = |x: Seq<int>, y: Seq<int>| seq![x[0], x[2], y[0], y[2]];
            let evens = |x: Seq<int>, y: Seq<int>| seq![x[0], x[2], x[4], x[6], y[0], y[2], y[4], y[6]];
            &&& words_of(w.lo) == seq![words_of(b.lo)[0], words_of(b.hi)[0]]
            &&& words_of(w.hi) == seq![words_of(a.lo)[0], words_of(a.hi)[0]]
            &&& halves_of(h.lo) == even(halves_of(b.lo), halves_of(b.hi))
            &&& halves_of(h.hi) == even(halves_of(a.lo), halves_of(a.hi))
            &&& bytes_of(c.lo) == evens(bytes_of(b.lo), bytes_of(b.hi))
            &&& bytes_of(c.hi) == evens(bytes_of(a.lo), bytes_of(a.hi))
        }),
{
    lemma_packs(a);
    lemma_packs(b);
}

proof fn lemma_packs(v: Reg)
    ensures
        words_of(super::alu::packed_words(v)) == seq![words_of(v.lo)[0], words_of(v.hi)[0]],
        halves_of(packed_halves(v)) == seq![
            halves_of(v.lo)[0],
            halves_of(v.lo)[2],
            halves_of(v.hi)[0],
            halves_of(v.hi)[2],
        ],
        ({
            let (x, y) = (bytes_of(v.lo), bytes_of(v.hi));
            bytes_of(packed_bytes(v)) == seq![x[0], x[2], x[4], x[6], y[0], y[2], y[4], y[6]]
        }),
{
    lemma_of_words(words_of(v.lo)[0], words_of(v.hi)[0]);
    let (p, q) = (halves_of(v.lo), halves_of(v.hi));
    lemma_of_halves(p[0], p[2], q[0], q[2]);
    let (x, y) = (bytes_of(v.lo), bytes_of(v.hi));
    lemma_bytes(v.lo);
    lemma_bytes(v.hi);
    lemma_of_bytes(seq![x[0], x[2], x[4], x[6], y[0], y[2], y[4], y[6]], packed_bytes(v));
}

/// The copies of MMI2 and MMI3: pcpyld joins the lower halves, rt's below;
/// pcpyud the upper ones, rs's below; pcpyh repeats the low halfword of each
/// half of rt; pinteh alternates even halfwords and pinth the lower half of
/// rt with the upper half of rs.
pub proof fn law_copies(a: Reg, b: Reg, hi: Reg, lo: Reg)
    ensures
        mmi23_value(false, 0x0E, a, b, hi, lo) == Some(Reg { lo: b.lo, hi: a.lo }),
        mmi23_value(true, 0x0E, a, b, hi, lo) == Some(Reg { lo: a.hi, hi: b.hi }),
        mmi23_value(false, 0x08, a, b, hi, lo) == Some(hi),
        mmi23_value(false, 0x09, a, b, hi, lo) == Some(lo),
        ({
            let r = mmi23_value(true, 0x1B, a, b, hi, lo)->Some_0;
            let (x, y) = (halves_of(b.lo)[0], halves_of(b.hi)[0]);
            halves_of(r.lo) == seq![x, x, x, x] && halves_of(r.hi) == seq![y, y, y, y]
        }),
        ({
            let r = mmi23_value(true, 0x0A, a, b, hi, lo)->Some_0;
            let (x, y, u, v) = (halves_of(a.lo), halves_of(b.lo), halves_of(a.hi), halves_of(b.hi));
            halves_of(r.lo) == seq![y[0], x[0], y[2], x[2]] && halves_of(r.hi) == seq![v[0], u[0], v[2], u[2]]
        }),
        ({
            let r = mmi23_value(false, 0x0A, a, b, hi, lo)->Some_0;
            let (x, y) = (halves_of(a.hi), halves_of(b.lo));
            halves_of(r.lo) == seq![y[0], x[0], y[1], x[1]] && halves_of(r.hi) == seq![y[2], x[2], y[3], x[3]]
        }),
{
    let (x, y, u, v) = (halves_of(a.lo), halves_of(b.lo), halves_of(a.hi), halves_of(b.hi));
    lemma_of_halves(y[0], y[0], y[0], y[0]);
    lemma_of_halves(v[0], v[0], v[0], v[0]);
    lemma_of_halves(y[0], x[0], y[2], x[2]);
    lemma_of_halves(v[0], u[0], v[2], u[2]);
    lemma_of_halves(y[0], u[0], y[1], u[1]);
    lemma_of_halves(y[2], u[2], y[3], u[3]);
}

} // verus!
