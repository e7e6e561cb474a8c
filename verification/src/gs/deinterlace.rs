//! Interlaced field buffers made into whole frames.
//!
//! A new field lands on the rows of its parity; the other rows keep the
//! previous field. At display scale `sc` hardware line `j` covers the
//! physical rows `sc * j + k`; each `k < sc` slices an interlaced frame of
//! its own, and the filters run inside one slice.

use vstd::prelude::*;
use vstd::slice::slice_subrange;
use super::canvas::Canvas;
use super::display::{frame, lemma_frame_at, lemma_frame_push, lemma_in_frame, line_px, scan_px, DisplayView};

verus! {

/// How interlaced field buffers are shown.
#[derive(Clone, Copy, PartialEq, Eq, Structural, Debug, Default)]
pub enum Deinterlace {
    /// Latest two fields interleaved: full detail, combs on motion.
    #[default]
    Weave,
    /// Latest field only, the other rows interpolated from it: no combing,
    /// half the vertical detail.
    Bob,
    /// Weave filtered vertically (1-2-1 over the woven rows): no combing,
    /// no bobbing, a little softer.
    Blend,
    /// Weave where nothing moved, bob where it did.
    Adaptive,
    /// Adaptive, with the pixels it rebuilt tinted magenta (tuning aid).
    AdaptiveDebug,
    /// ffmpeg's yadif: edge-directed rebuild clamped by the previous and
    /// next field of the same parity; shows each field one vblank late.
    Yadif,
    /// ffmpeg's bwdif: yadif's temporal clamp with a vertical cubic
    /// rebuild (w3fdif taps) instead of the edge-directed search; also one
    /// field late.
    Bwdif,
}

/// Per-channel change below which a pixel counts as still, and above
/// which it is fully rebuilt; in between the weave and the rebuilt value
/// are mixed.
pub const MOTION_LO: u8 = 6;

pub const MOTION_HI: u8 = 40;

// --- arithmetic -------------------------------------------------------------

pub open spec fn abs(v: int) -> int {
    if v < 0 {
        -v
    } else {
        v
    }
}

pub open spec fn min(a: int, b: int) -> int {
    if a < b {
        a
    } else {
        b
    }
}

pub open spec fn max(a: int, b: int) -> int {
    if a > b {
        a
    } else {
        b
    }
}

pub open spec fn clamp(v: int, lo: int, hi: int) -> int {
    if v < lo {
        lo
    } else if v > hi {
        hi
    } else {
        v
    }
}

fn iabs(v: i32) -> (r: i32)
    requires
        v > i32::MIN,
    ensures
        r == abs(v as int),
{
    if v < 0 {
        -v
    } else {
        v
    }
}

fn imin(a: i32, b: i32) -> (r: i32)
    ensures
        r == min(a as int, b as int),
{
    if a < b {
        a
    } else {
        b
    }
}

fn imax(a: i32, b: i32) -> (r: i32)
    ensures
        r == max(a as int, b as int),
{
    if a > b {
        a
    } else {
        b
    }
}

fn iclamp(v: i32, lo: i32, hi: i32) -> (r: i32)
    ensures
        r == clamp(v as int, lo as int, hi as int),
{
    if v < lo {
        lo
    } else if v > hi {
        hi
    } else {
        v
    }
}

/// `v` over a power of two, rounded down.
fn floor_div(v: i32, d: i32) -> (r: i32)
    requires
        d == 4 || d == 8192,
        -0x1000_0000 <= v <= 0x1000_0000,
    ensures
        r == v as int / d as int,
{
    let up: u32 = (v + 0x1000_0000) as u32;
    if d == 4 {
        (up / 4) as i32 - 0x400_0000
    } else {
        (up / 8192) as i32 - 0x8000
    }
}

// --- rows -------------------------------------------------------------------

/// Row `y` of a frame that is `w` pixels wide.
pub open spec fn row(buf: Seq<u8>, w: int, y: int) -> Seq<u8> {
    buf.subrange(4 * (y * w), 4 * (y * w) + 4 * w)
}

/// Channel `ch` of pixel `x`, the nearest one where the row has no `x`.
#[verifier::opaque]
pub open spec fn tap(r: Seq<u8>, w: int, x: int, ch: int) -> int {
    r[4 * clamp(x, 0, w - 1) + ch] as int
}

/// Rows beyond the edges mirror, which keeps their field parity.
pub open spec fn mirror_row(j: int, h: int) -> int {
    clamp(
        if j < 0 {
            -j
        } else if j > h - 1 {
            2 * (h - 1) - j
        } else {
            j
        },
        0,
        h - 1,
    )
}

/// Logical row `j` (mirrored at the edges) of slice `k`.
pub open spec fn slice_row(buf: Seq<u8>, w: int, h: int, sc: int, k: int, j: int) -> Seq<u8> {
    row(buf, w, sc * mirror_row(j, h) + k)
}

fn row_at<'a>(buf: &'a [u8], w: usize, h: usize, y: usize) -> (r: &'a [u8])
    requires
        buf@.len() == w * h * 4,
        0 < w <= 4096,
        h <= 4096,
        y < h,
    ensures
        r@ == row(buf@, w as int, y as int),
        r@.len() == 4 * w,
{
    proof {
        lemma_in_frame(w as int, h as int, 0, y as int);
        assert(w * h <= 4096 * 4096) by (nonlinear_arith)
            requires
                0 < w <= 4096,
                0 <= h <= 4096,
        ;
    }
    slice_subrange(buf, 4 * (y * w), 4 * (y * w) + 4 * w)
}

fn slice_row_at<'a>(buf: &'a [u8], w: usize, h: i32, sc: i32, k: i32, j: i32) -> (r: &'a [u8])
    requires
        0 < w <= 4096,
        0 < h <= 1024,
        sc == 1 || sc == 2,
        0 <= k < sc,
        -8 <= j <= 1040,
        buf@.len() == w * (h * sc) * 4,
    ensures
        r@ == slice_row(buf@, w as int, h as int, sc as int, k as int, j as int),
        r@.len() == 4 * w,
{
    let m: i32 = if j < 0 {
        -j
    } else if j > h - 1 {
        2 * (h - 1) - j
    } else {
        j
    };
    let m: i32 = iclamp(m, 0, h - 1);
    proof {
        assert(0 <= sc * m + k < h * sc) by (nonlinear_arith)
            requires
                0 <= m < h,
                0 <= k < sc,
        ;
        assert(sc * m <= 2048 && h * sc <= 2048) by (nonlinear_arith)
            requires
                0 <= m < h,
                h <= 1024,
                sc == 1 || sc == 2,
        ;
    }
    row_at(buf, w, (h * sc) as usize, (sc * m + k) as usize)
}

fn tap_at(r: &[u8], w: i32, x: i32, ch: usize) -> (v: i32)
    requires
        0 < w <= 4096,
        r@.len() == 4 * w,
        -8 <= x <= 4104,
        ch < 4,
    ensures
        v == tap(r@, w as int, x as int, ch as int),
        0 <= v <= 255,
{
    proof {
        reveal(tap);
    }
    let xx: i32 = if x < 0 {
        0
    } else if x > w - 1 {
        w - 1
    } else {
        x
    };
    r[4 * xx as usize + ch] as i32
}

// --- the temporal filters -----------------------------------------------------

/// The rows around a missing row: `c*` of the field being shown, `p*` and
/// `n*` of the missing parity's fields before and after, `v*` of the shown
/// field's previous instance; the number is the distance in rows, `m` above
/// and `p` below.
pub struct Taps {
    pub cm1: Seq<u8>,
    pub cp1: Seq<u8>,
    pub cm3: Seq<u8>,
    pub cp3: Seq<u8>,
    pub p0: Seq<u8>,
    pub pm2: Seq<u8>,
    pub pp2: Seq<u8>,
    pub pm4: Seq<u8>,
    pub pp4: Seq<u8>,
    pub n0: Seq<u8>,
    pub nm2: Seq<u8>,
    pub np2: Seq<u8>,
    pub nm4: Seq<u8>,
    pub np4: Seq<u8>,
    pub vm1: Seq<u8>,
    pub vp1: Seq<u8>,
}

/// The rows around logical row `j` of slice `k`: `woven` holds the shown
/// field and the one after, `before` the missing parity's field before,
/// `shown_before` the shown field's previous instance.
#[verifier::opaque]
pub open spec fn taps(woven: Seq<u8>, before: Seq<u8>, shown_before: Seq<u8>, w: int, h: int, sc: int, k: int, j: int) -> Taps {
    Taps {
        cm1: slice_row(woven, w, h, sc, k, j - 1),
        cp1: slice_row(woven, w, h, sc, k, j + 1),
        cm3: slice_row(woven, w, h, sc, k, j - 3),
        cp3: slice_row(woven, w, h, sc, k, j + 3),
        p0: slice_row(before, w, h, sc, k, j),
        pm2: slice_row(before, w, h, sc, k, j - 2),
        pp2: slice_row(before, w, h, sc, k, j + 2),
        pm4: slice_row(before, w, h, sc, k, j - 4),
        pp4: slice_row(before, w, h, sc, k, j + 4),
        n0: slice_row(woven, w, h, sc, k, j),
        nm2: slice_row(woven, w, h, sc, k, j - 2),
        np2: slice_row(woven, w, h, sc, k, j + 2),
        nm4: slice_row(woven, w, h, sc, k, j - 4),
        np4: slice_row(woven, w, h, sc, k, j + 4),
        vm1: slice_row(shown_before, w, h, sc, k, j - 1),
        vp1: slice_row(shown_before, w, h, sc, k, j + 1),
    }
}

/// Rows of one missing row, as the filters read them.
pub struct TapRows<'a> {
    pub cm1: &'a [u8],
    pub cp1: &'a [u8],
    pub cm3: &'a [u8],
    pub cp3: &'a [u8],
    pub p0: &'a [u8],
    pub pm2: &'a [u8],
    pub pp2: &'a [u8],
    pub pm4: &'a [u8],
    pub pp4: &'a [u8],
    pub n0: &'a [u8],
    pub nm2: &'a [u8],
    pub np2: &'a [u8],
    pub nm4: &'a [u8],
    pub np4: &'a [u8],
    pub vm1: &'a [u8],
    pub vp1: &'a [u8],
}

impl<'a> TapRows<'a> {
    pub open spec fn model(&self) -> Taps {
        Taps {
            cm1: self.cm1@,
            cp1: self.cp1@,
            cm3: self.cm3@,
            cp3: self.cp3@,
            p0: self.p0@,
            pm2: self.pm2@,
            pp2: self.pp2@,
            pm4: self.pm4@,
            pp4: self.pp4@,
            n0: self.n0@,
            nm2: self.nm2@,
            np2: self.np2@,
            nm4: self.nm4@,
            np4: self.np4@,
            vm1: self.vm1@,
            vp1: self.vp1@,
        }
    }

    pub open spec fn wf(&self, w: int) -> bool {
        &&& self.cm1@.len() == 4 * w && self.cp1@.len() == 4 * w
        &&& self.cm3@.len() == 4 * w && self.cp3@.len() == 4 * w
        &&& self.p0@.len() == 4 * w && self.pm2@.len() == 4 * w && self.pp2@.len() == 4 * w
        &&& self.pm4@.len() == 4 * w && self.pp4@.len() == 4 * w
        &&& self.n0@.len() == 4 * w && self.nm2@.len() == 4 * w && self.np2@.len() == 4 * w
        &&& self.nm4@.len() == 4 * w && self.np4@.len() == 4 * w
        &&& self.vm1@.len() == 4 * w && self.vp1@.len() == 4 * w
    }
}

fn tap_rows<'a>(woven: &'a [u8], before: &'a [u8], shown_before: &'a [u8], w: usize, h: i32, sc: i32, k: i32, j: i32) -> (r: TapRows<'a>)
    requires
        0 < w <= 4096,
        0 < h <= 1024,
        sc == 1 || sc == 2,
        0 <= k < sc,
        0 <= j < h,
        woven@.len() == w * (h * sc) * 4,
        before@.len() == w * (h * sc) * 4,
        shown_before@.len() == w * (h * sc) * 4,
    ensures
        r.wf(w as int),
        r.model() == taps(woven@, before@, shown_before@, w as int, h as int, sc as int, k as int, j as int),
{
    proof {
        reveal(taps);
    }
    TapRows {
        cm1: slice_row_at(woven, w, h, sc, k, j - 1),
        cp1: slice_row_at(woven, w, h, sc, k, j + 1),
        cm3: slice_row_at(woven, w, h, sc, k, j - 3),
        cp3: slice_row_at(woven, w, h, sc, k, j + 3),
        p0: slice_row_at(before, w, h, sc, k, j),
        pm2: slice_row_at(before, w, h, sc, k, j - 2),
        pp2: slice_row_at(before, w, h, sc, k, j + 2),
        pm4: slice_row_at(before, w, h, sc, k, j - 4),
        pp4: slice_row_at(before, w, h, sc, k, j + 4),
        n0: slice_row_at(woven, w, h, sc, k, j),
        nm2: slice_row_at(woven, w, h, sc, k, j - 2),
        np2: slice_row_at(woven, w, h, sc, k, j + 2),
        nm4: slice_row_at(woven, w, h, sc, k, j - 4),
        np4: slice_row_at(woven, w, h, sc, k, j + 4),
        vm1: slice_row_at(shown_before, w, h, sc, k, j - 1),
        vp1: slice_row_at(shown_before, w, h, sc, k, j + 1),
    }
}

/// How well the three-pixel windows above and below agree along direction
/// `j`: the sum of their differences.
#[verifier::opaque]
pub open spec fn direction_score(t: Taps, w: int, x: int, ch: int, j: int) -> int {
    abs(tap(t.cm1, w, x - 1 + j, ch) - tap(t.cp1, w, x - 1 - j, ch)) + abs(
        tap(t.cm1, w, x + j, ch) - tap(t.cp1, w, x - j, ch),
    ) + abs(tap(t.cm1, w, x + 1 + j, ch) - tap(t.cp1, w, x + 1 - j, ch))
}

/// The mean of the pixels above and below along direction `j`.
pub open spec fn direction_mean(t: Taps, w: int, x: int, ch: int, j: int) -> int {
    (tap(t.cm1, w, x + j, ch) + tap(t.cp1, w, x - j, ch)) / 2
}

/// Yadif's edge-directed search on one side: from the best so far (`score`,
/// `j`), one step towards `dir` if it scores better, a second step if that
/// scores better still.
pub open spec fn yadif_side(t: Taps, w: int, x: int, ch: int, best: (int, int), dir: int) -> (int, int) {
    let s1 = direction_score(t, w, x, ch, dir);
    let s2 = direction_score(t, w, x, ch, 2 * dir);
    if s1 < best.0 {
        if s2 < s1 {
            (s2, 2 * dir)
        } else {
            (s1, dir)
        }
    } else {
        best
    }
}

/// The direction yadif interpolates along; the vertical one is favoured by
/// one.
pub open spec fn yadif_direction(t: Taps, w: int, x: int, ch: int) -> int {
    let best = (direction_score(t, w, x, ch, 0) - 1, 0int);
    yadif_side(t, w, x, ch, yadif_side(t, w, x, ch, best, -1), 1).1
}

/// The mean of the fields before and after.
pub open spec fn temporal_mean(t: Taps, w: int, x: int, ch: int) -> int {
    (tap(t.p0, w, x, ch) + tap(t.n0, w, x, ch)) / 2
}

/// How far motion lets the value stray from the temporal mean, before the
/// spatial check.
pub open spec fn temporal_diff(t: Taps, w: int, x: int, ch: int) -> int {
    let c = tap(t.cm1, w, x, ch);
    let e = tap(t.cp1, w, x, ch);
    max(
        abs(tap(t.p0, w, x, ch) - tap(t.n0, w, x, ch)) / 2,
        (abs(tap(t.vm1, w, x, ch) - c) + abs(tap(t.vp1, w, x, ch) - e)) / 2,
    )
}

/// The same widened by what the rows two above and below suggest (yadif's
/// spatial check).
pub open spec fn checked_diff(t: Taps, w: int, x: int, ch: int) -> int {
    let c = tap(t.cm1, w, x, ch);
    let e = tap(t.cp1, w, x, ch);
    let d = temporal_mean(t, w, x, ch);
    let b = (tap(t.pm2, w, x, ch) + tap(t.nm2, w, x, ch)) / 2 - c;
    let f = (tap(t.pp2, w, x, ch) + tap(t.np2, w, x, ch)) / 2 - e;
    let hi = max(max(d - e, d - c), min(b, f));
    let lo = min(min(d - e, d - c), max(b, f));
    max(max(temporal_diff(t, w, x, ch), lo), -hi)
}

/// Yadif's value for channel `ch` of pixel `x`: the spatial prediction held
/// to the range that the temporal neighbours allow.
#[verifier::opaque]
pub open spec fn yadif_px(t: Taps, w: int, x: int, ch: int) -> int {
    let d = temporal_mean(t, w, x, ch);
    let diff = checked_diff(t, w, x, ch);
    let pred = direction_mean(t, w, x, ch, yadif_direction(t, w, x, ch));
    clamp(clamp(pred, d - diff, d + diff), 0, 255)
}

/// Bwdif's cubic over the shown field (`c1` the nearest rows, `c3` the next)
/// plus the fine detail of the temporal neighbours (`t0`, `t2`, `t4`), for
/// high vertical frequencies.
pub open spec fn bwdif_high(t0: int, t2: int, t4: int, c1: int, c3: int) -> int {
    ((5570 * t0 - 3801 * t2 + 1016 * t4) / 4 + 4309 * c1 - 213 * c3) / 8192
}

fn bwdif_high_at(t0: i32, t2: i32, t4: i32, c1: i32, c3: i32) -> (r: i32)
    requires
        0 <= t0 <= 510,
        0 <= t2 <= 1020,
        0 <= t4 <= 1020,
        0 <= c1 <= 510,
        0 <= c3 <= 510,
    ensures
        r == bwdif_high(t0 as int, t2 as int, t4 as int, c1 as int, c3 as int),
{
    let high: i32 = floor_div(5570 * t0 - 3801 * t2 + 1016 * t4, 4);
    floor_div(high + 4309 * c1 - 213 * c3, 8192)
}

/// Bwdif's value on line `y` of `h`. 13-bit fixed-point coefficients from
/// ffmpeg's bwdifdsp.c; the outermost rows fall back to plain averaging,
/// and the very first and last pair skips the spatial check too.
#[verifier::opaque]
pub open spec fn bwdif_px(t: Taps, w: int, h: int, y: int, x: int, ch: int) -> int {
    let edge = y < 4 || y + 5 > h;
    let spat = y >= 2 && y + 3 <= h;
    let c = tap(t.cm1, w, x, ch);
    let e = tap(t.cp1, w, x, ch);
    let p = tap(t.p0, w, x, ch);
    let n = tap(t.n0, w, x, ch);
    let d = temporal_mean(t, w, x, ch);
    let c3 = tap(t.cm3, w, x, ch) + tap(t.cp3, w, x, ch);
    let t2 = tap(t.pm2, w, x, ch) + tap(t.nm2, w, x, ch) + tap(t.pp2, w, x, ch) + tap(t.np2, w, x, ch);
    let t4 = tap(t.pm4, w, x, ch) + tap(t.nm4, w, x, ch) + tap(t.pp4, w, x, ch) + tap(t.np4, w, x, ch);
    let diff = if !edge || spat {
        checked_diff(t, w, x, ch)
    } else {
        temporal_diff(t, w, x, ch)
    };
    let interpolated = if edge {
        (c + e) / 2
    } else if abs(c - e) > abs(p - n) {
        bwdif_high(p + n, t2, t4, c + e, c3)
    } else {
        (5077 * (c + e) - 981 * c3) / 8192
    };
    clamp(
        if temporal_diff(t, w, x, ch) == 0 {
            d
        } else {
            clamp(interpolated, d - diff, d + diff)
        },
        0,
        255,
    )
}

fn score_at(t: &TapRows, w: i32, x: i32, ch: usize, j: i32) -> (s: i32)
    requires
        t.wf(w as int),
        0 < w <= 4096,
        0 <= x < w,
        ch < 3,
        -2 <= j <= 2,
    ensures
        s == direction_score(t.model(), w as int, x as int, ch as int, j as int),
        0 <= s <= 765,
{
    proof {
        reveal(direction_score);
    }
    iabs(tap_at(t.cm1, w, x - 1 + j, ch) - tap_at(t.cp1, w, x - 1 - j, ch)) + iabs(
        tap_at(t.cm1, w, x + j, ch) - tap_at(t.cp1, w, x - j, ch),
    ) + iabs(tap_at(t.cm1, w, x + 1 + j, ch) - tap_at(t.cp1, w, x + 1 - j, ch))
}

fn diff_at(t: &TapRows, w: i32, x: i32, ch: usize) -> (r: i32)
    requires
        t.wf(w as int),
        0 < w <= 4096,
        0 <= x < w,
        ch < 3,
    ensures
        r == temporal_diff(t.model(), w as int, x as int, ch as int),
        0 <= r <= 255,
{
    let c: i32 = tap_at(t.cm1, w, x, ch);
    let e: i32 = tap_at(t.cp1, w, x, ch);
    let own: i32 = iabs(tap_at(t.p0, w, x, ch) - tap_at(t.n0, w, x, ch)) / 2;
    imax(own, (iabs(tap_at(t.vm1, w, x, ch) - c) + iabs(tap_at(t.vp1, w, x, ch) - e)) / 2)
}

fn checked_diff_at(t: &TapRows, w: i32, x: i32, ch: usize) -> (r: i32)
    requires
        t.wf(w as int),
        0 < w <= 4096,
        0 <= x < w,
        ch < 3,
    ensures
        r == checked_diff(t.model(), w as int, x as int, ch as int),
        0 <= r <= 255,
{
    let c: i32 = tap_at(t.cm1, w, x, ch);
    let e: i32 = tap_at(t.cp1, w, x, ch);
    let d: i32 = (tap_at(t.p0, w, x, ch) + tap_at(t.n0, w, x, ch)) / 2;
    let b: i32 = (tap_at(t.pm2, w, x, ch) + tap_at(t.nm2, w, x, ch)) / 2 - c;
    let f: i32 = (tap_at(t.pp2, w, x, ch) + tap_at(t.np2, w, x, ch)) / 2 - e;
    let hi: i32 = imax(imax(d - e, d - c), imin(b, f));
    let lo: i32 = imin(imin(d - e, d - c), imax(b, f));
    imax(imax(diff_at(t, w, x, ch), lo), -hi)
}

fn yadif_at(t: &TapRows, w: i32, x: i32, ch: usize) -> (r: u8)
    requires
        t.wf(w as int),
        0 < w <= 4096,
        0 <= x < w,
        ch < 3,
    ensures
        r == yadif_px(t.model(), w as int, x as int, ch as int),
{
    proof {
        reveal(yadif_px);
    }
    let d: i32 = (tap_at(t.p0, w, x, ch) + tap_at(t.n0, w, x, ch)) / 2;
    let diff: i32 = checked_diff_at(t, w, x, ch);
    // Vertical first, then the diagonals whose windows match better.
    let mut best: i32 = score_at(t, w, x, ch, 0) - 1;
    let mut j: i32 = 0;
    let s: i32 = score_at(t, w, x, ch, -1);
    if s < best {
        best = s;
        j = -1;
        let s2: i32 = score_at(t, w, x, ch, -2);
        if s2 < best {
            best = s2;
            j = -2;
        }
    }
    let s: i32 = score_at(t, w, x, ch, 1);
    if s < best {
        best = s;
        j = 1;
        let s2: i32 = score_at(t, w, x, ch, 2);
        if s2 < best {
            j = 2;
        }
    }
    let pred: i32 = (tap_at(t.cm1, w, x + j, ch) + tap_at(t.cp1, w, x - j, ch)) / 2;
    iclamp(iclamp(pred, d - diff, d + diff), 0, 255) as u8
}

fn bwdif_at(t: &TapRows, w: i32, h: i32, y: i32, x: i32, ch: usize) -> (r: u8)
    requires
        t.wf(w as int),
        0 < w <= 4096,
        0 <= x < w,
        ch < 3,
        0 <= y < h <= 1024,
    ensures
        r == bwdif_px(t.model(), w as int, h as int, y as int, x as int, ch as int),
{
    proof {
        reveal(bwdif_px);
    }
    let p: i32 = tap_at(t.p0, w, x, ch);
    let n: i32 = tap_at(t.n0, w, x, ch);
    let d: i32 = (p + n) / 2;
    let mut diff: i32 = diff_at(t, w, x, ch);
    if diff == 0 {
        return iclamp(d, 0, 255) as u8;
    }
    let edge = y < 4 || y + 5 > h;
    let spat = y >= 2 && y + 3 <= h;
    if !edge || spat {
        diff = checked_diff_at(t, w, x, ch);
    }
    let c: i32 = tap_at(t.cm1, w, x, ch);
    let e: i32 = tap_at(t.cp1, w, x, ch);
    let c3: i32 = tap_at(t.cm3, w, x, ch) + tap_at(t.cp3, w, x, ch);
    let interpolated: i32 = if edge {
        (c + e) / 2
    } else if iabs(c - e) > iabs(p - n) {
        let t2: i32 = tap_at(t.pm2, w, x, ch) + tap_at(t.nm2, w, x, ch) + tap_at(t.pp2, w, x, ch) + tap_at(t.np2, w, x, ch);
        let t4: i32 = tap_at(t.pm4, w, x, ch) + tap_at(t.nm4, w, x, ch) + tap_at(t.pp4, w, x, ch) + tap_at(t.np4, w, x, ch);
        bwdif_high_at(p + n, t2, t4, c + e, c3)
    } else {
        floor_div(5077 * (c + e) - 981 * c3, 8192)
    };
    iclamp(iclamp(interpolated, d - diff, d + diff), 0, 255) as u8
}

// --- bob and adaptive ---------------------------------------------------------

/// Row above `y` of `h`; the first row has one real neighbour only.
pub open spec fn above(y: int, h: int) -> int {
    if y == 0 {
        min(1, h - 1)
    } else {
        y - 1
    }
}

/// Row below `y` of `h`; the last row has one real neighbour only.
pub open spec fn below(y: int, h: int) -> int {
    if y == 0 {
        min(1, h - 1)
    } else if y == h - 1 {
        y - 1
    } else {
        y + 1
    }
}

/// Difference of the colours of two pixels.
#[verifier::opaque]
pub open spec fn colour_diff(ra: Seq<u8>, rb: Seq<u8>, w: int, xa: int, xb: int) -> int {
    abs(tap(ra, w, xa, 0) - tap(rb, w, xb, 0)) + abs(tap(ra, w, xa, 1) - tap(rb, w, xb, 1)) + abs(
        tap(ra, w, xa, 2) - tap(rb, w, xb, 2),
    )
}

/// How badly the three-pixel windows on the rows above and below disagree
/// along direction `j`; of equal ones the nearer to vertical scores lower.
#[verifier::opaque]
pub open spec fn edge_score(ra: Seq<u8>, rb: Seq<u8>, w: int, x: int, j: int) -> int {
    4 * (colour_diff(ra, rb, w, x + j - 1, x - j - 1) + colour_diff(ra, rb, w, x + j, x - j) + colour_diff(
        ra,
        rb,
        w,
        x + j + 1,
        x - j + 1,
    )) + abs(j)
}

/// The lowest-scoring direction of `-2..=n`, the first of equals.
pub open spec fn edge_direction(ra: Seq<u8>, rb: Seq<u8>, w: int, x: int, n: int) -> int
    decreases n + 2,
{
    if n <= -2 {
        -2
    } else {
        let best = edge_direction(ra, rb, w, x, n - 1);
        if edge_score(ra, rb, w, x, n) < edge_score(ra, rb, w, x, best) {
            n
        } else {
            best
        }
    }
}

/// Channel `ch` of pixel `x` rebuilt from the rows above (`ra`) and below
/// (`rb`) along the best direction, mixed with what the row holds by
/// `weight` of 255.
pub open spec fn rebuilt_px(ra: Seq<u8>, rb: Seq<u8>, cur: Seq<u8>, w: int, x: int, ch: int, weight: int) -> int {
    let j = edge_direction(ra, rb, w, x, 2);
    let interp = (tap(ra, w, x + j, ch) + tap(rb, w, x - j, ch) + 1) / 2;
    (tap(cur, w, x, ch) * (255 - weight) + interp * weight + 127) / 255
}

/// The same with the tuning aid: rebuilt pixels show their weight.
pub open spec fn tinted_px(rebuilt: int, ch: int, weight: int) -> int {
    if ch == 0 || ch == 2 {
        255
    } else if ch == 1 {
        255 - weight
    } else {
        rebuilt
    }
}

fn colour_diff_at(ra: &[u8], rb: &[u8], w: i32, xa: i32, xb: i32) -> (r: i32)
    requires
        0 < w <= 4096,
        ra@.len() == 4 * w,
        rb@.len() == 4 * w,
        -8 <= xa <= 4104,
        -8 <= xb <= 4104,
    ensures
        r == colour_diff(ra@, rb@, w as int, xa as int, xb as int),
        0 <= r <= 765,
{
    proof {
        reveal(colour_diff);
    }
    iabs(tap_at(ra, w, xa, 0) - tap_at(rb, w, xb, 0)) + iabs(tap_at(ra, w, xa, 1) - tap_at(rb, w, xb, 1)) + iabs(
        tap_at(ra, w, xa, 2) - tap_at(rb, w, xb, 2),
    )
}

fn edge_score_at(ra: &[u8], rb: &[u8], w: i32, x: i32, j: i32) -> (r: i32)
    requires
        0 < w <= 4096,
        ra@.len() == 4 * w,
        rb@.len() == 4 * w,
        0 <= x < w,
        -2 <= j <= 2,
    ensures
        r == edge_score(ra@, rb@, w as int, x as int, j as int),
{
    proof {
        reveal(edge_score);
    }
    4 * (colour_diff_at(ra, rb, w, x + j - 1, x - j - 1) + colour_diff_at(ra, rb, w, x + j, x - j) + colour_diff_at(
        ra,
        rb,
        w,
        x + j + 1,
        x - j + 1,
    )) + iabs(j)
}

fn edge_direction_at(ra: &[u8], rb: &[u8], w: i32, x: i32) -> (r: i32)
    requires
        0 < w <= 4096,
        ra@.len() == 4 * w,
        rb@.len() == 4 * w,
        0 <= x < w,
    ensures
        r == edge_direction(ra@, rb@, w as int, x as int, 2),
        -2 <= r <= 2,
{
    let mut best: i32 = -2;
    let mut low: i32 = edge_score_at(ra, rb, w, x, -2);
    for i in 0..4i32
        invariant
            0 < w <= 4096,
            ra@.len() == 4 * w,
            rb@.len() == 4 * w,
            0 <= x < w,
            best == edge_direction(ra@, rb@, w as int, x as int, i - 2),
            low == edge_score(ra@, rb@, w as int, x as int, best as int),
            -2 <= best <= 2,
    {
        let j: i32 = i - 1;
        let score: i32 = edge_score_at(ra, rb, w, x, j);
        if score < low {
            low = score;
            best = j;
        }
    }
    best
}

/// Motion weight of a change: nothing up to [`MOTION_LO`], full from
/// [`MOTION_HI`], a ramp between.
pub open spec fn motion_ramp(diff: int) -> int {
    min((max(diff - MOTION_LO, 0) * 255) / (MOTION_HI - MOTION_LO), 255)
}

/// The largest change of a colour channel of pixel `x`.
#[verifier::opaque]
pub open spec fn pixel_change(a: Seq<u8>, b: Seq<u8>, w: int, x: int) -> int {
    max(
        max(abs(tap(a, w, x, 0) - tap(b, w, x, 0)), abs(tap(a, w, x, 1) - tap(b, w, x, 1))),
        abs(tap(a, w, x, 2) - tap(b, w, x, 2)),
    )
}

/// The strongest motion within two pixels of `x`.
pub open spec fn spread_motion(a: Seq<u8>, b: Seq<u8>, w: int, x: int) -> int {
    let m = |i: int| motion_ramp(pixel_change(a, b, w, clamp(i, 0, w - 1)));
    max(max(max(m(x - 2), m(x - 1)), max(m(x), m(x + 1))), m(x + 2))
}

fn motion_at(a: &[u8], b: &[u8], w: i32, x: i32) -> (r: i32)
    requires
        0 < w <= 4096,
        a@.len() == 4 * w,
        b@.len() == 4 * w,
        -2 <= x <= 4098,
    ensures
        r == motion_ramp(pixel_change(a@, b@, w as int, clamp(x as int, 0, w - 1))),
        0 <= r <= 255,
{
    proof {
        reveal(pixel_change);
        reveal(tap);
    }
    let change: i32 = imax(
        imax(iabs(tap_at(a, w, x, 0) - tap_at(b, w, x, 0)), iabs(tap_at(a, w, x, 1) - tap_at(b, w, x, 1))),
        iabs(tap_at(a, w, x, 2) - tap_at(b, w, x, 2)),
    );
    imin(imax(change - 6, 0) * 255 / 34, 255)
}

// --- whole frames -------------------------------------------------------------

/// Whether physical row `y` belongs to the field of parity `field`.
pub open spec fn in_field(y: int, sc: int, field: bool) -> bool {
    ((y / sc) % 2 == 1) == field
}

/// The line of the field buffer that lands on row `y`: hardware line
/// `y / sc` is line `y / sc / 2` of its field.
pub open spec fn field_line(y: int, sc: int) -> int {
    sc * (y / sc / 2) + y % sc
}

/// The field in memory woven into a frame that held `old`.
pub open spec fn woven_after(old: Seq<u8>, mem: Seq<u8>, v: DisplayView, w: int, h: int, sc: int, field: bool) -> Seq<u8> {
    frame(w, h, |x: int, y: int, ch: int| woven_px(old, mem, v, w, sc, field, x, y, ch))
}

pub open spec fn woven_px(old: Seq<u8>, mem: Seq<u8>, v: DisplayView, w: int, sc: int, field: bool, x: int, y: int, ch: int) -> u8 {
    if in_field(y, sc, field) {
        line_px(mem, v, sc, x, field_line(y, sc), ch)
    } else {
        old[(y * w + x) * 4 + ch]
    }
}

/// The rows that the field replaces, kept as its parity's previous
/// instance.
pub open spec fn history_after(history: Seq<u8>, old: Seq<u8>, w: int, h: int, sc: int, field: bool) -> Seq<u8> {
    frame(w, h, |x: int, y: int, ch: int| history_px(history, old, w, sc, field, x, y, ch))
}

pub open spec fn history_px(history: Seq<u8>, old: Seq<u8>, w: int, sc: int, field: bool, x: int, y: int, ch: int) -> u8 {
    if in_field(y, sc, field) {
        old[(y * w + x) * 4 + ch]
    } else {
        history[(y * w + x) * 4 + ch]
    }
}

/// Motion weights after a field: the change against the same field two
/// vblanks ago, spread sideways, decaying by half over the field's later
/// updates.
pub open spec fn motion_after(motion: Seq<u8>, old: Seq<u8>, new: Seq<u8>, w: int, h: int, sc: int, field: bool) -> Seq<u8> {
    Seq::new(
        (w * h) as nat,
        |k: int|
            if in_field(k / w, sc, field) {
                max(spread_motion(row(old, w, k / w), row(new, w, k / w), w, k % w), (motion[k] / 2) as int) as u8
            } else {
                motion[k]
            },
    )
}

/// The motion weight that decides over pixel `x` of logical row `j` of slice
/// `k`: the strongest of the row and its neighbours.
pub open spec fn motion_weight(motion: Seq<u8>, w: int, h: int, sc: int, k: int, j: int, x: int) -> int {
    max(
        max(motion[(sc * above(j, h) + k) * w + x] as int, motion[(sc * below(j, h) + k) * w + x] as int),
        motion[(sc * j + k) * w + x] as int,
    )
}

/// A frame with the rows of the other field rebuilt from the new one:
/// everywhere (bob), or by the motion weights (adaptive).
pub open spec fn rebuilt(woven: Seq<u8>, motion: Option<Seq<u8>>, debug: bool, w: int, h1: int, sc: int, field: bool) -> Seq<u8> {
    frame(w, h1 * sc, |x: int, y: int, ch: int| shown_by_motion(woven, motion, debug, w, h1, sc, field, x, y, ch))
}

pub open spec fn shown_by_motion(woven: Seq<u8>, motion: Option<Seq<u8>>, debug: bool, w: int, h1: int, sc: int, field: bool, x: int, y: int, ch: int) -> u8 {
    let (j, k) = (y / sc, y % sc);
    let weight = match motion {
        None => 255,
        Some(m) => motion_weight(m, w, h1, sc, k, j, x),
    };
    if in_field(y, sc, field) || weight == 0 {
        woven[(y * w + x) * 4 + ch]
    } else {
        let ra = row(woven, w, sc * above(j, h1) + k);
        let rb = row(woven, w, sc * below(j, h1) + k);
        let v = rebuilt_px(ra, rb, row(woven, w, y), w, x, ch, weight);
        (if debug {
            tinted_px(v, ch, weight)
        } else {
            v
        }) as u8
    }
}

/// The woven rows filtered 1-2-1 inside their slice.
pub open spec fn blended(woven: Seq<u8>, w: int, h1: int, sc: int) -> Seq<u8> {
    frame(w, h1 * sc, |x: int, y: int, ch: int| blended_px(woven, w, h1, sc, x, y, ch))
}

pub open spec fn blended_px(woven: Seq<u8>, w: int, h1: int, sc: int, x: int, y: int, ch: int) -> u8 {
    let (j, k) = (y / sc, y % sc);
    let a = tap(row(woven, w, sc * max(j - 1, 0) + k), w, x, ch);
    let c = tap(row(woven, w, y), w, x, ch);
    let b = tap(row(woven, w, sc * min(j + 1, h1 - 1) + k), w, x, ch);
    ((a + 2 * c + b + 2) / 4) as u8
}

/// The previous field deinterlaced one vblank late: the rows that just
/// arrived are filled in by the filter, whose temporal neighbours are both
/// known.
pub open spec fn filtered(woven: Seq<u8>, before: Seq<u8>, shown_before: Seq<u8>, w: int, h1: int, sc: int, field: bool, yadif: bool) -> Seq<u8> {
    frame(w, h1 * sc, |x: int, y: int, ch: int| filtered_px(woven, before, shown_before, w, h1, sc, field, yadif, x, y, ch))
}

pub open spec fn filtered_px(woven: Seq<u8>, before: Seq<u8>, shown_before: Seq<u8>, w: int, h1: int, sc: int, field: bool, yadif: bool, x: int, y: int, ch: int) -> u8 {
    let (j, k) = (y / sc, y % sc);
    let t = taps(woven, before, shown_before, w, h1, sc, k, j);
    if !in_field(y, sc, field) {
        woven[(y * w + x) * 4 + ch]
    } else if ch == 3 {
        255
    } else if yadif {
        yadif_px(t, w, x, ch) as u8
    } else {
        bwdif_px(t, w, h1, j, x, ch) as u8
    }
}

/// A row's bytes are the frame's.
proof fn lemma_row_px(buf: Seq<u8>, w: int, h: int, x: int, y: int)
    requires
        buf.len() == w * h * 4,
        0 <= x < w,
        0 <= y < h,
    ensures
        row(buf, w, y).len() == 4 * w,
        forall|ch: int| 0 <= ch < 4 ==> #[trigger] row(buf, w, y)[4 * x + ch] == buf[(y * w + x) * 4 + ch],
{
    lemma_in_frame(w, h, x, y);
}

proof fn lemma_small(w: int, h: int)
    requires
        0 <= w <= 4096,
        0 <= h <= 4096,
    ensures
        0 <= w * h <= 0x100_0000,
        w * h == h * w,
{
    assert(0 <= w * h <= 4096 * 4096) by (nonlinear_arith)
        requires
            0 <= w <= 4096,
            0 <= h <= 4096,
    ;
    assert(w * h == h * w) by (nonlinear_arith);
}

proof fn lemma_next_row(w: int, y: int)
    ensures
        (y * w + w) * 4 == (y + 1) * w * 4,
{
    assert((y * w + w) * 4 == (y + 1) * w * 4) by (nonlinear_arith);
}

fn is_in_field(y: u32, sc: u32, field: bool) -> (r: bool)
    requires
        sc == 1 || sc == 2,
    ensures
        r == in_field(y as int, sc as int, field),
{
    (y / sc % 2 == 1) == field
}

/// The new field lands on its rows; the other rows keep the previous field.
pub fn weave(old: &[u8], canvas: &Canvas, v: &DisplayView, w: u32, h: u32, sc: u32, field: bool) -> (out: Vec<u8>)
    requires
        canvas.wf(),
        v.wf(),
        sc == 1 || sc == 2,
        0 < w <= 2048,
        h <= 2048,
        old@.len() == w * h * 4,
    ensures
        out@ == woven_after(old@, canvas@, *v, w as int, h as int, sc as int, field),
{
    let mut out: Vec<u8> = Vec::new();
    let ghost f = |x: int, y: int, ch: int| woven_px(old@, canvas@, *v, w as int, sc as int, field, x, y, ch);
    let ghost whole = frame(w as int, h as int, f);
    assert(0 * w == 0);
    assert(out@ =~= whole.subrange(0, 0));
    for y in 0..h
        invariant
            canvas.wf(),
            v.wf(),
            sc == 1 || sc == 2,
            0 < w <= 2048,
            h <= 2048,
            old@.len() == w * h * 4,
            f == (|x: int, y: int, ch: int| woven_px(old@, canvas@, *v, w as int, sc as int, field, x, y, ch)),
            whole == frame(w as int, h as int, f),
            out@ == whole.subrange(0, y * w * 4),
    {
        let fresh = is_in_field(y, sc, field);
        assert(sc * (y / sc / 2) <= 4096) by (nonlinear_arith)
            requires
                sc == 1 || sc == 2,
                0 <= y / sc / 2 <= 2048,
        ;
        let sy: u32 = sc * (y / sc / 2) + y % sc;
        let keep = row_at(old, w as usize, h as usize, y as usize);
        for x in 0..w
            invariant
                canvas.wf(),
                v.wf(),
                sc == 1 || sc == 2,
                0 < w <= 2048,
                0 <= y < h <= 2048,
                old@.len() == w * h * 4,
                fresh == in_field(y as int, sc as int, field),
                sy == field_line(y as int, sc as int),
                sy < 0x1000,
                keep@ == row(old@, w as int, y as int),
                keep@.len() == 4 * w,
                f == (|x: int, y: int, ch: int| woven_px(old@, canvas@, *v, w as int, sc as int, field, x, y, ch)),
                whole == frame(w as int, h as int, f),
                out@ == whole.subrange(0, (y * w + x) * 4),
        {
            proof {
                lemma_row_px(old@, w as int, h as int, x as int, y as int);
            }
            let o: usize = 4 * x as usize;
            let (r, g, b, a) = if fresh {
                scan_px(canvas, v, sc, x, sy)
            } else {
                (keep[o], keep[o + 1], keep[o + 2], keep[o + 3])
            };
            proof {
                assert(keep@[4 * x + 0] == old@[(y * w + x) * 4 + 0]);
                assert(keep@[4 * x + 1] == old@[(y * w + x) * 4 + 1]);
                assert(keep@[4 * x + 2] == old@[(y * w + x) * 4 + 2]);
                assert(keep@[4 * x + 3] == old@[(y * w + x) * 4 + 3]);
                lemma_frame_push(out@, w as int, h as int, f, x as int, y as int, r, g, b, a);
            }
            out.push(r);
            out.push(g);
            out.push(b);
            out.push(a);
        }
        proof {
            lemma_next_row(w as int, y as int);
        }
    }
    proof {
        lemma_small(w as int, h as int);
        assert(whole.subrange(0, h * w * 4) =~= whole);
    }
    out
}

/// The rows that a field of parity `field` replaces, kept in `history`.
pub fn keep_history(history: &[u8], old: &[u8], w: u32, h: u32, sc: u32, field: bool) -> (out: Vec<u8>)
    requires
        sc == 1 || sc == 2,
        0 < w <= 2048,
        h <= 2048,
        old@.len() == w * h * 4,
        history@.len() == w * h * 4,
    ensures
        out@ == history_after(history@, old@, w as int, h as int, sc as int, field),
{
    let mut out: Vec<u8> = Vec::new();
    let ghost f = |x: int, y: int, ch: int| history_px(history@, old@, w as int, sc as int, field, x, y, ch);
    let ghost whole = frame(w as int, h as int, f);
    assert(0 * w == 0);
    assert(out@ =~= whole.subrange(0, 0));
    for y in 0..h
        invariant
            sc == 1 || sc == 2,
            0 < w <= 2048,
            h <= 2048,
            old@.len() == w * h * 4,
            history@.len() == w * h * 4,
            f == (|x: int, y: int, ch: int| history_px(history@, old@, w as int, sc as int, field, x, y, ch)),
            whole == frame(w as int, h as int, f),
            out@ == whole.subrange(0, y * w * 4),
    {
        let replaced = is_in_field(y, sc, field);
        let keep = row_at(if replaced { old } else { history }, w as usize, h as usize, y as usize);
        for x in 0..w
            invariant
                sc == 1 || sc == 2,
                0 < w <= 2048,
                0 <= y < h <= 2048,
                old@.len() == w * h * 4,
                history@.len() == w * h * 4,
                replaced == in_field(y as int, sc as int, field),
                keep@ == row(
                    if replaced {
                        old@
                    } else {
                        history@
                    },
                    w as int,
                    y as int,
                ),
                keep@.len() == 4 * w,
                f == (|x: int, y: int, ch: int| history_px(history@, old@, w as int, sc as int, field, x, y, ch)),
                whole == frame(w as int, h as int, f),
                out@ == whole.subrange(0, (y * w + x) * 4),
        {
            let o: usize = 4 * x as usize;
            proof {
                let src = if replaced {
                    old@
                } else {
                    history@
                };
                lemma_row_px(src, w as int, h as int, x as int, y as int);
                assert(keep@[4 * x + 0] == src[(y * w + x) * 4 + 0]);
                assert(keep@[4 * x + 1] == src[(y * w + x) * 4 + 1]);
                assert(keep@[4 * x + 2] == src[(y * w + x) * 4 + 2]);
                assert(keep@[4 * x + 3] == src[(y * w + x) * 4 + 3]);
                lemma_frame_push(
                    out@,
                    w as int,
                    h as int,
                    f,
                    x as int,
                    y as int,
                    keep@[o as int],
                    keep@[o + 1],
                    keep@[o + 2],
                    keep@[o + 3],
                );
            }
            out.push(keep[o]);
            out.push(keep[o + 1]);
            out.push(keep[o + 2]);
            out.push(keep[o + 3]);
        }
        proof {
            lemma_next_row(w as int, y as int);
        }
    }
    proof {
        lemma_small(w as int, h as int);
        assert(whole.subrange(0, h * w * 4) =~= whole);
    }
    out
}

/// Motion weights after the field of parity `field` turned `old` into `new`.
pub fn track_motion(motion: &[u8], old: &[u8], new: &[u8], w: u32, h: u32, sc: u32, field: bool) -> (out: Vec<u8>)
    requires
        sc == 1 || sc == 2,
        0 < w <= 2048,
        h <= 2048,
        motion@.len() == w * h,
        old@.len() == w * h * 4,
        new@.len() == w * h * 4,
    ensures
        out@ == motion_after(motion@, old@, new@, w as int, h as int, sc as int, field),
{
    let mut out: Vec<u8> = Vec::new();
    let ghost whole = motion_after(motion@, old@, new@, w as int, h as int, sc as int, field);
    assert(0 * w == 0);
    assert(out@ =~= whole.subrange(0, 0));
    for y in 0..h
        invariant
            sc == 1 || sc == 2,
            0 < w <= 2048,
            h <= 2048,
            motion@.len() == w * h,
            old@.len() == w * h * 4,
            new@.len() == w * h * 4,
            whole == motion_after(motion@, old@, new@, w as int, h as int, sc as int, field),
            out@ == whole.subrange(0, y * w),
    {
        let fresh = is_in_field(y, sc, field);
        let a = row_at(old, w as usize, h as usize, y as usize);
        let b = row_at(new, w as usize, h as usize, y as usize);
        for x in 0..w
            invariant
                sc == 1 || sc == 2,
                0 < w <= 2048,
                0 <= y < h <= 2048,
                motion@.len() == w * h,
                fresh == in_field(y as int, sc as int, field),
                a@ == row(old@, w as int, y as int),
                b@ == row(new@, w as int, y as int),
                a@.len() == 4 * w,
                b@.len() == 4 * w,
                whole == motion_after(motion@, old@, new@, w as int, h as int, sc as int, field),
                out@ == whole.subrange(0, y * w + x),
        {
            proof {
                lemma_in_frame(w as int, h as int, x as int, y as int);
                lemma_small(w as int, h as int);
                vstd::arithmetic::div_mod::lemma_fundamental_div_mod_converse(y * w + x, w as int, y as int, x as int);
            }
            let at: usize = y as usize * w as usize + x as usize;
            let was: u8 = motion[at];
            let now: u8 = if fresh {
                let wi: i32 = w as i32;
                let xi: i32 = x as i32;
                let m1: i32 = imax(motion_at(a, b, wi, xi - 2), motion_at(a, b, wi, xi - 1));
                let m2: i32 = imax(motion_at(a, b, wi, xi), motion_at(a, b, wi, xi + 1));
                let spread: i32 = imax(imax(m1, m2), motion_at(a, b, wi, xi + 2));
                imax(spread, (was / 2) as i32) as u8
            } else {
                was
            };
            assert(now == whole[y * w + x]);
            out.push(now);
            assert(out@ =~= whole.subrange(0, y * w + x + 1));
        }
        assert(y * w + w == (y + 1) * w) by (nonlinear_arith);
    }
    proof {
        lemma_small(w as int, h as int);
        assert(whole.subrange(0, h * w) =~= whole);
    }
    out
}

/// Physical row of logical row `j` of slice `k`.
fn physical(sc: u32, j: u32, k: u32, h1: u32) -> (y: u32)
    requires
        sc == 1 || sc == 2,
        j < h1 <= 1024,
        k < sc,
    ensures
        y == sc * j + k,
        y < h1 * sc,
        h1 * sc <= 2048,
{
    if sc == 1 {
        j
    } else {
        2 * j + k
    }
}

/// The rows of the other field rebuilt from the new one: everywhere (bob),
/// or weighted by the motion of the row and its neighbours (adaptive).
pub fn rebuild(woven: &[u8], motion: Option<&[u8]>, debug: bool, w: u32, h1: u32, sc: u32, field: bool) -> (out: Vec<u8>)
    requires
        sc == 1 || sc == 2,
        0 < w <= 2048,
        2 <= h1 <= 1024,
        woven@.len() == w * (h1 * sc) * 4,
        motion matches Some(m) ==> m@.len() == w * (h1 * sc),
    ensures
        out@ == rebuilt(
            woven@,
            match motion {
                Some(m) => Some(m@),
                None => None,
            },
            debug,
            w as int,
            h1 as int,
            sc as int,
            field,
        ),
{
    let ghost mv: Option<Seq<u8>> = match motion {
        Some(m) => Some(m@),
        None => None,
    };
    let mut out: Vec<u8> = Vec::new();
    let ghost f = |x: int, y: int, ch: int|
        shown_by_motion(woven@, mv, debug, w as int, h1 as int, sc as int, field, x, y, ch);
    let h: u32 = physical(sc, h1 - 1, sc - 1, h1) + 1;
    assert(h == h1 * sc) by (nonlinear_arith)
        requires
            h == sc * (h1 - 1) + (sc - 1) + 1,
    ;
    let ghost whole = frame(w as int, h as int, f);
    assert(0 * w == 0);
    assert(out@ =~= whole.subrange(0, 0));
    for y in 0..h
        invariant
            sc == 1 || sc == 2,
            0 < w <= 2048,
            2 <= h1 <= 1024,
            h == h1 * sc,
            h <= 2048,
            woven@.len() == w * h * 4,
            motion matches Some(m) ==> m@.len() == w * h,
            mv == (match motion {
                Some(m) => Some(m@),
                None => None,
            }),
            f == (|x: int, y: int, ch: int|
                shown_by_motion(woven@, mv, debug, w as int, h1 as int, sc as int, field, x, y, ch)),
            whole == frame(w as int, h as int, f),
            out@ == whole.subrange(0, y * w * 4),
    {
        let fresh = is_in_field(y, sc, field);
        let j: u32 = y / sc;
        let k: u32 = y % sc;
        let up: u32 = if j == 0 { 1 } else { j - 1 };
        let down: u32 = if j == 0 {
            1
        } else if j == h1 - 1 {
            j - 1
        } else {
            j + 1
        };
        let ya: u32 = physical(sc, up, k, h1);
        let yb: u32 = physical(sc, down, k, h1);
        let ra = row_at(woven, w as usize, h as usize, ya as usize);
        let rb = row_at(woven, w as usize, h as usize, yb as usize);
        let cur = row_at(woven, w as usize, h as usize, y as usize);
        for x in 0..w
            invariant
                sc == 1 || sc == 2,
                0 < w <= 2048,
                2 <= h1 <= 1024,
                0 <= y < h <= 2048,
                h == h1 * sc,
                woven@.len() == w * h * 4,
                motion matches Some(m) ==> m@.len() == w * h,
                mv == (match motion {
                    Some(m) => Some(m@),
                    None => None,
                }),
                fresh == in_field(y as int, sc as int, field),
                j == y as int / sc as int,
                k == y as int % sc as int,
                sc * j + k == y,
                ya == sc * above(j as int, h1 as int) + k,
                yb == sc * below(j as int, h1 as int) + k,
                ya < h,
                yb < h,
                ra@ == row(woven@, w as int, ya as int),
                rb@ == row(woven@, w as int, yb as int),
                cur@ == row(woven@, w as int, y as int),
                ra@.len() == 4 * w,
                rb@.len() == 4 * w,
                cur@.len() == 4 * w,
                f == (|x: int, y: int, ch: int|
                    shown_by_motion(woven@, mv, debug, w as int, h1 as int, sc as int, field, x, y, ch)),
                whole == frame(w as int, h as int, f),
                out@ == whole.subrange(0, (y * w + x) * 4),
        {
            let o: usize = 4 * x as usize;
            let wi: i32 = w as i32;
            let xi: i32 = x as i32;
            proof {
                lemma_in_frame(w as int, h as int, x as int, y as int);
                lemma_in_frame(w as int, h as int, x as int, ya as int);
                lemma_in_frame(w as int, h as int, x as int, yb as int);
                lemma_small(w as int, h as int);
                lemma_row_px(woven@, w as int, h as int, x as int, y as int);
                assert(cur@[4 * x + 0] == woven@[(y * w + x) * 4 + 0]);
                assert(cur@[4 * x + 1] == woven@[(y * w + x) * 4 + 1]);
                assert(cur@[4 * x + 2] == woven@[(y * w + x) * 4 + 2]);
                assert(cur@[4 * x + 3] == woven@[(y * w + x) * 4 + 3]);
            }
            let weight: u8 = match motion {
                None => 255,
                Some(m) => {
                    let ma: u8 = m[ya as usize * w as usize + x as usize];
                    let mb: u8 = m[yb as usize * w as usize + x as usize];
                    let mc: u8 = m[y as usize * w as usize + x as usize];
                    let mab: u8 = if ma > mb { ma } else { mb };
                    if mab > mc {
                        mab
                    } else {
                        mc
                    }
                },
            };
            let (r, g, b, a) = if fresh || weight == 0 {
                (cur[o], cur[o + 1], cur[o + 2], cur[o + 3])
            } else {
                let dir: i32 = edge_direction_at(ra, rb, wi, xi);
                let r: u8 = mixed_at(ra, rb, cur, wi, xi, 0, dir, weight);
                let g: u8 = mixed_at(ra, rb, cur, wi, xi, 1, dir, weight);
                let b: u8 = mixed_at(ra, rb, cur, wi, xi, 2, dir, weight);
                let a: u8 = mixed_at(ra, rb, cur, wi, xi, 3, dir, weight);
                if debug {
                    (255, 255 - weight, 255, a)
                } else {
                    (r, g, b, a)
                }
            };
            proof {
                lemma_frame_push(out@, w as int, h as int, f, x as int, y as int, r, g, b, a);
            }
            out.push(r);
            out.push(g);
            out.push(b);
            out.push(a);
        }
        proof {
            lemma_next_row(w as int, y as int);
        }
    }
    proof {
        lemma_small(w as int, h as int);
        assert(whole.subrange(0, h * w * 4) =~= whole);
    }
    out
}

fn mixed_at(ra: &[u8], rb: &[u8], cur: &[u8], w: i32, x: i32, ch: usize, dir: i32, weight: u8) -> (r: u8)
    requires
        0 < w <= 4096,
        ra@.len() == 4 * w,
        rb@.len() == 4 * w,
        cur@.len() == 4 * w,
        0 <= x < w,
        ch < 4,
        -2 <= dir <= 2,
        dir == edge_direction(ra@, rb@, w as int, x as int, 2),
    ensures
        r == rebuilt_px(ra@, rb@, cur@, w as int, x as int, ch as int, weight as int),
{
    let interp: i32 = (tap_at(ra, w, x + dir, ch) + tap_at(rb, w, x - dir, ch) + 1) / 2;
    let keep: i32 = tap_at(cur, w, x, ch);
    let m: i32 = weight as i32;
    proof {
        assert(0 <= keep * (255 - m) + interp * m <= 255 * 255) by (nonlinear_arith)
            requires
                0 <= keep <= 255,
                0 <= interp <= 255,
                0 <= m <= 255,
        ;
        assert(0 <= keep * (255 - m) && 0 <= interp * m) by (nonlinear_arith)
            requires
                0 <= keep <= 255,
                0 <= interp <= 255,
                0 <= m <= 255,
        ;
    }
    ((keep * (255 - m) + interp * m + 127) / 255) as u8
}

/// The woven rows filtered 1-2-1.
pub fn blend(woven: &[u8], w: u32, h1: u32, sc: u32) -> (out: Vec<u8>)
    requires
        sc == 1 || sc == 2,
        0 < w <= 2048,
        2 <= h1 <= 1024,
        woven@.len() == w * (h1 * sc) * 4,
    ensures
        out@ == blended(woven@, w as int, h1 as int, sc as int),
{
    let mut out: Vec<u8> = Vec::new();
    let ghost f = |x: int, y: int, ch: int| blended_px(woven@, w as int, h1 as int, sc as int, x, y, ch);
    let h: u32 = physical(sc, h1 - 1, sc - 1, h1) + 1;
    assert(h == h1 * sc) by (nonlinear_arith)
        requires
            h == sc * (h1 - 1) + (sc - 1) + 1,
    ;
    let ghost whole = frame(w as int, h as int, f);
    assert(0 * w == 0);
    assert(out@ =~= whole.subrange(0, 0));
    for y in 0..h
        invariant
            sc == 1 || sc == 2,
            0 < w <= 2048,
            2 <= h1 <= 1024,
            h == h1 * sc,
            h <= 2048,
            woven@.len() == w * h * 4,
            f == (|x: int, y: int, ch: int| blended_px(woven@, w as int, h1 as int, sc as int, x, y, ch)),
            whole == frame(w as int, h as int, f),
            out@ == whole.subrange(0, y * w * 4),
    {
        let j: u32 = y / sc;
        let k: u32 = y % sc;
        let ya: u32 = physical(sc, if j == 0 { 0 } else { j - 1 }, k, h1);
        let yb: u32 = physical(sc, if j + 1 < h1 { j + 1 } else { h1 - 1 }, k, h1);
        let ra = row_at(woven, w as usize, h as usize, ya as usize);
        let rb = row_at(woven, w as usize, h as usize, yb as usize);
        let cur = row_at(woven, w as usize, h as usize, y as usize);
        for x in 0..w
            invariant
                sc == 1 || sc == 2,
                0 < w <= 2048,
                2 <= h1 <= 1024,
                0 <= y < h <= 2048,
                h == h1 * sc,
                j == y as int / sc as int,
                k == y as int % sc as int,
                ya == sc * max(j - 1, 0) + k,
                yb == sc * min(j + 1, h1 - 1) + k,
                ra@ == row(woven@, w as int, ya as int),
                rb@ == row(woven@, w as int, yb as int),
                cur@ == row(woven@, w as int, y as int),
                ra@.len() == 4 * w,
                rb@.len() == 4 * w,
                cur@.len() == 4 * w,
                f == (|x: int, y: int, ch: int| blended_px(woven@, w as int, h1 as int, sc as int, x, y, ch)),
                whole == frame(w as int, h as int, f),
                out@ == whole.subrange(0, (y * w + x) * 4),
        {
            let r: u8 = blend_at(ra, cur, rb, w as i32, x as i32, 0);
            let g: u8 = blend_at(ra, cur, rb, w as i32, x as i32, 1);
            let b: u8 = blend_at(ra, cur, rb, w as i32, x as i32, 2);
            let a: u8 = blend_at(ra, cur, rb, w as i32, x as i32, 3);
            proof {
                lemma_frame_push(out@, w as int, h as int, f, x as int, y as int, r, g, b, a);
            }
            out.push(r);
            out.push(g);
            out.push(b);
            out.push(a);
        }
        proof {
            lemma_next_row(w as int, y as int);
        }
    }
    proof {
        lemma_small(w as int, h as int);
        assert(whole.subrange(0, h * w * 4) =~= whole);
    }
    out
}

fn blend_at(ra: &[u8], cur: &[u8], rb: &[u8], w: i32, x: i32, ch: usize) -> (r: u8)
    requires
        0 < w <= 4096,
        ra@.len() == 4 * w,
        rb@.len() == 4 * w,
        cur@.len() == 4 * w,
        0 <= x < w,
        ch < 4,
    ensures
        r == (tap(ra@, w as int, x as int, ch as int) + 2 * tap(cur@, w as int, x as int, ch as int) + tap(
            rb@,
            w as int,
            x as int,
            ch as int,
        ) + 2) / 4,
{
    ((tap_at(ra, w, x, ch) + 2 * tap_at(cur, w, x, ch) + tap_at(rb, w, x, ch) + 2) / 4) as u8
}

/// The rows of parity `field` filled in by yadif or bwdif from the other
/// field and their temporal neighbours.
pub fn filter(woven: &[u8], before: &[u8], shown_before: &[u8], w: u32, h1: u32, sc: u32, field: bool, yadif: bool) -> (out: Vec<u8>)
    requires
        sc == 1 || sc == 2,
        0 < w <= 2048,
        2 <= h1 <= 1024,
        woven@.len() == w * (h1 * sc) * 4,
        before@.len() == w * (h1 * sc) * 4,
        shown_before@.len() == w * (h1 * sc) * 4,
    ensures
        out@ == filtered(woven@, before@, shown_before@, w as int, h1 as int, sc as int, field, yadif),
{
    let mut out: Vec<u8> = Vec::new();
    let ghost f = |x: int, y: int, ch: int|
        filtered_px(woven@, before@, shown_before@, w as int, h1 as int, sc as int, field, yadif, x, y, ch);
    let h: u32 = physical(sc, h1 - 1, sc - 1, h1) + 1;
    assert(h == h1 * sc) by (nonlinear_arith)
        requires
            h == sc * (h1 - 1) + (sc - 1) + 1,
    ;
    let ghost whole = frame(w as int, h as int, f);
    assert(0 * w == 0);
    assert(out@ =~= whole.subrange(0, 0));
    for y in 0..h
        invariant
            sc == 1 || sc == 2,
            0 < w <= 2048,
            2 <= h1 <= 1024,
            h == h1 * sc,
            h <= 2048,
            woven@.len() == w * h * 4,
            before@.len() == w * h * 4,
            shown_before@.len() == w * h * 4,
            f == (|x: int, y: int, ch: int|
                filtered_px(woven@, before@, shown_before@, w as int, h1 as int, sc as int, field, yadif, x, y, ch)),
            whole == frame(w as int, h as int, f),
            out@ == whole.subrange(0, y * w * 4),
    {
        let missing = is_in_field(y, sc, field);
        let j: u32 = y / sc;
        let k: u32 = y % sc;
        assert(j < h1) by (nonlinear_arith)
            requires
                y < h1 * sc,
                sc == 1 || sc == 2,
                j == y / sc,
        ;
        let t = tap_rows(woven, before, shown_before, w as usize, h1 as i32, sc as i32, k as i32, j as i32);
        let cur = row_at(woven, w as usize, h as usize, y as usize);
        for x in 0..w
            invariant
                sc == 1 || sc == 2,
                0 < w <= 2048,
                2 <= h1 <= 1024,
                0 <= y < h <= 2048,
                woven@.len() == w * h * 4,
                missing == in_field(y as int, sc as int, field),
                j == y as int / sc as int,
                k == y as int % sc as int,
                j < h1,
                t.wf(w as int),
                t.model() == taps(woven@, before@, shown_before@, w as int, h1 as int, sc as int, k as int, j as int),
                cur@ == row(woven@, w as int, y as int),
                cur@.len() == 4 * w,
                f == (|x: int, y: int, ch: int|
                    filtered_px(woven@, before@, shown_before@, w as int, h1 as int, sc as int, field, yadif, x, y, ch)),
                whole == frame(w as int, h as int, f),
                out@ == whole.subrange(0, (y * w + x) * 4),
        {
            let o: usize = 4 * x as usize;
            let wi: i32 = w as i32;
            let xi: i32 = x as i32;
            proof {
                lemma_row_px(woven@, w as int, h as int, x as int, y as int);
                assert(cur@[4 * x + 0] == woven@[(y * w + x) * 4 + 0]);
                assert(cur@[4 * x + 1] == woven@[(y * w + x) * 4 + 1]);
                assert(cur@[4 * x + 2] == woven@[(y * w + x) * 4 + 2]);
                assert(cur@[4 * x + 3] == woven@[(y * w + x) * 4 + 3]);
            }
            let (r, g, b, a) = if !missing {
                (cur[o], cur[o + 1], cur[o + 2], cur[o + 3])
            } else if yadif {
                (yadif_at(&t, wi, xi, 0), yadif_at(&t, wi, xi, 1), yadif_at(&t, wi, xi, 2), 255u8)
            } else {
                (
                    bwdif_at(&t, wi, h1 as i32, j as i32, xi, 0),
                    bwdif_at(&t, wi, h1 as i32, j as i32, xi, 1),
                    bwdif_at(&t, wi, h1 as i32, j as i32, xi, 2),
                    255u8,
                )
            };
            proof {
                lemma_frame_push(out@, w as int, h as int, f, x as int, y as int, r, g, b, a);
            }
            out.push(r);
            out.push(g);
            out.push(b);
            out.push(a);
        }
        proof {
            lemma_next_row(w as int, y as int);
        }
    }
    proof {
        lemma_small(w as int, h as int);
        assert(whole.subrange(0, h * w * 4) =~= whole);
    }
    out
}

// --- what the modes promise -----------------------------------------------------

/// Weaving puts the new field on its rows and keeps the other field on the
/// others.
pub proof fn law_weave_keeps_the_other_field(old: Seq<u8>, mem: Seq<u8>, v: DisplayView, w: int, h: int, sc: int, field: bool, x: int, y: int, ch: int)
    requires
        0 <= x < w,
        0 <= y < h,
        0 <= ch < 4,
    ensures
        woven_after(old, mem, v, w, h, sc, field)[(y * w + x) * 4 + ch] == (if in_field(y, sc, field) {
            line_px(mem, v, sc, x, field_line(y, sc), ch)
        } else {
            old[(y * w + x) * 4 + ch]
        }),
{
    lemma_frame_at(w, h, |x: int, y: int, ch: int| woven_px(old, mem, v, w, sc, field, x, y, ch), x, y, ch);
}

/// Two fields in a row make the whole frame, whatever was shown before.
pub proof fn law_two_fields_make_a_frame(old: Seq<u8>, mem1: Seq<u8>, mem2: Seq<u8>, v1: DisplayView, v2: DisplayView, w: int, h: int, sc: int, field: bool, x: int, y: int, ch: int)
    requires
        0 <= x < w,
        0 <= y < h,
        0 <= ch < 4,
    ensures
        woven_after(woven_after(old, mem1, v1, w, h, sc, field), mem2, v2, w, h, sc, !field)[(y * w + x) * 4 + ch] == (
        if in_field(y, sc, field) {
            line_px(mem1, v1, sc, x, field_line(y, sc), ch)
        } else {
            line_px(mem2, v2, sc, x, field_line(y, sc), ch)
        }),
{
    law_weave_keeps_the_other_field(old, mem1, v1, w, h, sc, field, x, y, ch);
    law_weave_keeps_the_other_field(woven_after(old, mem1, v1, w, h, sc, field), mem2, v2, w, h, sc, !field, x, y, ch);
}

/// Where no motion weight is left, adaptive shows the weave.
pub proof fn law_adaptive_without_motion_is_the_weave(woven: Seq<u8>, motion: Seq<u8>, debug: bool, w: int, h1: int, sc: int, field: bool)
    requires
        0 < w,
        2 <= h1,
        sc == 1 || sc == 2,
        woven.len() == w * (h1 * sc) * 4,
        motion.len() == w * (h1 * sc),
        forall|i: int| 0 <= i < motion.len() ==> motion[i] == 0,
    ensures
        rebuilt(woven, Some(motion), debug, w, h1, sc, field) == woven,
{
    let h = h1 * sc;
    let out = rebuilt(woven, Some(motion), debug, w, h1, sc, field);
    assert forall|i: int| 0 <= i < woven.len() implies out[i] == woven[i] by {
        let (x, y, ch) = ((i / 4) % w, (i / 4) / w, i % 4);
        vstd::arithmetic::div_mod::lemma_fundamental_div_mod(i / 4, w);
        vstd::arithmetic::div_mod::lemma_mod_bound(i / 4, w);
        assert(w * y == y * w) by (nonlinear_arith);
        assert(0 <= y < h) by (nonlinear_arith)
            requires
                w * y + x == i / 4,
                0 <= x < w,
                0 <= i / 4 < w * h,
        ;
        let (j, k) = (y / sc, y % sc);
        assert(0 <= j < h1 && 0 <= k < sc && sc * j + k == y);
        assert(0 <= sc * above(j, h1) + k < h && 0 <= sc * below(j, h1) + k < h);
        lemma_in_frame(w, h, x, y);
        lemma_in_frame(w, h, x, sc * above(j, h1) + k);
        lemma_in_frame(w, h, x, sc * below(j, h1) + k);
        assert(motion_weight(motion, w, h1, sc, k, j, x) == 0);
    }
    assert(out =~= woven);
}

/// A field that brings no change halves the motion weights of its rows, so
/// what stopped moving settles back to the weave.
pub proof fn law_motion_dies_out(motion: Seq<u8>, old: Seq<u8>, w: int, h: int, sc: int, field: bool, x: int, y: int)
    requires
        0 <= x < w,
        0 <= y < h,
        old.len() == w * h * 4,
        motion.len() == w * h,
    ensures
        motion_after(motion, old, old, w, h, sc, field)[y * w + x] == (if in_field(y, sc, field) {
            motion[y * w + x] / 2
        } else {
            motion[y * w + x]
        }),
{
    lemma_in_frame(w, h, x, y);
    vstd::arithmetic::div_mod::lemma_fundamental_div_mod_converse(y * w + x, w, y, x);
    reveal(pixel_change);
}

/// A still picture comes out of bwdif as the exact weave, with opaque
/// alpha on the rows that it fills in.
pub proof fn law_bwdif_keeps_a_still_picture(woven: Seq<u8>, w: int, h1: int, sc: int, field: bool, x: int, y: int, ch: int)
    requires
        0 <= x < w,
        2 <= h1,
        sc == 1 || sc == 2,
        0 <= y < h1 * sc,
        0 <= ch < 4,
        woven.len() == w * (h1 * sc) * 4,
    ensures
        filtered(woven, woven, woven, w, h1, sc, field, false)[(y * w + x) * 4 + ch] == (if in_field(y, sc, field) && ch
            == 3 {
            255
        } else {
            woven[(y * w + x) * 4 + ch]
        }),
{
    lemma_frame_at(
        w,
        h1 * sc,
        |x: int, y: int, ch: int| filtered_px(woven, woven, woven, w, h1, sc, field, false, x, y, ch),
        x,
        y,
        ch,
    );
    let (j, k) = (y / sc, y % sc);
    if sc == 1 {
        assert(h1 * sc == h1);
        assert(j == y && k == 0);
    } else {
        assert(h1 * sc == 2 * h1);
        assert(j == y / 2 && k == y % 2);
    }
    assert(0 <= j < h1 && sc * j + k == y);
    reveal(bwdif_px);
    reveal(taps);
    reveal(tap);
    lemma_row_px(woven, w, h1 * sc, x, y);
    assert(row(woven, w, y)[4 * x + ch] == woven[(y * w + x) * 4 + ch]);
    let t = taps(woven, woven, woven, w, h1, sc, k, j);
    assert(temporal_diff(t, w, x, ch) == 0);
}

} // verus!
