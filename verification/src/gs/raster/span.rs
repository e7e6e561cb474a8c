//! Which pixels a primitive covers.

use vstd::prelude::*;
use crate::gs::regs::Vertex;
use super::pipe::PixelPipe;

verus! {

/// Vertex coordinates, doubled ones included, stay in this range.
pub open spec fn in_range(v: Vertex) -> bool {
    -0x2_0000 <= v.x <= 0x2_0000 && -0x2_0000 <= v.y <= 0x2_0000
}

pub open spec fn lower(a: int, b: int) -> int {
    if a < b {
        a
    } else {
        b
    }
}

pub open spec fn higher(a: int, b: int) -> int {
    if a > b {
        a
    } else {
        b
    }
}

fn imin(a: i32, b: i32) -> (r: i32)
    ensures
        r == lower(a as int, b as int),
{
    if a < b {
        a
    } else {
        b
    }
}

fn imax(a: i32, b: i32) -> (r: i32)
    ensures
        r == higher(a as int, b as int),
{
    if a > b {
        a
    } else {
        b
    }
}

/// Whole pixels in a 12.4 coordinate, rounded down.
fn whole(v: i32) -> (r: i32)
    requires
        -0x4_0000 <= v <= 0x4_0000,
    ensures
        r == v as int / 16,
{
    (v + 0x10_0000) / 16 - 0x1_0000
}

/// The clamp of a pixel coordinate to the drawing area.
pub fn px_clip(v: i32) -> (r: i32)
    ensures
        r == (if v < 0 {
            0
        } else if v > 4096 {
            4096
        } else {
            v as int
        }),
{
    if v < 0 {
        0
    } else if v > 4096 {
        4096
    } else {
        v
    }
}

// --- rows ---------------------------------------------------------------------

/// Rows a task handles: `py` in `start..end` with `(py / 2) % lanes == lane`:
/// two-row bands so a 32-bit column pair never straddles tasks.
#[derive(Clone, Copy)]
pub struct Rows {
    pub start: i32,
    pub end: i32,
    pub lane: usize,
    pub lanes: usize,
}

impl Rows {
    pub open spec fn wf(self) -> bool {
        0 <= self.start && self.lanes > 0
    }

    /// Whether the task handles row `py`.
    pub open spec fn takes(self, py: int) -> bool {
        self.start <= py < self.end && (py / 2) % self.lanes as int == self.lane as int
    }

    pub fn all(start: i32, end: i32) -> (r: Self)
        ensures
            r.start == start,
            r.end == end,
            r.lanes == 1,
            r.lane == 0,
            forall|py: int| r.takes(py) == (start <= py < end),
    {
        Rows { start, end, lane: 0, lanes: 1 }
    }

    /// The rows, in order.
    pub fn iter(&self) -> (rows: Vec<i32>)
        requires
            self.wf(),
        ensures
            forall|i: int| 0 <= i < rows@.len() ==> self.takes(#[trigger] rows@[i] as int),
            forall|i: int, j: int| 0 <= i < j < rows@.len() ==> rows@[i] < rows@[j],
            forall|py: i32| self.takes(py as int) ==> rows@.contains(py),
    {
        let mut rows: Vec<i32> = Vec::new();
        let mut py: i32 = self.start;
        while py < self.end
            invariant
                self.wf(),
                self.start <= py,
                py <= self.end || py == self.start,
                forall|i: int| 0 <= i < rows@.len() ==> self.takes(#[trigger] rows@[i] as int) && rows@[i] < py,
                forall|i: int, j: int| 0 <= i < j < rows@.len() ==> rows@[i] < rows@[j],
                forall|q: i32| q < py && self.takes(q as int) ==> rows@.contains(q),
            decreases self.end - py,
        {
            let ghost before = rows@;
            if (py / 2) as usize % self.lanes == self.lane {
                rows.push(py);
                assert(rows@[before.len() as int] == py);
            }
            proof {
                assert forall|q: i32| q < py + 1 && self.takes(q as int) implies rows@.contains(q) by {
                    if q < py {
                        let i = choose|i: int| 0 <= i < before.len() && before[i] == q;
                        assert(rows@[i] == q);
                    }
                }
            }
            py = py + 1;
        }
        rows
    }
}

/// The lanes of a flush share the rows out: every row belongs to exactly
/// one lane, and both rows of a pair to the same.
pub proof fn law_lanes_partition_rows(start: i32, end: i32, lanes: usize, py: int)
    requires
        0 <= start <= py < end,
        lanes > 0,
    ensures
        exists|lane: usize| lane < lanes && (Rows { start, end, lane, lanes }).takes(py),
        forall|a: usize, b: usize|
            (Rows { start, end, lane: a, lanes }).takes(py) && (Rows { start, end, lane: b, lanes }).takes(py) ==> a == b,
        forall|lane: usize|
            py % 2 == 0 && py + 1 < end ==> (Rows { start, end, lane, lanes }).takes(py) == (Rows {
                start,
                end,
                lane,
                lanes,
            }).takes(py + 1),
{
    let lane = ((py / 2) % lanes as int) as usize;
    vstd::arithmetic::div_mod::lemma_mod_bound(py / 2, lanes as int);
    assert((Rows { start, end, lane, lanes }).takes(py));
}

// --- sprites --------------------------------------------------------------------

/// The pixels of a sprite: columns `pxa..pxb` of rows `rya..ryb`.
#[derive(Clone, Copy)]
pub struct SpriteBox {
    pub pxa: i32,
    pub pxb: i32,
    pub rya: i32,
    pub ryb: i32,
}

/// Columns (or rows) of a sprite edge `c0..c1` inside the scissor range.
fn sprite_range(c0: i32, c1: i32, sc0: i32, sc1: i32) -> (r: (i32, i32))
    requires
        -0x2_0000 <= c0 <= 0x2_0000,
        -0x2_0000 <= c1 <= 0x2_0000,
        0 <= sc0 < 0x1000,
        0 <= sc1 < 0x1000,
    ensures
        forall|px: int|
            (#[trigger] in_span(px, r.0 as int, r.1 as int)) <==> lower(c0 as int, c1 as int) <= 16 * px < higher(
                c0 as int,
                c1 as int,
            ) && sc0 <= px <= sc1,
        0 <= r.0,
        r.1 <= 4096,
        -0x8000 <= r.0 <= 0x8000,
        -0x8000 <= r.1 <= 0x8000,
{
    let lo: i32 = imin(c0, c1);
    let hi: i32 = imax(c0, c1);
    // Pixel corners in 12.4: [lo, hi) rounding up.
    let a: i32 = imax(whole(lo + 15), sc0);
    let b: i32 = imin(px_clip(whole(hi + 15)), sc1 + 1);
    (a, b)
}

pub open spec fn in_span(v: int, a: int, b: int) -> bool {
    a <= v < b
}

/// A sprite covers the pixels whose corner lies between its vertices, the
/// right and bottom edge left out, inside the scissor box.
pub fn sprite_box(p: &PixelPipe, v0: &Vertex, v1: &Vertex) -> (r: SpriteBox)
    requires
        p.wf(),
        in_range(*v0),
        in_range(*v1),
    ensures
        forall|px: int|
            (#[trigger] in_span(px, r.pxa as int, r.pxb as int)) <==> lower(v0.x as int, v1.x as int) <= 16 * px < higher(
                v0.x as int,
                v1.x as int,
            ) && p.scx0 <= px <= p.scx1,
        forall|py: int|
            (#[trigger] in_span(py, r.rya as int, r.ryb as int)) <==> lower(v0.y as int, v1.y as int) <= 16 * py < higher(
                v0.y as int,
                v1.y as int,
            ) && p.scy0 <= py <= p.scy1,
        0 <= r.pxa <= 0x8000,
        0 <= r.rya <= 0x8000,
        -0x8000 <= r.pxb <= 4096,
        -0x8000 <= r.ryb <= 4096,
{
    let (pxa, pxb) = sprite_range(v0.x, v1.x, p.scx0, p.scx1);
    let (rya, ryb) = sprite_range(v0.y, v1.y, p.scy0, p.scy1);
    SpriteBox { pxa, pxb, rya, ryb }
}

/// Pixels that a sprite's box holds.
pub fn sprite_pixels(b: &SpriteBox) -> (n: i64)
    requires
        0 <= b.pxa <= 0x8000,
        0 <= b.rya <= 0x8000,
        -0x8000 <= b.pxb <= 4096,
        -0x8000 <= b.ryb <= 4096,
    ensures
        n == higher(b.ryb - b.rya, 0) * higher(b.pxb - b.pxa, 0),
        0 <= n <= 0x100_0000,
{
    let h: i32 = imax(b.ryb - b.rya, 0);
    let w: i32 = imax(b.pxb - b.pxa, 0);
    assert(0 <= h * w <= 4096 * 4096) by (nonlinear_arith)
        requires
            0 <= h <= 4096,
            0 <= w <= 4096,
    ;
    h as i64 * w as i64
}

// --- triangles ------------------------------------------------------------------

/// Twice the signed area of the triangle `(x0, y0) (x1, y1) (x, y)`.
pub open spec fn area(x0: int, y0: int, x1: int, y1: int, x: int, y: int) -> int {
    (x1 - x0) * (y - y0) - (y1 - y0) * (x - x0)
}

pub fn edge(x0: i32, y0: i32, x1: i32, y1: i32, x: i32, y: i32) -> (w: i64)
    requires
        -0x2_0000 <= x0 <= 0x2_0000,
        -0x2_0000 <= y0 <= 0x2_0000,
        -0x2_0000 <= x1 <= 0x2_0000,
        -0x2_0000 <= y1 <= 0x2_0000,
        -0x2_0000 <= x <= 0x2_0000,
        -0x2_0000 <= y <= 0x2_0000,
    ensures
        w == area(x0 as int, y0 as int, x1 as int, y1 as int, x as int, y as int),
        -0x40_0000_0000 <= w <= 0x40_0000_0000,
{
    let a: i64 = (x1 - x0) as i64;
    let b: i64 = (y - y0) as i64;
    let c: i64 = (y1 - y0) as i64;
    let d: i64 = (x - x0) as i64;
    assert(-0x10_0000_0000 <= a * b <= 0x10_0000_0000 && -0x10_0000_0000 <= c * d <= 0x10_0000_0000) by (nonlinear_arith)
        requires
            -0x4_0000 <= a <= 0x4_0000,
            -0x4_0000 <= b <= 0x4_0000,
            -0x4_0000 <= c <= 0x4_0000,
            -0x4_0000 <= d <= 0x4_0000,
    ;
    a * b - c * d
}

/// The vertices wound so that the area is positive; `None` for a triangle
/// without area.
pub open spec fn wound(v0: Vertex, v1: Vertex, v2: Vertex) -> Option<(Vertex, Vertex, Vertex)> {
    let s = area(v0.x as int, v0.y as int, v1.x as int, v1.y as int, v2.x as int, v2.y as int);
    if s == 0 {
        None
    } else if s < 0 {
        Some((v0, v2, v1))
    } else {
        Some((v0, v1, v2))
    }
}

pub fn wind(v0: Vertex, v1: Vertex, v2: Vertex) -> (r: Option<(Vertex, Vertex, Vertex)>)
    requires
        in_range(v0),
        in_range(v1),
        in_range(v2),
    ensures
        r == wound(v0, v1, v2),
{
    let s: i64 = edge(v0.x, v0.y, v1.x, v1.y, v2.x, v2.y);
    if s == 0 {
        None
    } else if s < 0 {
        Some((v0, v2, v1))
    } else {
        Some((v0, v1, v2))
    }
}

/// Swapping two vertices turns the winding, so a wound triangle has positive
/// area.
pub proof fn law_wound_area_is_positive(v0: Vertex, v1: Vertex, v2: Vertex)
    ensures
        wound(v0, v1, v2) matches Some(t) ==> area(t.0.x as int, t.0.y as int, t.1.x as int, t.1.y as int, t.2.x as int, t.2.y as int) > 0,
{
    let (a, b, c, d) = (v1.x - v0.x, v2.y - v0.y, v1.y - v0.y, v2.x - v0.x);
    assert(a * b - c * d == -(d * c - b * a)) by (nonlinear_arith);
}

/// One edge function along a row: its value at the row's first pixel and
/// its step from pixel to pixel.
#[derive(Clone, Copy)]
pub struct EdgeRow {
    pub w: i64,
    pub d: i64,
}

impl EdgeRow {
    pub open spec fn wf(self) -> bool {
        -0x1000_0000_0000 <= self.w <= 0x1000_0000_0000 && -0x1000_0000 <= self.d <= 0x1000_0000
    }

    /// Whether pixel `n` of the row is on the inner side.
    pub open spec fn inside(self, n: int) -> bool {
        self.w + self.d * n >= 0
    }
}

/// Pixels `0..n` cut down by one edge: `lo..hi` of them are inside.
fn clip_edge(e: EdgeRow, n: i64) -> (r: (i64, i64))
    requires
        e.wf(),
        0 <= n <= 4096,
    ensures
        0 <= r.0 <= n,
        0 <= r.1 <= n,
        forall|k: int| 0 <= k < n ==> (#[trigger] e.inside(k) <==> r.0 <= k < r.1),
{
    if e.d > 0 {
        // w + d*k >= 0  <=>  k >= ceil(-w / d)
        if e.w >= 0 {
            assert forall|k: int| 0 <= k < n implies #[trigger] e.inside(k) by {
                assert(e.d * k >= 0) by (nonlinear_arith)
                    requires
                        e.d > 0,
                        k >= 0,
                ;
            }
            return (0, n);
        }
        let m: i64 = -e.w;
        let q: i64 = ((m + e.d - 1) as u64 / e.d as u64) as i64;
        proof {
            lemma_ceil(m as int, e.d as int, q as int);
        }
        (if q < n { q } else { n }, n)
    } else if e.d < 0 {
        // w + d*k >= 0  <=>  k <= floor(w / -d)
        if e.w < 0 {
            assert forall|k: int| 0 <= k < n implies !(#[trigger] e.inside(k)) by {
                assert(e.d * k <= 0) by (nonlinear_arith)
                    requires
                        e.d < 0,
                        k >= 0,
                ;
            }
            return (0, 0);
        }
        let s: i64 = -e.d;
        let q: i64 = (e.w as u64 / s as u64) as i64;
        proof {
            lemma_floor(e.w as int, s as int, q as int);
            assert forall|k: int| 0 <= k < n implies (#[trigger] e.inside(k) <==> k <= q) by {
                assert(e.d * k == -(s * k)) by (nonlinear_arith)
                    requires
                        s == -e.d,
                ;
            }
        }
        (0, if q + 1 < n { q + 1 } else { n })
    } else if e.w < 0 {
        assert forall|k: int| 0 <= k < n implies !(#[trigger] e.inside(k)) by {
            assert(e.d * k == 0) by (nonlinear_arith)
                requires
                    e.d == 0,
            ;
        }
        (0, 0)
    } else {
        assert forall|k: int| 0 <= k < n implies #[trigger] e.inside(k) by {
            assert(e.d * k == 0) by (nonlinear_arith)
                requires
                    e.d == 0,
            ;
        }
        (0, n)
    }
}

proof fn lemma_ceil(m: int, d: int, q: int)
    requires
        m > 0,
        d > 0,
        q == (m + d - 1) / d,
    ensures
        forall|k: int| (#[trigger] (d * k)) >= m <==> k >= q,
        0 <= q <= m,
{
    vstd::arithmetic::div_mod::lemma_fundamental_div_mod(m + d - 1, d);
    vstd::arithmetic::div_mod::lemma_mod_bound(m + d - 1, d);
    let r = (m + d - 1) % d;
    assert forall|k: int| (#[trigger] (d * k)) >= m <==> k >= q by {
        if k >= q {
            assert(d * k >= m) by (nonlinear_arith)
                requires
                    m + d - 1 == d * q + r,
                    0 <= r < d,
                    k >= q,
                    d > 0,
            ;
        } else {
            assert(d * k < m) by (nonlinear_arith)
                requires
                    m + d - 1 == d * q + r,
                    0 <= r < d,
                    k <= q - 1,
                    d > 0,
            ;
        }
    }
    assert(d * 0 < m);
    assert(d * m >= m) by (nonlinear_arith)
        requires
            d >= 1,
            m > 0,
    ;
}

proof fn lemma_floor(w: int, s: int, q: int)
    requires
        w >= 0,
        s > 0,
        q == w / s,
    ensures
        forall|k: int| w - (#[trigger] (s * k)) >= 0 <==> k <= q,
        0 <= q <= w,
{
    vstd::arithmetic::div_mod::lemma_fundamental_div_mod(w, s);
    vstd::arithmetic::div_mod::lemma_mod_bound(w, s);
    let r = w % s;
    assert forall|k: int| w - (#[trigger] (s * k)) >= 0 <==> k <= q by {
        if k <= q {
            assert(s * k <= w) by (nonlinear_arith)
                requires
                    w == s * q + r,
                    0 <= r < s,
                    k <= q,
                    s > 0,
            ;
        } else {
            assert(s * k > w) by (nonlinear_arith)
                requires
                    w == s * q + r,
                    0 <= r < s,
                    k >= q + 1,
                    s > 0,
            ;
        }
    }
    vstd::arithmetic::div_mod::lemma_div_pos_is_pos(w, s);
    assert(w - s * 0 >= 0);
    assert(q <= w) by (nonlinear_arith)
        requires
            w == s * q + r,
            0 <= r,
            s >= 1,
            q >= 0,
    ;
}

/// The covered span of a row of `n` pixels: each edge function is affine,
/// so the pixels inside all three form one interval, the same set that
/// testing every pixel would accept.
pub fn covered_span(e0: EdgeRow, e1: EdgeRow, e2: EdgeRow, n: i64) -> (r: (i64, i64))
    requires
        e0.wf(),
        e1.wf(),
        e2.wf(),
        0 <= n <= 4096,
    ensures
        0 <= r.0 <= n,
        0 <= r.1 <= n,
        forall|k: int|
            0 <= k < n ==> (r.0 <= k < r.1 <==> (#[trigger] e0.inside(k)) && e1.inside(k) && e2.inside(k)),
{
    let (a0, b0) = clip_edge(e0, n);
    let (a1, b1) = clip_edge(e1, n);
    let (a2, b2) = clip_edge(e2, n);
    let a01: i64 = if a0 > a1 { a0 } else { a1 };
    let b01: i64 = if b0 < b1 { b0 } else { b1 };
    let a: i64 = if a01 > a2 { a01 } else { a2 };
    let b: i64 = if b01 < b2 { b01 } else { b2 };
    proof {
        assert forall|k: int| 0 <= k < n implies (a <= k < b <==> (#[trigger] e0.inside(k)) && e1.inside(k) && e2.inside(
            k,
        )) by {
            assert(e1.inside(k) <==> a1 <= k < b1);
            assert(e2.inside(k) <==> a2 <= k < b2);
        }
    }
    (a, b)
}

/// Integer set-up of a wound triangle: the pixel box inside the scissor and
/// the edge functions at the centre of its first pixel, with their steps to
/// the right and down.
#[derive(Clone, Copy)]
pub struct TriSetup {
    pub minx: i32,
    pub maxx: i32,
    pub miny: i32,
    pub maxy: i32,
    pub w0: i64,
    pub w1: i64,
    pub w2: i64,
    pub dx0: i64,
    pub dx1: i64,
    pub dx2: i64,
    pub dy0: i64,
    pub dy1: i64,
    pub dy2: i64,
}

/// First pixel of a triangle's extent, in the scissor range.
pub open spec fn tri_lo(a: int, b: int, c: int, sc: int) -> int {
    higher(higher(lower(lower(a, b), c) / 16, 0), sc)
}

/// Last pixel of a triangle's extent, in the scissor range.
pub open spec fn tri_hi(a: int, b: int, c: int, sc: int) -> int {
    lower(lower((higher(higher(a, b), c) + 15) / 16, 4095), sc)
}

fn tri_low(a: i32, b: i32, c: i32, sc: i32) -> (r: i32)
    requires
        -0x2_0000 <= a <= 0x2_0000,
        -0x2_0000 <= b <= 0x2_0000,
        -0x2_0000 <= c <= 0x2_0000,
    ensures
        r == tri_lo(a as int, b as int, c as int, sc as int),
{
    imax(imax(whole(imin(imin(a, b), c)), 0), sc)
}

fn tri_high(a: i32, b: i32, c: i32, sc: i32) -> (r: i32)
    requires
        -0x2_0000 <= a <= 0x2_0000,
        -0x2_0000 <= b <= 0x2_0000,
        -0x2_0000 <= c <= 0x2_0000,
    ensures
        r == tri_hi(a as int, b as int, c as int, sc as int),
{
    imin(imin(whole(imax(imax(a, b), c) + 15), 4095), sc)
}

/// The edge function of `a -> b` at the centre of pixel `(px, py)`.
pub open spec fn edge_at(a: Vertex, b: Vertex, px: int, py: int) -> int {
    area(a.x as int, a.y as int, b.x as int, b.y as int, 16 * px + 8, 16 * py + 8)
}

impl TriSetup {
    /// The stepped edge functions are the edge functions.
    pub open spec fn exact(self, a: Vertex, b: Vertex, c: Vertex) -> bool {
        forall|px: int, py: int|
            {
                &&& self.w0 + self.dx0 * (px - self.minx) + self.dy0 * (py - self.miny) == #[trigger] edge_at(b, c, px, py)
                &&& self.w1 + self.dx1 * (px - self.minx) + self.dy1 * (py - self.miny) == edge_at(c, a, px, py)
                &&& self.w2 + self.dx2 * (px - self.minx) + self.dy2 * (py - self.miny) == edge_at(a, b, px, py)
            }
    }
}

proof fn lemma_edge_steps(a: Vertex, b: Vertex, px: int, py: int, px0: int, py0: int)
    ensures
        edge_at(a, b, px, py) == edge_at(a, b, px0, py0) + (-(b.y - a.y) * 16) * (px - px0) + ((b.x - a.x) * 16) * (py - py0),
{
    let (u, v) = (b.x - a.x, b.y - a.y);
    let (x, y) = (16 * px0 + 8 - a.x, 16 * py0 + 8 - a.y);
    let (i, j) = (px - px0, py - py0);
    assert(u * (y + 16 * j) - v * (x + 16 * i) == u * y - v * x + (-v * 16) * i + (u * 16) * j) by (nonlinear_arith);
}

/// Triangle set-up; `a, b, c` are already wound positive. `None` = clipped
/// out.
pub fn tri_setup(p: &PixelPipe, a: &Vertex, b: &Vertex, c: &Vertex) -> (r: Option<TriSetup>)
    requires
        p.wf(),
        in_range(*a),
        in_range(*b),
        in_range(*c),
    ensures
        ({
            let minx = tri_lo(a.x as int, b.x as int, c.x as int, p.scx0 as int);
            let maxx = tri_hi(a.x as int, b.x as int, c.x as int, p.scx1 as int);
            let miny = tri_lo(a.y as int, b.y as int, c.y as int, p.scy0 as int);
            let maxy = tri_hi(a.y as int, b.y as int, c.y as int, p.scy1 as int);
            match r {
                None => minx > maxx || miny > maxy,
                Some(t) => minx <= maxx && miny <= maxy && t.minx == minx && t.maxx == maxx && t.miny == miny && t.maxy
                    == maxy && t.exact(*a, *b, *c),
            }
        }),
{
    let minx: i32 = tri_low(a.x, b.x, c.x, p.scx0);
    let maxx: i32 = tri_high(a.x, b.x, c.x, p.scx1);
    let miny: i32 = tri_low(a.y, b.y, c.y, p.scy0);
    let maxy: i32 = tri_high(a.y, b.y, c.y, p.scy1);
    if minx > maxx || miny > maxy {
        return None;
    }
    let sx: i32 = 16 * minx + 8;
    let sy: i32 = 16 * miny + 8;
    let t = TriSetup {
        minx,
        maxx,
        miny,
        maxy,
        w0: edge(b.x, b.y, c.x, c.y, sx, sy),
        w1: edge(c.x, c.y, a.x, a.y, sx, sy),
        w2: edge(a.x, a.y, b.x, b.y, sx, sy),
        dx0: -(c.y - b.y) as i64 * 16,
        dx1: -(a.y - c.y) as i64 * 16,
        dx2: -(b.y - a.y) as i64 * 16,
        dy0: (c.x - b.x) as i64 * 16,
        dy1: (a.x - c.x) as i64 * 16,
        dy2: (b.x - a.x) as i64 * 16,
    };
    proof {
        assert forall|px: int, py: int|
            {
                &&& t.w0 + t.dx0 * (px - t.minx) + t.dy0 * (py - t.miny) == #[trigger] edge_at(*b, *c, px, py)
                &&& t.w1 + t.dx1 * (px - t.minx) + t.dy1 * (py - t.miny) == edge_at(*c, *a, px, py)
                &&& t.w2 + t.dx2 * (px - t.minx) + t.dy2 * (py - t.miny) == edge_at(*a, *b, px, py)
            } by {
            lemma_edge_steps(*b, *c, px, py, minx as int, miny as int);
            lemma_edge_steps(*c, *a, px, py, minx as int, miny as int);
            lemma_edge_steps(*a, *b, px, py, minx as int, miny as int);
        }
    }
    Some(t)
}

} // verus!
