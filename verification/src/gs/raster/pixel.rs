//! One pixel through the pipeline. Colour math is integer, as on hardware:
//! interpolated colours are 8 bits wide when they arrive here.

use vstd::prelude::*;
use crate::bytes::{get, put};
use crate::gs::canvas::{off32, Canvas};
use super::pipe::PixelPipe;

verus! {

// --- colours ----------------------------------------------------------------

/// An RGBA8 pixel from its channels, red lowest.
pub open spec fn rgba(r: int, g: int, b: int, a: int) -> int {
    r + 0x100 * g + 0x1_0000 * b + 0x100_0000 * a
}

/// Channel `i` of an RGBA8 pixel.
pub open spec fn channel(px: u32, i: int) -> int {
    if i == 0 {
        px as int % 256
    } else if i == 1 {
        px as int / 0x100 % 256
    } else if i == 2 {
        px as int / 0x1_0000 % 256
    } else {
        px as int / 0x100_0000
    }
}

pub open spec fn cap255(v: int) -> int {
    if v > 255 {
        255
    } else {
        v
    }
}

pub open spec fn clip255(v: int) -> int {
    if v < 0 {
        0
    } else {
        cap255(v)
    }
}

fn cap(v: u32) -> (r: u32)
    ensures
        r == cap255(v as int),
{
    if v > 255 {
        255
    } else {
        v
    }
}

/// A pixel is its channels.
pub proof fn lemma_channels(px: u32)
    ensures
        px == rgba(channel(px, 0), channel(px, 1), channel(px, 2), channel(px, 3)),
        0 <= channel(px, 0) <= 255,
        0 <= channel(px, 1) <= 255,
        0 <= channel(px, 2) <= 255,
        0 <= channel(px, 3) <= 255,
{
}

/// The channels of a pixel made of channels.
pub proof fn lemma_rgba(r: int, g: int, b: int, a: int)
    requires
        0 <= r <= 255,
        0 <= g <= 255,
        0 <= b <= 255,
        0 <= a <= 255,
    ensures
        0 <= rgba(r, g, b, a) <= u32::MAX,
        channel(rgba(r, g, b, a) as u32, 0) == r,
        channel(rgba(r, g, b, a) as u32, 1) == g,
        channel(rgba(r, g, b, a) as u32, 2) == b,
        channel(rgba(r, g, b, a) as u32, 3) == a,
{
    let px = rgba(r, g, b, a);
    assert(px / 0x100_0000 == a);
    assert(px / 0x1_0000 == b + 256 * a);
    assert(px / 0x100 == g + 256 * (b + 256 * a));
    assert((b + 256 * a) % 256 == b);
    assert((g + 256 * (b + 256 * a)) % 256 == g);
    assert(px % 256 == r);
}

fn pack(r: u32, g: u32, b: u32, a: u32) -> (px: u32)
    requires
        r <= 255,
        g <= 255,
        b <= 255,
        a <= 255,
    ensures
        px == rgba(r as int, g as int, b as int, a as int),
{
    r + 0x100 * g + 0x1_0000 * b + 0x100_0000 * a
}

// --- filters ------------------------------------------------------------------

/// `a` and `b` mixed with weight `w` of 256 for `b`, truncating.
pub open spec fn lerp(a: int, b: int, w: int) -> int {
    (a * (256 - w) + b * w) / 256
}

/// Two pixels mixed channel by channel.
pub open spec fn lerp_px(a: u32, b: u32, w: int) -> int {
    rgba(
        lerp(channel(a, 0), channel(b, 0), w),
        lerp(channel(a, 1), channel(b, 1), w),
        lerp(channel(a, 2), channel(b, 2), w),
        lerp(channel(a, 3), channel(b, 3), w),
    )
}

fn lerp_channel(a: u32, b: u32, w: u32) -> (r: u32)
    requires
        a <= 255,
        b <= 255,
        w <= 256,
    ensures
        r == lerp(a as int, b as int, w as int),
        r <= 255,
{
    proof {
        assert(0 <= a * (256 - w) && 0 <= b * w && a * (256 - w) + b * w <= 255 * 256) by (nonlinear_arith)
            requires
                0 <= a <= 255,
                0 <= b <= 255,
                0 <= w <= 256,
        ;
    }
    (a * (256 - w) + b * w) / 256
}

/// Blend two RGBA8 pixels with weight `w` (0..=256) for `b`.
pub fn lerp_rgba(a: u32, b: u32, w: u32) -> (px: u32)
    requires
        w <= 256,
    ensures
        px == lerp_px(a, b, w as int),
{
    pack(
        lerp_channel(a % 256, b % 256, w),
        lerp_channel(a / 0x100 % 256, b / 0x100 % 256, w),
        lerp_channel(a / 0x1_0000 % 256, b / 0x1_0000 % 256, w),
        lerp_channel(a / 0x100_0000, b / 0x100_0000, w),
    )
}

/// Bilinear blend of a 2x2 texel footprint (`t00 t10` top, `t01 t11`
/// bottom) with weights `wx`, `wy` in 1/256: horizontal lerps first, then
/// vertical, each truncating to 8 bits.
pub open spec fn bilerp(t00: u32, t10: u32, t01: u32, t11: u32, wx: int, wy: int) -> int {
    lerp_px(lerp_px(t00, t10, wx) as u32, lerp_px(t01, t11, wx) as u32, wy)
}

pub fn bilerp_rgba(t00: u32, t10: u32, t01: u32, t11: u32, wx: u32, wy: u32) -> (px: u32)
    requires
        wx <= 256,
        wy <= 256,
    ensures
        px == bilerp(t00, t10, t01, t11, wx as int, wy as int),
{
    lerp_rgba(lerp_rgba(t00, t10, wx), lerp_rgba(t01, t11, wx), wy)
}

/// A weight of zero picks the first pixel, one of 256 the second.
pub proof fn law_lerp_ends(a: u32, b: u32)
    ensures
        lerp_px(a, b, 0) == a,
        lerp_px(a, b, 256) == b,
{
    lemma_channels(a);
    lemma_channels(b);
}

/// A footprint of one colour filters to that colour.
pub proof fn law_bilerp_of_one_colour(t: u32, wx: int, wy: int)
    requires
        0 <= wx <= 256,
        0 <= wy <= 256,
    ensures
        bilerp(t, t, t, t, wx, wy) == t,
{
    lemma_channels(t);
    assert forall|c: int, w: int| lerp(c, c, w) == c by {
        assert(c * (256 - w) + c * w == 256 * c) by (nonlinear_arith);
    }
}

// --- blending -----------------------------------------------------------------

/// What a selector of the ALPHA register picks for one channel.
pub open spec fn picked(sel: u8, src: int, dst: int) -> int {
    if sel == 0 {
        src
    } else if sel == 1 {
        dst
    } else {
        0
    }
}

/// ALPHA: `Cv = ((A - B) * C >> 7) + D`, held to 8 bits.
pub open spec fn blend_channel(p: PixelPipe, src: int, dst: int, alpha: int) -> int {
    clip255(
        ((picked(p.blend_a, src, dst) - picked(p.blend_b, src, dst)) * alpha) / 128 + picked(p.blend_d, src, dst),
    )
}

/// The factor C: source alpha, destination alpha or the fixed value.
pub open spec fn blend_alpha(p: PixelPipe, src_a: int, dst: u32) -> int {
    if p.blend_c == 0 {
        src_a
    } else if p.blend_c == 1 {
        channel(dst, 3)
    } else {
        p.blend_fix as int
    }
}

/// RGB8 (R low) in three 21-bit lanes of a u64.
pub open spec fn lanes(r: int, g: int, b: int) -> int {
    r + 0x20_0000 * g + 0x400_0000_0000 * b
}

/// Lane `i` of three 21-bit lanes.
pub open spec fn lane(l: u64, i: int) -> int {
    if i == 0 {
        l as int % 0x20_0000
    } else if i == 1 {
        l as int / 0x20_0000 % 0x20_0000
    } else {
        l as int / 0x400_0000_0000
    }
}

/// Three lanes that hold 8-bit channels.
pub open spec fn is_rgb(l: u64) -> bool {
    lane(l, 0) <= 255 && lane(l, 1) <= 255 && lane(l, 2) <= 255
}

pub fn spread21(c: u32) -> (l: u64)
    ensures
        lane(l, 0) == channel(c, 0),
        lane(l, 1) == channel(c, 1),
        lane(l, 2) == channel(c, 2),
        is_rgb(l),
{
    (c % 256) as u64 + 0x20_0000 * (c / 0x100 % 256) as u64 + 0x400_0000_0000 * (c / 0x1_0000 % 256) as u64
}

/// One lane of the biased blend: positive, and narrower than the lane.
pub open spec fn lane_sum(a: int, b: int, d: int, alpha: int) -> int {
    a * alpha + 128 * d + 0x1_0000 - b * alpha
}

proof fn lemma_lane(a: int, b: int, d: int, alpha: int)
    requires
        0 <= a <= 255,
        0 <= b <= 255,
        0 <= d <= 255,
        0 <= alpha <= 255,
    ensures
        0 <= lane_sum(a, b, d, alpha) < 0x20_0000,
        lane_sum(a, b, d, alpha) / 128 - 512 == ((a - b) * alpha) / 128 + d,
        0 <= a * alpha <= 65025,
        0 <= b * alpha <= 65025,
{
    assert(0 <= a * alpha <= 65025 && 0 <= b * alpha <= 65025) by (nonlinear_arith)
        requires
            0 <= a <= 255,
            0 <= b <= 255,
            0 <= alpha <= 255,
    ;
    assert((a - b) * alpha == a * alpha - b * alpha) by (nonlinear_arith);
}

proof fn lemma_lanes_scale(r: int, g: int, b: int, k: int)
    ensures
        lanes(r, g, b) * k == lanes(r * k, g * k, b * k),
{
    assert((r + 0x20_0000 * g + 0x400_0000_0000 * b) * k == r * k + 0x20_0000 * (g * k) + 0x400_0000_0000 * (b * k))
        by (nonlinear_arith);
}

/// The channel that a lane decodes to.
fn lane_channel(lane: u64) -> (c: u32)
    requires
        lane < 0x20_0000,
    ensures
        c == clip255(lane as int / 128 - 512),
        c <= 255,
{
    let v: u64 = lane / 128;
    if v < 512 {
        0
    } else if v - 512 > 255 {
        255
    } else {
        (v - 512) as u32
    }
}

fn pick_lanes(sel: u8, src: u64, dst: u64) -> (l: u64)
    ensures
        l == (if sel == 0 {
            src
        } else if sel == 1 {
            dst
        } else {
            0
        }),
{
    match sel {
        0 => src,
        1 => dst,
        _ => 0,
    }
}

/// `((a - b) * alpha >> 7) + d` on each lane, held to 8 bits. With the
/// identity floor(((A-B)*C + 128*D) / 128) = ((A-B)*C >> 7) + D and a
/// per-lane bias of 2^16 the lanes stay positive and disjoint.
fn blend_lanes(a: u64, b: u64, d: u64, alpha: u64) -> (c: (u32, u32, u32))
    requires
        is_rgb(a),
        is_rgb(b),
        is_rgb(d),
        alpha <= 255,
    ensures
        c.0 == clip255(((lane(a, 0) - lane(b, 0)) * alpha) / 128 + lane(d, 0)),
        c.1 == clip255(((lane(a, 1) - lane(b, 1)) * alpha) / 128 + lane(d, 1)),
        c.2 == clip255(((lane(a, 2) - lane(b, 2)) * alpha) / 128 + lane(d, 2)),
        c.0 <= 255,
        c.1 <= 255,
        c.2 <= 255,
{
    let ghost k = alpha as int;
    let ghost (l0, l1, l2) = (
        lane_sum(lane(a, 0), lane(b, 0), lane(d, 0), k),
        lane_sum(lane(a, 1), lane(b, 1), lane(d, 1), k),
        lane_sum(lane(a, 2), lane(b, 2), lane(d, 2), k),
    );
    proof {
        lemma_lanes_scale(lane(a, 0), lane(a, 1), lane(a, 2), k);
        lemma_lanes_scale(lane(b, 0), lane(b, 1), lane(b, 2), k);
        lemma_lane(lane(a, 0), lane(b, 0), lane(d, 0), k);
        lemma_lane(lane(a, 1), lane(b, 1), lane(d, 1), k);
        lemma_lane(lane(a, 2), lane(b, 2), lane(d, 2), k);
        assert(a == lanes(lane(a, 0), lane(a, 1), lane(a, 2)));
        assert(b == lanes(lane(b, 0), lane(b, 1), lane(b, 2)));
        assert(d == lanes(lane(d, 0), lane(d, 1), lane(d, 2)));
    }
    let up: u64 = a * alpha + d * 128 + 0x400_0020_0001_0000;
    assert(up - b * alpha == lanes(l0, l1, l2));
    let x: u64 = up - b * alpha;
    proof {
        lemma_lane_split(l0, l1, l2);
    }
    (
        lane_channel(x % 0x20_0000),
        lane_channel(x / 0x20_0000 % 0x20_0000),
        lane_channel(x / 0x400_0000_0000 % 0x20_0000),
    )
}

proof fn lemma_lane_split(l0: int, l1: int, l2: int)
    requires
        0 <= l0 < 0x20_0000,
        0 <= l1 < 0x20_0000,
        0 <= l2 < 0x20_0000,
    ensures
        lanes(l0, l1, l2) % 0x20_0000 == l0,
        lanes(l0, l1, l2) / 0x20_0000 % 0x20_0000 == l1,
        lanes(l0, l1, l2) / 0x400_0000_0000 % 0x20_0000 == l2,
{
}

/// The three colour channels of `src` over `dst` blended at once.
pub fn blend_rgb(p: &PixelPipe, src: u32, dst: u32, src_a: u32) -> (c: (u32, u32, u32))
    requires
        p.wf(),
        src_a <= 255,
    ensures
        c.0 == blend_channel(*p, channel(src, 0), channel(dst, 0), blend_alpha(*p, src_a as int, dst)),
        c.1 == blend_channel(*p, channel(src, 1), channel(dst, 1), blend_alpha(*p, src_a as int, dst)),
        c.2 == blend_channel(*p, channel(src, 2), channel(dst, 2), blend_alpha(*p, src_a as int, dst)),
        c.0 <= 255,
        c.1 <= 255,
        c.2 <= 255,
{
    let s: u64 = spread21(src);
    let t: u64 = spread21(dst);
    let alpha: u64 = match p.blend_c {
        0 => src_a as u64,
        1 => (dst / 0x100_0000) as u64,
        _ => p.blend_fix as u64,
    };
    assert(is_rgb(0));
    blend_lanes(pick_lanes(p.blend_a, s, t), pick_lanes(p.blend_b, s, t), pick_lanes(p.blend_d, s, t), alpha)
}

/// Blended RGB of `src` over `dst`; the result keeps the alpha byte of
/// `src`.
pub open spec fn blended(p: PixelPipe, src: u32, dst: u32, src_a: int) -> int {
    let alpha = blend_alpha(p, src_a, dst);
    rgba(
        blend_channel(p, channel(src, 0), channel(dst, 0), alpha),
        blend_channel(p, channel(src, 1), channel(dst, 1), alpha),
        blend_channel(p, channel(src, 2), channel(dst, 2), alpha),
        channel(src, 3),
    )
}

// --- texture functions ----------------------------------------------------------

/// MODULATE on one channel: `texel * colour >> 7`, saturated.
pub open spec fn modulate(t: int, c: int) -> int {
    cap255((t * c) / 128)
}

fn modulate_one(t: u32, c: u32) -> (r: u32)
    requires
        t <= 255,
        c <= 255,
    ensures
        r == modulate(t as int, c as int),
        r <= 255,
{
    assert(0 <= t * c <= 65025) by (nonlinear_arith)
        requires
            0 <= t <= 255,
            0 <= c <= 255,
    ;
    cap(t * c / 128)
}

/// A vertex colour, 8 bits per channel.
#[derive(Clone, Copy)]
pub struct Colour {
    pub r: u32,
    pub g: u32,
    pub b: u32,
    pub a: u32,
}

impl Colour {
    pub open spec fn wf(self) -> bool {
        self.r <= 255 && self.g <= 255 && self.b <= 255 && self.a <= 255
    }
}

/// The vertex colour combined with a texel: MODULATE, DECAL, or the two
/// highlights (approximated by one formula). TCC takes the texel's alpha in.
pub open spec fn textured(p: PixelPipe, c: Colour, texel: u32) -> Colour {
    let (tr, tg, tb, ta) = (channel(texel, 0), channel(texel, 1), channel(texel, 2), channel(texel, 3));
    if p.tfx == 0 {
        Colour {
            r: modulate(tr, c.r as int) as u32,
            g: modulate(tg, c.g as int) as u32,
            b: modulate(tb, c.b as int) as u32,
            a: if p.tcc {
                modulate(ta, c.a as int) as u32
            } else {
                c.a
            },
        }
    } else if p.tfx == 1 {
        Colour {
            r: tr as u32,
            g: tg as u32,
            b: tb as u32,
            a: if p.tcc {
                ta as u32
            } else {
                c.a
            },
        }
    } else {
        Colour {
            r: cap255((tr * c.r) / 128 + c.a) as u32,
            g: cap255((tg * c.g) / 128 + c.a) as u32,
            b: cap255((tb * c.b) / 128 + c.a) as u32,
            a: if p.tcc {
                ta as u32
            } else {
                c.a
            },
        }
    }
}

fn highlight_one(t: u32, c: u32, a: u32) -> (r: u32)
    requires
        t <= 255,
        c <= 255,
        a <= 255,
    ensures
        r == cap255((t * c) / 128 + a),
        r <= 255,
{
    assert(0 <= t * c <= 65025) by (nonlinear_arith)
        requires
            0 <= t <= 255,
            0 <= c <= 255,
    ;
    cap(t * c / 128 + a)
}

fn apply_texture(p: &PixelPipe, c: Colour, texel: u32) -> (r: Colour)
    requires
        c.wf(),
    ensures
        r == textured(*p, c, texel),
        r.wf(),
{
    let tr: u32 = texel % 256;
    let tg: u32 = texel / 0x100 % 256;
    let tb: u32 = texel / 0x1_0000 % 256;
    let ta: u32 = texel / 0x100_0000;
    match p.tfx {
        0 => Colour {
            r: modulate_one(tr, c.r),
            g: modulate_one(tg, c.g),
            b: modulate_one(tb, c.b),
            a: if p.tcc {
                modulate_one(ta, c.a)
            } else {
                c.a
            },
        },
        1 => Colour {
            r: tr,
            g: tg,
            b: tb,
            a: if p.tcc {
                ta
            } else {
                c.a
            },
        },
        _ => Colour {
            r: highlight_one(tr, c.r, c.a),
            g: highlight_one(tg, c.g, c.a),
            b: highlight_one(tb, c.b, c.a),
            a: if p.tcc {
                ta
            } else {
                c.a
            },
        },
    }
}

// --- tests ------------------------------------------------------------------------

/// The alpha test.
pub open spec fn alpha_passes(p: PixelPipe, a: int) -> bool {
    let aref = p.aref as int;
    !p.ate || (if p.atst == 0 {
        false
    } else if p.atst == 1 {
        true
    } else if p.atst == 2 {
        a < aref
    } else if p.atst == 3 {
        a <= aref
    } else if p.atst == 4 {
        a == aref
    } else if p.atst == 5 {
        a >= aref
    } else if p.atst == 6 {
        a > aref
    } else {
        a != aref
    })
}

pub fn alpha_test(p: &PixelPipe, a: u32) -> (r: bool)
    ensures
        r == alpha_passes(*p, a as int),
{
    let aref: u32 = p.aref;
    !p.ate || match p.atst {
        0 => false,
        1 => true,
        2 => a < aref,
        3 => a <= aref,
        4 => a == aref,
        5 => a >= aref,
        6 => a > aref,
        _ => a != aref,
    }
}

/// The depth test of `z` (already masked) against the stored word.
pub open spec fn depth_passes(p: PixelPipe, z: u32, stored: u32) -> bool {
    if p.ztst == 0 {
        false
    } else if p.ztst == 1 {
        true
    } else if p.ztst == 2 {
        z >= stored & p.zmask
    } else {
        z > stored & p.zmask
    }
}

/// Where the depth of pixel `(x, y)` is kept.
pub open spec fn z_at(len: int, p: PixelPipe, x: u32, y: u32) -> int {
    off32(len, p.zbp, p.fbw, x, y, true)
}

/// Where pixel `(x, y)` of the frame is kept.
pub open spec fn fb_at(len: int, p: PixelPipe, x: u32, y: u32) -> int {
    off32(len, p.fbp, p.fbw, x, y, false)
}

/// The stored depth word of pixel `(x, y)`.
pub open spec fn stored_z(mem: Seq<u8>, p: PixelPipe, x: u32, y: u32) -> u32 {
    get(mem, z_at(mem.len() as int, p, x, y), 4) as u32
}

/// The stored frame word of pixel `(x, y)`.
pub open spec fn stored_px(mem: Seq<u8>, p: PixelPipe, x: u32, y: u32) -> u32 {
    get(mem, fb_at(mem.len() as int, p, x, y), 4) as u32
}

/// Memory with the depth of `(x, y)` set; the bits that the format does not
/// keep stay.
pub open spec fn with_z(mem: Seq<u8>, p: PixelPipe, x: u32, y: u32, z: u32) -> Seq<u8> {
    put(mem, z_at(mem.len() as int, p, x, y), 4, ((stored_z(mem, p, x, y) & !p.zmask) | z) as nat)
}

/// Memory with the frame word of `(x, y)` set.
pub open spec fn with_fb(mem: Seq<u8>, p: PixelPipe, x: u32, y: u32, px: u32) -> Seq<u8> {
    put(mem, fb_at(mem.len() as int, p, x, y), 4, px as nat)
}

/// `px` with the alpha byte of `dst`.
pub open spec fn with_alpha_of(px: u32, dst: u32) -> u32 {
    (px % 0x100_0000 + 0x100_0000 * (dst / 0x100_0000)) as u32
}

fn keep_alpha(px: u32, dst: u32) -> (r: u32)
    ensures
        r == with_alpha_of(px, dst),
{
    px % 0x100_0000 + 0x100_0000 * (dst / 0x100_0000)
}

fn read_z(canvas: &Canvas, p: &PixelPipe, x: u32, y: u32) -> (z: u32)
    requires
        canvas.wf(),
    ensures
        z == stored_z(canvas@, *p, x, y),
{
    canvas.read_psmz32(p.zbp, p.fbw, x, y)
}

fn passes_depth(p: &PixelPipe, z: u32, stored: u32) -> (r: bool)
    ensures
        r == depth_passes(*p, z, stored),
{
    match p.ztst {
        0 => false,
        1 => true,
        2 => z >= stored & p.zmask,
        _ => z > stored & p.zmask,
    }
}

fn write_z(canvas: &mut Canvas, p: &PixelPipe, x: u32, y: u32, z: u32)
    requires
        old(canvas).wf(),
    ensures
        final(canvas).wf(),
        final(canvas)@ == with_z(old(canvas)@, *p, x, y, z),
        final(canvas)@.len() == old(canvas)@.len(),
{
    let cur: u32 = read_z(canvas, p, x, y);
    canvas.write_psmz32(p.zbp, p.fbw, x, y, (cur & !p.zmask) | z);
}

// --- the generic pixel --------------------------------------------------------------

/// What a pixel leaves in memory: texture function, alpha test, depth test,
/// blending, frame mask. AFAIL decides what a pixel that fails the alpha
/// test still updates: 0 nothing, 1 the frame, 2 only Z, 3 only the colour
/// channels of the frame.
pub open spec fn shaded(mem: Seq<u8>, p: PixelPipe, x: u32, y: u32, colour: Colour, z: u32, texel: u32) -> Seq<u8> {
    let c = if p.tme {
        textured(p, colour, texel)
    } else {
        colour
    };
    let pass = alpha_passes(p, c.a as int);
    // ZTST ALWAYS with the Z write masked touches nothing.
    let tested = p.zte && !(p.ztst == 1 && p.zmsk);
    let zm = z & p.zmask;
    if !pass && p.afail == 0 {
        mem
    } else if tested && !depth_passes(p, zm, stored_z(mem, p, x, y)) {
        mem
    } else {
        let mid = if tested && !p.zmsk && (pass || p.afail == 2) {
            with_z(mem, p, x, y, zm)
        } else {
            mem
        };
        if !pass && p.afail == 2 {
            mid
        } else {
            with_fb(mid, p, x, y, frame_word(p, c, stored_px(mid, p, x, y), !pass && p.afail == 3))
        }
    }
}

/// The frame word that colour `c` makes over `dst`.
pub open spec fn frame_word(p: PixelPipe, c: Colour, dst: u32, keep_dst_alpha: bool) -> u32 {
    let src = rgba(c.r as int, c.g as int, c.b as int, c.a as int) as u32;
    let out = if p.abe {
        blended(p, src, dst, c.a as int) as u32
    } else {
        src
    };
    let merged = (out & !p.fbmsk) | (dst & p.fbmsk);
    if keep_dst_alpha || p.fb24 {
        with_alpha_of(merged, dst)
    } else {
        merged
    }
}

fn make_word(p: &PixelPipe, c: Colour, dst: u32, keep_dst_alpha: bool) -> (w: u32)
    requires
        p.wf(),
        c.wf(),
    ensures
        w == frame_word(*p, c, dst, keep_dst_alpha),
{
    let src: u32 = pack(c.r, c.g, c.b, c.a);
    let out: u32 = if p.abe {
        proof {
            lemma_rgba(c.r as int, c.g as int, c.b as int, c.a as int);
        }
        let (r, g, b) = blend_rgb(p, src, dst, c.a);
        pack(r, g, b, c.a)
    } else {
        src
    };
    let merged: u32 = (out & !p.fbmsk) | (dst & p.fbmsk);
    if keep_dst_alpha || p.fb24 {
        keep_alpha(merged, dst)
    } else {
        merged
    }
}

/// The pixel pipeline proper. The caller has already clipped to the scissor
/// box.
pub fn shade_px(canvas: &mut Canvas, p: &PixelPipe, x: u32, y: u32, colour: Colour, z: u32, texel: u32)
    requires
        old(canvas).wf(),
        p.wf(),
        colour.wf(),
    ensures
        final(canvas).wf(),
        final(canvas)@ == shaded(old(canvas)@, *p, x, y, colour, z, texel),
        final(canvas)@.len() == old(canvas)@.len(),
{
    let c = if p.tme {
        apply_texture(p, colour, texel)
    } else {
        colour
    };
    let pass = alpha_test(p, c.a);
    if !pass && p.afail == 0 {
        return;
    }
    if p.zte && !(p.ztst == 1 && p.zmsk) {
        let zm: u32 = z & p.zmask;
        if !passes_depth(p, zm, read_z(canvas, p, x, y)) {
            return;
        }
        if !p.zmsk && (pass || p.afail == 2) {
            write_z(canvas, p, x, y, zm);
        }
    }
    if !pass && p.afail == 2 {
        return;
    }
    let dst: u32 = canvas.read_psmct32(p.fbp, p.fbw, x, y);
    let word: u32 = make_word(p, c, dst, !pass && p.afail == 3);
    canvas.write_psmct32(p.fbp, p.fbw, x, y, word);
}

// --- rows ---------------------------------------------------------------------------

/// Memory after the first `n` pixels of a run that starts at `(x, y)`, in
/// one colour and depth, each with its texel.
pub open spec fn shaded_run(mem: Seq<u8>, p: PixelPipe, x: u32, y: u32, colour: Colour, z: u32, texels: Seq<u32>, n: int) -> Seq<u8>
    decreases n,
{
    if n <= 0 {
        mem
    } else {
        shaded(
            shaded_run(mem, p, x, y, colour, z, texels, n - 1),
            p,
            (x + n - 1) as u32,
            y,
            colour,
            z,
            texels[n - 1],
        )
    }
}

/// A run of pixels on one row in a constant colour and depth: an untextured
/// fill (texels of zero) or a sprite row whose texels have been fetched.
pub fn shade_run(canvas: &mut Canvas, p: &PixelPipe, x: u32, y: u32, colour: Colour, z: u32, texels: &[u32])
    requires
        old(canvas).wf(),
        p.wf(),
        colour.wf(),
        x + texels@.len() <= u32::MAX,
    ensures
        final(canvas).wf(),
        final(canvas)@ == shaded_run(old(canvas)@, *p, x, y, colour, z, texels@, texels@.len() as int),
        final(canvas)@.len() == old(canvas)@.len(),
{
    let n: usize = texels.len();
    for k in 0..n
        invariant
            canvas.wf(),
            p.wf(),
            colour.wf(),
            n == texels@.len(),
            x + texels@.len() <= u32::MAX,
            canvas@ == shaded_run(old(canvas)@, *p, x, y, colour, z, texels@, k as int),
            canvas@.len() == old(canvas)@.len(),
    {
        shade_px(canvas, p, x + k as u32, y, colour, z, texels[k]);
    }
}

/// A pixel that fails its depth test, or its alpha test under AFAIL KEEP,
/// changes nothing.
pub proof fn law_rejected_pixels_change_nothing(mem: Seq<u8>, p: PixelPipe, x: u32, y: u32, colour: Colour, z: u32, texel: u32)
    requires
        ({
            let c = if p.tme {
                textured(p, colour, texel)
            } else {
                colour
            };
            (!alpha_passes(p, c.a as int) && p.afail == 0) || (p.zte && !(p.ztst == 1 && p.zmsk) && !depth_passes(
                p,
                z & p.zmask,
                stored_z(mem, p, x, y),
            ))
        }),
    ensures
        shaded(mem, p, x, y, colour, z, texel) == mem,
{
}

/// A mask picks each bit from one of two words.
pub proof fn lemma_merge(out: u32, dst: u32, mask: u32, k: u32)
    by (bit_vector)
    requires
        k < 32,
    ensures
        (out & !0u32) | (dst & 0u32) == out,
        (out & !0xFFFF_FFFFu32) | (dst & 0xFFFF_FFFFu32) == dst,
        (mask >> k) & 1 == 1 ==> (((out & !mask) | (dst & mask)) >> k) & 1 == (dst >> k) & 1,
        (mask >> k) & 1 == 0 ==> (((out & !mask) | (dst & mask)) >> k) & 1 == (out >> k) & 1,
{
}

/// A fully masked frame is never written: only Z can change.
pub proof fn law_masked_frame_is_kept(p: PixelPipe, c: Colour, dst: u32, keep: bool)
    requires
        p.fbmsk == u32::MAX,
    ensures
        frame_word(p, c, dst, keep) == dst,
{
    let src = rgba(c.r as int, c.g as int, c.b as int, c.a as int) as u32;
    let out = if p.abe {
        blended(p, src, dst, c.a as int) as u32
    } else {
        src
    };
    lemma_merge(out, dst, 0, 0);
}

} // verus!
