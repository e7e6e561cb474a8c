//! Primitives that sample their own target have no twin in the overlay: what
//! they drew is copied there.

use vstd::prelude::*;
use crate::gs::canvas::Canvas;
use crate::gs::transfer::{get_pixel, px_at, put_dup, with_dup, Rect, Surface, PSMCT32, PSMZ32};
use super::pipe::PixelPipe;

verus! {

/// The frame buffer and the Z buffer of a drawing environment.
pub open spec fn frame_of(p: PixelPipe) -> Surface {
    Surface { psm: PSMCT32, bp: p.fbp, bw: p.fbw }
}

pub open spec fn depth_of(p: PixelPipe) -> Surface {
    Surface { psm: PSMZ32, bp: p.zbp, bw: p.fbw }
}

/// The overlay with one pixel's frame and written Z duplicated into it.
pub open spec fn with_mirror(over: Seq<u8>, mem: Seq<u8>, p: PixelPipe, x: u32, y: u32) -> Seq<u8> {
    let framed = if p.fbmsk != u32::MAX {
        with_dup(over, frame_of(p), x, y, px_at(mem, frame_of(p), x, y))
    } else {
        over
    };
    if p.zte && !p.zmsk {
        with_dup(framed, depth_of(p), x, y, px_at(mem, depth_of(p), x, y))
    } else {
        framed
    }
}

/// The overlay after the first `n` pixels of a rectangle, in raster order.
pub open spec fn mirrored_prim(over: Seq<u8>, mem: Seq<u8>, p: PixelPipe, r: Rect, n: int) -> Seq<u8>
    decreases n,
{
    if n <= 0 {
        over
    } else {
        let k = n - 1;
        with_mirror(mirrored_prim(over, mem, p, r, k), mem, p, r.col(k), r.row(k))
    }
}

/// The pixels `x0..=x1` of rows `y0..y1` that exist.
pub open spec fn rect_of(x0: i32, x1: i32, y0: i32, y1: i32) -> Rect {
    let x = if x0 > 0 {
        x0 as int
    } else {
        0
    };
    let y = if y0 > 0 {
        y0 as int
    } else {
        0
    };
    Rect {
        x: x as u32,
        y: y as u32,
        w: (if x1 >= x {
            x1 - x + 1
        } else {
            0
        }) as u32,
        h: (if y1 > y {
            y1 - y
        } else {
            0
        }) as u32,
    }
}

fn mirror_px(over: &mut Canvas, canvas: &Canvas, p: &PixelPipe, x: u32, y: u32)
    requires
        old(over).wf(),
        canvas.wf(),
        p.wf(),
        p.fbp < 0x4000,
        p.zbp < 0x4000,
        p.fbw < 0x40,
        x < 0x1_0000,
        y < 0x1_0000,
    ensures
        final(over).wf(),
        final(over)@ == with_mirror(old(over)@, canvas@, *p, x, y),
        final(over)@.len() == old(over)@.len(),
{
    if p.fbmsk != u32::MAX {
        let s = Surface { psm: PSMCT32, bp: p.fbp, bw: p.fbw };
        let v: u32 = get_pixel(canvas, s, x, y);
        put_dup(over, s, x, y, v);
    }
    if p.zte && !p.zmsk {
        let s = Surface { psm: PSMZ32, bp: p.zbp, bw: p.fbw };
        let v: u32 = get_pixel(canvas, s, x, y);
        put_dup(over, s, x, y, v);
    }
}

/// Copy pixels `x0..=x1` of rows `y0..y1` of the frame (and written Z) from
/// local memory into the overlay as 2x2 duplicates.
pub fn mirror_rect(over: &mut Canvas, canvas: &Canvas, p: &PixelPipe, x0: i32, x1: i32, y0: i32, y1: i32)
    requires
        old(over).wf(),
        canvas.wf(),
        p.wf(),
        p.fbp < 0x4000,
        p.zbp < 0x4000,
        p.fbw < 0x40,
        x1 < 0x1000,
        y1 <= 0x1000,
    ensures
        final(over).wf(),
        ({
            let r = rect_of(x0, x1, y0, y1);
            final(over)@ == mirrored_prim(old(over)@, canvas@, *p, r, r.w * r.h)
        }),
        final(over)@.len() == old(over)@.len(),
{
    let x: i32 = if x0 > 0 { x0 } else { 0 };
    let y: i32 = if y0 > 0 { y0 } else { 0 };
    let w: i32 = if x1 >= x { x1 - x + 1 } else { 0 };
    let h: i32 = if y1 > y { y1 - y } else { 0 };
    let r = Rect { x: x as u32, y: y as u32, w: w as u32, h: h as u32 };
    assert(r == rect_of(x0, x1, y0, y1));
    assert(0 * r.w == 0);
    for i in 0..r.h
        invariant
            over.wf(),
            canvas.wf(),
            p.wf(),
            p.fbp < 0x4000,
            p.zbp < 0x4000,
            p.fbw < 0x40,
            r.h > 0 ==> r.y + r.h <= 0x1000,
            r.w > 0 ==> r.x + r.w <= 0x1000,
            over@.len() == old(over)@.len(),
            over@ == mirrored_prim(old(over)@, canvas@, *p, r, i * r.w),
    {
        for j in 0..r.w
            invariant
                over.wf(),
                canvas.wf(),
                p.wf(),
                p.fbp < 0x4000,
                p.zbp < 0x4000,
                p.fbw < 0x40,
                0 <= i < r.h,
                r.y + r.h <= 0x1000,
                r.w > 0 ==> r.x + r.w <= 0x1000,
                over@.len() == old(over)@.len(),
                over@ == mirrored_prim(old(over)@, canvas@, *p, r, i * r.w + j),
        {
            proof {
                vstd::arithmetic::div_mod::lemma_fundamental_div_mod_converse(
                    i * r.w + j,
                    r.w as int,
                    i as int,
                    j as int,
                );
                assert(0 <= i * r.w) by (nonlinear_arith);
            }
            mirror_px(over, canvas, p, r.x + j, r.y + i);
        }
        proof {
            assert(i * r.w + r.w == (i + 1) * r.w) by (nonlinear_arith);
        }
    }
    assert(r.h * r.w == r.w * r.h) by (nonlinear_arith);
}

} // verus!
