//! What drawing one pixel does, stated of the words that are left in memory.

use vstd::prelude::*;
use crate::bytes::{lemma_le_bytes_len, law_get_after_put, law_get_beside_put, pow256};
use super::pipe::PixelPipe;
use super::pixel::{
    alpha_passes, blend_channel, blended, channel, depth_passes, fb_at, frame_word, lemma_channels, lemma_merge,
    lemma_rgba, modulate, rgba, shaded, stored_px, stored_z, textured, with_z, z_at, Colour,
};

verus! {

/// The environment blends `(Cs - Cd) * C + Cd` over a whole frame word.
pub open spec fn blends_over(p: PixelPipe) -> bool {
    p.abe && p.blend_a == 0 && p.blend_b == 1 && p.blend_d == 1 && p.fbmsk == 0 && !p.fb24
}

proof fn lemma_over(s: int, d: int)
    ensures
        ((s - d) * 0x80) / 128 + d == s,
        ((s - d) * 0) / 128 + d == d,
{
}

/// Blending a source over a frame, `(Cs - Cd) * C + Cd`: a factor of 0x80
/// leaves exactly the source's colour whatever the frame holds, and a factor
/// of zero exactly the frame's. The factor is the source's alpha for C = 0,
/// the frame's alpha for C = 1 and the fixed value for the others. The alpha
/// that is written is the source's in each case.
pub proof fn law_blending_over(p: PixelPipe, c: Colour, dst: u32)
    requires
        c.wf(),
        blends_over(p),
    ensures
        ({
            let w = frame_word(p, c, dst, false) as int;
            let own = c.r + 0x100 * c.g + 0x1_0000 * c.b;
            let old = dst as int % 0x100_0000;
            let old_alpha = dst as int / 0x100_0000;
            &&& w / 0x100_0000 == c.a
            &&& p.blend_c == 0 && c.a == 0x80 ==> w % 0x100_0000 == own
            &&& p.blend_c == 0 && c.a == 0 ==> w % 0x100_0000 == old
            &&& p.blend_c == 1 && old_alpha == 0x80 ==> w % 0x100_0000 == own
            &&& p.blend_c == 1 && old_alpha == 0 ==> w % 0x100_0000 == old
            &&& p.blend_c >= 2 && p.blend_fix == 0x80 ==> w % 0x100_0000 == own
            &&& p.blend_c >= 2 && p.blend_fix == 0 ==> w % 0x100_0000 == old
        }),
{
    lemma_rgba(c.r as int, c.g as int, c.b as int, c.a as int);
    lemma_channels(dst);
    let src = rgba(c.r as int, c.g as int, c.b as int, c.a as int) as u32;
    let out = blended(p, src, dst, c.a as int);
    lemma_over(channel(src, 0), channel(dst, 0));
    lemma_over(channel(src, 1), channel(dst, 1));
    lemma_over(channel(src, 2), channel(dst, 2));
    lemma_blended_range(p, src, dst, c.a as int);
    lemma_merge(out as u32, dst, 0, 0);
}

proof fn lemma_blended_range(p: PixelPipe, src: u32, dst: u32, src_a: int)
    ensures
        0 <= blended(p, src, dst, src_a) <= u32::MAX,
        blended(p, src, dst, src_a) / 0x100_0000 == src as int / 0x100_0000,
{
    lemma_channels(src);
}

/// What the selectors of ALPHA choose, seen at a factor of 0x80, where the
/// result is `A - B + D` held to 8 bits, and at zero, where it is `D`: 0 is
/// the source, 1 the frame and 2 nothing. In between, the result is the
/// greatest 8-bit number of 128ths that `(A - B) * C + 128 * D` reaches.
pub proof fn law_blend_selectors(p: PixelPipe, s: int, d: int, factor: int)
    requires
        0 <= s <= 255,
        0 <= d <= 255,
        0 <= factor <= 255,
    ensures
        p.blend_d == 0 ==> blend_channel(p, s, d, 0) == s,
        p.blend_d == 1 ==> blend_channel(p, s, d, 0) == d,
        p.blend_d >= 2 ==> blend_channel(p, s, d, 0) == 0,
        p.blend_a == p.blend_b ==> blend_channel(p, s, d, factor) == blend_channel(p, s, d, 0),
        p.blend_b >= 2 && p.blend_d >= 2 && p.blend_a == 0 ==> blend_channel(p, s, d, 0x80) == s,
        p.blend_b >= 2 && p.blend_d >= 2 && p.blend_a == 1 ==> blend_channel(p, s, d, 0x80) == d,
        p.blend_a >= 2 && p.blend_b == 0 && p.blend_d == 1 && d >= s ==> blend_channel(p, s, d, 0x80) == d - s,
        p.blend_a >= 2 && p.blend_b == 0 && p.blend_d == 1 && d < s ==> blend_channel(p, s, d, 0x80) == 0,
        p.blend_a >= 2 && p.blend_b == 1 && p.blend_d == 0 && s >= d ==> blend_channel(p, s, d, 0x80) == s - d,
        p.blend_a == 0 && p.blend_b >= 2 && p.blend_d == 1 && s + d <= 255 ==> blend_channel(p, s, d, 0x80) == s + d,
        p.blend_a == 0 && p.blend_b >= 2 && p.blend_d == 1 && s + d > 255 ==> blend_channel(p, s, d, 0x80) == 255,
        p.blend_a == 0 && p.blend_b == 1 && p.blend_d == 1 && factor <= 0x80 && s <= d ==> s <= blend_channel(p, s, d, factor)
            <= d,
        p.blend_a == 0 && p.blend_b == 1 && p.blend_d == 1 && factor <= 0x80 && d <= s ==> d <= blend_channel(p, s, d, factor)
            <= s,
        p.blend_a == 0 && p.blend_b >= 2 && p.blend_d >= 2 && s * factor < 0x8000 ==> 128 * blend_channel(p, s, d, factor)
            <= s * factor < 128 * blend_channel(p, s, d, factor) + 128,
        p.blend_a == 1 && p.blend_b >= 2 && p.blend_d >= 2 && d * factor < 0x8000 ==> 128 * blend_channel(p, s, d, factor)
            <= d * factor < 128 * blend_channel(p, s, d, factor) + 128,
        0 <= blend_channel(p, s, d, factor) <= 255,
{
    assert(0int * factor == 0);
    assert((s - 0) * factor == s * factor && (d - 0) * factor == d * factor);
    assert(s * factor >= 0 && d * factor >= 0) by (nonlinear_arith)
        requires
            s >= 0,
            d >= 0,
            factor >= 0,
    ;
    if factor <= 0x80 {
        assert(s <= d ==> (s - d) * 0x80 <= (s - d) * factor <= 0) by (nonlinear_arith)
            requires
                0 <= factor <= 0x80,
        ;
        assert(d <= s ==> 0 <= (s - d) * factor <= (s - d) * 0x80) by (nonlinear_arith)
            requires
                0 <= factor <= 0x80,
        ;
    }
}

/// Without blending the frame receives the colour itself, red lowest.
pub proof fn law_unblended_word(p: PixelPipe, c: Colour, dst: u32)
    requires
        c.wf(),
        !p.abe,
        p.fbmsk == 0,
        !p.fb24,
    ensures
        frame_word(p, c, dst, false) == c.r + 0x100 * c.g + 0x1_0000 * c.b + 0x100_0000 * c.a,
{
    lemma_rgba(c.r as int, c.g as int, c.b as int, c.a as int);
    let src = rgba(c.r as int, c.g as int, c.b as int, c.a as int) as u32;
    lemma_merge(src, dst, 0, 0);
}

/// A set bit of FBMSK keeps that bit of the frame; a clear one lets the
/// colour's bit through.
pub proof fn law_frame_mask_by_bit(p: PixelPipe, c: Colour, dst: u32, k: u32)
    requires
        k < 32,
        !p.fb24,
    ensures
        ({
            let w = frame_word(p, c, dst, false);
            let open = frame_word(PixelPipe { fbmsk: 0, ..p }, c, dst, false);
            &&& (p.fbmsk >> k) & 1 == 1 ==> (w >> k) & 1 == (dst >> k) & 1
            &&& (p.fbmsk >> k) & 1 == 0 ==> (w >> k) & 1 == (open >> k) & 1
        }),
{
    let src = rgba(c.r as int, c.g as int, c.b as int, c.a as int) as u32;
    let q = PixelPipe { fbmsk: 0, ..p };
    let out = if p.abe {
        blended(p, src, dst, c.a as int) as u32
    } else {
        src
    };
    assert(p.abe ==> blended(q, src, dst, c.a as int) == blended(p, src, dst, c.a as int));
    lemma_merge(out, dst, p.fbmsk, k);
    lemma_merge(out, dst, 0, k);
}

/// A frame without alpha, or one whose alpha is to be kept, keeps its top
/// byte, and takes the same colour as any other.
pub proof fn law_alpha_kept(p: PixelPipe, c: Colour, dst: u32, keep: bool)
    requires
        keep || p.fb24,
    ensures
        frame_word(p, c, dst, keep) as int / 0x100_0000 == dst as int / 0x100_0000,
        frame_word(p, c, dst, keep) as int % 0x100_0000 == frame_word(
            PixelPipe { fb24: false, ..p },
            c,
            dst,
            false,
        ) as int % 0x100_0000,
{
    let src = rgba(c.r as int, c.g as int, c.b as int, c.a as int) as u32;
    let q = PixelPipe { fb24: false, ..p };
    assert(blended(q, src, dst, c.a as int) == blended(p, src, dst, c.a as int));
}

/// MODULATE scales by 128ths: 0x80 on either side is neutral, zero is black,
/// and in between the result is the greatest number of 128ths below the
/// product, held to 255.
pub proof fn law_modulate_scales(t: int, c: int)
    requires
        0 <= t <= 255,
        0 <= c <= 255,
    ensures
        c == 0x80 ==> modulate(t, c) == t,
        t == 0x80 ==> modulate(t, c) == c,
        t == 0 || c == 0 ==> modulate(t, c) == 0,
        t * c < 0x8000 ==> 128 * modulate(t, c) <= t * c < 128 * modulate(t, c) + 128,
        t * c >= 0x8000 ==> modulate(t, c) == 255,
{
    assert(t == 0 || c == 0 ==> t * c == 0) by (nonlinear_arith);
    assert(c == 0x80 ==> t * c == 0x80 * t) by (nonlinear_arith);
    assert(t == 0x80 ==> t * c == 0x80 * c) by (nonlinear_arith);
    assert(t * c >= 0) by (nonlinear_arith)
        requires
            t >= 0,
            c >= 0,
    ;
}

/// The texture functions on a texel `t` over a vertex colour. MODULATE (0)
/// leaves a vertex colour of 0x80 as the texel and a texel of 0x80 as the
/// vertex colour; DECAL (1) takes the texel; the highlights (2, 3) add the
/// vertex alpha to what MODULATE gives. The alpha is the vertex's without
/// TCC; with it, it is the texel's, scaled only by MODULATE.
pub proof fn law_texture_functions(p: PixelPipe, c: Colour, t: u32)
    requires
        c.wf(),
    ensures
        ({
            let r = textured(p, c, t);
            let m = textured(PixelPipe { tfx: 0, ..p }, c, t);
            let (tr, tg, tb, ta) = (
                t as int % 256,
                t as int / 0x100 % 256,
                t as int / 0x1_0000 % 256,
                t as int / 0x100_0000,
            );
            &&& r.wf()
            &&& p.tfx == 0 && c.r == 0x80 && c.g == 0x80 && c.b == 0x80 ==> r.r == tr && r.g == tg && r.b == tb
            &&& p.tfx == 0 && tr == 0x80 ==> r.r == c.r
            &&& p.tfx == 0 && tg == 0x80 ==> r.g == c.g
            &&& p.tfx == 0 && tb == 0x80 ==> r.b == c.b
            &&& p.tfx == 1 ==> r.r == tr && r.g == tg && r.b == tb
            &&& p.tfx >= 2 && m.r + c.a <= 255 ==> r.r == m.r + c.a
            &&& p.tfx >= 2 && m.g + c.a <= 255 ==> r.g == m.g + c.a
            &&& p.tfx >= 2 && m.b + c.a <= 255 ==> r.b == m.b + c.a
            &&& p.tfx >= 2 && m.r + c.a > 255 ==> r.r == 255
            &&& p.tfx >= 2 && m.g + c.a > 255 ==> r.g == 255
            &&& p.tfx >= 2 && m.b + c.a > 255 ==> r.b == 255
            &&& !p.tcc ==> r.a == c.a
            &&& p.tcc && p.tfx != 0 ==> r.a == ta
            &&& p.tcc && p.tfx == 0 && c.a == 0x80 ==> r.a == ta
            &&& p.tcc && p.tfx == 0 && ta == 0x80 ==> r.a == c.a
        }),
{
    let (tr, tg, tb, ta) = (channel(t, 0), channel(t, 1), channel(t, 2), channel(t, 3));
    lemma_channels(t);
    law_modulate_scales(tr, c.r as int);
    law_modulate_scales(tg, c.g as int);
    law_modulate_scales(tb, c.b as int);
    law_modulate_scales(ta, c.a as int);
    assert(tr * c.r >= 0 && tg * c.g >= 0 && tb * c.b >= 0 && ta * c.a >= 0) by (nonlinear_arith)
        requires
            tr >= 0,
            tg >= 0,
            tb >= 0,
            ta >= 0,
            c.r >= 0,
            c.g >= 0,
            c.b >= 0,
            c.a >= 0,
    ;
}

/// The alpha tests by number: NEVER and ALWAYS; of LESS (2), EQUAL (4) and
/// GREATER (6) exactly one passes; LEQUAL (3) and GEQUAL (5) pass where
/// either of their two do; NOTEQUAL (7) where EQUAL does not. Without ATE
/// every alpha passes.
pub proof fn law_alpha_tests(p: PixelPipe, a: int)
    ensures
        ({
            let q = |n: u8| alpha_passes(PixelPipe { ate: true, atst: n, ..p }, a);
            &&& !q(0) && q(1)
            &&& q(2) <==> a < p.aref
            &&& q(4) <==> a == p.aref
            &&& q(6) <==> p.aref < a
            &&& q(3) <==> q(2) || q(4)
            &&& q(5) <==> q(6) || q(4)
            &&& q(7) <==> !q(4)
            &&& !p.ate ==> alpha_passes(p, a)
        }),
{
}

/// The depth tests by number: NEVER and ALWAYS; GEQUAL (2) and GREATER (3)
/// differ on equal depths alone, and an unmasked depth passes GREATER when
/// it is the greater number. Of a stored word, 24-bit and 16-bit depth
/// buffers look at that many low bits.
pub proof fn law_depth_tests(p: PixelPipe, z: u32, stored: u32)
    requires
        p.zmask == u32::MAX || p.zmask == 0xFF_FFFF || p.zmask == 0xFFFF,
    ensures
        ({
            let q = |n: u8| depth_passes(PixelPipe { ztst: n, ..p }, z, stored);
            let kept = if p.zmask == u32::MAX {
                stored as int
            } else if p.zmask == 0xFF_FFFF {
                stored as int % 0x100_0000
            } else {
                stored as int % 0x1_0000
            };
            &&& !q(0) && q(1)
            &&& q(3) <==> kept < z
            &&& q(2) <==> kept < z || kept == z
        }),
{
    lemma_depth_bits(stored);
}

proof fn lemma_depth_bits(v: u32)
    by (bit_vector)
    ensures
        v & 0xFFFF == v % 0x1_0000,
        v & 0xFF_FFFF == v % 0x100_0000,
        v & 0xFFFF_FFFF == v,
        (v & !0xFFFF_FFFFu32) == 0,
        0u32 | v == v,
{
}

proof fn lemma_put_keeps(mem: Seq<u8>, at: int, v: nat, i: int)
    requires
        0 <= i < mem.len(),
        !(at <= i < at + 4),
    ensures
        crate::bytes::put(mem, at, 4, v)[i] == mem[i],
{
    lemma_le_bytes_len(v, 4);
}

/// What AFAIL lets a pixel do that fails its alpha test: KEEP nothing,
/// FB_ONLY and RGB_ONLY no byte outside its frame word, ZB_ONLY no byte
/// outside its depth word.
pub proof fn law_afail(mem: Seq<u8>, p: PixelPipe, x: u32, y: u32, colour: Colour, z: u32, i: int)
    requires
        !p.tme,
        !alpha_passes(p, colour.a as int),
        0 <= i < mem.len(),
    ensures
        ({
            let after = shaded(mem, p, x, y, colour, z, 0);
            let in_frame = fb_at(mem.len() as int, p, x, y) <= i < fb_at(mem.len() as int, p, x, y) + 4;
            let in_depth = z_at(mem.len() as int, p, x, y) <= i < z_at(mem.len() as int, p, x, y) + 4;
            &&& p.afail == 0 ==> after[i] == mem[i]
            &&& (p.afail == 1 || p.afail == 3) && !in_frame ==> after[i] == mem[i]
            &&& p.afail == 2 && !in_depth ==> after[i] == mem[i]
        }),
{
    let len = mem.len() as int;
    let px = frame_word(p, colour, stored_px(mem, p, x, y), p.afail == 3);
    let zw = ((stored_z(mem, p, x, y) & !p.zmask) | (z & p.zmask)) as nat;
    if !(fb_at(len, p, x, y) <= i < fb_at(len, p, x, y) + 4) {
        lemma_put_keeps(mem, fb_at(len, p, x, y), px as nat, i);
    }
    if !(z_at(len, p, x, y) <= i < z_at(len, p, x, y) + 4) {
        lemma_put_keeps(mem, z_at(len, p, x, y), zw, i);
    }
}

/// A pixel that passes its tests and writes no depth leaves its frame word
/// and touches nothing else.
pub proof fn law_drawn_pixel(mem: Seq<u8>, p: PixelPipe, x: u32, y: u32, colour: Colour, z: u32, i: int)
    requires
        !p.tme,
        alpha_passes(p, colour.a as int),
        !p.zte || (p.zmsk && (p.ztst == 1 || depth_passes(p, z & p.zmask, stored_z(mem, p, x, y)))),
        0 <= fb_at(mem.len() as int, p, x, y) <= mem.len() - 4,
        0 <= i < mem.len(),
    ensures
        ({
            let after = shaded(mem, p, x, y, colour, z, 0);
            let at = fb_at(mem.len() as int, p, x, y);
            &&& stored_px(after, p, x, y) == frame_word(p, colour, stored_px(mem, p, x, y), false)
            &&& !(at <= i < at + 4) ==> after[i] == mem[i]
        }),
{
    let at = fb_at(mem.len() as int, p, x, y);
    let px = frame_word(p, colour, stored_px(mem, p, x, y), false);
    reveal_with_fuel(pow256, 5);
    law_get_after_put(mem, at, 4, px as nat);
    if !(at <= i < at + 4) {
        lemma_put_keeps(mem, at, px as nat, i);
    }
}

/// A pixel that passes its tests with a 32-bit depth buffer leaves its depth
/// there, where the frame word does not share the place.
pub proof fn law_drawn_depth(mem: Seq<u8>, p: PixelPipe, x: u32, y: u32, colour: Colour, z: u32)
    requires
        !p.tme,
        alpha_passes(p, colour.a as int),
        p.zte,
        !p.zmsk,
        p.zmask == u32::MAX,
        depth_passes(p, z, stored_z(mem, p, x, y)),
        0 <= fb_at(mem.len() as int, p, x, y) <= mem.len() - 4,
        0 <= z_at(mem.len() as int, p, x, y) <= mem.len() - 4,
        fb_at(mem.len() as int, p, x, y) + 4 <= z_at(mem.len() as int, p, x, y) || z_at(mem.len() as int, p, x, y) + 4
            <= fb_at(mem.len() as int, p, x, y),
    ensures
        stored_z(shaded(mem, p, x, y, colour, z, 0), p, x, y) == z,
        stored_px(shaded(mem, p, x, y, colour, z, 0), p, x, y) == frame_word(
            p,
            colour,
            stored_px(mem, p, x, y),
            false,
        ),
{
    let len = mem.len() as int;
    let (fb, zb) = (fb_at(len, p, x, y), z_at(len, p, x, y));
    let old = stored_z(mem, p, x, y);
    lemma_depth_bits(z);
    lemma_depth_bits(old);
    assert((old & !p.zmask) | (z & p.zmask) == z);
    reveal_with_fuel(pow256, 5);
    law_get_after_put(mem, zb, 4, z as nat);
    law_get_beside_put(mem, zb, 4, z as nat, fb, 4);
    let mid = with_z(mem, p, x, y, z);
    assert(mid.len() == mem.len());
    let px = frame_word(p, colour, stored_px(mem, p, x, y), false);
    assert(stored_px(mid, p, x, y) == stored_px(mem, p, x, y));
    law_get_after_put(mid, fb, 4, px as nat);
    law_get_beside_put(mid, fb, 4, px as nat, zb, 4);
    assert(stored_z(mid, p, x, y) == z);
}

} // verus!
