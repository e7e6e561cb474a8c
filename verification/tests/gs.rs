//! The GS: registers, transfers, the pixel pipeline and its bookkeeping.

use ps2_core::gif::Gif;
use ps2_core::gs::canvas::Canvas;
use ps2_core::gs::front::{Cmd, GsFront};
use ps2_core::gs::raster::batch::{Batch, Blocks, Footprint};
use ps2_core::gs::raster::mirror::mirror_rect;
use ps2_core::gs::raster::pipe::{PixelPipe, TexInfo};
use ps2_core::gs::raster::pixel::{alpha_test, bilerp_rgba, lerp_rgba, shade_px, shade_run, Colour};
use ps2_core::gs::raster::span::{covered_span, sprite_box, wind, EdgeRow, Rows};
use ps2_core::gs::raster::texture::{
    expand16, sample, sprite_texels, tex_row, wants_palette, wrap, ClutPool, Palette,
};
use ps2_core::gs::regs::{Primitive, Vertex};
use ps2_core::gs::stats::Stats;
use ps2_core::gs::Gs;

#[test]
fn pixels_read_back_in_every_format() {
    let mut c = Canvas::new();
    c.write_psmct32(32, 2, 70, 33, 0x1234_5678);
    assert_eq!(c.read_psmct32(32, 2, 70, 33), 0x1234_5678);
    c.write_psmz32(96, 2, 5, 6, 0x00AB_CDEF);
    assert_eq!(c.read_psmz32(96, 2, 5, 6), 0x00AB_CDEF);
    c.write_psmct16(256, 1, 63, 63, 2, 0xBEEF);
    assert_eq!(c.read_psmct16(256, 1, 63, 63, 2), 0xBEEF);
    c.write_psmt8(512, 2, 127, 1, 0x9C);
    assert_eq!(c.read_psmt8(512, 2, 127, 1), 0x9C);
    c.write_psmt4(768, 2, 2, 3, 0x6);
    c.write_psmt4(768, 2, 3, 3, 0x9);
    assert_eq!((c.read_psmt4(768, 2, 2, 3), c.read_psmt4(768, 2, 3, 3)), (6, 9));
    // Formats over one memory see each other: the 8-bit texel at the origin
    // is the low byte of the 32-bit pixel there.
    c.write_psmct32(1024, 1, 0, 0, 0x1122_3344);
    assert_eq!(c.read_psmt8(1024, 2, 0, 0), 0x44);
}

fn transfer(gs: &mut Gs, buf: u64, pos: u64, w: u64, h: u64, dir: u64) {
    gs.write_reg(0x50, buf);
    gs.write_reg(0x51, pos);
    gs.write_reg(0x52, w | (h << 32));
    gs.write_reg(0x53, dir);
}

#[test]
fn an_upload_lands_in_rows() {
    let mut gs = Gs::new();
    transfer(&mut gs, 1 << 48, 0, 2, 2, 0);
    assert!(gs.touches_memory(0x54, 0));
    gs.write_reg(0x54, 0x2222_2222_1111_1111);
    gs.image(&[0x4444_4444_3333_3333]);
    assert_eq!(gs.read_psmct32(0, 1, 0, 0), 0x1111_1111);
    assert_eq!(gs.read_psmct32(0, 1, 1, 0), 0x2222_2222);
    assert_eq!(gs.read_psmct32(0, 1, 0, 1), 0x3333_3333);
    assert_eq!(gs.read_psmct32(0, 1, 1, 1), 0x4444_4444);
    // Local to local, two pixels from row 1 to another buffer.
    transfer(&mut gs, (1 << 16) | (32 << 32) | (1 << 48), 1 << 16, 2, 1, 2);
    assert_eq!(gs.read_psmct32(32, 1, 0, 0), 0x3333_3333);
    assert_eq!(gs.read_psmct32(32, 1, 1, 0), 0x4444_4444);
}

#[test]
fn the_overlay_does_not_change_local_memory() {
    let draw = |hi: bool| {
        let mut gs = Gs::new();
        gs.set_internal_2x(hi);
        assert_eq!(gs.internal_2x(), hi);
        transfer(&mut gs, 1 << 48, 0, 4, 1, 0);
        gs.image(&[0x0102_0304_0506_0708, 0x1112_1314_1516_1718]);
        gs.vram_snapshot()
    };
    assert!(draw(false) == draw(true));
}

#[test]
fn packed_tags_write_their_registers() {
    let mut g = Gif::new();
    assert!(g.idle());
    // One loop of A+D, end of packet.
    assert!(g.process(1 | (1 << 15) | (1 << 60), 0xE).is_empty());
    assert!(!g.idle());
    let out = g.process(0x1234, 0x4C);
    assert_eq!(out.iter().map(|w| (w.reg, w.v)).collect::<Vec<_>>(), [(0x4C, 0x1234)]);
    assert!(g.idle());
    // IMAGE mode: both halves of each quadword are HWREG words.
    g.process(1 | (1 << 15) | (2 << 58), 0);
    let out = g.process(7, 8);
    assert_eq!(out.iter().map(|w| (w.reg, w.v)).collect::<Vec<_>>(), [(0x54, 7), (0x54, 8)]);
}

#[test]
fn csr_flags_are_cleared_by_ones() {
    let mut f = GsFront::new();
    f.priv_write(0x1200_1010, 0);
    f.write_reg(0x60, 0);
    f.write_reg(0x61, 0);
    assert!(f.irq.intc_pending);
    assert_eq!(f.priv_read(0x1200_1000), 0x551B_4003);
    f.priv_write(0x1200_1000, 1);
    assert_eq!(f.priv_read(0x1200_1000), 0x551B_4002);
    f.priv_write(0x1200_1000, 0x200);
    assert_eq!(f.priv_read(0x1200_1000), 0x551B_4000);
    f.priv_write(0x1200_1010, 0xFF00);
    assert_eq!(f.priv_read(0x1200_1010), 0xFF00);
    // A masked flag does not reach the interrupt controller.
    let mut f = GsFront::new();
    f.priv_write(0x1200_1010, 0x100);
    f.write_reg(0x60, 0);
    assert!(!f.irq.intc_pending);
}

#[test]
fn commands_keep_their_order() {
    let mut f = GsFront::new();
    assert!(f.is_threaded());
    f.write_reg(0x54, 1);
    f.write_reg(0x54, 2);
    f.write_reg(0x4C, 3);
    f.priv_write(0x1200_0000, 4);
    let batch = f.flush();
    assert_eq!(batch.len(), 3);
    assert!(matches!(&batch[0], Cmd::Image(v) if v == &[1, 2]));
    assert!(matches!(batch[1], Cmd::Reg(0x4C, 3)));
    assert!(matches!(batch[2], Cmd::Priv(0x1200_0000, 4)));
    assert!(f.flush().is_empty());
    let state = f.snapshot();
    let mut g = GsFront::inline();
    g.restore(&state);
    assert_eq!(g.priv_read(0x1200_0000), 4);
}

#[test]
fn filters_end_where_they_should() {
    assert_eq!(lerp_rgba(0x0102_0304, 0xF0E0_D0C0, 0), 0x0102_0304);
    assert_eq!(lerp_rgba(0x0102_0304, 0xF0E0_D0C0, 256), 0xF0E0_D0C0);
    assert_eq!(lerp_rgba(0x0000_0000, 0x0000_00FF, 128), 0x0000_007F);
    assert_eq!(bilerp_rgba(0x55, 0x55, 0x55, 0x55, 77, 200), 0x55);
    assert_eq!(expand16(0x801F, 0x80 << 32), 0x8000_00F8);
    // Repeat, clamp, region clamp, region repeat.
    assert_eq!(wrap(70, 0, 64, 0, 0), 6);
    assert_eq!(wrap(-1, 0, 64, 0, 0), 63);
    assert_eq!(wrap(70, 1, 64, 0, 0), 63);
    assert_eq!(wrap(70, 2, 64, 8, 40), 40);
    assert_eq!(wrap(0x15, 3, 64, 0x0F, 0x20), 0x25);
}

#[test]
fn lanes_share_the_rows() {
    let rows = |lane| Rows { start: 1, end: 9, lane, lanes: 2 }.iter();
    assert_eq!(rows(0), [1, 4, 5, 8]);
    assert_eq!(rows(1), [2, 3, 6, 7]);
    assert_eq!(Rows::all(3, 6).iter(), [3, 4, 5]);
}

fn vertex(x: i32, y: i32) -> Vertex {
    Vertex { x, y, z: 0, r: 0, g: 0, b: 0, a: 0, q: 0, s: 0, t: 0, u: 0, v: 0 }
}

#[test]
fn triangles_are_wound_and_spans_cut() {
    let (a, b, c) = (vertex(0, 0), vertex(16, 0), vertex(0, 16));
    let (_, p, q) = wind(a, b, c).unwrap();
    let (_, r, s) = wind(a, c, b).unwrap();
    assert_eq!((p.x, p.y, q.x, q.y), (r.x, r.y, s.x, s.y));
    assert!(wind(a, b, vertex(32, 0)).is_none());
    let e = |w, d| EdgeRow { w, d };
    // Inside from pixel 3 on, up to pixel 7, and everywhere.
    assert_eq!(covered_span(e(-5, 2), e(14, -2), e(1, 0), 20), (3, 8));
}

#[test]
fn clashing_primitives_do_not_share_a_batch() {
    let at = |start, end| Some(Blocks { start, end });
    let plain = Footprint { tex: None, fb: at(0, 32), zb: None, fbp: 0, zbp: 64, fbw: 1 };
    let mut b = Batch::new();
    assert!(!b.enqueue(plain, 100).flush);
    // The same buffer again joins the queue.
    let p = b.enqueue(plain, 100);
    assert!(!p.flush && !p.inline);
    // Sampling what the queue writes does not.
    let sampling = Footprint { tex: at(16, 20), fb: at(64, 96), fbp: 64, ..plain };
    assert!(b.enqueue(sampling, 100).flush);
    // Nor does writing it through another buffer.
    let other = Footprint { fb: at(80, 112), fbp: 80, ..plain };
    assert!(b.enqueue(other, 100).flush);
    assert_eq!(b.writes.len(), 1);
    // Ranges that meet are joined, others stand beside each other.
    let next = Footprint { fb: at(112, 120), ..other };
    b.enqueue(next, 100);
    b.enqueue(Footprint { fb: at(200, 210), tex: at(300, 304), ..other }, 100);
    let noted: Vec<(u32, u32)> = b.writes.iter().map(|w| (w.r.start, w.r.end)).collect();
    assert_eq!(noted, [(80, 120), (200, 210)]);
    assert_eq!(b.reads.iter().map(|r| (r.start, r.end)).collect::<Vec<_>>(), [(300, 304)]);
    // Sampling its own target runs at once.
    assert!(b.enqueue(Footprint { tex: at(0, 4), ..plain }, 100).inline);
}

#[test]
fn a_palette_waits_for_the_queue_that_writes_it() {
    let mut canvas = Canvas::new();
    canvas.write_psmct32(64, 1, 0, 0, 0x8011_2233);
    let mut ctx = Gs::new().regs.current_context();
    ctx.tex0 = 0x13 << 20 | 64 << 37;
    let ti = TexInfo::new(&ctx, 0);
    assert!(wants_palette(0x10, &ti) && !wants_palette(0, &ti));
    let at = |start, end| Some(Blocks { start, end });
    let over = Footprint { tex: None, fb: at(66, 67), zb: None, fbp: 66, zbp: 0, fbw: 1 };
    let (mut pool, mut batch) = (ClutPool::new(), Batch::new());
    assert!(!batch.palette_needs_flush(&ti));
    batch.enqueue(over, 100);
    assert!(batch.palette_needs_flush(&ti));
    assert!(matches!(pool.palette(&batch, false, &canvas, &ti), Palette::Draw));
    batch.clear();
    assert!(matches!(pool.palette(&batch, false, &canvas, &ti), Palette::Ready(0)));
    assert_eq!(pool.block(0)[0], 0x8011_2233);
    // What is decoded already is matched, until a transfer.
    batch.enqueue(over, 100);
    assert!(matches!(pool.palette(&batch, false, &canvas, &ti), Palette::Ready(0)));
    assert!(matches!(pool.palette(&batch, true, &canvas, &ti), Palette::Draw));
    batch.clear();
    assert!(matches!(pool.palette(&batch, false, &canvas, &ti), Palette::Ready(512)));
}

#[test]
fn statistics_add_up() {
    let mut s = Stats::default();
    s.drew(&Primitive::Sprite(vertex(0, 0), vertex(1, 1)), true);
    s.drew(&Primitive::Point(vertex(0, 0)), true);
    s.split(2);
    let mut samples = vec![0; 64];
    samples[0x13] = 5;
    s.merge(7, &samples);
    s.merge(7, &samples);
    assert_eq!((s.prims_drawn, s.prims_textured, s.prims_split, s.pixels_shaded), (2, 1, 2, 14));
    assert_eq!(s.tex_psm_hist[0x13], 10);
    let mut gs = Gs::new();
    gs.write_reg(0x4C, 5);
    s.note_contexts(&gs.regs);
    assert_eq!(s.frame, [5, 0]);
}

#[test]
fn tests_and_masks_keep_the_frame() {
    let mut gs = Gs::new();
    gs.write_reg(0x1A, 1);
    gs.write_reg(0x4C, 1 << 16);
    // ATST GEQUAL 0x80, AFAIL KEEP.
    gs.write_reg(0x47, 1 | (5 << 1) | (0x80 << 4));
    let p = PixelPipe::new(&gs.regs, 0);
    assert!(alpha_test(&p, 0x80));
    assert!(!alpha_test(&p, 0x7F));
    let c = |a| Colour { r: 1, g: 2, b: 3, a };
    let mut m = Canvas::new();
    shade_px(&mut m, &p, 4, 5, c(0x7F), 0, 0);
    assert_eq!(m.read_psmct32(0, 1, 4, 5), 0);
    shade_px(&mut m, &p, 4, 5, c(0x80), 0, 0);
    assert_eq!(m.read_psmct32(0, 1, 4, 5), 0x8003_0201);
    // FBMSK keeps masked bits.
    gs.write_reg(0x4C, (1 << 16) | (0xFFFF_FF00 << 32));
    let p = PixelPipe::new(&gs.regs, 0);
    shade_px(&mut m, &p, 4, 5, Colour { r: 9, g: 9, b: 9, a: 0xFF }, 0, 0);
    assert_eq!(m.read_psmct32(0, 1, 4, 5), 0x8003_0209);
}

/// Draw an unfiltered, texel-addressed sprite a row at a time.
fn draw_sprite(gs: &mut Gs, stats: &mut Stats, v0: Vertex, v1: Vertex) {
    let p = PixelPipe::new(&gs.regs, 0);
    stats.drew(&Primitive::Sprite(v0, v1), p.tme);
    let b = sprite_box(&p, &v0, &v1);
    let colour = Colour { r: v1.r as u32, g: v1.g as u32, b: v1.b as u32, a: v1.a as u32 };
    let du = ((v1.u - v0.u) as f64 / (v1.x - v0.x) as f64 * 4294967296.0) as i64;
    let dv = (v1.v - v0.v) as f64 / (v1.y - v0.y) as f64;
    let ua = ((v0.u as i64) << 28) + ((b.pxa * 16 - v0.x) as i64 * du) / 16;
    for y in b.rya..b.ryb {
        let v = (v0.v as f64 + (y * 16 - v0.y) as f64 * dv) / 16.0;
        let row = tex_row(&gs.local.canvas, &[0; 512], &p.tex, v as i32, 0, 640);
        let texels = sprite_texels(&row, &row, 0, 0, ua, du, (b.pxb - b.pxa) as usize, false);
        shade_run(&mut gs.local.canvas, &p, b.pxa as u32, y as u32, colour, v1.z, &texels);
    }
}

/// Full-screen textured sprite copying one 640x224 buffer into another
/// (Amagami's OP does this to build a refraction source).
#[test]
fn textured_sprite_copies_between_frame_buffers() {
    let mut gs = Gs::new();
    let mut stats = Stats::default();
    let mut write_reg = |gs: &mut Gs, reg: u8, v: u64| {
        if let Some(Primitive::Sprite(v0, v1)) = gs.write_reg(reg, v) {
            draw_sprite(gs, &mut stats, v0, v1);
        }
        stats.prims_drawn
    };
    for y in 0..224 {
        for x in 0..640 {
            gs.write_psmct32(2240, 10, x, y, 0x8060_7080);
        }
    }
    write_reg(&mut gs, 0x1A, 1); // PRMODECONT: use PRIM
    write_reg(&mut gs, 0x4C, 210 | (10 << 16)); // FRAME_1: 6720, fbw 10, PSMCT32
    write_reg(&mut gs, 0x4E, 140 | (1 << 24) | (1 << 32)); // ZBUF_1: 4480, Z24, masked
    write_reg(&mut gs, 0x47, 0x30000); // TEST_1: ZTE, ALWAYS
    write_reg(&mut gs, 0x40, 639 << 16 | 223 << 48); // SCISSOR_1
    write_reg(&mut gs, 0x18, (1728 * 16) | ((1936 * 16) << 32)); // XYOFFSET_1
    write_reg(&mut gs, 0x06, 0x6_2812_88c0); // TEX0_1: 2240, tbw 10, PSMCT24, 1024x256
    write_reg(&mut gs, 0x00, 0x116); // sprite, TME, FST
    write_reg(&mut gs, 0x01, 0x8080_8080); // RGBAQ: unity modulate
    write_reg(&mut gs, 0x03, 0);
    write_reg(&mut gs, 0x05, (1728 * 16) | ((1936 * 16) << 16));
    write_reg(&mut gs, 0x03, (639 * 16 + 8) | ((223 * 16 + 8) << 16));
    let drawn = write_reg(&mut gs, 0x05, ((1728 + 639) * 16 + 8) | (((1936 + 223) * 16 + 8) << 16));
    assert_eq!(drawn, 1);
    assert_eq!(gs.read_psmct32(6720, 10, 320, 100) & 0xFF_FFFF, 0x60_7080);
    assert_eq!(gs.read_psmct32(6720, 10, 0, 0) & 0xFF_FFFF, 0x60_7080);

    // Same copy Z-tested (GEQUAL) at z = 0xFFFFFF against a Z24 buffer
    // full of garbage upper bytes: a 24-bit compare must pass.
    for y in 0..224 {
        for x in 0..640 {
            gs.write_psmct32(4480, 10, x, y, 0xFF12_3456);
        }
    }
    write_reg(&mut gs, 0x4C, 280 | (10 << 16)); // FRAME_1: 8960
    write_reg(&mut gs, 0x47, 0x50000); // TEST_1: ZTE, GEQUAL
    write_reg(&mut gs, 0x03, 0);
    write_reg(&mut gs, 0x05, (1728 * 16) | ((1936 * 16) << 16) | (0xFF_FFFF << 32));
    write_reg(&mut gs, 0x03, (639 * 16 + 8) | ((223 * 16 + 8) << 16));
    let drawn =
        write_reg(&mut gs, 0x05, ((1728 + 639) * 16 + 8) | (((1936 + 223) * 16 + 8) << 16) | (0xFF_FFFF << 32));
    assert_eq!(drawn, 2);
    assert_eq!(gs.read_psmct32(8960, 10, 320, 100) & 0xFF_FFFF, 0x60_7080);
}

#[test]
fn samples_blend_a_footprint() {
    let mut gs = Gs::new();
    // An 8x8 texture of 32-bit texels, repeated.
    gs.write_reg(0x06, (1 << 14) | (3 << 26) | (3 << 30));
    let p = PixelPipe::new(&gs.regs, 0);
    let mut c = Canvas::new();
    c.write_psmct32(0, 1, 7, 0, 0x0000_0080);
    c.write_psmct32(0, 1, 0, 0, 0x0000_0040);
    let clut = vec![0u32; 512];
    assert_eq!(sample(&c, &clut, &p.tex, 7, 0, 0, 0), 0x80);
    // The footprint of the last column wraps to the first.
    assert_eq!(sample(&c, &clut, &p.tex, 7, 0, 128, 0), 0x60);
    assert_eq!(sample(&c, &clut, &p.tex, 7, 7, 0, 256), 0x80);
}

#[test]
fn inline_primitives_are_mirrored() {
    let mut gs = Gs::new();
    gs.write_reg(0x4C, 1 << 16); // FRAME_1: base 0, width 1
    gs.write_reg(0x4E, 1); // ZBUF_1: page 1
    gs.write_reg(0x47, 1 << 16); // TEST_1: ZTE
    let p = PixelPipe::new(&gs.regs, 0);
    let mut c = Canvas::new();
    c.write_psmct32(p.fbp, p.fbw, 3, 2, 0xAABB_CCDD);
    c.write_psmz32(p.zbp, p.fbw, 3, 2, 77);
    let mut over = Canvas::with_size(4 * c.size());
    mirror_rect(&mut over, &c, &p, -4, 3, 2, 3);
    for (x, y) in [(6, 4), (7, 4), (6, 5), (7, 5)] {
        assert_eq!(over.read_psmct32(4 * p.fbp, 2 * p.fbw, x, y), 0xAABB_CCDD);
        assert_eq!(over.read_psmz32(4 * p.zbp, 2 * p.fbw, x, y), 77);
    }
    assert_eq!(over.read_psmct32(4 * p.fbp, 2 * p.fbw, 8, 4), 0);
}

#[test]
fn a_saved_state_is_put_back() {
    let mut gs = Gs::new();
    gs.set_internal_2x(true);
    gs.write_psmct32_bits(0, 1, 3, 4, 0x1234_5678, u32::MAX);
    gs.write_reg(0x00, 3);
    gs.write_reg(0x05, 0x0010_0010);
    gs.clut_dirty = false;
    let back = gs.saved().restore().unwrap();
    assert_eq!(back.vram_snapshot(), gs.vram_snapshot());
    assert!(back.internal_2x() && back.clut_dirty);
    assert_eq!((back.regs.prim, back.regs.vq_len), (3, 1));
    // A state that the unit cannot be in is not.
    let mut s = gs.saved();
    s.regs.vq_len = 3;
    assert!(!s.regs.valid());
    assert!(s.restore().is_none());
    let mut s = gs.saved();
    s.vram.pop();
    assert!(s.restore().is_none());
    let mut s = gs.saved();
    s.weaver.dims = (640, 448);
    assert!(s.restore().is_none());
}
