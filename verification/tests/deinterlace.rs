//! Deinterlacing.

use ps2_core::gs::deinterlace::Deinterlace;
use ps2_core::gs::Gs;


/// Interlaced field buffers: weave keeps both fields, bob rebuilds the
/// other rows from the new field, adaptive does so only where the new
/// field differs from the one two vblanks ago.
#[test]
fn deinterlace_modes() {
    let mut gs = Gs::new();
    // 64x8 display (4 lines per field), field buffer at bp 0, PSMCT32,
    // PMODE circuit 1, SMODE2 INT+FFMD.
    gs.priv_write(0x0000, 1);
    gs.priv_write(0x0020, 3);
    gs.priv_write(0x0070, 1 << 9); // fbw 1
    gs.priv_write(0x0080, (63u64 << 32) | (7u64 << 44)); // 64x8
    let fill = |gs: &mut Gs, v: u32| {
        for y in 0..4 {
            for x in 0..64 {
                gs.write_psmct32(0, 1, x, y, v);
            }
        }
    };
    let px = |f: &[u8], w: u32, x: u32, y: u32| f[((y * w + x) * 4) as usize];
    // Field 0 = 0x10, field 1 = 0x20, then field 0 again = 0x30 (moved).
    fill(&mut gs, 0x10);
    let (_, _, f) = gs.framebuffer_woven(false, Deinterlace::Weave);
    assert_eq!(px(&f, 64, 5, 0), 0x10);
    fill(&mut gs, 0x20);
    let (_, _, f) = gs.framebuffer_woven(true, Deinterlace::Weave);
    assert_eq!((px(&f, 64, 5, 0), px(&f, 64, 5, 1)), (0x10, 0x20));
    fill(&mut gs, 0x30);
    let (_, _, f) = gs.framebuffer_woven(false, Deinterlace::Weave);
    assert_eq!((px(&f, 64, 5, 0), px(&f, 64, 5, 1)), (0x30, 0x20));
    // Bob on field 1 (0x40): even rows become the average of odd rows.
    fill(&mut gs, 0x40);
    let (_, _, f) = gs.framebuffer_woven(true, Deinterlace::Bob);
    assert_eq!((px(&f, 64, 5, 2), px(&f, 64, 5, 3)), (0x40, 0x40));
    // Adaptive: field 0 moves a lot (0x30 -> 0x80) so the odd rows
    // (0x40) are rebuilt from the new even rows; the motion weight then
    // decays over the following still fields until the frame weaves.
    fill(&mut gs, 0x80);
    let (_, _, f) = gs.framebuffer_woven(false, Deinterlace::Adaptive);
    assert_eq!((px(&f, 64, 5, 2), px(&f, 64, 5, 3)), (0x80, 0x80));
    // Per frame the missing rows (the other field's) head back from the
    // rebuilt value to their woven value as the weight decays.
    let (mut last_even, mut last_odd) = (0x40u8, 0x80u8);
    for i in 0..16 {
        let field1 = i % 2 == 0;
        fill(&mut gs, if field1 { 0x40 } else { 0x80 });
        let (_, _, f) = gs.framebuffer_woven(field1, Deinterlace::Adaptive);
        let (even, odd) = (px(&f, 64, 5, 2), px(&f, 64, 5, 3));
        if field1 {
            assert_eq!(odd, 0x40);
            assert!(even >= last_even, "even row drifts back up: {even:#x} after {last_even:#x}");
            last_even = even;
        } else {
            assert_eq!(even, 0x80);
            assert!(odd <= last_odd, "odd row drifts back down: {odd:#x} after {last_odd:#x}");
            last_odd = odd;
        }
    }
    assert_eq!((last_even, last_odd), (0x80, 0x40), "settles back to the weave");
    // Yadif and bwdif: a still vertical ramp (each field holding its
    // lines of it) comes out as the exact weave, one field late.
    let ramp = |gs: &mut Gs, field: bool| {
        for y in 0..4 {
            for x in 0..64 {
                gs.write_psmct32(0, 1, x, y, 0x40 + (2 * y + field as u32) * 8);
            }
        }
    };
    for mode in [Deinterlace::Yadif, Deinterlace::Bwdif] {
        for i in 0..6 {
            let field1 = i % 2 == 0;
            ramp(&mut gs, field1);
            let (_, _, f) = gs.framebuffer_woven(field1, mode);
            // The first frames still see the change from the earlier
            // fills in their temporal taps.
            if i >= 4 {
                let rows: Vec<u8> = (0..8).map(|y| px(&f, 64, 5, y)).collect();
                let want: Vec<u8> = (0..8).map(|y| (0x40 + y * 8) as u8).collect();
                assert_eq!(rows, want, "{mode:?} on a still ramp");
            }
        }
    }
}
