//! What is shown: the read circuit's registers and the composed frame.

use vstd::prelude::*;
use vstd::arithmetic::power2::*;
use crate::bits::law_bits_divide;
use super::display::{composed, frame, lemma_frame_at, line_px, scale, scanned, shown_px, Display};
use super::regs_laws::lemma_attribute_bits;
use super::transfer::{px_at, Surface, PSMCT16, PSMCT24, PSMCT32};
use super::Local;

verus! {

/// Circuit 2 is shown when it alone is enabled in PMODE, and circuit 1
/// otherwise.
pub proof fn law_shown_circuit(d: Display)
    ensures
        d.pmode as int % 4 == 2 ==> d.shown_fb() == d.dispfb2 && d.shown_display() == d.display2,
        d.pmode as int % 4 != 2 ==> d.shown_fb() == d.dispfb1 && d.shown_display() == d.display1,
{
    lemma_attribute_bits(0, d.pmode);
}

/// The fields of DISPFB, by place, and the field mode of SMODE2: a frame
/// buffer per field with both INT and FFMD.
pub proof fn law_shown_fields(d: Display)
    ensures
        ({
            let v = d.shown_view();
            let f = d.shown_fb() as int;
            &&& v.fbp == f % 512 * 32
            &&& v.fbw == f / 512 % 64
            &&& v.psm == f / 0x8000 % 32
            &&& v.dbx == f / 0x1_0000_0000 % 0x800
            &&& v.dby == f / 0x800_0000_0000 % 0x800
            &&& v.field_buffer <==> d.smode2 as int % 4 == 3
        }),
{
    lemma2_to64();
    lemma2_to64_rest();
    let f = d.shown_fb();
    law_bits_divide(f, 0, 9, 0x1FF);
    law_bits_divide(f, 9, 6, 0x3F);
    law_bits_divide(f, 15, 5, 0x1F);
    law_bits_divide(f, 32, 11, 0x7FF);
    law_bits_divide(f, 43, 11, 0x7FF);
    lemma_attribute_bits(0, d.smode2);
}

/// The shown size is DW + 1 by DH + 1 over the magnifications MAGH + 1 and
/// MAGV + 1, where that is a size of 1 to 1024; an odd height loses a line.
pub proof fn law_shown_size(d: Display)
    ensures
        ({
            let r = d.shown_display() as int;
            let (dw, dh) = (r / 0x1_0000_0000 % 0x1000 + 1, r / 0x1000_0000_0000 % 0x800 + 1);
            let (mh, mv) = (r / 0x80_0000 % 16 + 1, r / 0x800_0000 % 4 + 1);
            &&& 1 <= dw / mh <= 1024 ==> d.shown_width() == dw / mh
            &&& !(1 <= dw / mh <= 1024) ==> d.shown_width() == 640
            &&& 1 <= dh / mv <= 1024 ==> d.shown_height() == dh / mv - dh / mv % 2
            &&& !(1 <= dh / mv <= 1024) ==> d.shown_height() == 448
        }),
{
    lemma2_to64();
    lemma2_to64_rest();
    let r = d.shown_display();
    law_bits_divide(r, 32, 12, 0xFFF);
    law_bits_divide(r, 44, 11, 0x7FF);
    law_bits_divide(r, 23, 4, 0xF);
    law_bits_divide(r, 27, 2, 3);
}

/// A shown pixel is opaque and has the stored colour, red lowest; the five
/// bits of a 16-bit channel stand in the top of the byte.
pub proof fn law_shown_pixels(mem: Seq<u8>, s: Surface, x: u32, y: u32)
    ensures
        ({
            let px = px_at(mem, s, x, y) as int;
            let f = |ch: int| shown_px(mem, s, x, y, ch);
            &&& f(3) == 255
            &&& s.psm == PSMCT32 || s.psm == PSMCT24 ==> f(0) == px % 256 && f(1) == px / 0x100 % 256 && f(2) == px / 0x1_0000
                % 256
            &&& s.psm == PSMCT16 ==> f(0) == px % 32 * 8 && f(1) == px / 32 % 32 * 8 && f(2) == px / 1024 % 32 * 8
        }),
{
}

/// Pixel `(x, y)` of the composed frame is the frame buffer's pixel that
/// many places from the display origin; with a buffer per field each of its
/// lines is shown twice.
pub proof fn law_composed_pixels(d: Display, l: Local, x: int, y: int, ch: int)
    requires
        l.overlay is None,
        0 <= x < d.shown_width(),
        0 <= y < d.shown_height(),
        0 <= ch < 4,
    ensures
        ({
            let v = d.shown_view();
            let got = composed(d, l)[(y * d.shown_width() + x) * 4 + ch];
            let at = |row: int| shown_px(
                scanned(l),
                Surface { psm: v.psm, bp: v.fbp, bw: v.fbw },
                (v.dbx + x) as u32,
                (v.dby + row) as u32,
                ch,
            );
            &&& !v.field_buffer ==> got == at(y)
            &&& v.field_buffer ==> got == at(y / 2)
        }),
{
    let s = scale(l);
    let v = d.shown_view();
    let f = |x: int, y: int, ch: int|
        line_px(
            scanned(l),
            v,
            s,
            x,
            if v.field_buffer {
                y / 2
            } else {
                y
            },
            ch,
        );
    lemma_frame_at(d.shown_width() * s, d.shown_height() * s, f, x, y, ch);
    assert(composed(d, l) == frame(d.shown_width() * s, d.shown_height() * s, f));
}

} // verus!
