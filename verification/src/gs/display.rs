//! Scanout: what the read circuit shows of local memory.

use vstd::prelude::*;
use crate::bits::bits;
use super::canvas::Canvas;
use super::transfer::{px_at, get_pixel, Surface, PSMCT16, PSMCT16S, PSMCT24, PSMCT32};
use super::upload::Local;

verus! {

/// Display-side privileged registers.
#[derive(Clone, Copy)]
pub struct Display {
    pub pmode: u64,
    pub smode1: u64,
    pub smode2: u64,
    pub dispfb1: u64,
    pub display1: u64,
    pub dispfb2: u64,
    pub display2: u64,
    pub bgcolor: u64,
}

impl Display {
    /// The registers after a privileged write.
    pub open spec fn written(self, addr: u32, v: u64) -> Display {
        let reg = addr & 0x1FF0;
        if reg == 0x0000 {
            Display { pmode: v, ..self }
        } else if reg == 0x0010 {
            Display { smode1: v, ..self }
        } else if reg == 0x0020 {
            Display { smode2: v, ..self }
        } else if reg == 0x0070 {
            Display { dispfb1: v, ..self }
        } else if reg == 0x0080 {
            Display { display1: v, ..self }
        } else if reg == 0x0090 {
            Display { dispfb2: v, ..self }
        } else if reg == 0x00A0 {
            Display { display2: v, ..self }
        } else if reg == 0x00E0 {
            Display { bgcolor: v, ..self }
        } else {
            self
        }
    }

    /// Display-side privileged registers (PMODE, SMODE, DISPFB, DISPLAY,
    /// BGCOLOR); addresses of other registers change nothing.
    pub fn priv_write(&mut self, addr: u32, v: u64)
        ensures
            *final(self) == old(self).written(addr, v),
    {
        let reg: u32 = addr & 0x1FF0;
        match reg {
            0x0000 => self.pmode = v,
            0x0010 => self.smode1 = v,
            0x0020 => self.smode2 = v,
            0x0070 => self.dispfb1 = v,
            0x0080 => self.display1 = v,
            0x0090 => self.dispfb2 = v,
            0x00A0 => self.display2 = v,
            0x00E0 => self.bgcolor = v,
            _ => {},
        }
    }

    /// The circuit shown: an enabled one, circuit 1 before circuit 2, and
    /// circuit 1 where none is enabled.
    pub open spec fn second_circuit(self) -> bool {
        self.pmode & 1 == 0 && self.pmode & 2 != 0
    }

    pub open spec fn shown_fb(self) -> u64 {
        if self.second_circuit() {
            self.dispfb2
        } else {
            self.dispfb1
        }
    }

    pub open spec fn shown_display(self) -> u64 {
        if self.second_circuit() {
            self.display2
        } else {
            self.display1
        }
    }

    /// Width in pixels: the display width over the horizontal
    /// magnification, 640 where that is no sensible width.
    pub open spec fn shown_width(self) -> int {
        let d = self.shown_display();
        let w = (bits(d, 32, 0xFFF) + 1) as int / (bits(d, 23, 0xF) + 1) as int;
        if w == 0 || w > 1024 {
            640
        } else {
            w
        }
    }

    /// Height in lines, rounded down to even; 448 where the registers give
    /// no sensible height.
    pub open spec fn shown_height(self) -> int {
        let d = self.shown_display();
        let h = (bits(d, 44, 0x7FF) + 1) as int / (bits(d, 27, 3) + 1) as int;
        let h = if h == 0 || h > 1024 {
            448
        } else {
            h
        };
        h - h % 2
    }

    /// What the read circuit reads. INT+FFMD: each field is a half-height
    /// buffer.
    pub open spec fn shown_view(self) -> DisplayView {
        let f = self.shown_fb();
        DisplayView {
            fbp: (bits(f, 0, 0x1FF) * 32) as u32,
            fbw: bits(f, 9, 0x3F) as u32,
            psm: bits(f, 15, 0x1F) as u32,
            dbx: bits(f, 32, 0x7FF) as u32,
            dby: bits(f, 43, 0x7FF) as u32,
            field_buffer: self.smode2 & 3 == 3,
        }
    }

    /// Decode PMODE/DISPFB/DISPLAY into what the read circuit shows.
    pub fn display_view(&self) -> (r: (u32, u32, DisplayView))
        ensures
            r.0 == self.shown_width(),
            r.1 == self.shown_height(),
            r.2 == self.shown_view(),
            1 <= r.0 <= 1024,
            0 <= r.1 <= 1024,
            r.1 % 2 == 0,
            r.2.wf(),
    {
        let second = self.pmode & 1 == 0 && self.pmode & 2 != 0;
        let dispfb: u64 = if second { self.dispfb2 } else { self.dispfb1 };
        let display: u64 = if second { self.display2 } else { self.display1 };
        let magh: u64 = bits(display, 23, 0xF) + 1;
        let magv: u64 = bits(display, 27, 3) + 1;
        let dw: u64 = bits(display, 32, 0xFFF) + 1;
        let dh: u64 = bits(display, 44, 0x7FF) + 1;
        let mut w: u64 = dw / magh;
        let mut h: u64 = dh / magv;
        if w == 0 || w > 1024 {
            w = 640;
        }
        if h == 0 || h > 1024 {
            h = 448;
        }
        let view = DisplayView {
            fbp: (bits(dispfb, 0, 0x1FF) * 32) as u32,  // pages -> blocks
            fbw: bits(dispfb, 9, 0x3F) as u32,
            psm: bits(dispfb, 15, 0x1F) as u32,
            dbx: bits(dispfb, 32, 0x7FF) as u32,
            dby: bits(dispfb, 43, 0x7FF) as u32,
            field_buffer: self.smode2 & 3 == 3,
        };
        (w as u32, (h - h % 2) as u32, view)
    }
}

/// Read-circuit parameters for scanout.
#[derive(Clone, Copy)]
pub struct DisplayView {
    pub fbp: u32,
    pub fbw: u32,
    pub psm: u32,
    pub dbx: u32,
    pub dby: u32,
    pub field_buffer: bool,
}

impl DisplayView {
    /// The ranges that the register fields leave.
    pub open spec fn wf(self) -> bool {
        self.fbp < 0x4000 && self.fbw < 0x40 && self.dbx < 0x800 && self.dby < 0x800
    }
}

/// One displayed channel (red, green, blue, opaque alpha) of the pixel
/// `(x, y)` of a frame buffer; magenta for formats that cannot be shown.
pub open spec fn shown_px(mem: Seq<u8>, s: Surface, x: u32, y: u32, ch: int) -> u8 {
    let px = px_at(mem, s, x, y) as int;
    if ch == 3 {
        255
    } else if s.psm == PSMCT32 || s.psm == PSMCT24 {
        (if ch == 0 {
            px % 256
        } else if ch == 1 {
            px / 256 % 256
        } else {
            px / 65536 % 256
        }) as u8
    } else if s.psm == PSMCT16 || s.psm == PSMCT16S {
        (if ch == 0 {
            8 * (px % 32)
        } else if ch == 1 {
            8 * (px / 32 % 32)
        } else {
            8 * (px / 1024 % 32)
        }) as u8
    } else if ch == 1 {
        0
    } else {
        255
    }
}

/// Channel `ch` of pixel `x` on displayed line `sy`, both at display scale
/// `s`: 2 where an overlay is shown, 1 where local memory is.
pub open spec fn line_px(mem: Seq<u8>, v: DisplayView, s: int, x: int, sy: int, ch: int) -> u8 {
    shown_px(
        mem,
        Surface { psm: v.psm, bp: (v.fbp * s * s) as u32, bw: (v.fbw * s) as u32 },
        (v.dbx * s + x) as u32,
        (v.dby * s + sy) as u32,
        ch,
    )
}

/// The memory that scanout reads: the overlay where there is one.
pub open spec fn scanned(l: Local) -> Seq<u8> {
    match l.overlay {
        Some(o) => o@,
        None => l.canvas@,
    }
}

/// The display scale that goes with it.
pub open spec fn scale(l: Local) -> int {
    if l.overlay is Some {
        2
    } else {
        1
    }
}

/// A frame of `w` by `h` RGBA pixels from a function of column, row and
/// channel.
pub open spec fn frame(w: int, h: int, f: spec_fn(int, int, int) -> u8) -> Seq<u8> {
    Seq::new((w * h * 4) as nat, |k: int| f((k / 4) % w, (k / 4) / w, k % 4))
}

/// The bytes of a frame, found by column, row and channel.
pub proof fn lemma_frame_at(w: int, h: int, f: spec_fn(int, int, int) -> u8, x: int, y: int, ch: int)
    requires
        0 <= x < w,
        0 <= y < h,
        0 <= ch < 4,
    ensures
        0 <= (y * w + x) * 4 + ch < w * h * 4,
        frame(w, h, f)[(y * w + x) * 4 + ch] == f(x, y, ch),
        (y * w + x) * 4 == 4 * (y * w) + 4 * x,
{
    lemma_in_frame(w, h, x, y);
    vstd::arithmetic::div_mod::lemma_fundamental_div_mod_converse(y * w + x, w, y, x);
}

pub proof fn lemma_in_frame(w: int, h: int, x: int, y: int)
    requires
        0 <= x < w,
        0 <= y < h,
    ensures
        0 <= y * w,
        0 <= y * w + x < w * h,
        y * w + w == (y + 1) * w,
        (y + 1) * w <= w * h,
{
    assert(y * w + w == (y + 1) * w) by (nonlinear_arith);
    assert((y + 1) * w <= w * h) by (nonlinear_arith)
        requires
            0 <= y < h,
            0 < w,
    ;
    assert(0 <= y * w) by (nonlinear_arith)
        requires
            0 <= y,
            0 < w,
    ;
}

/// Four channels more of a frame built in raster order.
pub proof fn lemma_frame_push(out: Seq<u8>, w: int, h: int, f: spec_fn(int, int, int) -> u8, x: int, y: int, r: u8, g: u8, b: u8, a: u8)
    requires
        0 <= x < w,
        0 <= y < h,
        out == frame(w, h, f).subrange(0, (y * w + x) * 4),
        r == f(x, y, 0),
        g == f(x, y, 1),
        b == f(x, y, 2),
        a == f(x, y, 3),
    ensures
        out.push(r).push(g).push(b).push(a) == frame(w, h, f).subrange(0, (y * w + x + 1) * 4),
{
    lemma_frame_at(w, h, f, x, y, 0);
    lemma_frame_at(w, h, f, x, y, 1);
    lemma_frame_at(w, h, f, x, y, 2);
    lemma_frame_at(w, h, f, x, y, 3);
    lemma_in_frame(w, h, x, y);
    assert(out.push(r).push(g).push(b).push(a) =~= frame(w, h, f).subrange(0, (y * w + x + 1) * 4));
}

/// The frame that scanout composes: interlaced field buffers are
/// line-doubled.
pub open spec fn composed(d: Display, l: Local) -> Seq<u8> {
    let s = scale(l);
    let v = d.shown_view();
    frame(
        d.shown_width() * s,
        d.shown_height() * s,
        |x: int, y: int, ch: int|
            line_px(
                scanned(l),
                v,
                s,
                x,
                if v.field_buffer {
                    y / 2
                } else {
                    y
                },
                ch,
            ),
    )
}

/// The canvas scanout reads and the display scale it implies: the overlay
/// at 2x when present, else local memory at 1x.
pub fn scanout(l: &Local) -> (r: (&Canvas, u32))
    requires
        l.wf(),
    ensures
        r.0@ == scanned(*l),
        r.0.wf(),
        r.1 == scale(*l),
{
    match &l.overlay {
        Some(ov) => (ov, 2),
        None => (&l.canvas, 1),
    }
}

/// One displayed pixel.
pub fn scan_px(canvas: &Canvas, v: &DisplayView, s: u32, x: u32, sy: u32) -> (r: (u8, u8, u8, u8))
    requires
        canvas.wf(),
        v.wf(),
        s == 1 || s == 2,
        x < 0x1000,
        sy < 0x1000,
    ensures
        r.0 == line_px(canvas@, *v, s as int, x as int, sy as int, 0),
        r.1 == line_px(canvas@, *v, s as int, x as int, sy as int, 1),
        r.2 == line_px(canvas@, *v, s as int, x as int, sy as int, 2),
        r.3 == line_px(canvas@, *v, s as int, x as int, sy as int, 3),
{
    assert(v.fbp * s <= 0x8000) by (nonlinear_arith)
        requires
            v.fbp < 0x4000,
            s == 1 || s == 2,
    ;
    assert(v.fbp * s * s <= 0x10000) by (nonlinear_arith)
        requires
            v.fbp * s <= 0x8000,
            s == 1 || s == 2,
    ;
    let surface = Surface { psm: v.psm, bp: v.fbp * s * s, bw: v.fbw * s };
    if v.psm == PSMCT32 || v.psm == PSMCT24 {
        let px: u32 = get_pixel(canvas, surface, v.dbx * s + x, v.dby * s + sy);
        ((px % 256) as u8, (px / 256 % 256) as u8, (px / 65536 % 256) as u8, 255)
    } else if v.psm == PSMCT16 || v.psm == PSMCT16S {
        let px: u32 = get_pixel(canvas, surface, v.dbx * s + x, v.dby * s + sy);
        ((8 * (px % 32)) as u8, (8 * (px / 32 % 32)) as u8, (8 * (px / 1024 % 32)) as u8, 255)
    } else {
        (255, 0, 255, 255)
    }
}

/// Compose the currently displayed frame as RGBA8. Returns (w, h, data).
/// Interlaced field buffers (SMODE2 INT+FFMD) are line-doubled.
pub fn framebuffer(d: &Display, l: &Local) -> (r: (u32, u32, Vec<u8>))
    requires
        l.wf(),
    ensures
        r.0 == d.shown_width() * scale(*l),
        r.1 == d.shown_height() * scale(*l),
        r.2@ == composed(*d, *l),
{
    let (w1, h1, view) = d.display_view();
    let (canvas, s) = scanout(l);
    assert(w1 * s <= 2048 && h1 * s <= 2048) by (nonlinear_arith)
        requires
            w1 <= 1024,
            h1 <= 1024,
            s == 1 || s == 2,
    ;
    let w: u32 = w1 * s;
    let h: u32 = h1 * s;
    let mut out: Vec<u8> = Vec::new();
    let ghost f = |x: int, y: int, ch: int|
        line_px(
            scanned(*l),
            view,
            s as int,
            x,
            if view.field_buffer {
                y / 2
            } else {
                y
            },
            ch,
        );
    let ghost whole = frame(w as int, h as int, f);
    assert(0 * w == 0);
    assert(out@ =~= whole.subrange(0, 0));
    for y in 0..h
        invariant
            canvas.wf(),
            canvas@ == scanned(*l),
            view.wf(),
            s == 1 || s == 2,
            w <= 2048,
            h <= 2048,
            whole == frame(w as int, h as int, f),
            f == (|x: int, y: int, ch: int|
                line_px(
                    scanned(*l),
                    view,
                    s as int,
                    x,
                    if view.field_buffer {
                        y / 2
                    } else {
                        y
                    },
                    ch,
                )),
            out@ == whole.subrange(0, y * w * 4),
    {
        let sy: u32 = if view.field_buffer { y / 2 } else { y };
        for x in 0..w
            invariant
                canvas.wf(),
                canvas@ == scanned(*l),
                view.wf(),
                s == 1 || s == 2,
                w <= 2048,
                h <= 2048,
                0 <= y < h,
                sy == (if view.field_buffer {
                    (y / 2) as int
                } else {
                    y as int
                }),
                whole == frame(w as int, h as int, f),
                f == (|x: int, y: int, ch: int|
                    line_px(
                        scanned(*l),
                        view,
                        s as int,
                        x,
                        if view.field_buffer {
                            y / 2
                        } else {
                            y
                        },
                        ch,
                    )),
                out@ == whole.subrange(0, (y * w + x) * 4),
        {
            let (r, g, b, a) = scan_px(canvas, &view, s, x, sy);
            proof {
                lemma_frame_push(out@, w as int, h as int, f, x as int, y as int, r, g, b, a);
            }
            out.push(r);
            out.push(g);
            out.push(b);
            out.push(a);
        }
        assert((y * w + w) * 4 == (y + 1) * w * 4) by (nonlinear_arith);
    }
    assert(h * w == w * h) by (nonlinear_arith);
    assert(whole.subrange(0, h * w * 4) =~= whole);
    assert(whole == composed(*d, *l));
    (w, h, out)
}

} // verus!
