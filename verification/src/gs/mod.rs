//! GS (Graphics Synthesizer): registers, vertex queue, transfers and
//! scanout.
//!
//! Register writes assemble vertices into primitives and hand each finished
//! primitive back to be drawn. Whatever reads or writes local memory here
//! expects the primitives handed out before it to have been drawn.

use vstd::prelude::*;
use crate::bits::bits;

pub mod canvas;
pub mod clut;
pub mod deinterlace;
pub mod display;
pub mod display_laws;
pub mod front;
pub mod layout;
pub mod raster;
pub mod regs;
pub mod regs_laws;
pub mod saved;
pub mod stats;
pub mod transfer;
pub mod upload;

use canvas::{high4, off16, off32, off4, off8, with_nibble, Canvas};
use crate::bytes::put;
use deinterlace::{
    blend, blended, filter, filtered, history_after, keep_history, motion_after, rebuild, rebuilt, track_motion, weave, woven_after,
    Deinterlace,
};
use front::zero_display;
use display::{composed, framebuffer, scale, scanned, scanout, Display};
use regs::{Primitive, Registers};
use upload::{copied_state, received, received_all, received_run, Local, Progress, State};
use transfer::{merge, PSMCT32, PSMT8};

verus! {

/// Local memory in bytes.
pub const VRAM_SIZE: usize = 4 * 1024 * 1024;

/// Woven interlaced display: the frame, its motion weights, and per field
/// parity the field before the one now in the frame.
pub struct Weaver {
    pub woven: Vec<u8>,
    /// Per-pixel motion weights of the last composited frame (see
    /// [`Deinterlace::Adaptive`]), one byte per pixel of `woven`.
    pub motion: Vec<u8>,
    /// Per field parity, the field before the one now in `woven` (rows of
    /// that parity only), for the temporal taps of [`Deinterlace::Yadif`]
    /// and [`Deinterlace::Bwdif`].
    pub history0: Vec<u8>,
    pub history1: Vec<u8>,
    pub dims: (u32, u32),
}

/// What the weaver remembers of a frame of `w` by `h` pixels.
pub struct Woven {
    pub woven: Seq<u8>,
    pub motion: Seq<u8>,
    pub history0: Seq<u8>,
    pub history1: Seq<u8>,
}

/// A black frame that nothing moved in.
pub open spec fn blank(w: int, h: int) -> Woven {
    Woven {
        woven: Seq::new((w * h * 4) as nat, |i: int| 0u8),
        motion: Seq::new((w * h) as nat, |i: int| 0u8),
        history0: Seq::new((w * h * 4) as nat, |i: int| 0u8),
        history1: Seq::new((w * h * 4) as nat, |i: int| 0u8),
    }
}

/// Modes that keep the field which a new one replaces.
pub open spec fn temporal(mode: Deinterlace) -> bool {
    mode == Deinterlace::Yadif || mode == Deinterlace::Bwdif
}

/// Modes that track motion.
pub open spec fn adaptive(mode: Deinterlace) -> bool {
    mode == Deinterlace::Adaptive || mode == Deinterlace::AdaptiveDebug
}

impl Weaver {
    pub open spec fn wf(&self) -> bool {
        let (w, h) = self.dims;
        &&& self.woven@.len() == w * h * 4
        &&& self.motion@.len() == w * h
        &&& self.history0@.len() == w * h * 4
        &&& self.history1@.len() == w * h * 4
    }

    pub open spec fn memory(&self) -> Woven {
        Woven { woven: self.woven@, motion: self.motion@, history0: self.history0@, history1: self.history1@ }
    }

    /// What it remembers when a frame of `w` by `h` comes: a new size starts
    /// from a black frame.
    pub open spec fn memory_for(&self, w: int, h: int) -> Woven {
        if self.dims == (w as u32, h as u32) {
            self.memory()
        } else {
            blank(w, h)
        }
    }

    fn resize(&mut self, w: u32, h: u32)
        requires
            old(self).wf(),
            w <= 2048,
            h <= 2048,
        ensures
            final(self).wf(),
            final(self).dims == (w, h),
            final(self).memory() == old(self).memory_for(w as int, h as int),
    {
        if self.dims.0 == w && self.dims.1 == h {
            return;
        }
        proof {
            assert(0 <= w * h <= 2048 * 2048) by (nonlinear_arith)
                requires
                    0 <= w <= 2048,
                    0 <= h <= 2048,
            ;
        }
        let n: usize = w as usize * h as usize;
        self.woven = vec![0u8; n * 4];
        self.motion = vec![0u8; n];
        self.history0 = vec![0u8; n * 4];
        self.history1 = vec![0u8; n * 4];
        self.dims = (w, h);
        proof {
            let b = blank(w as int, h as int);
            assert(self.woven@ =~= b.woven);
            assert(self.motion@ =~= b.motion);
            assert(self.history0@ =~= b.history0);
            assert(self.history1@ =~= b.history1);
        }
    }
}

/// What the weaver remembers after a field.
pub open spec fn remembered(m: Woven, l: Local, d: Display, field: bool, mode: Deinterlace) -> Woven {
    let sc = scale(l);
    let (w, h) = (d.shown_width() * sc, d.shown_height() * sc);
    let woven = woven_after(m.woven, scanned(l), d.shown_view(), w, h, sc, field);
    Woven {
        woven,
        motion: if adaptive(mode) {
            motion_after(m.motion, m.woven, woven, w, h, sc, field)
        } else {
            m.motion
        },
        history0: if temporal(mode) && !field {
            history_after(m.history0, m.woven, w, h, sc, field)
        } else {
            m.history0
        },
        history1: if temporal(mode) && field {
            history_after(m.history1, m.woven, w, h, sc, field)
        } else {
            m.history1
        },
    }
}

/// The frame shown of what the weaver remembers after a field.
pub open spec fn shown(m: Woven, w: int, h1: int, sc: int, field: bool, mode: Deinterlace) -> Seq<u8> {
    let before = if field {
        m.history1
    } else {
        m.history0
    };
    let shown_before = if field {
        m.history0
    } else {
        m.history1
    };
    match mode {
        Deinterlace::Weave => m.woven,
        Deinterlace::Bob => rebuilt(m.woven, None, false, w, h1, sc, field),
        Deinterlace::Blend => blended(m.woven, w, h1, sc),
        Deinterlace::Adaptive => rebuilt(m.woven, Some(m.motion), false, w, h1, sc, field),
        Deinterlace::AdaptiveDebug => rebuilt(m.woven, Some(m.motion), true, w, h1, sc, field),
        Deinterlace::Yadif => filtered(m.woven, before, shown_before, w, h1, sc, field, true),
        Deinterlace::Bwdif => filtered(m.woven, before, shown_before, w, h1, sc, field, false),
    }
}

pub struct Gs {
    /// Local memory, its overlay and the transfer into them.
    pub local: Local,
    pub display: Display,
    pub regs: Registers,
    pub weaver: Weaver,
    /// Local memory changed by a transfer since palettes were decoded.
    pub clut_dirty: bool,
}

impl Gs {
    pub open spec fn wf(&self) -> bool {
        &&& self.local.wf()
        &&& self.local.canvas@.len() == VRAM_SIZE
        &&& self.regs.wf()
        &&& self.weaver.wf()
    }

    pub fn new() -> (gs: Self)
        ensures
            gs.wf(),
            gs.regs == Registers::initial(),
            gs.local.state() == (State {
                p: Progress { mem: Seq::new(VRAM_SIZE as nat, |i: int| 0u8), over: None, x: 0, y: 0 },
                carry: Seq::empty(),
            }),
            gs.clut_dirty,
            gs.weaver.dims == (0u32, 0u32),
            gs.weaver.memory() == blank(0, 0),
            gs.display == zero_display(),
    {
        let gs = Gs {
            local: Local { canvas: Canvas::new(), overlay: None, trx_x: 0, trx_y: 0, trx24: Vec::new() },
            display: Display {
                pmode: 0,
                smode1: 0,
                smode2: 0,
                dispfb1: 0,
                display1: 0,
                dispfb2: 0,
                display2: 0,
                bgcolor: 0,
            },
            regs: Registers::new(),
            weaver: Weaver {
                woven: Vec::new(),
                motion: Vec::new(),
                history0: Vec::new(),
                history1: Vec::new(),
                dims: (0, 0),
            },
            clut_dirty: true,
        };
        assert(gs.weaver.woven@ =~= blank(0, 0).woven && gs.weaver.motion@ =~= blank(0, 0).motion);
        assert(gs.weaver.history0@ =~= blank(0, 0).history0 && gs.weaver.history1@ =~= blank(0, 0).history1);
        gs
    }

    /// Display-side privileged registers (PMODE, SMODE, DISPFB, DISPLAY,
    /// BGCOLOR); CSR and IMR live in the front end.
    pub fn priv_write(&mut self, addr: u32, v: u64)
        ensures
            final(self).display == old(self).display.written(addr, v),
            final(self).local == old(self).local,
            final(self).regs == old(self).regs,
            final(self).weaver == old(self).weaver,
            final(self).clut_dirty == old(self).clut_dirty,
    {
        self.display.priv_write(addr, v);
    }

    /// The transfer state after a register write: TRXDIR restarts a transfer
    /// and, for LOCAL->LOCAL, does it; HWREG feeds one.
    pub open spec fn transfer_after(&self, reg: u8, v: u64) -> State {
        let st = self.local.state();
        if reg == 0x53 {
            let fresh = State { p: Progress { x: 0, y: 0, ..st.p }, carry: Seq::empty() };
            if bits(v, 0, 3) == 2 {
                copied_state(fresh, self.regs.source(), self.regs.source_x(), self.regs.source_y(), self.regs.target())
            } else {
                fresh
            }
        } else if reg == 0x54 && self.regs.trxdir == 0 {
            received(st, self.regs.target(), v)
        } else {
            st
        }
    }

    /// Whether a register write may touch local memory, so that what was
    /// queued for drawing has to be drawn before it.
    pub fn touches_memory(&self, reg: u8, v: u64) -> (r: bool)
        ensures
            !r ==> self.transfer_after(reg, v).p.mem == self.local.state().p.mem && self.transfer_after(reg, v).p.over
                == self.local.state().p.over,
            r == ((reg == 0x53 && bits(v, 0, 3) == 2) || (reg == 0x54 && self.regs.trxdir == 0)),
    {
        (reg == 0x53 && bits(v, 0, 3) == 2) || (reg == 0x54 && self.regs.trxdir == 0)
    }

    /// A general register write. A vertex that completes a primitive gives
    /// the primitive to draw.
    pub fn write_reg(&mut self, reg: u8, v: u64) -> (r: Option<Primitive>)
        requires
            old(self).wf(),
        ensures
            final(self).wf(),
            final(self).regs == old(self).regs.written(reg, v),
            r == old(self).regs.completed(reg, v),
            final(self).local.state() == old(self).transfer_after(reg, v),
            final(self).clut_dirty == (old(self).clut_dirty || (reg == 0x53 && bits(v, 0, 3) == 2) || (reg == 0x54 && old(
                self,
            ).regs.trxdir == 0)),
            final(self).display == old(self).display,
            final(self).weaver == old(self).weaver,
    {
        if reg == 0x53 {
            self.local.trx_x = 0;
            self.local.trx_y = 0;
            self.local.trx24 = Vec::new();
            if bits(v, 0, 3) == 2 {
                self.clut_dirty = true;
                let (src, sx, sy) = self.regs.copy_source();
                let t = self.regs.transfer_target();
                self.local.local_copy(src, sx, sy, t);
            }
        } else if reg == 0x54 && self.regs.trxdir == 0 {
            self.clut_dirty = true;
            let t = self.regs.transfer_target();
            self.local.hwreg(t, v);
        }
        self.regs.write(reg, v)
    }

    /// A run of HWREG words.
    pub fn image(&mut self, data: &[u64])
        requires
            old(self).wf(),
        ensures
            final(self).wf(),
            final(self).regs == old(self).regs,
            final(self).display == old(self).display,
            final(self).weaver == old(self).weaver,
            final(self).local.state() == (if old(self).regs.trxdir != 0 {
                old(self).local.state()
            } else {
                let t = old(self).regs.target();
                if t.r.w != 0 && (t.s.psm == PSMT8 || t.s.psm == PSMCT32) {
                    received_run(old(self).local.state(), t, data@)
                } else {
                    received_all(old(self).local.state(), t, data@)
                }
            }),
            final(self).clut_dirty == (old(self).clut_dirty || (old(self).regs.trxdir == 0 && (data@.len() > 0 || old(
                self,
            ).regs.target().s.psm == PSMT8 || old(self).regs.target().s.psm == PSMCT32))),
    {
        if self.regs.trxdir != 0 {
            return;
        }
        let t = self.regs.transfer_target();
        if data.len() > 0 || t.s.psm == PSMT8 || t.s.psm == PSMCT32 {
            self.clut_dirty = true;
        }
        self.local.image(t, data);
    }

    /// A copy of local memory (for dumps).
    pub fn vram_snapshot(&self) -> (b: Vec<u8>)
        ensures
            b@ == self.local.canvas@,
    {
        self.local.canvas.to_vec()
    }

    /// Turn the internal-2x overlay on or off. It starts black and fills
    /// in as buffers are redrawn or uploaded (typically within a frame).
    pub fn set_internal_2x(&mut self, on: bool)
        requires
            old(self).wf(),
        ensures
            final(self).wf(),
            final(self).local.over() == (if on == (old(self).local.overlay is Some) {
                old(self).local.over()
            } else if on {
                Some(Seq::new((4 * VRAM_SIZE) as nat, |i: int| 0u8))
            } else {
                None
            }),
            final(self).local.canvas == old(self).local.canvas,
            final(self).local.trx_x == old(self).local.trx_x,
            final(self).local.trx_y == old(self).local.trx_y,
            final(self).local.trx24 == old(self).local.trx24,
            final(self).regs == old(self).regs,
            final(self).display == old(self).display,
            final(self).weaver == old(self).weaver,
            final(self).clut_dirty == old(self).clut_dirty,
    {
        if on == self.local.overlay.is_some() {
            return;
        }
        if on {
            proof {
                vstd::arithmetic::power2::lemma2_to64();
                assert(4 * VRAM_SIZE == vstd::arithmetic::power2::pow2(24));
            }
            self.local.overlay = Some(Canvas::with_size(4 * VRAM_SIZE));
        } else {
            self.local.overlay = None;
        }
    }

    pub fn internal_2x(&self) -> (r: bool)
        ensures
            r == (self.local.overlay is Some),
    {
        self.local.overlay.is_some()
    }

    /// Store a 32-bit pixel.
    pub fn write_psmct32(&mut self, bp: u32, bw: u32, x: u32, y: u32, v: u32)
        requires
            old(self).wf(),
        ensures
            final(self).wf(),
            final(self).local.canvas@ == put(old(self).local.canvas@, off32(VRAM_SIZE as int, bp, bw, x, y, false), 4, v as nat),
            final(self).local.overlay == old(self).local.overlay,
            final(self).local.trx_x == old(self).local.trx_x,
            final(self).local.trx_y == old(self).local.trx_y,
            final(self).local.trx24 == old(self).local.trx24,
            final(self).regs == old(self).regs,
            final(self).display == old(self).display,
            final(self).weaver == old(self).weaver,
            final(self).clut_dirty == old(self).clut_dirty,
    {
        self.local.canvas.write_psmct32(bp, bw, x, y, v);
    }

    /// Replace only the `mask` bits of a 32-bit pixel.
    pub fn write_psmct32_bits(&mut self, bp: u32, bw: u32, x: u32, y: u32, v: u32, mask: u32)
        requires
            old(self).wf(),
        ensures
            final(self).wf(),
            final(self).local.canvas@ == put(
                old(self).local.canvas@,
                off32(VRAM_SIZE as int, bp, bw, x, y, false),
                4,
                merge(old(self).local.canvas.ct32(bp, bw, x, y), v, mask),
            ),
            final(self).local.overlay == old(self).local.overlay,
            final(self).local.trx_x == old(self).local.trx_x,
            final(self).local.trx_y == old(self).local.trx_y,
            final(self).local.trx24 == old(self).local.trx24,
            final(self).regs == old(self).regs,
            final(self).display == old(self).display,
            final(self).weaver == old(self).weaver,
            final(self).clut_dirty == old(self).clut_dirty,
    {
        self.local.canvas.write_psmct32_bits(bp, bw, x, y, v, mask);
    }

    /// The 32-bit pixel.
    pub fn read_psmct32(&self, bp: u32, bw: u32, x: u32, y: u32) -> (v: u32)
        requires
            self.wf(),
        ensures
            v == self.local.canvas.ct32(bp, bw, x, y),
    {
        self.local.canvas.read_psmct32(bp, bw, x, y)
    }

    /// Store a 32-bit depth.
    pub fn write_psmz32(&mut self, bp: u32, bw: u32, x: u32, y: u32, v: u32)
        requires
            old(self).wf(),
        ensures
            final(self).wf(),
            final(self).local.canvas@ == put(old(self).local.canvas@, off32(VRAM_SIZE as int, bp, bw, x, y, true), 4, v as nat),
            final(self).local.overlay == old(self).local.overlay,
            final(self).local.trx_x == old(self).local.trx_x,
            final(self).local.trx_y == old(self).local.trx_y,
            final(self).local.trx24 == old(self).local.trx24,
            final(self).regs == old(self).regs,
            final(self).display == old(self).display,
            final(self).weaver == old(self).weaver,
            final(self).clut_dirty == old(self).clut_dirty,
    {
        self.local.canvas.write_psmz32(bp, bw, x, y, v);
    }

    /// The 32-bit depth.
    pub fn read_psmz32(&self, bp: u32, bw: u32, x: u32, y: u32) -> (v: u32)
        requires
            self.wf(),
        ensures
            v == self.local.canvas.z32(bp, bw, x, y),
    {
        self.local.canvas.read_psmz32(bp, bw, x, y)
    }

    /// Store a 16-bit pixel.
    pub fn write_psmct16(&mut self, bp: u32, bw: u32, x: u32, y: u32, psm: u32, v: u16)
        requires
            old(self).wf(),
        ensures
            final(self).wf(),
            final(self).local.canvas@ == put(old(self).local.canvas@, off16(VRAM_SIZE as int, bp, bw, x, y, psm), 2, v as nat),
            final(self).local.overlay == old(self).local.overlay,
            final(self).local.trx_x == old(self).local.trx_x,
            final(self).local.trx_y == old(self).local.trx_y,
            final(self).local.trx24 == old(self).local.trx24,
            final(self).regs == old(self).regs,
            final(self).display == old(self).display,
            final(self).weaver == old(self).weaver,
            final(self).clut_dirty == old(self).clut_dirty,
    {
        self.local.canvas.write_psmct16(bp, bw, x, y, psm, v);
    }

    /// The 16-bit pixel.
    pub fn read_psmct16(&self, bp: u32, bw: u32, x: u32, y: u32, psm: u32) -> (v: u16)
        requires
            self.wf(),
        ensures
            v == self.local.canvas.ct16(bp, bw, x, y, psm),
    {
        self.local.canvas.read_psmct16(bp, bw, x, y, psm)
    }

    /// Store an 8-bit texel.
    pub fn write_psmt8(&mut self, bp: u32, bw: u32, x: u32, y: u32, v: u8)
        requires
            old(self).wf(),
        ensures
            final(self).wf(),
            final(self).local.canvas@ == old(self).local.canvas@.update(off8(VRAM_SIZE as int, bp, bw, x, y), v),
            final(self).local.overlay == old(self).local.overlay,
            final(self).local.trx_x == old(self).local.trx_x,
            final(self).local.trx_y == old(self).local.trx_y,
            final(self).local.trx24 == old(self).local.trx24,
            final(self).regs == old(self).regs,
            final(self).display == old(self).display,
            final(self).weaver == old(self).weaver,
            final(self).clut_dirty == old(self).clut_dirty,
    {
        self.local.canvas.write_psmt8(bp, bw, x, y, v);
    }

    /// The 8-bit texel.
    pub fn read_psmt8(&self, bp: u32, bw: u32, x: u32, y: u32) -> (v: u8)
        requires
            self.wf(),
        ensures
            v == self.local.canvas.t8(bp, bw, x, y),
    {
        self.local.canvas.read_psmt8(bp, bw, x, y)
    }

    /// Store a 4-bit texel.
    pub fn write_psmt4(&mut self, bp: u32, bw: u32, x: u32, y: u32, v: u8)
        requires
            old(self).wf(),
        ensures
            final(self).wf(),
            final(self).local.canvas@ == old(self).local.canvas@.update(off4(VRAM_SIZE as int, bp, bw, x, y), with_nibble(old(self).local.canvas@[off4(VRAM_SIZE as int, bp, bw, x, y)], high4(bp, bw, x, y), v)),
            final(self).local.overlay == old(self).local.overlay,
            final(self).local.trx_x == old(self).local.trx_x,
            final(self).local.trx_y == old(self).local.trx_y,
            final(self).local.trx24 == old(self).local.trx24,
            final(self).regs == old(self).regs,
            final(self).display == old(self).display,
            final(self).weaver == old(self).weaver,
            final(self).clut_dirty == old(self).clut_dirty,
    {
        self.local.canvas.write_psmt4(bp, bw, x, y, v);
    }

    /// The 4-bit texel.
    pub fn read_psmt4(&self, bp: u32, bw: u32, x: u32, y: u32) -> (v: u8)
        requires
            self.wf(),
        ensures
            v == self.local.canvas.t4(bp, bw, x, y),
    {
        self.local.canvas.read_psmt4(bp, bw, x, y)
    }

    /// Compose the currently displayed frame as RGBA8. Returns (w, h, data).
    /// Interlaced field buffers (SMODE2 INT+FFMD) are line-doubled.
    pub fn framebuffer(&self) -> (r: (u32, u32, Vec<u8>))
        requires
            self.wf(),
        ensures
            r.0 == self.display.shown_width() * scale(self.local),
            r.1 == self.display.shown_height() * scale(self.local),
            r.2@ == composed(self.display, self.local),
    {
        framebuffer(&self.display, &self.local)
    }

    /// Like [`Gs::framebuffer`], but interlaced field buffers are woven:
    /// this field's lines land on rows of parity `field`, the other rows
    /// keep the previous field. Bobbing each field alone would show the
    /// game's half-line field offset as a 30 Hz shake.
    pub fn framebuffer_woven(&mut self, field: bool, mode: Deinterlace) -> (r: (u32, u32, Vec<u8>))
        requires
            old(self).wf(),
        ensures
            final(self).wf(),
            final(self).local == old(self).local,
            final(self).regs == old(self).regs,
            final(self).display == old(self).display,
            final(self).clut_dirty == old(self).clut_dirty,
            ({
                let d = old(self).display;
                let l = old(self).local;
                let sc = scale(l);
                let (w, h1) = (d.shown_width() * sc, d.shown_height());
                if !d.shown_view().field_buffer {
                    &&& r.0 == w && r.1 == h1 * sc && r.2@ == composed(d, l)
                    &&& final(self).weaver == old(self).weaver
                } else if h1 == 0 {
                    // Nothing displayable yet.
                    &&& r.0 == d.shown_width() && r.1 == 0 && r.2@.len() == 0
                    &&& final(self).weaver == old(self).weaver
                } else {
                    let m = remembered(old(self).weaver.memory_for(w, h1 * sc), l, d, field, mode);
                    &&& r.0 == w && r.1 == h1 * sc
                    &&& r.2@ == shown(m, w, h1, sc, field, mode)
                    &&& final(self).weaver.memory() == m
                    &&& final(self).weaver.dims == (w as u32, (h1 * sc) as u32)
                }
            }),
    {
        let (w1, h1, view) = self.display.display_view();
        if !view.field_buffer {
            return self.framebuffer();
        }
        if h1 < 2 {
            return (w1, h1, Vec::new());
        }
        let (canvas, sc) = scanout(&self.local);
        proof {
            assert(w1 * sc <= 2048 && h1 * sc <= 2048 && 1 <= w1 * sc) by (nonlinear_arith)
                requires
                    1 <= w1 <= 1024,
                    h1 <= 1024,
                    sc == 1 || sc == 2,
            ;
        }
        let w: u32 = w1 * sc;
        let h: u32 = h1 * sc;
        self.weaver.resize(w, h);
        let ghost m = self.weaver.memory();
        let woven = weave(self.weaver.woven.as_slice(), canvas, &view, w, h, sc, field);
        proof {
            assert(w * h == h * w) by (nonlinear_arith);
        }
        if mode == Deinterlace::Yadif || mode == Deinterlace::Bwdif {
            // Keep the field this one replaces: it is the temporal
            // neighbour of the same parity.
            if field {
                self.weaver.history1 = keep_history(
                    self.weaver.history1.as_slice(),
                    self.weaver.woven.as_slice(),
                    w,
                    h,
                    sc,
                    field,
                );
            } else {
                self.weaver.history0 = keep_history(
                    self.weaver.history0.as_slice(),
                    self.weaver.woven.as_slice(),
                    w,
                    h,
                    sc,
                    field,
                );
            }
        }
        if mode == Deinterlace::Adaptive || mode == Deinterlace::AdaptiveDebug {
            self.weaver.motion = track_motion(
                self.weaver.motion.as_slice(),
                self.weaver.woven.as_slice(),
                woven.as_slice(),
                w,
                h,
                sc,
                field,
            );
        }
        self.weaver.woven = woven;
        let frame = self.weaver.woven.as_slice();
        let out: Vec<u8> = match mode {
            Deinterlace::Weave => copy_bytes(frame),
            Deinterlace::Bob => rebuild(frame, None, false, w, h1, sc, field),
            Deinterlace::Blend => blend(frame, w, h1, sc),
            Deinterlace::Adaptive => rebuild(frame, Some(self.weaver.motion.as_slice()), false, w, h1, sc, field),
            Deinterlace::AdaptiveDebug => rebuild(frame, Some(self.weaver.motion.as_slice()), true, w, h1, sc, field),
            Deinterlace::Yadif | Deinterlace::Bwdif => {
                // The *previous* field is shown (one vblank late): its
                // missing rows are the parity that just arrived.
                let (before, shown_before) = if field {
                    (self.weaver.history1.as_slice(), self.weaver.history0.as_slice())
                } else {
                    (self.weaver.history0.as_slice(), self.weaver.history1.as_slice())
                };
                filter(frame, before, shown_before, w, h1, sc, field, mode == Deinterlace::Yadif)
            },
        };
        (w, h, out)
    }
}

impl Default for Gs {
    fn default() -> (gs: Self)
        ensures
            gs.wf(),
            gs.regs == Registers::initial(),
            gs.local.state() == (State {
                p: Progress { mem: Seq::new(VRAM_SIZE as nat, |i: int| 0u8), over: None, x: 0, y: 0 },
                carry: Seq::empty(),
            }),
            gs.clut_dirty,
            gs.weaver.dims == (0u32, 0u32),
            gs.weaver.memory() == blank(0, 0),
            gs.display == zero_display(),
    {
        Gs::new()
    }
}

fn copy_bytes(s: &[u8]) -> (r: Vec<u8>)
    ensures
        r@ == s@,
{
    let n: usize = s.len();
    let mut out: Vec<u8> = Vec::with_capacity(n);
    for i in 0..n
        invariant
            n == s@.len(),
            out@ == s@.subrange(0, i as int),
    {
        out.push(s[i]);
        assert(out@ =~= s@.subrange(0, i + 1));
    }
    assert(out@ =~= s@);
    out
}

} // verus!
