//! The GS general registers and the vertex queue.

use vstd::prelude::*;
use crate::bits::{bit, bits};
use super::transfer::{Rect, Surface};
use super::upload::Target;

verus! {

/// One vertex as accumulated from register writes. `q`, `s` and `t` are the
/// raw bits of single-precision numbers.
#[derive(Clone, Copy)]
pub struct Vertex {
    /// 12.4 fixed point, already relative to XYOFFSET.
    pub x: i32,
    pub y: i32,
    pub z: u32,
    pub r: u8,
    pub g: u8,
    pub b: u8,
    pub a: u8,
    pub q: u32,
    pub s: u32,
    pub t: u32,
    /// 12.4 fixed texel coords (UV addressing).
    pub u: i32,
    pub v: i32,
}

#[derive(Clone, Copy)]
pub struct Context {
    pub xyoffset: u64,
    pub scissor: u64,
    pub frame: u64,
    pub zbuf: u64,
    pub test: u64,
    pub alpha: u64,
    pub tex0: u64,
    pub tex1: u64,
    pub clamp: u64,
}

/// A primitive whose vertices are complete.
#[derive(Clone, Copy)]
pub enum Primitive {
    Point(Vertex),
    Line(Vertex, Vertex),
    Triangle(Vertex, Vertex, Vertex),
    Sprite(Vertex, Vertex),
}

/// The TEX0 bits that a TEX2 write replaces: PSM and the CLUT fields.
pub const TEX2_MASK: u64 = 0xFFFF_FFE0_03F0_0000;

#[derive(Clone, Copy)]
pub struct Registers {
    pub prim: u64,
    pub prmode: u64,
    pub prmodecont: u64,
    pub rgbaq: u64,
    pub st: u64,
    pub uv: u64,
    pub texa: u64,
    pub fogcol: u64,
    pub colclamp: u64,
    pub dthe: u64,
    pub pabe: u64,
    /// The two drawing contexts.
    pub ctx1: Context,
    pub ctx2: Context,
    pub bitbltbuf: u64,
    pub trxpos: u64,
    pub trxreg: u64,
    pub trxdir: u64,
    /// Vertices waiting for the rest of their primitive: the first
    /// `vq_len` of these.
    pub vq0: Vertex,
    pub vq1: Vertex,
    pub vq_len: u8,
}

/// Vertices that a primitive of this kind takes; the reserved kind takes
/// none.
pub open spec fn vertices(kind: u64) -> int {
    if kind == 0 {
        1
    } else if kind == 1 || kind == 2 || kind == 6 {
        2
    } else if kind == 3 || kind == 4 || kind == 5 {
        3
    } else {
        0
    }
}

pub open spec fn zero_vertex() -> Vertex {
    Vertex { x: 0, y: 0, z: 0, r: 0, g: 0, b: 0, a: 0, q: 0, s: 0, t: 0, u: 0, v: 0 }
}

pub open spec fn zero_context() -> Context {
    Context { xyoffset: 0, scissor: 0, frame: 0, zbuf: 0, test: 0, alpha: 0, tex0: 0, tex1: 0, clamp: 0 }
}

impl Registers {
    /// The primitive kind (PRIM bits 0-2).
    pub open spec fn kind(self) -> u64 {
        bits(self.prim, 0, 7)
    }

    /// Fewer vertices wait than complete a primitive.
    pub open spec fn wf(self) -> bool {
        self.vq_len == 0 || self.vq_len < vertices(self.kind())
    }

    /// Whether these are registers that the unit can hold, for those that
    /// come from outside.
    pub fn valid(&self) -> (r: bool)
        ensures
            r == self.wf(),
    {
        let needed: u8 = match bits(self.prim, 0, 7) {
            0 => 1,
            1 | 2 | 6 => 2,
            3 | 4 | 5 => 3,
            _ => 0,
        };
        self.vq_len == 0 || self.vq_len < needed
    }

    pub open spec fn initial() -> Registers {
        Registers {
            prim: 0,
            prmode: 0,
            prmodecont: 1,
            rgbaq: 0,
            st: 0,
            uv: 0,
            texa: 0,
            fogcol: 0,
            colclamp: 1,
            dthe: 0,
            pabe: 0,
            ctx1: zero_context(),
            ctx2: zero_context(),
            bitbltbuf: 0,
            trxpos: 0,
            trxreg: 0,
            trxdir: 0,
            vq0: zero_vertex(),
            vq1: zero_vertex(),
            vq_len: 0,
        }
    }

    pub fn new() -> (r: Self)
        ensures
            r == Registers::initial(),
            r.wf(),
    {
        let v = Vertex { x: 0, y: 0, z: 0, r: 0, g: 0, b: 0, a: 0, q: 0, s: 0, t: 0, u: 0, v: 0 };
        let c = Context {
            xyoffset: 0,
            scissor: 0,
            frame: 0,
            zbuf: 0,
            test: 0,
            alpha: 0,
            tex0: 0,
            tex1: 0,
            clamp: 0,
        };
        Registers {
            prim: 0,
            prmode: 0,
            prmodecont: 1,
            rgbaq: 0,
            st: 0,
            uv: 0,
            texa: 0,
            fogcol: 0,
            colclamp: 1,
            dthe: 0,
            pabe: 0,
            ctx1: c,
            ctx2: c,
            bitbltbuf: 0,
            trxpos: 0,
            trxreg: 0,
            trxdir: 0,
            vq0: v,
            vq1: v,
            vq_len: 0,
        }
    }

    // --- transfers --------------------------------------------------------

    /// Where a transfer lands (BITBLTBUF, TRXPOS, TRXREG).
    pub open spec fn target(self) -> Target {
        Target {
            s: Surface {
                psm: bits(self.bitbltbuf, 56, 0x3F) as u32,
                bp: bits(self.bitbltbuf, 32, 0x3FFF) as u32,
                bw: bits(self.bitbltbuf, 48, 0x3F) as u32,
            },
            r: Rect {
                x: bits(self.trxpos, 32, 0x7FF) as u32,
                y: bits(self.trxpos, 48, 0x7FF) as u32,
                w: bits(self.trxreg, 0, 0xFFF) as u32,
                h: bits(self.trxreg, 32, 0xFFF) as u32,
            },
        }
    }

    /// Where a LOCAL->LOCAL copy reads.
    pub open spec fn source(self) -> Surface {
        Surface {
            psm: bits(self.bitbltbuf, 24, 0x3F) as u32,
            bp: bits(self.bitbltbuf, 0, 0x3FFF) as u32,
            bw: bits(self.bitbltbuf, 16, 0x3F) as u32,
        }
    }

    pub open spec fn source_x(self) -> u32 {
        bits(self.trxpos, 0, 0x7FF) as u32
    }

    pub open spec fn source_y(self) -> u32 {
        bits(self.trxpos, 16, 0x7FF) as u32
    }

    pub fn transfer_target(&self) -> (t: Target)
        ensures
            t == self.target(),
            t.wf(),
    {
        Target {
            s: Surface {
                psm: bits(self.bitbltbuf, 56, 0x3F) as u32,
                bp: bits(self.bitbltbuf, 32, 0x3FFF) as u32,
                bw: bits(self.bitbltbuf, 48, 0x3F) as u32,
            },
            r: Rect {
                x: bits(self.trxpos, 32, 0x7FF) as u32,
                y: bits(self.trxpos, 48, 0x7FF) as u32,
                w: bits(self.trxreg, 0, 0xFFF) as u32,
                h: bits(self.trxreg, 32, 0xFFF) as u32,
            },
        }
    }

    pub fn copy_source(&self) -> (r: (Surface, u32, u32))
        ensures
            r.0 == self.source(),
            r.1 == self.source_x(),
            r.2 == self.source_y(),
            r.1 < 0x800,
            r.2 < 0x800,
    {
        (
            Surface {
                psm: bits(self.bitbltbuf, 24, 0x3F) as u32,
                bp: bits(self.bitbltbuf, 0, 0x3FFF) as u32,
                bw: bits(self.bitbltbuf, 16, 0x3F) as u32,
            },
            bits(self.trxpos, 0, 0x7FF) as u32,
            bits(self.trxpos, 16, 0x7FF) as u32,
        )
    }

    // --- drawing ------------------------------------------------------------

    /// Attribute source: PRIM or PRMODE per PRMODECONT.
    pub open spec fn spec_attrs(self) -> u64 {
        if self.prmodecont & 1 != 0 {
            self.prim
        } else {
            (self.prmode & !0x7u64) | (self.prim & 0x7)
        }
    }

    pub fn attrs(&self) -> (a: u64)
        ensures
            a == self.spec_attrs(),
    {
        if self.prmodecont & 1 != 0 {
            self.prim
        } else {
            (self.prmode & !0x7u64) | (self.prim & 0x7)
        }
    }

    /// The drawing context that the attributes select.
    pub open spec fn context(self) -> Context {
        if bit(self.spec_attrs(), 9) {
            self.ctx2
        } else {
            self.ctx1
        }
    }

    pub fn current_context(&self) -> (c: Context)
        ensures
            c == self.context(),
    {
        if bit(self.attrs(), 9) {
            self.ctx2
        } else {
            self.ctx1
        }
    }

    /// The vertex that a position write makes of the current attributes.
    pub open spec fn vertex(self, xy: u64, z: u32) -> Vertex {
        let off = self.context().xyoffset;
        Vertex {
            x: (bits(xy, 0, 0xFFFF) - bits(off, 0, 0xFFFF)) as i32,
            y: (bits(xy, 16, 0xFFFF) - bits(off, 32, 0xFFFF)) as i32,
            z,
            r: bits(self.rgbaq, 0, 0xFF) as u8,
            g: bits(self.rgbaq, 8, 0xFF) as u8,
            b: bits(self.rgbaq, 16, 0xFF) as u8,
            a: bits(self.rgbaq, 24, 0xFF) as u8,
            q: bits(self.rgbaq, 32, 0xFFFF_FFFF) as u32,
            s: bits(self.st, 0, 0xFFFF_FFFF) as u32,
            t: bits(self.st, 32, 0xFFFF_FFFF) as u32,
            u: bits(self.uv, 0, 0x3FFF) as i32,
            v: bits(self.uv, 16, 0x3FFF) as i32,
        }
    }

    /// Z of a position write: 24 bits beside a fog value (XYZF), else 32.
    pub open spec fn kick_z(reg: u8, v: u64) -> u32 {
        if reg == 0x04 || reg == 0x0C {
            bits(v, 32, 0xFF_FFFF) as u32
        } else {
            bits(v, 32, 0xFFFF_FFFF) as u32
        }
    }

    /// The registers that take a vertex: XYZF2, XYZ2, and XYZF3, XYZ3, which
    /// do not draw.
    pub open spec fn is_kick(reg: u8) -> bool {
        reg == 0x04 || reg == 0x05 || reg == 0x0C || reg == 0x0D
    }

    /// The queue after vertex `v`: a completed primitive leaves the vertices
    /// that the next one of its kind shares with it, the last one for line
    /// strips, the last two for triangle strips, the first and the last for
    /// fans, none for the others.
    pub open spec fn queued(self, v: Vertex) -> Registers {
        let kind = self.kind();
        let n = self.vq_len + 1;
        if n < vertices(kind) {
            if self.vq_len == 0 {
                Registers { vq0: v, vq_len: 1, ..self }
            } else {
                Registers { vq1: v, vq_len: 2, ..self }
            }
        } else if kind == 2 {
            Registers { vq0: v, vq_len: 1, ..self }
        } else if kind == 4 {
            Registers { vq0: self.vq1, vq1: v, vq_len: 2, ..self }
        } else if kind == 5 {
            Registers { vq1: v, vq_len: 2, ..self }
        } else {
            Registers { vq_len: 0, ..self }
        }
    }

    /// The primitive that vertex `v` completes.
    pub open spec fn finished(self, v: Vertex) -> Option<Primitive> {
        let kind = self.kind();
        if vertices(kind) == 0 || self.vq_len + 1 < vertices(kind) {
            None
        } else if kind == 0 {
            Some(Primitive::Point(v))
        } else if kind == 1 || kind == 2 {
            Some(Primitive::Line(self.vq0, v))
        } else if kind == 6 {
            Some(Primitive::Sprite(self.vq0, v))
        } else {
            Some(Primitive::Triangle(self.vq0, self.vq1, v))
        }
    }

    /// The primitive that a register write gives to draw.
    pub open spec fn completed(self, reg: u8, v: u64) -> Option<Primitive> {
        if reg == 0x04 || reg == 0x05 {
            self.finished(self.vertex(v, Registers::kick_z(reg, v)))
        } else {
            None
        }
    }

    /// The context registers, by context and register number of context 1.
    pub open spec fn context_written(c: Context, reg: u8, v: u64) -> Context {
        if reg == 0x06 {
            Context { tex0: v, ..c }
        } else if reg == 0x08 {
            Context { clamp: v, ..c }
        } else if reg == 0x14 {
            Context { tex1: v, ..c }
        } else if reg == 0x16 {
            Context { tex0: (c.tex0 & !TEX2_MASK) | (v & TEX2_MASK), ..c }
        } else if reg == 0x18 {
            Context { xyoffset: v, ..c }
        } else if reg == 0x40 {
            Context { scissor: v, ..c }
        } else if reg == 0x42 {
            Context { alpha: v, ..c }
        } else if reg == 0x47 {
            Context { test: v, ..c }
        } else if reg == 0x4C {
            Context { frame: v, ..c }
        } else {
            Context { zbuf: v, ..c }
        }
    }

    /// Whether `reg` belongs to context 1.
    pub open spec fn is_context1(reg: u8) -> bool {
        reg == 0x06 || reg == 0x08 || reg == 0x14 || reg == 0x16 || reg == 0x18 || reg == 0x40 || reg == 0x42 || reg
            == 0x47 || reg == 0x4C || reg == 0x4E
    }

    /// The registers after a write of `v` to `reg`.
    pub open spec fn written(self, reg: u8, v: u64) -> Registers {
        if Registers::is_kick(reg) {
            self.queued(self.vertex(v, Registers::kick_z(reg, v)))
        } else if Registers::is_context1(reg) {
            Registers { ctx1: Registers::context_written(self.ctx1, reg, v), ..self }
        } else if reg > 0 && Registers::is_context1((reg - 1) as u8) {
            Registers { ctx2: Registers::context_written(self.ctx2, (reg - 1) as u8, v), ..self }
        } else if reg == 0x00 {
            Registers { prim: v, vq_len: 0, ..self }
        } else if reg == 0x01 {
            Registers { rgbaq: v, ..self }
        } else if reg == 0x02 {
            Registers { st: v, ..self }
        } else if reg == 0x03 {
            Registers { uv: v, ..self }
        } else if reg == 0x1A {
            Registers { prmodecont: v, ..self }
        } else if reg == 0x1B {
            Registers { prmode: v, ..self }
        } else if reg == 0x3B {
            Registers { texa: v, ..self }
        } else if reg == 0x3D {
            Registers { fogcol: v, ..self }
        } else if reg == 0x45 {
            Registers { dthe: v, ..self }
        } else if reg == 0x46 {
            Registers { colclamp: v, ..self }
        } else if reg == 0x49 {
            Registers { pabe: v, ..self }
        } else if reg == 0x50 {
            Registers { bitbltbuf: v, ..self }
        } else if reg == 0x51 {
            Registers { trxpos: v, ..self }
        } else if reg == 0x52 {
            Registers { trxreg: v, ..self }
        } else if reg == 0x53 {
            Registers { trxdir: bits(v, 0, 3), ..self }
        } else {
            self
        }
    }

    pub fn write(&mut self, reg: u8, v: u64) -> (r: Option<Primitive>)
        requires
            old(self).wf(),
        ensures
            *final(self) == old(self).written(reg, v),
            final(self).wf(),
            r == old(self).completed(reg, v),
    {
        match reg {
            0x00 => {
                self.prim = v;
                self.vq_len = 0;
            },
            0x01 => self.rgbaq = v,
            0x02 => self.st = v,
            0x03 => self.uv = v,
            0x04 | 0x0C => {
                // XYZF2/XYZF3: F in bits 56-63, Z in bits 32-55.
                let z: u32 = bits(v, 32, 0xFF_FFFF) as u32;
                let p = self.vertex_kick(v, z);
                if reg == 0x04 {
                    return p;
                }
            },
            0x05 | 0x0D => {
                let z: u32 = bits(v, 32, 0xFFFF_FFFF) as u32;
                let p = self.vertex_kick(v, z);
                if reg == 0x05 {
                    return p;
                }
            },
            0x06 => self.ctx1.tex0 = v,
            0x07 => self.ctx2.tex0 = v,
            0x08 => self.ctx1.clamp = v,
            0x09 => self.ctx2.clamp = v,
            0x14 => self.ctx1.tex1 = v,
            0x15 => self.ctx2.tex1 = v,
            // TEX2: partial TEX0 update (PSM + CLUT fields).
            0x16 => self.ctx1.tex0 = (self.ctx1.tex0 & !TEX2_MASK) | (v & TEX2_MASK),
            0x17 => self.ctx2.tex0 = (self.ctx2.tex0 & !TEX2_MASK) | (v & TEX2_MASK),
            0x18 => self.ctx1.xyoffset = v,
            0x19 => self.ctx2.xyoffset = v,
            0x1A => self.prmodecont = v,
            0x1B => self.prmode = v,
            0x3B => self.texa = v,
            0x3D => self.fogcol = v,
            0x40 => self.ctx1.scissor = v,
            0x41 => self.ctx2.scissor = v,
            0x42 => self.ctx1.alpha = v,
            0x43 => self.ctx2.alpha = v,
            0x45 => self.dthe = v,
            0x46 => self.colclamp = v,
            0x47 => self.ctx1.test = v,
            0x48 => self.ctx2.test = v,
            0x49 => self.pabe = v,
            0x4C => self.ctx1.frame = v,
            0x4D => self.ctx2.frame = v,
            0x4E => self.ctx1.zbuf = v,
            0x4F => self.ctx2.zbuf = v,
            0x50 => self.bitbltbuf = v,
            0x51 => self.trxpos = v,
            0x52 => self.trxreg = v,
            0x53 => self.trxdir = bits(v, 0, 3),
            // FOG, TEXCLUT, SCANMSK, MIPTBP, TEXFLUSH, DIMX and FBA are not
            // modelled; HWREG is the transfer's.
            _ => {},
        }
        None
    }

    fn vertex_kick(&mut self, xy: u64, z: u32) -> (r: Option<Primitive>)
        requires
            old(self).wf(),
        ensures
            *final(self) == old(self).queued(old(self).vertex(xy, z)),
            final(self).wf(),
            r == old(self).finished(old(self).vertex(xy, z)),
    {
        let off: u64 = self.current_context().xyoffset;
        let v = Vertex {
            x: bits(xy, 0, 0xFFFF) as i32 - bits(off, 0, 0xFFFF) as i32,
            y: bits(xy, 16, 0xFFFF) as i32 - bits(off, 32, 0xFFFF) as i32,
            z,
            r: bits(self.rgbaq, 0, 0xFF) as u8,
            g: bits(self.rgbaq, 8, 0xFF) as u8,
            b: bits(self.rgbaq, 16, 0xFF) as u8,
            a: bits(self.rgbaq, 24, 0xFF) as u8,
            q: bits(self.rgbaq, 32, 0xFFFF_FFFF) as u32,
            s: bits(self.st, 0, 0xFFFF_FFFF) as u32,
            t: bits(self.st, 32, 0xFFFF_FFFF) as u32,
            u: bits(self.uv, 0, 0x3FFF) as i32,
            v: bits(self.uv, 16, 0x3FFF) as i32,
        };
        let kind: u64 = bits(self.prim, 0, 7);
        match kind {
            0 => {
                self.vq_len = 0;
                Some(Primitive::Point(v))
            },
            1 | 2 | 6 => {
                if self.vq_len == 0 {
                    self.vq0 = v;
                    self.vq_len = 1;
                    return None;
                }
                let first = self.vq0;
                if kind == 2 {
                    // A strip's next line starts where this one ends.
                    self.vq0 = v;
                    self.vq_len = 1;
                } else {
                    self.vq_len = 0;
                }
                if kind == 6 {
                    Some(Primitive::Sprite(first, v))
                } else {
                    Some(Primitive::Line(first, v))
                }
            },
            3 | 4 | 5 => {
                if self.vq_len == 0 {
                    self.vq0 = v;
                    self.vq_len = 1;
                    return None;
                }
                if self.vq_len == 1 {
                    self.vq1 = v;
                    self.vq_len = 2;
                    return None;
                }
                let (a, b) = (self.vq0, self.vq1);
                if kind == 3 {
                    self.vq_len = 0;
                } else if kind == 4 {
                    self.vq0 = b;
                    self.vq1 = v;
                } else {
                    self.vq1 = v;
                }
                Some(Primitive::Triangle(a, b, v))
            },
            _ => {
                self.vq_len = 0;
                None
            },
        }
    }
}

} // verus!
