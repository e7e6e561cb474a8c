//! GIF: unpacks GIFtag streams into GS register writes. PACKED, REGLIST and
//! IMAGE modes.

use vstd::prelude::*;
use vstd::arithmetic::power2::*;
use crate::bits::{bit, bits, law_bit_is_parity, law_bits_divide, lemma_placed_above};

verus! {

/// A GS general register write.
#[derive(Clone, Copy)]
pub struct GsWrite {
    pub reg: u8,
    pub v: u64,
}

pub struct Gif {
    /// Loops left in the current tag.
    pub nloop: u32,
    /// Register descriptors and progress within the current loop.
    pub nreg: u32,
    pub reg_index: u32,
    pub regs: u64,
    pub flg: u32,
    /// The tag ends its packet.
    pub eop: bool,
    /// Q latched by the last packed ST, for the next packed RGBAQ.
    pub q: u32,
}

/// Where a tag stands.
pub struct Tag {
    pub nloop: u32,
    pub nreg: u32,
    pub reg_index: u32,
    pub regs: u64,
    pub flg: u32,
    pub eop: bool,
    pub q: u32,
}

pub open spec fn w(reg: int, v: u64) -> GsWrite {
    GsWrite { reg: reg as u8, v }
}

impl Tag {
    /// No tag yet.
    pub open spec fn none() -> Tag {
        Tag { nloop: 0, nreg: 0, reg_index: 0, regs: 0, flg: 0, eop: false, q: 0 }
    }

    /// A new tag.
    pub open spec fn started(self, lo: u64, hi: u64) -> Tag {
        Tag {
            nloop: bits(lo, 0, 0x7FFF) as u32,
            eop: bit(lo, 15),
            flg: bits(lo, 58, 3) as u32,
            nreg: if bits(lo, 60, 0xF) == 0 {
                16
            } else {
                bits(lo, 60, 0xF) as u32
            },
            regs: hi,
            reg_index: 0,
            ..self
        }
    }

    /// The register descriptor that comes next.
    pub open spec fn descriptor(self) -> u64 {
        bits(self.regs, (self.reg_index * 4) as u64, 0xF)
    }

    /// One register further.
    pub open spec fn advanced(self) -> Tag {
        if self.reg_index + 1 >= self.nreg {
            Tag { reg_index: 0, nloop: (self.nloop - 1) as u32, ..self }
        } else {
            Tag { reg_index: (self.reg_index + 1) as u32, ..self }
        }
    }

    /// The tag after a quadword, and the writes that the quadword makes.
    pub open spec fn fed(self, lo: u64, hi: u64) -> (Tag, Seq<GsWrite>) {
        if self.nloop == 0 {
            // PRE: the tag carries a PRIM write.
            (
                self.started(lo, hi),
                if bit(lo, 46) {
                    seq![w(0x00, bits(lo, 47, 0x7FF))]
                } else {
                    seq![]
                },
            )
        } else if self.flg == 0 {
            let desc = self.descriptor();
            let latched = if desc == 2 {
                Tag { q: bits(hi, 0, 0xFFFF_FFFF) as u32, ..self }
            } else {
                self
            };
            (latched.advanced(), packed(desc, lo, hi, self.q))
        } else if self.flg == 1 {
            let a = self.advanced();
            if a.nloop == 0 {
                (a, raw(self.descriptor(), lo))
            } else {
                (a.advanced(), raw(self.descriptor(), lo) + raw(a.descriptor(), hi))
            }
        } else {
            (Tag { nloop: (self.nloop - 1) as u32, ..self }, seq![w(0x54, lo), w(0x54, hi)])
        }
    }
}

/// A REGLIST register: raw 64-bit data; A+D has no meaning there.
pub open spec fn raw(desc: u64, v: u64) -> Seq<GsWrite> {
    if desc != 0xE {
        seq![w(desc as int, v)]
    } else {
        seq![]
    }
}

/// A PACKED register: fields spread over the quadword.
pub open spec fn packed(desc: u64, lo: u64, hi: u64, q: u32) -> Seq<GsWrite> {
    if desc == 0x0 {
        // PRIM.
        seq![w(0x00, bits(lo, 0, 0x7FF))]
    } else if desc == 0x1 {
        // RGBAQ: bytes spread across the words; Q from the last ST.
        seq![
            w(
                0x01,
                bits(lo, 0, 0xFF) | (bits(lo, 32, 0xFF) << 8) | (bits(hi, 0, 0xFF) << 16) | (bits(hi, 32, 0xFF) << 24) | ((
                q as u64) << 32),
            ),
        ]
    } else if desc == 0x2 {
        // ST.
        seq![w(0x02, lo)]
    } else if desc == 0x3 {
        // UV.
        seq![w(0x03, bits(lo, 0, 0x3FFF) | (bits(lo, 32, 0x3FFF) << 16))]
    } else if desc == 0x4 {
        // XYZF2/3: F at 100-107, ADC at 111.
        seq![
            w(
                if bit(hi, 47) {
                    0x0C
                } else {
                    0x04
                },
                bits(lo, 0, 0xFFFF) | (bits(lo, 32, 0xFFFF) << 16) | (bits(hi, 4, 0xFF_FFFF) << 32) | (bits(hi, 36, 0xFF)
                    << 56),
            ),
        ]
    } else if desc == 0x5 {
        // XYZ2/3.
        seq![
            w(
                if bit(hi, 47) {
                    0x0D
                } else {
                    0x05
                },
                bits(lo, 0, 0xFFFF) | (bits(lo, 32, 0xFFFF) << 16) | (bits(hi, 0, 0xFFFF_FFFF) << 32),
            ),
        ]
    } else if (6 <= desc <= 9) || desc == 0xC || desc == 0xD {
        seq![w(desc as int, lo)]
    } else if desc == 0xA {
        // FOG.
        seq![w(0x0A, bits(hi, 36, 0xFF))]
    } else if desc == 0xE {
        // A+D: address in the high word.
        seq![w(bits(hi, 0, 0xFF) as int, lo)]
    } else {
        seq![]
    }
}

impl Gif {
    pub open spec fn tag(&self) -> Tag {
        Tag {
            nloop: self.nloop,
            nreg: self.nreg,
            reg_index: self.reg_index,
            regs: self.regs,
            flg: self.flg,
            eop: self.eop,
            q: self.q,
        }
    }

    pub open spec fn wf(&self) -> bool {
        self.nloop > 0 ==> 1 <= self.nreg <= 16 && self.reg_index < self.nreg
    }

    pub fn new() -> (g: Self)
        ensures
            g.wf(),
            g.tag() == Tag::none(),
    {
        Gif { nloop: 0, nreg: 0, reg_index: 0, regs: 0, flg: 0, eop: false, q: 0 }
    }

    pub fn idle(&self) -> (r: bool)
        ensures
            r == (self.nloop == 0),
    {
        self.nloop == 0
    }

    fn advance(&mut self)
        requires
            old(self).wf(),
            old(self).nloop > 0,
        ensures
            final(self).wf(),
            final(self).tag() == old(self).tag().advanced(),
    {
        if self.reg_index + 1 >= self.nreg {
            self.reg_index = 0;
            self.nloop = self.nloop - 1;
        } else {
            self.reg_index = self.reg_index + 1;
        }
    }

    fn next_descriptor(&self) -> (d: u64)
        requires
            self.wf(),
            self.nloop > 0,
        ensures
            d == self.tag().descriptor(),
            d <= 15,
    {
        bits(self.regs, self.reg_index as u64 * 4, 0xF)
    }

    /// Feed one quadword; gives the GS register writes that it makes, in
    /// order.
    pub fn process(&mut self, lo: u64, hi: u64) -> (out: Vec<GsWrite>)
        requires
            old(self).wf(),
        ensures
            final(self).wf(),
            final(self).tag() == old(self).tag().fed(lo, hi).0,
            out@ == old(self).tag().fed(lo, hi).1,
    {
        let mut out: Vec<GsWrite> = Vec::new();
        let ghost want = self.tag().fed(lo, hi).1;
        if self.nloop == 0 {
            self.nloop = bits(lo, 0, 0x7FFF) as u32;
            self.eop = bit(lo, 15);
            self.flg = bits(lo, 58, 3) as u32;
            let n: u32 = bits(lo, 60, 0xF) as u32;
            self.nreg = if n == 0 { 16 } else { n };
            self.regs = hi;
            self.reg_index = 0;
            if bit(lo, 46) {
                out.push(GsWrite { reg: 0x00, v: bits(lo, 47, 0x7FF) });
            }
        } else {
            match self.flg {
                0 => {
                    let desc: u64 = self.next_descriptor();
                    out = unpack(desc, lo, hi, self.q);
                    if desc == 2 {
                        self.q = bits(hi, 0, 0xFFFF_FFFF) as u32;
                    }
                    self.advance();
                },
                1 => {
                    let desc: u64 = self.next_descriptor();
                    if desc != 0xE {
                        out.push(GsWrite { reg: desc as u8, v: lo });
                    }
                    self.advance();
                    if self.nloop != 0 {
                        let desc: u64 = self.next_descriptor();
                        if desc != 0xE {
                            out.push(GsWrite { reg: desc as u8, v: hi });
                        }
                        self.advance();
                    }
                },
                _ => {
                    out.push(GsWrite { reg: 0x54, v: lo });
                    out.push(GsWrite { reg: 0x54, v: hi });
                    self.nloop = self.nloop - 1;
                },
            }
        }
        assert(out@ =~= want);
        out
    }
}

impl Default for Gif {
    fn default() -> (g: Self)
        ensures
            g.wf(),
            g.tag() == Tag::none(),
    {
        Gif::new()
    }
}

fn unpack(desc: u64, lo: u64, hi: u64, q: u32) -> (out: Vec<GsWrite>)
    requires
        desc <= 15,
    ensures
        out@ == packed(desc, lo, hi, q),
{
    let mut out: Vec<GsWrite> = Vec::new();
    match desc {
        0x0 => out.push(GsWrite { reg: 0x00, v: bits(lo, 0, 0x7FF) }),
        0x1 => out.push(
            GsWrite {
                reg: 0x01,
                v: bits(lo, 0, 0xFF) | (bits(lo, 32, 0xFF) << 8) | (bits(hi, 0, 0xFF) << 16) | (bits(hi, 32, 0xFF) << 24) | ((
                q as u64) << 32),
            },
        ),
        0x2 => out.push(GsWrite { reg: 0x02, v: lo }),
        0x3 => out.push(GsWrite { reg: 0x03, v: bits(lo, 0, 0x3FFF) | (bits(lo, 32, 0x3FFF) << 16) }),
        0x4 => out.push(
            GsWrite {
                reg: if bit(hi, 47) {
                    0x0C
                } else {
                    0x04
                },
                v: bits(lo, 0, 0xFFFF) | (bits(lo, 32, 0xFFFF) << 16) | (bits(hi, 4, 0xFF_FFFF) << 32) | (bits(hi, 36, 0xFF)
                    << 56),
            },
        ),
        0x5 => out.push(
            GsWrite {
                reg: if bit(hi, 47) {
                    0x0D
                } else {
                    0x05
                },
                v: bits(lo, 0, 0xFFFF) | (bits(lo, 32, 0xFFFF) << 16) | (bits(hi, 0, 0xFFFF_FFFF) << 32),
            },
        ),
        0x6 | 0x7 | 0x8 | 0x9 | 0xC | 0xD => out.push(GsWrite { reg: desc as u8, v: lo }),
        0xA => out.push(GsWrite { reg: 0x0A, v: bits(hi, 36, 0xFF) }),
        0xE => out.push(GsWrite { reg: bits(hi, 0, 0xFF) as u8, v: lo }),
        _ => {},
    }
    assert(out@ =~= packed(desc, lo, hi, q));
    out
}

/// A tag of `nloop` loops over `nreg` registers takes exactly that many
/// register slots: each one moves it on, and the last slot of the last loop
/// leaves it idle.
pub proof fn law_tag_counts_down(t: Tag)
    requires
        t.nloop > 0,
        1 <= t.nreg <= 16,
        t.reg_index < t.nreg,
    ensures
        ({
            let a = t.advanced();
            let left = |x: Tag| x.nloop * x.nreg - x.reg_index;
            left(a) == left(t) - 1 && a.reg_index < a.nreg && (a.nloop == 0 <==> left(t) == 1)
        }),
{
    assert(t.nloop * t.nreg - t.nreg == (t.nloop - 1) * t.nreg) by (nonlinear_arith);
    assert((t.nloop - 1) * t.nreg >= 0) by (nonlinear_arith)
        requires
            t.nloop >= 1,
            t.nreg >= 1,
    ;
    if t.nloop > 1 {
        assert((t.nloop - 1) * t.nreg >= t.nreg) by (nonlinear_arith)
            requires
                t.nloop >= 2,
                t.nreg >= 1,
        ;
    }
}

/// Register descriptor `i` of a tag is nibble `i` of its upper doubleword.
pub proof fn law_descriptors_are_nibbles(t: Tag)
    requires
        t.reg_index < 16,
    ensures
        t.descriptor() == t.regs as int / pow2((4 * t.reg_index) as nat) as int % 16,
{
    lemma2_to64();
    law_bits_divide(t.regs, (t.reg_index * 4) as u64, 4, 0xF);
}

/// The fields of a GIFtag, by place: NLOOP 0-14, EOP 15, PRE 46, PRIM 47-57,
/// FLG 58-59, NREG 60-63 with zero for sixteen, and the descriptors in the
/// upper half. Only a tag with PRE writes anything, and that is PRIM.
pub proof fn law_tag_fields(t: Tag, lo: u64, hi: u64)
    requires
        t.nloop == 0,
    ensures
        ({
            let (n, out) = t.fed(lo, hi);
            let nreg = lo as int / 0x1000_0000_0000_0000;
            &&& n.nloop == lo as int % 0x8000
            &&& n.eop <==> lo as int / 0x8000 % 2 == 1
            &&& n.flg == lo as int / 0x400_0000_0000_0000 % 4
            &&& n.nreg == (if nreg == 0 {
                16
            } else {
                nreg
            })
            &&& n.regs == hi && n.reg_index == 0 && n.q == t.q
            &&& lo as int / 0x4000_0000_0000 % 2 == 0 ==> out.len() == 0
            &&& lo as int / 0x4000_0000_0000 % 2 == 1 ==> out.len() == 1 && out[0].reg == 0 && out[0].v == lo as int
                / 0x8000_0000_0000 % 0x800
        }),
{
    lemma2_to64();
    lemma2_to64_rest();
    law_bits_divide(lo, 0, 15, 0x7FFF);
    law_bit_is_parity(lo, 15);
    law_bit_is_parity(lo, 46);
    law_bits_divide(lo, 47, 11, 0x7FF);
    law_bits_divide(lo, 58, 2, 3);
    law_bits_divide(lo, 60, 4, 0xF);
}

proof fn lemma_bytes_apart(r: int, g: int, b: int, a: int, q: int)
    requires
        0 <= r < 256,
        0 <= g < 256,
        0 <= b < 256,
        0 <= a < 256,
        0 <= q,
    ensures
        ({
            let v = r + 0x100 * g + 0x1_0000 * b + 0x100_0000 * a + 0x1_0000_0000 * q;
            &&& v % 256 == r
            &&& v / 0x100 % 256 == g
            &&& v / 0x1_0000 % 256 == b
            &&& v / 0x100_0000 % 256 == a
            &&& v / 0x1_0000_0000 == q
        }),
{
    let v = r + 0x100 * g + 0x1_0000 * b + 0x100_0000 * a + 0x1_0000_0000 * q;
    assert(v / 0x100 == g + 0x100 * (b + 0x100 * (a + 0x100 * q)));
    assert(v / 0x1_0000 == b + 0x100 * (a + 0x100 * q));
    assert(v / 0x100_0000 == a + 0x100 * q);
}

/// A PACKED RGBAQ quadword writes register 1: red, green, blue and alpha
/// come from the low byte of each of its four words, in that order, and Q
/// from the last ST.
pub proof fn law_packed_rgbaq(t: Tag, lo: u64, hi: u64)
    requires
        t.nloop > 0,
        t.flg == 0,
        t.descriptor() == 1,
    ensures
        ({
            let out = t.fed(lo, hi).1;
            let v = out[0].v as int;
            &&& out.len() == 1
            &&& out[0].reg == 1
            &&& v % 256 == lo as int % 256
            &&& v / 0x100 % 256 == lo as int / 0x1_0000_0000 % 256
            &&& v / 0x1_0000 % 256 == hi as int % 256
            &&& v / 0x100_0000 % 256 == hi as int / 0x1_0000_0000 % 256
            &&& v / 0x1_0000_0000 == t.q
        }),
{
    lemma2_to64();
    law_bits_divide(lo, 0, 8, 0xFF);
    law_bits_divide(lo, 32, 8, 0xFF);
    law_bits_divide(hi, 0, 8, 0xFF);
    law_bits_divide(hi, 32, 8, 0xFF);
    let (r, g, b, a) = (bits(lo, 0, 0xFF), bits(lo, 32, 0xFF), bits(hi, 0, 0xFF), bits(hi, 32, 0xFF));
    lemma_placed_above(r, g, 8);
    let x = r | (g << 8);
    lemma_placed_above(x, b, 16);
    let y = x | (b << 16);
    lemma_placed_above(y, a, 24);
    let z = y | (a << 24);
    lemma_placed_above(z, t.q as u64, 32);
    let v = (z | ((t.q as u64) << 32)) as int;
    assert(v == r + 0x100 * g + 0x1_0000 * b + 0x100_0000 * a + 0x1_0000_0000 * t.q);
    lemma_bytes_apart(r as int, g as int, b as int, a as int, t.q as int);
}

/// A PACKED ST quadword writes its lower half to register 2 and leaves its
/// third word as the Q of later RGBAQ writes; no other register moves Q.
pub proof fn law_packed_st(t: Tag, lo: u64, hi: u64)
    requires
        t.nloop > 0,
        t.flg == 0,
    ensures
        t.descriptor() == 2 ==> t.fed(lo, hi).1 =~= seq![GsWrite { reg: 2, v: lo }],
        t.descriptor() == 2 ==> t.fed(lo, hi).0.q == hi as int % 0x1_0000_0000,
        t.descriptor() != 2 ==> t.fed(lo, hi).0.q == t.q,
{
    lemma2_to64();
    law_bits_divide(hi, 0, 32, 0xFFFF_FFFF);
}

/// A PACKED UV quadword writes register 3: U from bits 0-13 in the lower
/// halfword, V from bits 32-45 in the upper.
pub proof fn law_packed_uv(t: Tag, lo: u64, hi: u64)
    requires
        t.nloop > 0,
        t.flg == 0,
        t.descriptor() == 3,
    ensures
        ({
            let out = t.fed(lo, hi).1;
            let v = out[0].v as int;
            &&& out.len() == 1
            &&& out[0].reg == 3
            &&& v % 0x1_0000 == lo as int % 0x4000
            &&& v / 0x1_0000 == lo as int / 0x1_0000_0000 % 0x4000
        }),
{
    lemma2_to64();
    law_bits_divide(lo, 0, 14, 0x3FFF);
    law_bits_divide(lo, 32, 14, 0x3FFF);
    lemma_placed_above(bits(lo, 0, 0x3FFF), bits(lo, 32, 0x3FFF), 16);
    assert(t.fed(lo, hi).1[0].v == bits(lo, 0, 0x3FFF) + 0x1_0000 * bits(lo, 32, 0x3FFF));
}

/// A PACKED XYZF quadword: X from bits 0-15, Y from 32-47, Z from 68-91 and
/// fog from 100-107. Bit 111 decides whether the write kicks a drawing
/// (register 4) or only queues the vertex (register 12).
pub proof fn law_packed_xyzf(t: Tag, lo: u64, hi: u64)
    requires
        t.nloop > 0,
        t.flg == 0,
        t.descriptor() == 4,
    ensures
        ({
            let out = t.fed(lo, hi).1;
            let v = out[0].v as int;
            &&& out.len() == 1
            &&& hi as int / 0x8000_0000_0000 % 2 == 0 ==> out[0].reg == 4
            &&& hi as int / 0x8000_0000_0000 % 2 == 1 ==> out[0].reg == 12
            &&& v % 0x1_0000 == lo as int % 0x1_0000
            &&& v / 0x1_0000 % 0x1_0000 == lo as int / 0x1_0000_0000 % 0x1_0000
            &&& v / 0x1_0000_0000 % 0x100_0000 == hi as int / 16 % 0x100_0000
            &&& v / 0x100_0000_0000_0000 == hi as int / 0x10_0000_0000 % 256
        }),
{
    lemma2_to64();
    lemma2_to64_rest();
    law_bit_is_parity(hi, 47);
    law_bits_divide(lo, 0, 16, 0xFFFF);
    law_bits_divide(lo, 32, 16, 0xFFFF);
    law_bits_divide(hi, 4, 24, 0xFF_FFFF);
    law_bits_divide(hi, 36, 8, 0xFF);
    let (x, y, z, f) = (bits(lo, 0, 0xFFFF), bits(lo, 32, 0xFFFF), bits(hi, 4, 0xFF_FFFF), bits(hi, 36, 0xFF));
    lemma_placed_above(x, y, 16);
    let a = x | (y << 16);
    lemma_placed_above(a, z, 32);
    let b = a | (z << 32);
    lemma_placed_above(b, f, 56);
    let v = (b | (f << 56)) as int;
    assert(t.fed(lo, hi).1[0].v == v);
    assert(v == x + 0x1_0000 * y + 0x1_0000_0000 * z + 0x100_0000_0000_0000 * f);
}

/// A PACKED XYZ quadword: X from bits 0-15, Y from 32-47, Z from 64-95. Bit
/// 111 decides whether the write kicks a drawing (register 5) or only queues
/// the vertex (register 13).
pub proof fn law_packed_xyz(t: Tag, lo: u64, hi: u64)
    requires
        t.nloop > 0,
        t.flg == 0,
        t.descriptor() == 5,
    ensures
        ({
            let out = t.fed(lo, hi).1;
            let v = out[0].v as int;
            &&& out.len() == 1
            &&& hi as int / 0x8000_0000_0000 % 2 == 0 ==> out[0].reg == 5
            &&& hi as int / 0x8000_0000_0000 % 2 == 1 ==> out[0].reg == 13
            &&& v % 0x1_0000 == lo as int % 0x1_0000
            &&& v / 0x1_0000 % 0x1_0000 == lo as int / 0x1_0000_0000 % 0x1_0000
            &&& v / 0x1_0000_0000 == hi as int % 0x1_0000_0000
        }),
{
    lemma2_to64();
    lemma2_to64_rest();
    law_bit_is_parity(hi, 47);
    law_bits_divide(lo, 0, 16, 0xFFFF);
    law_bits_divide(lo, 32, 16, 0xFFFF);
    law_bits_divide(hi, 0, 32, 0xFFFF_FFFF);
    let (x, y, z) = (bits(lo, 0, 0xFFFF), bits(lo, 32, 0xFFFF), bits(hi, 0, 0xFFFF_FFFF));
    lemma_placed_above(x, y, 16);
    let a = x | (y << 16);
    lemma_placed_above(a, z, 32);
    assert(t.fed(lo, hi).1[0].v == a | (z << 32));
    assert((a | (z << 32)) == x + 0x1_0000 * y + 0x1_0000_0000 * z);
}

/// The rest of the PACKED registers: PRIM is the low eleven bits, FOG comes
/// from bits 100-107, A+D names its register in bits 64-71, the drawing
/// environment's registers 6-9 and the unkicked vertices 12 and 13 are the
/// lower half as it stands, and 11 and 15 write nothing.
pub proof fn law_packed_rest(t: Tag, lo: u64, hi: u64)
    requires
        t.nloop > 0,
        t.flg == 0,
    ensures
        ({
            let out = t.fed(lo, hi).1;
            let d = t.descriptor();
            &&& d == 0 ==> out.len() == 1 && out[0].reg == 0 && out[0].v == lo as int % 0x800
            &&& d == 10 ==> out.len() == 1 && out[0].reg == 10 && out[0].v == hi as int / 0x10_0000_0000 % 256
            &&& d == 14 ==> out.len() == 1 && out[0].reg == hi as int % 256 && out[0].v == lo
            &&& (6 <= d <= 9 || d == 12 || d == 13) ==> out.len() == 1 && out[0].reg == d && out[0].v == lo
            &&& (d == 11 || d == 15) ==> out.len() == 0
        }),
{
    lemma2_to64();
    lemma2_to64_rest();
    law_bits_divide(lo, 0, 11, 0x7FF);
    law_bits_divide(hi, 36, 8, 0xFF);
    law_bits_divide(hi, 0, 8, 0xFF);
}

/// A REGLIST quadword fills two registers, lower half first, each as it
/// stands; the second half is left over when the first ended the tag. An
/// A+D descriptor takes its half and writes nothing.
pub proof fn law_reglist_halves(t: Tag, lo: u64, hi: u64)
    requires
        t.nloop > 0,
        t.flg == 1,
        1 <= t.nreg <= 16,
        t.reg_index < t.nreg,
    ensures
        ({
            let out = t.fed(lo, hi).1;
            let last = t.nloop == 1 && t.reg_index + 1 == t.nreg;
            let next = if t.reg_index + 1 == t.nreg {
                0int
            } else {
                t.reg_index + 1
            };
            let first = t.regs as int / pow2((4 * t.reg_index) as nat) as int % 16;
            let second = t.regs as int / pow2((4 * next) as nat) as int % 16;
            &&& last && first != 14 ==> out =~= seq![GsWrite { reg: first as u8, v: lo }]
            &&& last && first == 14 ==> out.len() == 0
            &&& !last && first != 14 && second != 14 ==> out =~= seq![
                GsWrite { reg: first as u8, v: lo },
                GsWrite { reg: second as u8, v: hi },
            ]
            &&& !last && first == 14 && second != 14 ==> out =~= seq![GsWrite { reg: second as u8, v: hi }]
            &&& !last && first != 14 && second == 14 ==> out =~= seq![GsWrite { reg: first as u8, v: lo }]
        }),
{
    law_descriptors_are_nibbles(t);
    law_descriptors_are_nibbles(t.advanced());
}

/// An IMAGE quadword is two writes of HWREG (0x54), lower half first, and
/// uses up one loop.
pub proof fn law_image_halves(t: Tag, lo: u64, hi: u64)
    requires
        t.nloop > 0,
        t.flg >= 2,
    ensures
        t.fed(lo, hi).1 =~= seq![GsWrite { reg: 0x54, v: lo }, GsWrite { reg: 0x54, v: hi }],
        t.fed(lo, hi).0.nloop == t.nloop - 1,
        t.fed(lo, hi).0.regs == t.regs && t.fed(lo, hi).0.flg == t.flg && t.fed(lo, hi).0.nreg == t.nreg,
{
}

} // verus!
