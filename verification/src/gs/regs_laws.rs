//! What the general registers mean: vertices, the primitives that they make,
//! and where a write lands.

use vstd::prelude::*;
use vstd::arithmetic::power2::*;
use crate::bits::{law_bit_is_parity, law_bits_divide};
use super::regs::{Primitive, Registers, Vertex};

verus! {

/// A vertex takes its position relative to XYOFFSET (X in 0-15 and Y in
/// 16-31, of the offset in 0-15 and 32-47), its colour from the bytes of
/// RGBAQ, red lowest, S and T from the halves of ST, and U and V from the
/// fourteen low bits of the halfwords of UV.
pub proof fn law_vertex_fields(r: Registers, xy: u64, z: u32)
    ensures
        ({
            let n = r.vertex(xy, z);
            let (p, o) = (xy as int, r.context().xyoffset as int);
            let (c, st, uv) = (r.rgbaq as int, r.st as int, r.uv as int);
            &&& n.x == p % 0x1_0000 - o % 0x1_0000
            &&& n.y == p / 0x1_0000 % 0x1_0000 - o / 0x1_0000_0000 % 0x1_0000
            &&& n.z == z
            &&& n.r == c % 256
            &&& n.g == c / 0x100 % 256
            &&& n.b == c / 0x1_0000 % 256
            &&& n.a == c / 0x100_0000 % 256
            &&& n.q == c / 0x1_0000_0000
            &&& n.s == st % 0x1_0000_0000
            &&& n.t == st / 0x1_0000_0000
            &&& n.u == uv % 0x4000
            &&& n.v == uv / 0x1_0000 % 0x4000
        }),
{
    lemma2_to64();
    let o = r.context().xyoffset;
    law_bits_divide(xy, 0, 16, 0xFFFF);
    law_bits_divide(xy, 16, 16, 0xFFFF);
    law_bits_divide(o, 0, 16, 0xFFFF);
    law_bits_divide(o, 32, 16, 0xFFFF);
    law_bits_divide(r.rgbaq, 0, 8, 0xFF);
    law_bits_divide(r.rgbaq, 8, 8, 0xFF);
    law_bits_divide(r.rgbaq, 16, 8, 0xFF);
    law_bits_divide(r.rgbaq, 24, 8, 0xFF);
    law_bits_divide(r.rgbaq, 32, 32, 0xFFFF_FFFF);
    law_bits_divide(r.st, 0, 32, 0xFFFF_FFFF);
    law_bits_divide(r.st, 32, 32, 0xFFFF_FFFF);
    law_bits_divide(r.uv, 0, 14, 0x3FFF);
    law_bits_divide(r.uv, 16, 14, 0x3FFF);
}

/// XYZF2 and XYZ2 draw and XYZF3 and XYZ3 only queue the same vertex; beside
/// a fog value Z is 24 bits wide.
pub proof fn law_kicks(r: Registers, v: u64)
    ensures
        Registers::kick_z(0x04, v) == v as int / 0x1_0000_0000 % 0x100_0000,
        Registers::kick_z(0x05, v) == v as int / 0x1_0000_0000,
        r.written(0x0C, v) == r.written(0x04, v),
        r.written(0x0D, v) == r.written(0x05, v),
        r.completed(0x0C, v) is None && r.completed(0x0D, v) is None,
        r.completed(0x04, v) == r.finished(r.vertex(v, Registers::kick_z(0x04, v))),
        r.completed(0x05, v) == r.finished(r.vertex(v, Registers::kick_z(0x05, v))),
{
    lemma2_to64();
    law_bits_divide(v, 32, 24, 0xFF_FFFF);
    law_bits_divide(v, 32, 32, 0xFFFF_FFFF);
}

/// The primitives that four vertices make, by kind: points one each; lines
/// in pairs and strips joined at the ends; triangles in threes, strips that
/// go on from the last two, fans around the first; sprites by corners.
pub proof fn law_primitives(r: Registers, a: Vertex, b: Vertex, c: Vertex, d: Vertex)
    requires
        r.vq_len == 0,
    ensures
        ({
            let k = r.prim as int % 8;
            let r1 = r.queued(a);
            let r2 = r1.queued(b);
            let r3 = r2.queued(c);
            let (p1, p2, p3, p4) = (r.finished(a), r1.finished(b), r2.finished(c), r3.finished(d));
            &&& k == 0 ==> p1 == Some(Primitive::Point(a)) && p2 == Some(Primitive::Point(b))
            &&& k > 0 ==> p1 is None
            &&& k == 1 ==> p2 == Some(Primitive::Line(a, b)) && p3 is None && p4 == Some(Primitive::Line(c, d))
            &&& k == 2 ==> p2 == Some(Primitive::Line(a, b)) && p3 == Some(Primitive::Line(b, c)) && p4 == Some(
                Primitive::Line(c, d),
            )
            &&& k == 3 ==> p2 is None && p3 == Some(Primitive::Triangle(a, b, c)) && p4 is None
            &&& k == 4 ==> p2 is None && p3 == Some(Primitive::Triangle(a, b, c)) && p4 == Some(Primitive::Triangle(b, c, d))
            &&& k == 5 ==> p2 is None && p3 == Some(Primitive::Triangle(a, b, c)) && p4 == Some(Primitive::Triangle(a, c, d))
            &&& k == 6 ==> p2 == Some(Primitive::Sprite(a, b)) && p3 is None && p4 == Some(Primitive::Sprite(c, d))
            &&& k == 7 ==> p2 is None && p3 is None && p4 is None
        }),
{
    lemma2_to64();
    law_bits_divide(r.prim, 0, 3, 7);
}

/// The transfer registers, by place.
pub proof fn law_transfer_fields(r: Registers)
    ensures
        ({
            let t = r.target();
            let s = r.source();
            let (b, p, g) = (r.bitbltbuf as int, r.trxpos as int, r.trxreg as int);
            &&& s.bp == b % 0x4000
            &&& s.bw == b / 0x1_0000 % 64
            &&& s.psm == b / 0x100_0000 % 64
            &&& t.s.bp == b / 0x1_0000_0000 % 0x4000
            &&& t.s.bw == b / 0x1_0000_0000_0000 % 64
            &&& t.s.psm == b / 0x100_0000_0000_0000 % 64
            &&& r.source_x() == p % 0x800
            &&& r.source_y() == p / 0x1_0000 % 0x800
            &&& t.r.x == p / 0x1_0000_0000 % 0x800
            &&& t.r.y == p / 0x1_0000_0000_0000 % 0x800
            &&& t.r.w == g % 0x1000
            &&& t.r.h == g / 0x1_0000_0000 % 0x1000
        }),
{
    lemma2_to64();
    lemma2_to64_rest();
    law_bits_divide(r.bitbltbuf, 0, 14, 0x3FFF);
    law_bits_divide(r.bitbltbuf, 16, 6, 0x3F);
    law_bits_divide(r.bitbltbuf, 24, 6, 0x3F);
    law_bits_divide(r.bitbltbuf, 32, 14, 0x3FFF);
    law_bits_divide(r.bitbltbuf, 48, 6, 0x3F);
    law_bits_divide(r.bitbltbuf, 56, 6, 0x3F);
    law_bits_divide(r.trxpos, 0, 11, 0x7FF);
    law_bits_divide(r.trxpos, 16, 11, 0x7FF);
    law_bits_divide(r.trxpos, 32, 11, 0x7FF);
    law_bits_divide(r.trxpos, 48, 11, 0x7FF);
    law_bits_divide(r.trxreg, 0, 12, 0xFFF);
    law_bits_divide(r.trxreg, 32, 12, 0xFFF);
}

pub proof fn lemma_attribute_bits(x: u64, y: u64)
    by (bit_vector)
    ensures
        ((x & !0x7u64) | (y & 0x7)) % 8 == y % 8,
        ((x & !0x7u64) | (y & 0x7)) / 8 == x / 8,
        y & 1 == y % 2,
        y & 2 != 0 <==> y / 2 % 2 == 1,
        y & 3 == y % 4,
{
}

/// The primitive's kind is always PRIM's; its other attributes are PRIM's
/// with AC set in PRMODECONT and PRMODE's without. Attribute bit 9 chooses
/// the drawing context.
pub proof fn law_attributes(r: Registers)
    ensures
        ({
            let a = r.spec_attrs() as int;
            &&& a % 8 == r.prim as int % 8
            &&& r.prmodecont as int % 2 == 1 ==> a / 8 == r.prim as int / 8
            &&& r.prmodecont as int % 2 == 0 ==> a / 8 == r.prmode as int / 8
            &&& a / 512 % 2 == 0 ==> r.context() == r.ctx1
            &&& a / 512 % 2 == 1 ==> r.context() == r.ctx2
        }),
{
    lemma2_to64();
    lemma_attribute_bits(r.prmode, r.prim);
    lemma_attribute_bits(r.prmode, r.prmodecont);
    law_bit_is_parity(r.spec_attrs(), 9);
}

/// A register write is read back where the drawing looks for it. Context 2's
/// registers are one up from context 1's, and writing one leaves the other
/// context alone.
pub proof fn law_writes_land(r: Registers, v: u64)
    ensures
        r.written(0x00, v).prim == v && r.written(0x00, v).vq_len == 0,
        r.written(0x01, v) == (Registers { rgbaq: v, ..r }),
        r.written(0x02, v) == (Registers { st: v, ..r }),
        r.written(0x03, v) == (Registers { uv: v, ..r }),
        r.written(0x06, v).ctx1.tex0 == v && r.written(0x07, v).ctx2.tex0 == v,
        r.written(0x08, v).ctx1.clamp == v && r.written(0x09, v).ctx2.clamp == v,
        r.written(0x14, v).ctx1.tex1 == v && r.written(0x15, v).ctx2.tex1 == v,
        r.written(0x18, v).ctx1.xyoffset == v && r.written(0x19, v).ctx2.xyoffset == v,
        r.written(0x40, v).ctx1.scissor == v && r.written(0x41, v).ctx2.scissor == v,
        r.written(0x42, v).ctx1.alpha == v && r.written(0x43, v).ctx2.alpha == v,
        r.written(0x47, v).ctx1.test == v && r.written(0x48, v).ctx2.test == v,
        r.written(0x4C, v).ctx1.frame == v && r.written(0x4D, v).ctx2.frame == v,
        r.written(0x4E, v).ctx1.zbuf == v && r.written(0x4F, v).ctx2.zbuf == v,
        r.written(0x1A, v).prmodecont == v,
        r.written(0x1B, v).prmode == v,
        r.written(0x3B, v).texa == v,
        r.written(0x50, v).bitbltbuf == v,
        r.written(0x51, v).trxpos == v,
        r.written(0x52, v).trxreg == v,
        r.written(0x06, v).ctx2 == r.ctx2 && r.written(0x07, v).ctx1 == r.ctx1,
        r.written(0x42, v).ctx2 == r.ctx2 && r.written(0x43, v).ctx1 == r.ctx1,
        r.written(0x47, v).ctx2 == r.ctx2 && r.written(0x48, v).ctx1 == r.ctx1,
        r.written(0x4C, v).ctx2 == r.ctx2 && r.written(0x4D, v).ctx1 == r.ctx1,
        r.written(0x42, v).ctx1.test == r.ctx1.test && r.written(0x47, v).ctx1.alpha == r.ctx1.alpha,
{
}

} // verus!
