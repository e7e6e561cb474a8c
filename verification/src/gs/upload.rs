//! HOST->LOCAL image transfers: 64-bit chunks of pixels that fill a
//! rectangle in raster order.

use vstd::prelude::*;
use crate::bits::bits;
use crate::bytes::{le, le_bytes, lemma_le_bytes_len};
use super::canvas::Canvas;
use super::transfer::{
    copies, copied, copy_rect, is_16bit, mirror_upload_rect, mirrored, put_dup, put_pixel, uploads, with_dup,
    with_px, Rect, Surface, PSMCT16, PSMCT16S, PSMCT24, PSMCT32, PSMT4, PSMT4HH, PSMT4HL, PSMT8, PSMT8H, PSMZ16,
    PSMZ16S, PSMZ32,
};

verus! {

/// Where a transfer lands.
#[derive(Clone, Copy)]
pub struct Target {
    pub s: Surface,
    pub r: Rect,
}

impl Target {
    /// The ranges that the register fields leave.
    pub open spec fn wf(self) -> bool {
        self.s.wf() && self.r.x < 0x800 && self.r.y < 0x800 && self.r.w < 0x1000 && self.r.h < 0x1000
    }
}

/// Local memory and overlay as byte sequences, and the pixel of the
/// rectangle that comes next.
pub struct Progress {
    pub mem: Seq<u8>,
    pub over: Option<Seq<u8>>,
    pub x: u32,
    pub y: u32,
}

/// One pixel lands and the position moves on in raster order; a full
/// rectangle takes no more.
pub open spec fn landed(p: Progress, t: Target, px: u32) -> Progress {
    if p.y >= t.r.h {
        p
    } else {
        let x = (t.r.x + p.x) as u32;
        let y = (t.r.y + p.y) as u32;
        Progress {
            mem: with_px(p.mem, t.s, x, y, px),
            over: match p.over {
                Some(o) => Some(with_dup(o, t.s, x, y, px)),
                None => None,
            },
            x: if p.x + 1 >= t.r.w {
                0
            } else {
                (p.x + 1) as u32
            },
            y: if p.x + 1 >= t.r.w {
                (p.y + 1) as u32
            } else {
                p.y
            },
        }
    }
}

/// Pixels land one after the other.
pub open spec fn landed_all(p: Progress, t: Target, pxs: Seq<u32>) -> Progress
    decreases pxs.len(),
{
    if pxs.len() == 0 {
        p
    } else {
        landed(landed_all(p, t, pxs.drop_last()), t, pxs.last())
    }
}

/// Bits per pixel in the stream (PSMCT24 streams whole bytes instead).
pub open spec fn stream_bits(psm: u32) -> u64 {
    if psm == PSMCT32 || psm == PSMZ32 {
        32
    } else if is_16bit(psm) {
        16
    } else if psm == PSMT8 || psm == PSMT8H {
        8
    } else {
        4
    }
}

/// The value mask of a pixel of that many bits.
pub open spec fn stream_mask(n: u64) -> u64 {
    if n == 32 {
        0xFFFF_FFFF
    } else if n == 16 {
        0xFFFF
    } else if n == 8 {
        0xFF
    } else {
        0xF
    }
}

/// The pixels of one 64-bit chunk, lowest bits first.
pub open spec fn chunk(psm: u32, v: u64) -> Seq<u32> {
    let n = stream_bits(psm);
    Seq::new((64int / n as int) as nat, |i: int| bits(v, (i * n) as u64, stream_mask(n)) as u32)
}

/// The whole 3-byte pixels of a packed stream.
pub open spec fn triples(stream: Seq<u8>) -> Seq<u32> {
    Seq::new((stream.len() / 3) as nat, |i: int| le(stream.subrange(3 * i, 3 * i + 3)) as u32)
}

/// The bytes of a packed stream that do not make a pixel yet.
pub open spec fn remainder(stream: Seq<u8>) -> Seq<u8> {
    stream.subrange(3 * (stream.len() / 3) as int, stream.len() as int)
}

/// A transfer under way: `carry` is the partial pixel of a packed 24-bit
/// stream.
pub struct State {
    pub p: Progress,
    pub carry: Seq<u8>,
}

/// One 64-bit chunk arrives.
pub open spec fn received(st: State, t: Target, v: u64) -> State {
    if t.r.w == 0 {
        st
    } else if t.s.psm == PSMCT24 {
        let stream = st.carry + le_bytes(v as nat, 8);
        State { p: landed_all(st.p, t, triples(stream)), carry: remainder(stream) }
    } else if uploads(t.s.psm) {
        State { p: landed_all(st.p, t, chunk(t.s.psm, v)), carry: st.carry }
    } else {
        st
    }
}

/// A run of chunks arrives.
pub open spec fn received_all(st: State, t: Target, data: Seq<u64>) -> State
    decreases data.len(),
{
    if data.len() == 0 {
        st
    } else {
        received(received_all(st, t, data.drop_last()), t, data.last())
    }
}

/// The last row that a run touched, from where it started and stopped;
/// `None` where it touched none.
pub open spec fn last_row(t: Target, first: u32, x: u32, y: u32) -> Option<u32> {
    let y = if x > 0 {
        y
    } else {
        y.wrapping_sub(1)
    };
    let bottom = t.r.h.wrapping_sub(1);
    let last = if y < bottom {
        y
    } else {
        bottom
    };
    if last != u32::MAX && last >= first {
        Some(last)
    } else {
        None
    }
}

/// A run of PSMT8 or PSMCT32 chunks: the pixels land in local memory, then
/// the rows that the run touched are mirrored whole.
pub open spec fn received_run(st: State, t: Target, data: Seq<u64>) -> State {
    let blind = State { p: Progress { over: None, ..st.p }, carry: st.carry };
    let done = received_all(blind, t, data);
    State {
        p: Progress {
            over: match st.p.over {
                Some(o) => match last_row(t, st.p.y, done.p.x, done.p.y) {
                    Some(last) => Some(
                        mirrored(
                            o,
                            done.p.mem,
                            t.s,
                            rows(t, st.p.y, last),
                            rows(t, st.p.y, last).w * rows(t, st.p.y, last).h,
                        ),
                    ),
                    None => Some(o),
                },
                None => None,
            },
            ..done.p
        },
        carry: done.carry,
    }
}

/// Rows `first..=last` of the rectangle.
pub open spec fn rows(t: Target, first: u32, last: u32) -> Rect {
    Rect { x: t.r.x, y: (t.r.y + first) as u32, w: t.r.w, h: (last - first + 1) as u32 }
}

/// Local memory, its internal-2x overlay and the transfer into them. The
/// overlay is a 4x-size shadow of local memory in the same page/block layout
/// at doubled coordinates; transfers land in it as 2x2 duplicates and
/// scanout reads it instead of local memory. Local memory stays the source
/// of truth for everything the emulated software can observe.
pub struct Local {
    pub canvas: Canvas,
    pub overlay: Option<Canvas>,
    pub trx_x: u32,
    pub trx_y: u32,
    /// Partial pixel carried between 64-bit chunks of a packed 24-bit IMAGE
    /// stream (3 bytes per pixel, no chunk alignment).
    pub trx24: Vec<u8>,
}

impl Local {
    pub open spec fn wf(&self) -> bool {
        &&& self.canvas.wf()
        &&& self.overlay matches Some(o) ==> o.wf()
        &&& self.trx_x < 0x1000
        &&& self.trx_y <= 0x1000
        &&& self.trx24@.len() < 3
    }

    /// The overlay's bytes.
    pub open spec fn over(&self) -> Option<Seq<u8>> {
        match self.overlay {
            Some(o) => Some(o@),
            None => None,
        }
    }

    pub open spec fn progress(&self) -> Progress {
        Progress { mem: self.canvas@, over: self.over(), x: self.trx_x, y: self.trx_y }
    }

    pub open spec fn state(&self) -> State {
        State { p: self.progress(), carry: self.trx24@ }
    }

    fn land(&mut self, t: Target, px: u32)
        requires
            old(self).wf(),
            t.wf(),
        ensures
            final(self).wf(),
            final(self).progress() == landed(old(self).progress(), t, px),
            final(self).trx24 == old(self).trx24,
            final(self).canvas@.len() == old(self).canvas@.len(),
    {
        if self.trx_y >= t.r.h {
            return;
        }
        let x: u32 = t.r.x + self.trx_x;
        let y: u32 = t.r.y + self.trx_y;
        put_pixel(&mut self.canvas, t.s, x, y, px);
        match &mut self.overlay {
            Some(ov) => put_dup(ov, t.s, x, y, px),
            None => {},
        }
        if self.trx_x + 1 >= t.r.w {
            self.trx_x = 0;
            self.trx_y = self.trx_y + 1;
        } else {
            self.trx_x = self.trx_x + 1;
        }
    }

    /// HWREG: one 64-bit chunk of a HOST->LOCAL image transfer.
    pub fn hwreg(&mut self, t: Target, v: u64)
        requires
            old(self).wf(),
            t.wf(),
        ensures
            final(self).wf(),
            final(self).state() == received(old(self).state(), t, v),
            final(self).canvas@.len() == old(self).canvas@.len(),
    {
        if t.r.w == 0 {
            return;
        }
        if t.s.psm == PSMCT24 {
            self.packed24(t, v);
            return;
        }
        let n: u64 = if t.s.psm == PSMCT32 || t.s.psm == PSMZ32 {
            32
        } else if t.s.psm == PSMCT16 || t.s.psm == PSMCT16S || t.s.psm == PSMZ16 || t.s.psm == PSMZ16S {
            16
        } else if t.s.psm == PSMT8 || t.s.psm == PSMT8H {
            8
        } else if t.s.psm == PSMT4 || t.s.psm == PSMT4HL || t.s.psm == PSMT4HH {
            4
        } else {
            return;
        };
        let mask: u64 = if n == 32 {
            0xFFFF_FFFF
        } else if n == 16 {
            0xFFFF
        } else if n == 8 {
            0xFF
        } else {
            0xF
        };
        let count: u64 = 64 / n;
        let ghost pxs = chunk(t.s.psm, v);
        assert(pxs.subrange(0, 0) =~= Seq::empty());
        for i in 0..count
            invariant
                self.wf(),
                t.wf(),
                n == stream_bits(t.s.psm),
                n == 32 || n == 16 || n == 8 || n == 4,
                mask == stream_mask(n),
                count * n == 64,
                pxs == chunk(t.s.psm, v),
                pxs.len() == count,
                self.progress() == landed_all(old(self).progress(), t, pxs.subrange(0, i as int)),
                self.trx24 == old(self).trx24,
                self.canvas@.len() == old(self).canvas@.len(),
        {
            assert(0 <= i * n < 64) by (nonlinear_arith)
                requires
                    0 <= i < count,
                    count * n == 64,
                    n > 0,
            ;
            let px: u32 = bits(v, i * n, mask) as u32;
            self.land(t, px);
            proof {
                let s = pxs.subrange(0, i + 1);
                assert(s.drop_last() =~= pxs.subrange(0, i as int));
            }
        }
        assert(pxs.subrange(0, count as int) =~= pxs);
    }

    /// A chunk of a packed stream, 3 bytes per pixel with no 64-bit
    /// alignment: the partial pixel is carried across chunks.
    fn packed24(&mut self, t: Target, v: u64)
        requires
            old(self).wf(),
            t.wf(),
            t.r.w != 0,
            t.s.psm == PSMCT24,
        ensures
            final(self).wf(),
            final(self).state() == received(old(self).state(), t, v),
            final(self).canvas@.len() == old(self).canvas@.len(),
    {
        let ghost stream = self.trx24@ + le_bytes(v as nat, 8);
        let ghost carry = self.trx24@.len() as int;
        let mut rest: u64 = v;
        proof {
            lemma_le_bytes_len(v as nat, 8);
            assert(le_bytes(v as nat, 8).subrange(0, 8) =~= le_bytes(v as nat, 8));
            assert(triples(stream).subrange(0, 0) =~= Seq::empty());
            assert(stream.subrange(0, carry) =~= self.trx24@);
        }
        for i in 0..8u64
            invariant
                self.wf(),
                t.wf(),
                carry == old(self).trx24@.len(),
                carry < 3,
                stream == old(self).trx24@ + le_bytes(v as nat, 8),
                le_bytes(v as nat, 8).len() == 8,
                le_bytes(v as nat, 8).subrange(i as int, 8) == le_bytes(rest as nat, (8 - i) as nat),
                self.progress() == landed_all(old(self).progress(), t, triples(stream).subrange(0, (carry + i) / 3)),
                self.trx24@ == stream.subrange(3 * ((carry + i) / 3), carry + i),
                self.canvas@.len() == old(self).canvas@.len(),
        {
            let b: u8 = (rest % 256) as u8;
            let ghost was = rest;
            proof {
                let tail = le_bytes(v as nat, 8).subrange(i as int, 8);
                lemma_le_bytes_len((rest / 256) as nat, (7 - i) as nat);
                assert(tail[0] == b);
                assert(stream[carry + i] == b);
                assert(le_bytes(v as nat, 8).subrange(i + 1, 8) =~= tail.subrange(1, tail.len() as int));
                assert(tail.subrange(1, tail.len() as int) =~= le_bytes((rest / 256) as nat, (7 - i) as nat));
            }
            rest = rest / 256;
            self.trx24.push(b);
            let ghost k = (carry + i) / 3;
            assert(self.trx24@ =~= stream.subrange(3 * k, carry + i + 1));
            if self.trx24.len() == 3 {
                proof {
                    crate::bytes::lemma_get_step(self.trx24@, 0, 3);
                    crate::bytes::lemma_get_step(self.trx24@, 1, 2);
                    crate::bytes::lemma_get_step(self.trx24@, 2, 1);
                    crate::bytes::lemma_get_none(self.trx24@, 3);
                    assert(self.trx24@.subrange(0, 3) =~= self.trx24@);
                }
                let px: u32 = self.trx24[0] as u32 + 256 * (self.trx24[1] as u32 + 256 * self.trx24[2] as u32);
                self.trx24 = Vec::new();
                self.land(t, px);
                proof {
                    assert(carry + i + 1 == 3 * (k + 1));
                    let done = triples(stream).subrange(0, k + 1);
                    assert(done.drop_last() =~= triples(stream).subrange(0, k));
                    assert(done.last() == px);
                    assert(self.trx24@ =~= stream.subrange(3 * (k + 1), carry + i + 1));
                }
            } else {
                assert((carry + i + 1) / 3 == k);
            }
        }
        proof {
            assert(stream.len() == carry + 8);
            assert(triples(stream).subrange(0, (carry + 8) / 3) =~= triples(stream));
        }
    }

    /// A run of HWREG words. PSMT8 and PSMCT32 destinations (textures and
    /// frame-sized uploads) mirror whole rows once at the end, the rest go
    /// word by word through [`Local::hwreg`].
    pub fn image(&mut self, t: Target, data: &[u64])
        requires
            old(self).wf(),
            t.wf(),
        ensures
            final(self).wf(),
            final(self).state() == (if t.r.w != 0 && (t.s.psm == PSMT8 || t.s.psm == PSMCT32) {
                received_run(old(self).state(), t, data@)
            } else {
                received_all(old(self).state(), t, data@)
            }),
            final(self).canvas@.len() == old(self).canvas@.len(),
    {
        let run = t.r.w != 0 && (t.s.psm == PSMT8 || t.s.psm == PSMCT32);
        let mut aside: Option<Canvas> = None;
        if run {
            aside = self.overlay.take();
        }
        let ghost start = self.state();
        let first: u32 = self.trx_y;
        assert(data@.subrange(0, 0) =~= Seq::empty());
        let n: usize = data.len();
        for i in 0..n
            invariant
                self.wf(),
                t.wf(),
                n == data@.len(),
                self.state() == received_all(start, t, data@.subrange(0, i as int)),
                self.canvas@.len() == old(self).canvas@.len(),
        {
            self.hwreg(t, data[i]);
            proof {
                let s = data@.subrange(0, i + 1);
                assert(s.drop_last() =~= data@.subrange(0, i as int));
            }
        }
        assert(data@.subrange(0, n as int) =~= data@);
        if run {
            proof {
                lemma_blind(start, t, data@);
            }
            let y: u32 = if self.trx_x > 0 {
                self.trx_y
            } else {
                self.trx_y.wrapping_sub(1)
            };
            let bottom: u32 = t.r.h.wrapping_sub(1);
            let last: u32 = if y < bottom { y } else { bottom };
            match &mut aside {
                Some(ov) => {
                    if last != u32::MAX && last >= first {
                        let r = Rect { x: t.r.x, y: t.r.y + first, w: t.r.w, h: last - first + 1 };
                        mirror_upload_rect(ov, &self.canvas, t.s, r);
                    }
                },
                None => {},
            }
            self.overlay = aside;
        }
    }

    /// LOCAL->LOCAL copy of a rectangle; a copy that would convert formats
    /// is refused.
    pub fn local_copy(&mut self, src: Surface, sx: u32, sy: u32, t: Target)
        requires
            old(self).wf(),
            t.wf(),
            sx < 0x800,
            sy < 0x800,
        ensures
            final(self).wf(),
            final(self).state() == copied_state(old(self).state(), src, sx, sy, t),
            final(self).canvas@.len() == old(self).canvas@.len(),
    {
        if src.psm != t.s.psm {
            return;
        }
        copy_rect(&mut self.canvas, src, sx, sy, t.s, t.r);
        match &mut self.overlay {
            Some(ov) => mirror_upload_rect(ov, &self.canvas, t.s, t.r),
            None => {},
        }
    }
}

/// Local memory and overlay after a LOCAL->LOCAL copy.
pub open spec fn copied_state(st: State, src: Surface, sx: u32, sy: u32, t: Target) -> State {
    if src.psm != t.s.psm || !copies(src.psm) {
        st
    } else {
        let n = t.r.w * t.r.h;
        let mem = copied(st.p.mem, src, sx, sy, t.s, t.r, n);
        State {
            p: Progress {
                mem,
                over: match st.p.over {
                    Some(o) => Some(mirrored(o, mem, t.s, t.r, n)),
                    None => None,
                },
                ..st.p
            },
            carry: st.carry,
        }
    }
}

proof fn lemma_blind_pixels(p: Progress, t: Target, pxs: Seq<u32>)
    requires
        p.over is None,
    ensures
        landed_all(p, t, pxs).over is None,
    decreases pxs.len(),
{
    if pxs.len() > 0 {
        lemma_blind_pixels(p, t, pxs.drop_last());
    }
}

/// A transfer without an overlay does not make one.
proof fn lemma_blind(st: State, t: Target, data: Seq<u64>)
    requires
        st.p.over is None,
    ensures
        received_all(st, t, data).p.over is None,
    decreases data.len(),
{
    if data.len() > 0 {
        lemma_blind(st, t, data.drop_last());
        let mid = received_all(st, t, data.drop_last());
        let v = data.last();
        lemma_blind_pixels(mid.p, t, triples(mid.carry + le_bytes(v as nat, 8)));
        lemma_blind_pixels(mid.p, t, chunk(t.s.psm, v));
    }
}

proof fn lemma_landed_all_concat(p: Progress, t: Target, a: Seq<u32>, b: Seq<u32>)
    ensures
        landed_all(p, t, a + b) == landed_all(landed_all(p, t, a), t, b),
    decreases b.len(),
{
    if b.len() == 0 {
        assert(a + b =~= a);
    } else {
        assert((a + b).drop_last() =~= a + b.drop_last());
        lemma_landed_all_concat(p, t, a, b.drop_last());
    }
}

/// How a transfer is cut into chunks does not matter: two chunks land what
/// the pixels of both, one after the other, land.
pub proof fn law_chunks_join(st: State, t: Target, a: u64, b: u64)
    requires
        t.r.w != 0,
        uploads(t.s.psm),
        t.s.psm != PSMCT24,
    ensures
        received(received(st, t, a), t, b).p == landed_all(st.p, t, chunk(t.s.psm, a) + chunk(t.s.psm, b)),
{
    lemma_landed_all_concat(st.p, t, chunk(t.s.psm, a), chunk(t.s.psm, b));
}

/// A full rectangle takes no more pixels.
pub proof fn law_full_rectangle_is_kept(p: Progress, t: Target, pxs: Seq<u32>)
    requires
        p.y >= t.r.h,
    ensures
        landed_all(p, t, pxs) == p,
    decreases pxs.len(),
{
    if pxs.len() > 0 {
        law_full_rectangle_is_kept(p, t, pxs.drop_last());
    }
}

/// The same transfer state without an overlay.
pub open spec fn plain(st: State) -> State {
    State { p: Progress { over: None, ..st.p }, carry: st.carry }
}

proof fn lemma_overlay_unseen(p: Progress, t: Target, pxs: Seq<u32>)
    ensures
        (Progress { over: None, ..landed_all(p, t, pxs) }) == landed_all((Progress { over: None, ..p }), t, pxs),
    decreases pxs.len(),
{
    if pxs.len() > 0 {
        lemma_overlay_unseen(p, t, pxs.drop_last());
    }
}

/// The overlay is never seen by the emulated software: local memory and the
/// position of a transfer are what they would be without it.
pub proof fn law_overlay_is_unseen(st: State, t: Target, v: u64, src: Surface, sx: u32, sy: u32)
    ensures
        plain(received(st, t, v)) == received(plain(st), t, v),
        plain(copied_state(st, src, sx, sy, t)) == copied_state(plain(st), src, sx, sy, t),
{
    lemma_overlay_unseen(st.p, t, triples(st.carry + le_bytes(v as nat, 8)));
    lemma_overlay_unseen(st.p, t, chunk(t.s.psm, v));
}

/// The same for a run of words.
pub proof fn law_overlay_is_unseen_by_runs(st: State, t: Target, data: Seq<u64>)
    ensures
        plain(received_all(st, t, data)) == received_all(plain(st), t, data),
        plain(received_run(st, t, data)) == received_all(plain(st), t, data),
    decreases data.len(),
{
    if data.len() > 0 {
        law_overlay_is_unseen_by_runs(st, t, data.drop_last());
        law_overlay_is_unseen(received_all(st, t, data.drop_last()), t, data.last(), t.s, 0, 0);
    }
    lemma_blind(plain(st), t, data);
}

} // verus!
