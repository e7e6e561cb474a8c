//! Primitives queued for one parallel pass.
//!
//! A flush runs the whole queue on every lane, each lane restricted to its
//! own rows. That matches the serial answer only because a primitive whose
//! reads or writes cross another queued primitive's is never queued beside
//! it: a lane reaches a later primitive's write long before another lane
//! reaches an earlier primitive's read of the same memory.

use vstd::prelude::*;
use crate::gs::layout::{page, width};
use crate::gs::transfer::{PSMCT16, PSMCT16S, PSMT4, PSMT8, PSMZ16, PSMZ16S};
use super::pipe::{PixelPipe, TexInfo};

verus! {

/// Pixels a batch must cover before its flush is split across threads.
pub const PARALLEL_MIN_PIXELS: i64 = 4096;

/// Bands (tasks) a flush is cut into.
pub const PARALLEL_LANES: usize = 14;

/// Pixel estimate that triggers a batch flush on its own.
pub const BATCH_MAX_PIXELS: i64 = 0x10_0000;

/// A range of local memory blocks.
#[derive(Clone, Copy)]
pub struct Blocks {
    pub start: u32,
    pub end: u32,
}

/// The blocks that TEX0's palette image occupies.
pub open spec fn palette_blocks(tex0: u64) -> Blocks {
    let cbp = (tex0 >> 37) & 0x3FFF;
    Blocks { start: cbp as u32, end: (cbp + 4) as u32 }
}

pub open spec fn overlap(a: Blocks, b: Blocks) -> bool {
    a.start < b.end && b.start < a.end
}

pub open spec fn within(a: Blocks, b: Blocks) -> bool {
    b.start <= a.start && a.end <= b.end
}

fn overlaps(a: Blocks, b: Blocks) -> (r: bool)
    ensures
        r == overlap(a, b),
{
    a.start < b.end && b.start < a.end
}

pub open spec fn touches(o: Option<Blocks>, b: Blocks) -> bool {
    match o {
        Some(x) => overlap(x, b),
        None => false,
    }
}

fn is_touching(o: Option<Blocks>, b: Blocks) -> (r: bool)
    ensures
        r == touches(o, b),
{
    match o {
        Some(x) => overlaps(x, b),
        None => false,
    }
}

/// The memory that a primitive uses: what it may sample, and what it writes
/// of frame and Z buffer (`None` where fully masked), with the buffers'
/// addressing.
#[derive(Clone, Copy)]
pub struct Footprint {
    pub tex: Option<Blocks>,
    pub fb: Option<Blocks>,
    pub zb: Option<Blocks>,
    pub fbp: u32,
    pub zbp: u32,
    pub fbw: u32,
}

/// The primitive samples what it writes itself.
pub open spec fn self_sampling(f: Footprint) -> bool {
    match f.tex {
        Some(t) => touches(f.fb, t) || touches(f.zb, t),
        None => false,
    }
}

/// `b` samples what `a` writes.
pub open spec fn samples(b: Footprint, a: Footprint) -> bool {
    match b.tex {
        Some(t) => touches(a.fb, t) || touches(a.zb, t),
        None => false,
    }
}

/// Both write the same memory through different row mappings.
pub open spec fn crosses(x: Option<Blocks>, xbase: u32, xbw: u32, y: Option<Blocks>, ybase: u32, ybw: u32) -> bool {
    match y {
        Some(r) => touches(x, r) && (xbase != ybase || xbw != ybw),
        None => false,
    }
}

/// Whether two primitives may not share a batch: one samples what the other
/// writes, or both write the same memory through different buffers.
pub open spec fn clash(a: Footprint, b: Footprint) -> bool {
    ||| samples(a, b)
    ||| samples(b, a)
    ||| crosses(a.fb, a.fbp, a.fbw, b.fb, b.fbp, b.fbw)
    ||| crosses(a.fb, a.fbp, a.fbw, b.zb, b.zbp, b.fbw)
    ||| crosses(a.zb, a.zbp, a.fbw, b.fb, b.fbp, b.fbw)
    ||| crosses(a.zb, a.zbp, a.fbw, b.zb, b.zbp, b.fbw)
}

/// A block range the queue writes, and the buffer whose addressing produced
/// it. A parallel flush bands rows by number alone, so two buffers that
/// share memory at different bases put one pixel in two different bands.
#[derive(Clone, Copy)]
pub struct Write {
    pub r: Blocks,
    pub base: u32,
    pub bw: u32,
}

/// The range from the start of the first to the end of the last.
pub open spec fn joined(a: Blocks, b: Blocks) -> Blocks {
    Blocks {
        start: if a.start < b.start {
            a.start
        } else {
            b.start
        },
        end: if a.end > b.end {
            a.end
        } else {
            b.end
        },
    }
}

fn join(a: Blocks, b: Blocks) -> (r: Blocks)
    ensures
        r == joined(a, b),
{
    Blocks {
        start: if a.start < b.start { a.start } else { b.start },
        end: if a.end > b.end { a.end } else { b.end },
    }
}

/// Two ranges overlap or lie end to end.
pub open spec fn meet(a: Blocks, b: Blocks) -> bool {
    a.start <= b.end && b.start <= a.end
}

/// The first write from the `k`-th on that meets a range through the same
/// buffer, or their number.
pub open spec fn first_write(writes: Seq<Write>, k: int, r: Blocks, base: u32, bw: u32) -> int
    decreases writes.len() - k,
{
    if k >= writes.len() {
        writes.len() as int
    } else if writes[k].base == base && writes[k].bw == bw && meet(r, writes[k].r) {
        k
    } else {
        first_write(writes, k + 1, r, base, bw)
    }
}

/// Writes with one more noted: joined to the first of the same buffer that
/// it meets, else as a range of its own.
pub open spec fn with_write(writes: Seq<Write>, r: Blocks, base: u32, bw: u32) -> Seq<Write> {
    let k = first_write(writes, 0, r, base, bw);
    if k < writes.len() {
        writes.update(k, Write { r: joined(writes[k].r, r), base, bw })
    } else {
        writes.push(Write { r, base, bw })
    }
}

/// The first read from the `k`-th on that meets a range, or their number.
pub open spec fn first_read(reads: Seq<Blocks>, k: int, r: Blocks) -> int
    decreases reads.len() - k,
{
    if k >= reads.len() {
        reads.len() as int
    } else if meet(r, reads[k]) {
        k
    } else {
        first_read(reads, k + 1, r)
    }
}

/// Reads with one more noted.
pub open spec fn with_read(reads: Seq<Blocks>, r: Blocks) -> Seq<Blocks> {
    let k = first_read(reads, 0, r);
    if k < reads.len() {
        reads.update(k, joined(reads[k], r))
    } else {
        reads.push(r)
    }
}

/// Writes with those of a primitive noted, the frame's before the Z
/// buffer's.
pub open spec fn writes_with(writes: Seq<Write>, f: Footprint) -> Seq<Write> {
    let frame = match f.fb {
        Some(r) => with_write(writes, r, f.fbp, f.fbw),
        None => writes,
    };
    match f.zb {
        Some(r) => with_write(frame, r, f.zbp, f.fbw),
        None => frame,
    }
}

/// Reads with that of a primitive noted.
pub open spec fn reads_with(reads: Seq<Blocks>, f: Footprint) -> Seq<Blocks> {
    match f.tex {
        Some(r) => with_read(reads, r),
        None => reads,
    }
}

/// What the caller does about a primitive.
pub struct Plan {
    /// Draw what is queued before it.
    pub flush: bool,
    /// Draw it at once, in order: its result depends on draw order within
    /// itself. Otherwise it joins the queue.
    pub inline: bool,
    /// Draw what is queued, it included, after it.
    pub flush_after: bool,
}

/// Primitives decoded and queued for one parallel rasterization pass.
pub struct Batch {
    /// Bounding-box pixel estimate of the queue.
    pub px: i64,
    /// Merged block ranges the queue writes (frame and Z), for the
    /// read-after-write test.
    pub writes: Vec<Write>,
    /// Merged block ranges the queue samples as texture, for the
    /// write-after-read test.
    pub reads: Vec<Blocks>,
    /// What is queued.
    pub queue: Ghost<Seq<Footprint>>,
}

impl Batch {
    /// A noted write covers `r` under this addressing.
    pub open spec fn notes_write(&self, r: Blocks, base: u32, bw: u32) -> bool {
        exists|k: int|
            0 <= k < self.writes@.len() && within(r, (#[trigger] self.writes@[k]).r) && self.writes@[k].base == base
                && self.writes@[k].bw == bw
    }

    /// A noted read covers `r`.
    pub open spec fn notes_read(&self, r: Blocks) -> bool {
        exists|k: int| 0 <= k < self.reads@.len() && within(r, #[trigger] self.reads@[k])
    }

    /// What a queued primitive uses is noted.
    pub open spec fn notes(&self, f: Footprint) -> bool {
        &&& f.fb matches Some(r) ==> self.notes_write(r, f.fbp, f.fbw)
        &&& f.zb matches Some(r) ==> self.notes_write(r, f.zbp, f.fbw)
        &&& f.tex matches Some(r) ==> self.notes_read(r)
    }

    pub open spec fn wf(&self) -> bool {
        &&& 0 <= self.px < BATCH_MAX_PIXELS
        &&& forall|i: int| 0 <= i < self.queue@.len() ==> self.notes(#[trigger] self.queue@[i])
        &&& forall|i: int| 0 <= i < self.queue@.len() ==> !self_sampling(#[trigger] self.queue@[i])
        &&& forall|i: int, j: int|
            0 <= i < j < self.queue@.len() ==> !clash(#[trigger] self.queue@[i], #[trigger] self.queue@[j])
    }

    /// Would this read see memory the queue already wrote?
    pub open spec fn spec_after_write(&self, r: Blocks) -> bool {
        exists|k: int| 0 <= k < self.writes@.len() && overlap(r, (#[trigger] self.writes@[k]).r)
    }

    /// Would this write disturb memory the queue already sampled?
    pub open spec fn spec_before_read(&self, r: Blocks) -> bool {
        exists|k: int| 0 <= k < self.reads@.len() && overlap(r, #[trigger] self.reads@[k])
    }

    /// Would this write land on memory the queue already writes through a
    /// different row mapping?
    pub open spec fn spec_aliases(&self, r: Blocks, base: u32, bw: u32) -> bool {
        exists|k: int|
            0 <= k < self.writes@.len() && ((#[trigger] self.writes@[k]).base != base || self.writes@[k].bw != bw) && overlap(
                r,
                self.writes@[k].r,
            )
    }

    pub fn new() -> (b: Self)
        ensures
            b.wf(),
            b.queue@ == Seq::<Footprint>::empty(),
            b.writes@.len() == 0,
            b.reads@.len() == 0,
            b.px == 0,
    {
        Batch { px: 0, writes: Vec::new(), reads: Vec::new(), queue: Ghost(Seq::empty()) }
    }

    /// Forget the queue: it has been drawn.
    pub fn clear(&mut self)
        ensures
            final(self).wf(),
            final(self).queue@ == Seq::<Footprint>::empty(),
            final(self).writes@.len() == 0,
            final(self).reads@.len() == 0,
            final(self).px == 0,
    {
        self.px = 0;
        self.writes = Vec::new();
        self.reads = Vec::new();
        self.queue = Ghost(Seq::empty());
    }

    pub fn after_write(&self, r: Blocks) -> (b: bool)
        ensures
            b == self.spec_after_write(r),
    {
        for k in 0..self.writes.len()
            invariant
                forall|j: int| 0 <= j < k ==> !overlap(r, (#[trigger] self.writes@[j]).r),
        {
            if overlaps(r, self.writes[k].r) {
                return true;
            }
        }
        false
    }

    /// Would decoding this palette see memory the queue already wrote?
    pub fn palette_needs_flush(&self, ti: &TexInfo) -> (r: bool)
        ensures
            r == self.spec_after_write(palette_blocks(ti.tex0)),
    {
        let cbp: u32 = ((ti.tex0 >> 37) & 0x3FFF) as u32;
        let t = ti.tex0;
        assert((t >> 37) & 0x3FFF < 0x4000) by (bit_vector);
        self.after_write(Blocks { start: cbp, end: cbp + 4 })
    }

    pub fn before_read(&self, r: Blocks) -> (b: bool)
        ensures
            b == self.spec_before_read(r),
    {
        for k in 0..self.reads.len()
            invariant
                forall|j: int| 0 <= j < k ==> !overlap(r, #[trigger] self.reads@[j]),
        {
            if overlaps(r, self.reads[k]) {
                return true;
            }
        }
        false
    }

    pub fn aliases(&self, r: Blocks, base: u32, bw: u32) -> (b: bool)
        ensures
            b == self.spec_aliases(r, base, bw),
    {
        for k in 0..self.writes.len()
            invariant
                forall|j: int|
                    0 <= j < k ==> !(((#[trigger] self.writes@[j]).base != base || self.writes@[j].bw != bw) && overlap(
                        r,
                        self.writes@[j].r,
                    )),
        {
            let w = self.writes[k];
            if (w.base != base || w.bw != bw) && overlaps(r, w.r) {
                return true;
            }
        }
        false
    }

    /// Note a range that the queue writes: merged with the first noted range
    /// of the same buffer that it meets.
    pub fn note_write(&mut self, r: Blocks, base: u32, bw: u32)
        ensures
            final(self).writes@ == with_write(old(self).writes@, r, base, bw),
            final(self).notes_write(r, base, bw),
            forall|q: Blocks, b: u32, w: u32| old(self).notes_write(q, b, w) ==> #[trigger] final(self).notes_write(q, b, w),
            final(self).reads == old(self).reads,
            final(self).px == old(self).px,
            final(self).queue == old(self).queue,
    {
        let n: usize = self.writes.len();
        for k in 0..n
            invariant
                n == self.writes@.len(),
                *self == *old(self),
                first_write(self.writes@, 0, r, base, bw) == first_write(self.writes@, k as int, r, base, bw),
        {
            let w = self.writes[k];
            if w.base == base && w.bw == bw && r.start <= w.r.end && w.r.start <= r.end {
                self.writes[k] = Write { r: join(w.r, r), base, bw };
                proof {
                    assert(within(r, self.writes@[k as int].r));
                    assert forall|q: Blocks, b: u32, w2: u32| old(self).notes_write(q, b, w2) implies #[trigger] self.notes_write(
                        q,
                        b,
                        w2,
                    ) by {
                        let i = choose|i: int|
                            0 <= i < old(self).writes@.len() && within(q, (#[trigger] old(self).writes@[i]).r) && old(
                                self,
                            ).writes@[i].base == b && old(self).writes@[i].bw == w2;
                        assert(within(q, self.writes@[i].r));
                    }
                }
                return;
            }
        }
        self.writes.push(Write { r, base, bw });
        proof {
            assert(self.writes@[n as int].r == r);
            assert forall|q: Blocks, b: u32, w2: u32| old(self).notes_write(q, b, w2) implies #[trigger] self.notes_write(
                q,
                b,
                w2,
            ) by {
                let i = choose|i: int|
                    0 <= i < old(self).writes@.len() && within(q, (#[trigger] old(self).writes@[i]).r) && old(self).writes@[i].base
                        == b && old(self).writes@[i].bw == w2;
                assert(self.writes@[i] == old(self).writes@[i]);
            }
        }
    }

    /// Note a range that the queue samples.
    pub fn note_read(&mut self, r: Blocks)
        ensures
            final(self).reads@ == with_read(old(self).reads@, r),
            final(self).notes_read(r),
            forall|q: Blocks| old(self).notes_read(q) ==> #[trigger] final(self).notes_read(q),
            final(self).writes == old(self).writes,
            final(self).px == old(self).px,
            final(self).queue == old(self).queue,
    {
        let n: usize = self.reads.len();
        for k in 0..n
            invariant
                n == self.reads@.len(),
                *self == *old(self),
                first_read(self.reads@, 0, r) == first_read(self.reads@, k as int, r),
        {
            let t = self.reads[k];
            if r.start <= t.end && t.start <= r.end {
                self.reads[k] = join(t, r);
                proof {
                    assert(within(r, self.reads@[k as int]));
                    assert forall|q: Blocks| old(self).notes_read(q) implies #[trigger] self.notes_read(q) by {
                        let i = choose|i: int|
                            0 <= i < old(self).reads@.len() && within(q, #[trigger] old(self).reads@[i]);
                        assert(within(q, self.reads@[i]));
                    }
                }
                return;
            }
        }
        self.reads.push(r);
        proof {
            assert(self.reads@[n as int] == r);
            assert forall|q: Blocks| old(self).notes_read(q) implies #[trigger] self.notes_read(q) by {
                let i = choose|i: int| 0 <= i < old(self).reads@.len() && within(q, #[trigger] old(self).reads@[i]);
                assert(self.reads@[i] == old(self).reads@[i]);
            }
        }
    }

    /// Whether the queue has to be drawn before a primitive: it would write
    /// memory that the queue writes through another buffer, sample what the
    /// queue wrote, write what the queue samples, or samples its own target.
    pub open spec fn hazard(&self, f: Footprint) -> bool {
        ||| (f.fb matches Some(r) && self.spec_aliases(r, f.fbp, f.fbw))
        ||| (f.zb matches Some(r) && self.spec_aliases(r, f.zbp, f.fbw))
        ||| (f.tex matches Some(t) && self.spec_after_write(t))
        ||| (f.fb matches Some(r) && self.spec_before_read(r))
        ||| (f.zb matches Some(r) && self.spec_before_read(r))
        ||| self_sampling(f)
    }

    /// A queue without a hazard does not clash.
    proof fn lemma_no_clash(&self, a: Footprint, f: Footprint)
        requires
            self.notes(a),
            !self.hazard(f),
        ensures
            !clash(a, f),
    {
        if let Some(t) = f.tex {
            if let Some(r) = a.fb {
                let k = choose|k: int|
                    0 <= k < self.writes@.len() && within(r, (#[trigger] self.writes@[k]).r) && self.writes@[k].base == a.fbp
                        && self.writes@[k].bw == a.fbw;
                assert(!overlap(t, self.writes@[k].r));
            }
            if let Some(r) = a.zb {
                let k = choose|k: int|
                    0 <= k < self.writes@.len() && within(r, (#[trigger] self.writes@[k]).r) && self.writes@[k].base == a.zbp
                        && self.writes@[k].bw == a.fbw;
                assert(!overlap(t, self.writes@[k].r));
            }
        }
        if let Some(t) = a.tex {
            let k = choose|k: int| 0 <= k < self.reads@.len() && within(t, #[trigger] self.reads@[k]);
            if let Some(r) = f.fb {
                assert(!overlap(r, self.reads@[k]));
            }
            if let Some(r) = f.zb {
                assert(!overlap(r, self.reads@[k]));
            }
        }
        self.lemma_no_cross(a.fb, a.fbp, a.fbw, f.fb, f.fbp, f.fbw);
        self.lemma_no_cross(a.fb, a.fbp, a.fbw, f.zb, f.zbp, f.fbw);
        self.lemma_no_cross(a.zb, a.zbp, a.fbw, f.fb, f.fbp, f.fbw);
        self.lemma_no_cross(a.zb, a.zbp, a.fbw, f.zb, f.zbp, f.fbw);
    }

    proof fn lemma_no_cross(&self, x: Option<Blocks>, xbase: u32, xbw: u32, y: Option<Blocks>, ybase: u32, ybw: u32)
        requires
            x matches Some(r) ==> self.notes_write(r, xbase, xbw),
            y matches Some(r) ==> !self.spec_aliases(r, ybase, ybw),
        ensures
            !crosses(x, xbase, xbw, y, ybase, ybw),
    {
        if let Some(r) = x {
            if let Some(q) = y {
                let k = choose|k: int|
                    0 <= k < self.writes@.len() && within(r, (#[trigger] self.writes@[k]).r) && self.writes@[k].base == xbase
                        && self.writes@[k].bw == xbw;
                assert(!((self.writes@[k].base != ybase || self.writes@[k].bw != ybw) && overlap(q, self.writes@[k].r)));
            }
        }
    }

    /// Queue a decoded primitive, drawing the queue first where that is
    /// needed. A primitive sampling its own target runs inline.
    pub fn enqueue(&mut self, f: Footprint, px: i64) -> (plan: Plan)
        requires
            old(self).wf(),
            0 <= px <= 0x1000_0000,
        ensures
            final(self).wf(),
            plan.inline == self_sampling(f),
            plan.flush == old(self).hazard(f),
            plan.flush_after == (!plan.inline && (if plan.flush {
                0
            } else {
                old(self).px as int
            }) + px >= BATCH_MAX_PIXELS),
            final(self).queue@ == (if plan.inline || plan.flush_after {
                Seq::empty()
            } else if plan.flush {
                seq![f]
            } else {
                old(self).queue@.push(f)
            }),
            final(self).px == (if plan.inline || plan.flush_after {
                0
            } else if plan.flush {
                px as int
            } else {
                old(self).px + px
            }),
            final(self).writes@ == (if plan.inline || plan.flush_after {
                Seq::empty()
            } else if plan.flush {
                writes_with(Seq::empty(), f)
            } else {
                writes_with(old(self).writes@, f)
            }),
            final(self).reads@ == (if plan.inline || plan.flush_after {
                Seq::empty()
            } else if plan.flush {
                reads_with(Seq::empty(), f)
            } else {
                reads_with(old(self).reads@, f)
            }),
    {
        let mut flush = false;
        if let Some(r) = f.fb {
            flush = flush || self.aliases(r, f.fbp, f.fbw) || self.before_read(r);
        }
        if let Some(r) = f.zb {
            flush = flush || self.aliases(r, f.zbp, f.fbw) || self.before_read(r);
        }
        let mut inline = false;
        if let Some(t) = f.tex {
            flush = flush || self.after_write(t);
            inline = is_touching(f.fb, t) || is_touching(f.zb, t);
        }
        if flush || inline {
            self.clear();
        }
        if inline {
            return Plan { flush: true, inline, flush_after: false };
        }
        let ghost before = *self;
        assert(flush ==> self.writes@ =~= Seq::empty() && self.reads@ =~= Seq::empty());
        if let Some(t) = f.tex {
            self.note_read(t);
        }
        let ghost mid = *self;
        if let Some(r) = f.fb {
            self.note_write(r, f.fbp, f.fbw);
        }
        let ghost last = *self;
        if let Some(r) = f.zb {
            self.note_write(r, f.zbp, f.fbw);
        }
        proof {
            assert forall|a: Footprint| before.notes(a) implies self.notes(a) by {
                if let Some(r) = a.fb {
                    assert(mid.notes_write(r, a.fbp, a.fbw));
                    assert(last.notes_write(r, a.fbp, a.fbw));
                    assert(self.notes_write(r, a.fbp, a.fbw));
                }
                if let Some(r) = a.zb {
                    assert(mid.notes_write(r, a.zbp, a.fbw));
                    assert(last.notes_write(r, a.zbp, a.fbw));
                    assert(self.notes_write(r, a.zbp, a.fbw));
                }
                if let Some(r) = a.tex {
                    assert(mid.notes_read(r));
                    assert(self.notes_read(r));
                }
            }
            assert(self.notes(f)) by {
                if let Some(r) = f.fb {
                    assert(last.notes_write(r, f.fbp, f.fbw));
                    assert(self.notes_write(r, f.fbp, f.fbw));
                }
                if let Some(r) = f.tex {
                    assert(mid.notes_read(r));
                    assert(self.notes_read(r));
                }
            }
            let q = before.queue@;
            assert forall|i: int| 0 <= i < q.len() implies !clash(q[i], f) && self.notes(q[i]) by {
                if !flush {
                    before.lemma_no_clash(q[i], f);
                }
                assert(before.notes(q[i]));
            }
        }
        let ghost noted = *self;
        self.px = self.px + px;
        self.queue = Ghost(self.queue@.push(f));
        proof {
            let q = before.queue@;
            let p = self.queue@;
            assert(p == q.push(f));
            assert forall|i: int| 0 <= i < p.len() implies self.notes(#[trigger] p[i]) && !self_sampling(p[i]) by {
                if i < q.len() {
                    assert(before.notes(q[i]));
                    assert(!self_sampling(q[i]));
                }
                lemma_same_notes(noted, *self, p[i]);
            }
            assert forall|i: int, j: int| 0 <= i < j < p.len() implies !clash(#[trigger] p[i], #[trigger] p[j]) by {
                if j < q.len() {
                    assert(!clash(q[i], q[j]));
                } else {
                    assert(!clash(q[i], f));
                }
            }
            assert(Seq::<Footprint>::empty().push(f) =~= seq![f]);
        }
        let flush_after = self.px >= BATCH_MAX_PIXELS;
        if flush_after {
            self.clear();
        }
        Plan { flush, inline, flush_after }
    }

    /// Count the internal-2x twin of a primitive just queued; its hazards
    /// were decided by its 1x sibling. Whether the queue is to be drawn now.
    pub fn enqueue_hi(&mut self, px: i64) -> (flush_after: bool)
        requires
            old(self).wf(),
            0 <= px <= 0x1000_0000,
        ensures
            final(self).wf(),
            flush_after == (old(self).px + px >= BATCH_MAX_PIXELS),
            flush_after ==> {
                &&& final(self).queue@ == Seq::<Footprint>::empty()
                &&& final(self).px == 0
                &&& final(self).writes@.len() == 0
                &&& final(self).reads@.len() == 0
            },
            !flush_after ==> final(self).queue == old(self).queue && final(self).px == old(self).px + px && final(self).writes
                == old(self).writes && final(self).reads == old(self).reads,
    {
        let total: i64 = self.px + px;
        if total >= BATCH_MAX_PIXELS {
            self.clear();
            return true;
        }
        self.px = total;
        proof {
            assert forall|i: int| 0 <= i < self.queue@.len() implies self.notes(#[trigger] self.queue@[i]) by {
                assert(old(self).notes(old(self).queue@[i]));
                lemma_same_notes(*old(self), *self, self.queue@[i]);
            }
        }
        false
    }
}

/// Notes are about the noted ranges alone.
proof fn lemma_same_notes(a: Batch, b: Batch, f: Footprint)
    requires
        a.writes == b.writes,
        a.reads == b.reads,
        a.notes(f),
    ensures
        b.notes(f),
{
    if let Some(r) = f.fb {
        let k = choose|k: int|
            0 <= k < a.writes@.len() && within(r, (#[trigger] a.writes@[k]).r) && a.writes@[k].base == f.fbp && a.writes@[k].bw
                == f.fbw;
        assert(within(r, b.writes@[k].r));
    }
    if let Some(r) = f.zb {
        let k = choose|k: int|
            0 <= k < a.writes@.len() && within(r, (#[trigger] a.writes@[k]).r) && a.writes@[k].base == f.zbp && a.writes@[k].bw
                == f.fbw;
        assert(within(r, b.writes@[k].r));
    }
    if let Some(r) = f.tex {
        let k = choose|k: int| 0 <= k < a.reads@.len() && within(r, #[trigger] a.reads@[k]);
        assert(within(r, b.reads@[k]));
    }
}

/// Two primitives that share a batch use memory independently of each
/// other, so that the lanes of a flush may reach them in any order.
pub proof fn law_queued_primitives_do_not_clash(b: Batch, i: int, j: int)
    requires
        b.wf(),
        0 <= i < b.queue@.len(),
        0 <= j < b.queue@.len(),
        i != j,
    ensures
        !clash(b.queue@[i], b.queue@[j]),
        !self_sampling(b.queue@[i]),
{
    if i < j {
        assert(!clash(b.queue@[i], b.queue@[j]));
    } else {
        assert(!clash(b.queue@[j], b.queue@[i]));
    }
}

// --- footprints -------------------------------------------------------------------

/// Texel rows one page of `psm` holds.
pub open spec fn page_rows(psm: u32) -> int {
    if psm == PSMT4 {
        128
    } else if psm == PSMT8 || psm == PSMCT16 || psm == PSMCT16S || psm == PSMZ16 || psm == PSMZ16S {
        64
    } else {
        32
    }
}

/// Pages in a row of a buffer of this format: 8-bit and 4-bit pages are
/// twice as wide.
pub open spec fn page_stride(psm: u32, tbw: u32) -> int {
    if psm == PSMT8 || psm == PSMT4 {
        width(tbw) / 2
    } else {
        width(tbw)
    }
}

/// Texel rows one page of `psm` holds, and the block distance between
/// consecutive rows of pages.
pub fn tex_page_geom(psm: u32, tbw: u32) -> (r: (u32, u32))
    requires
        tbw < 0x40,
    ensures
        r.0 == page_rows(psm),
        r.1 == 32 * page_stride(psm, tbw),
{
    let bw: u32 = if tbw == 0 { 1 } else { tbw };
    if psm == PSMT8 {
        (64, bw / 2 * 32)
    } else if psm == PSMT4 {
        (128, bw / 2 * 32)
    } else if psm == PSMCT16 || psm == PSMCT16S || psm == PSMZ16 || psm == PSMZ16S {
        (64, bw * 32)
    } else {
        (32, bw * 32)
    }
}

pub open spec fn most(a: int, b: int) -> int {
    if a > b {
        a
    } else {
        b
    }
}

/// Texel rows that may be sampled: the given ones and the bilinear tap below
/// where the mode cannot wrap them, the whole declared height otherwise.
/// REGION_CLAMP and REGION_REPEAT pick rows from MINV/MAXV, which can sit
/// past the declared height.
pub open spec fn sampled_rows(ti: TexInfo, rows: Option<(u32, u32)>) -> (int, int) {
    if ti.wmt <= 1 && rows is Some {
        (rows->Some_0.0 as int, rows->Some_0.1 + 1)
    } else if ti.wmt == 2 {
        (0, most(ti.th as int, most(ti.maxv as int, ti.minv as int) + 1))
    } else if ti.wmt == 3 {
        (0, most(ti.th as int, (ti.minv | ti.maxv) + 1))
    } else {
        (0, ti.th as int)
    }
}

/// Block range that texel rows of a texture lie in.
pub open spec fn rows_blocks(ti: TexInfo, lo: int, hi: int) -> Blocks {
    let stride = 32 * page_stride(ti.psm, ti.tbw);
    Blocks {
        start: (ti.tbp + (lo / page_rows(ti.psm)) * stride) as u32,
        end: (ti.tbp + (hi / page_rows(ti.psm)) * stride + most(stride, 32)) as u32,
    }
}

proof fn lemma_or_bound(a: i32, b: i32)
    by (bit_vector)
    requires
        0 <= a < 0x400,
        0 <= b < 0x400,
    ensures
        0 <= (a | b) < 0x400,
{
}

/// Block range the texture may be sampled from (conservative): `rows` are
/// the texel rows the primitive samples, known not to wrap (`None` =
/// unknown). `None` result = untextured.
pub fn tex_blocks(p: &PixelPipe, rows: Option<(u32, u32)>) -> (r: Option<Blocks>)
    requires
        p.wf(),
        rows matches Some(v) ==> v.0 <= v.1 && v.1 + 1 < p.tex.th,
    ensures
        r == (if p.tme {
            Some(rows_blocks(p.tex, sampled_rows(p.tex, rows).0, sampled_rows(p.tex, rows).1))
        } else {
            None
        }),
{
    if !p.tme {
        return None;
    }
    let ti = &p.tex;
    let (lo, hi): (u32, u32) = match (ti.wmt, rows) {
        (0, Some(v)) => (v.0, v.1 + 1),
        (1, Some(v)) => (v.0, v.1 + 1),
        (2, _) => {
            let m: i32 = if ti.maxv > ti.minv { ti.maxv } else { ti.minv };
            (0, if ti.th > m as u32 + 1 { ti.th } else { m as u32 + 1 })
        },
        (3, _) => {
            proof {
                lemma_or_bound(ti.minv, ti.maxv);
            }
            let m: i32 = ti.minv | ti.maxv;
            (0, if ti.th > m as u32 + 1 { ti.th } else { m as u32 + 1 })
        },
        _ => (0, ti.th),
    };
    let (rows_per_page, stride) = tex_page_geom(ti.psm, ti.tbw);
    let span: u32 = if stride > 32 { stride } else { 32 };
    proof {
        assert(0 <= (lo / rows_per_page) * stride <= 64 * 2016 && 0 <= (hi / rows_per_page) * stride <= 64 * 2016)
            by (nonlinear_arith)
            requires
                0 <= lo / rows_per_page <= 64,
                0 <= hi / rows_per_page <= 64,
                0 <= stride <= 2016,
        ;
    }
    Some(
        Blocks {
            start: ti.tbp + lo / rows_per_page * stride,
            end: ti.tbp + hi / rows_per_page * stride + span,
        },
    )
}

/// The noted range is where the texture lives: every block that a texel of
/// the sampled rows falls in, in a texture no wider than its buffer.
pub proof fn law_tex_blocks_cover(ti: TexInfo, lo: int, hi: int, col: int, v: int, block: int)
    requires
        ti.wf(),
        0 <= lo <= v <= hi <= 1024,
        0 <= col < most(page_stride(ti.psm, ti.tbw), 1),
        0 <= block < 32,
    ensures
        ({
            let b = ti.tbp + 32 * page(col, v / page_rows(ti.psm), page_stride(ti.psm, ti.tbw)) + block;
            rows_blocks(ti, lo, hi).start <= b < rows_blocks(ti, lo, hi).end
        }),
{
    let pr = page_rows(ti.psm);
    let st = page_stride(ti.psm, ti.tbw);
    let (l, m, h) = (lo / pr, v / pr, hi / pr);
    assert(0 <= l <= m && m <= h && h <= 32);
    assert(0 <= l * st && l * st <= m * st && m * st <= h * st && h * st <= 32 * 64) by (nonlinear_arith)
        requires
            0 <= l <= m <= h <= 32,
            0 <= st <= 64,
    ;
    assert(l * (32 * st) == 32 * (l * st)) by (nonlinear_arith);
    assert(h * (32 * st) == 32 * (h * st)) by (nonlinear_arith);
}

/// Block ranges a primitive covering rows `0..rows` writes: frame and Z
/// buffer, `None` where fully masked. Only written buffers can feed back
/// into a texture.
pub open spec fn rows_written(p: PixelPipe, base: u32, rows: int) -> Blocks {
    let pages = ((most(rows, 0) + 31) / 32) * width(p.fbw);
    Blocks { start: base, end: (base + 32 * pages) as u32 }
}

pub fn written_blocks(p: &PixelPipe, rows: i32) -> (r: (Option<Blocks>, Option<Blocks>))
    requires
        p.wf(),
        rows <= 0x4000,
    ensures
        r.0 == (if p.fbmsk != u32::MAX {
            Some(rows_written(*p, p.fbp, rows as int))
        } else {
            None
        }),
        r.1 == (if p.zte && !p.zmsk {
            Some(rows_written(*p, p.zbp, rows as int))
        } else {
            None
        }),
{
    let n: u32 = if rows > 0 { rows as u32 } else { 0 };
    let bw: u32 = if p.fbw == 0 { 1 } else { p.fbw };
    assert(0 <= ((n + 31) / 32) * bw <= 513 * 128) by (nonlinear_arith)
        requires
            0 <= (n + 31) / 32 <= 513,
            0 <= bw <= 128,
    ;
    let pages: u32 = (n + 31) / 32 * bw;
    let fb = if p.fbmsk != u32::MAX {
        Some(Blocks { start: p.fbp, end: p.fbp + pages * 32 })
    } else {
        None
    };
    let zb = if p.zte && !p.zmsk {
        Some(Blocks { start: p.zbp, end: p.zbp + pages * 32 })
    } else {
        None
    };
    (fb, zb)
}

/// The memory that a primitive uses.
pub fn footprint(p: &PixelPipe, rows: i32, tex_rows: Option<(u32, u32)>) -> (f: Footprint)
    requires
        p.wf(),
        rows <= 0x4000,
        tex_rows matches Some(v) ==> v.0 <= v.1 && v.1 + 1 < p.tex.th,
    ensures
        f.tex == (if p.tme {
            Some(rows_blocks(p.tex, sampled_rows(p.tex, tex_rows).0, sampled_rows(p.tex, tex_rows).1))
        } else {
            None
        }),
        f.fb == (if p.fbmsk != u32::MAX {
            Some(rows_written(*p, p.fbp, rows as int))
        } else {
            None
        }),
        f.zb == (if p.zte && !p.zmsk {
            Some(rows_written(*p, p.zbp, rows as int))
        } else {
            None
        }),
        f.fbp == p.fbp,
        f.zbp == p.zbp,
        f.fbw == p.fbw,
{
    let (fb, zb) = written_blocks(p, rows);
    Footprint { tex: tex_blocks(p, tex_rows), fb, zb, fbp: p.fbp, zbp: p.zbp, fbw: p.fbw }
}

} // verus!
