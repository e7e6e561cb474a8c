//! Renderer statistics, for the run summary.

use vstd::prelude::*;
use super::regs::{Primitive, Registers};

verus! {

/// Texture formats.
pub const FORMATS: usize = 64;

#[derive(Clone, Debug)]
pub struct Stats {
    pub prims_drawn: u64,
    pub prims_textured: u64,
    pub pixels_shaded: u64,
    /// Primitives drawn by several lanes at once.
    pub prims_split: u64,
    /// Texture samples by format.
    pub tex_psm_hist: Vec<u64>,
    pub frame: [u64; 2],
    pub zbuf: [u64; 2],
    pub test: [u64; 2],
}

pub open spec fn saturated(v: int) -> int {
    if v > u64::MAX {
        u64::MAX as int
    } else {
        v
    }
}

/// Whether a primitive counts as textured: sprites and triangles do by
/// their attributes; points and lines are not told apart.
pub open spec fn counts_textured(p: Primitive, textured: bool) -> bool {
    textured && (p is Sprite || p is Triangle)
}

impl Stats {
    pub open spec fn wf(&self) -> bool {
        self.tex_psm_hist@.len() == FORMATS
    }

    /// A primitive was drawn.
    pub fn drew(&mut self, p: &Primitive, textured: bool)
        requires
            old(self).wf(),
        ensures
            final(self).prims_drawn == saturated(old(self).prims_drawn + 1),
            final(self).prims_textured == (if counts_textured(*p, textured) {
                saturated(old(self).prims_textured + 1)
            } else {
                old(self).prims_textured as int
            }),
            *final(self) == (Stats {
                prims_drawn: final(self).prims_drawn,
                prims_textured: final(self).prims_textured,
                ..*old(self)
            }),
    {
        self.prims_drawn = self.prims_drawn.saturating_add(1);
        let counts = match p {
            Primitive::Sprite(..) | Primitive::Triangle(..) => textured,
            _ => false,
        };
        if counts {
            self.prims_textured = self.prims_textured.saturating_add(1);
        }
    }

    /// A queue of `n` primitives was split between lanes.
    pub fn split(&mut self, n: u64)
        ensures
            final(self).prims_split == saturated(old(self).prims_split + n),
            *final(self) == (Stats { prims_split: final(self).prims_split, ..*old(self) }),
    {
        self.prims_split = self.prims_split.saturating_add(n);
    }

    /// Fold in what one lane shaded and sampled.
    pub fn merge(&mut self, pixels: u64, samples: &Vec<u64>)
        requires
            old(self).wf(),
            samples@.len() == FORMATS,
        ensures
            final(self).wf(),
            final(self).pixels_shaded == saturated(old(self).pixels_shaded + pixels),
            forall|i: int|
                0 <= i < FORMATS ==> #[trigger] final(self).tex_psm_hist@[i] == saturated(
                    old(self).tex_psm_hist@[i] + samples@[i],
                ),
            *final(self) == (Stats {
                pixels_shaded: final(self).pixels_shaded,
                tex_psm_hist: final(self).tex_psm_hist,
                ..*old(self)
            }),
    {
        self.pixels_shaded = self.pixels_shaded.saturating_add(pixels);
        let mut i: usize = 0;
        while i < FORMATS
            invariant
                i <= FORMATS,
                self.wf(),
                old(self).wf(),
                samples@.len() == FORMATS,
                self.pixels_shaded == saturated(old(self).pixels_shaded + pixels),
                forall|j: int|
                    0 <= j < FORMATS ==> #[trigger] self.tex_psm_hist@[j] == (if j < i {
                        saturated(old(self).tex_psm_hist@[j] + samples@[j])
                    } else {
                        old(self).tex_psm_hist@[j] as int
                    }),
                *self == (Stats {
                    pixels_shaded: self.pixels_shaded,
                    tex_psm_hist: self.tex_psm_hist,
                    ..*old(self)
                }),
            decreases FORMATS - i,
        {
            let v: u64 = self.tex_psm_hist[i].saturating_add(samples[i]);
            self.tex_psm_hist[i] = v;
            i = i + 1;
        }
    }

    /// Take the drawing contexts' buffers and tests.
    pub fn note_contexts(&mut self, r: &Registers)
        ensures
            *final(self) == (Stats {
                frame: final(self).frame,
                zbuf: final(self).zbuf,
                test: final(self).test,
                ..*old(self)
            }),
            final(self).frame@ == seq![r.ctx1.frame, r.ctx2.frame],
            final(self).zbuf@ == seq![r.ctx1.zbuf, r.ctx2.zbuf],
            final(self).test@ == seq![r.ctx1.test, r.ctx2.test],
    {
        self.frame = [r.ctx1.frame, r.ctx2.frame];
        self.zbuf = [r.ctx1.zbuf, r.ctx2.zbuf];
        self.test = [r.ctx1.test, r.ctx2.test];
        assert(self.frame@ =~= seq![r.ctx1.frame, r.ctx2.frame]);
        assert(self.zbuf@ =~= seq![r.ctx1.zbuf, r.ctx2.zbuf]);
        assert(self.test@ =~= seq![r.ctx1.test, r.ctx2.test]);
    }
}

impl Default for Stats {
    fn default() -> (s: Self)
        ensures
            s.wf(),
            s.prims_drawn == 0,
            s.prims_textured == 0,
            s.pixels_shaded == 0,
            s.prims_split == 0,
            forall|i: int| 0 <= i < FORMATS ==> #[trigger] s.tex_psm_hist@[i] == 0,
            s.frame@ == seq![0u64, 0u64],
            s.zbuf@ == seq![0u64, 0u64],
            s.test@ == seq![0u64, 0u64],
    {
        let s = Stats {
            prims_drawn: 0,
            prims_textured: 0,
            pixels_shaded: 0,
            prims_split: 0,
            tex_psm_hist: vec![0; FORMATS],
            frame: [0; 2],
            zbuf: [0; 2],
            test: [0; 2],
        };
        assert(s.frame@ =~= seq![0u64, 0u64]);
        assert(s.zbuf@ =~= seq![0u64, 0u64]);
        assert(s.test@ =~= seq![0u64, 0u64]);
        s
    }
}

} // verus!
