//! The texture unit's CLUT buffer: 1 KB that a TEX0/TEX2 write with CLD
//! set fills from local memory, and that palette lookups read. A texture
//! drawn with CLD=0 uses whatever the buffer holds, even after the memory
//! it was loaded from has been overwritten.
//!
//! Filling it eagerly would read local memory hundreds of millions of
//! times per gameplay minute (most CLD=1 writes name a 256-entry
//! palette), so a load is only *recorded* here. Its memory is read when
//! something could tell the difference: local memory about to change
//! under it, or a lookup that needs bytes from more than one load.

use core::ops::Range;
use vstd::view::View as _;
use vstd::prelude::*;
use crate::bits::bits;
use crate::bytes::{get, le_bytes, lemma_le_bytes_len, put, rd16, rd32, wr16, wr32};

verus! {

/// Bytes in the buffer.
pub const BYTES: usize = 1024;

/// Recorded loads before the buffer is materialised to make room.
pub const MAX_LOADS: usize = 16;

/// Entry width in bytes: 32-bit palettes or 16-bit ones.
pub open spec fn entry_width(cpsm: u8) -> int {
    if cpsm == 0 {
        4
    } else {
        2
    }
}

/// One CLD-triggered load: where it reads from and which entries it
/// fills. Local memory has not changed since it was recorded.
#[derive(Clone, Copy, PartialEq, Eq, Structural, Debug)]
pub struct Load {
    pub cbp: u16,
    pub cpsm: u8,
    pub csm: u8,
    /// First entry, counted in entries of `cpsm`'s width (CSA * 16).
    pub first: u16,
    /// 16 for a 4-bit index, 256 for 8-bit.
    pub count: u16,
}

impl Load {
    /// Entry width in bytes.
    pub open spec fn w(&self) -> int {
        entry_width(self.cpsm)
    }

    /// One past the last entry, clipped to the buffer.
    pub open spec fn end(&self) -> int {
        if self.first + self.count < 1024int / self.w() {
            self.first + self.count
        } else {
            1024int / self.w()
        }
    }

    /// The first entry, or the end where the window lies past the buffer.
    pub open spec fn start(&self) -> int {
        if self.first < self.end() {
            self.first as int
        } else {
            self.end()
        }
    }

    /// Whether the load fills byte `b` of the buffer.
    pub open spec fn fills(&self, b: int) -> bool {
        self.start() * self.w() <= b < self.end() * self.w()
    }

    /// Whether the load overwrites everything that `other` fills.
    pub open spec fn overwrites(&self, other: Load) -> bool {
        self.start() * self.w() <= other.start() * other.w() && other.end() * other.w() <= self.end() * self.w()
    }

    /// Entry width in bytes: 32-bit palettes or 16-bit ones.
    pub fn width(&self) -> (w: usize)
        ensures
            w == self.w(),
    {
        if self.cpsm == 0 {
            4
        } else {
            2
        }
    }

    /// The entries this load fills, clipped to the buffer.
    pub fn entries(&self) -> (r: Range<usize>)
        ensures
            r.start == self.start(),
            r.end == self.end(),
    {
        let limit: usize = BYTES / self.width();
        let sum: usize = self.first as usize + self.count as usize;
        let end: usize = if sum < limit { sum } else { limit };
        let first: usize = self.first as usize;
        let start: usize = if first < end { first } else { end };
        start..end
    }

    pub fn bytes(&self) -> (r: Range<usize>)
        ensures
            r.start == self.start() * self.w(),
            r.end == self.end() * self.w(),
    {
        let e = self.entries();
        e.start * self.width()..e.end * self.width()
    }

    /// Local memory blocks the palette image occupies (16x16x32-bit).
    pub fn blocks(&self) -> (r: Range<u32>)
        ensures
            r.start == self.cbp,
            r.end == self.cbp + 4,
    {
        self.cbp as u32..self.cbp as u32 + 4
    }

    pub open spec fn key(&self) -> u64 {
        (self.cbp as u64) | ((self.cpsm as u64) << 14) | ((self.csm as u64) << 18) | ((self.first as u64) << 19) | ((
        if self.count == 256 {
            1u64
        } else {
            0u64
        }) << 28)
    }

    /// Bits that identify this load in a decoded-palette key.
    pub fn key_bits(&self) -> (k: u64)
        ensures
            k == self.key(),
    {
        let whole: u64 = if self.count == 256 { 1 } else { 0 };
        (self.cbp as u64) | ((self.cpsm as u64) << 14) | ((self.csm as u64) << 18) | ((self.first as u64) << 19) | (whole
            << 28)
    }
}

/// Loads that TEX0 can ask for are told apart by their key bits.
pub proof fn law_key_bits_distinct(a: Load, b: Load)
    requires
        a.cbp < 0x4000 && b.cbp < 0x4000,
        a.cpsm < 16 && b.cpsm < 16,
        a.csm < 2 && b.csm < 2,
        a.first < 512 && b.first < 512,
        a.count == 16 || a.count == 256,
        b.count == 16 || b.count == 256,
        a.key() == b.key(),
    ensures
        a == b,
{
    let (c1, p1, s1, f1) = (a.cbp as u64, a.cpsm as u64, a.csm as u64, a.first as u64);
    let (c2, p2, s2, f2) = (b.cbp as u64, b.cpsm as u64, b.csm as u64, b.first as u64);
    let n1: u64 = if a.count == 256 { 1 } else { 0 };
    let n2: u64 = if b.count == 256 { 1 } else { 0 };
    assert(c1 == c2 && p1 == p2 && s1 == s2 && f1 == f2 && n1 == n2) by (bit_vector)
        requires
            c1 < 0x4000,
            c2 < 0x4000,
            p1 < 16,
            p2 < 16,
            s1 < 2,
            s2 < 2,
            f1 < 512,
            f2 < 512,
            n1 < 2,
            n2 < 2,
            c1 | (p1 << 14) | (s1 << 18) | (f1 << 19) | (n1 << 28) == c2 | (p2 << 14) | (s2 << 18) | (f2 << 19) | (n2
                << 28),
    ;
}

/// The entries a lookup reads: `first..first + count` in `cpsm`'s width.
#[derive(Clone, Copy, Debug)]
pub struct View {
    pub cpsm: u8,
    pub first: u16,
    pub count: u16,
}

impl View {
    /// First byte that the lookup reads.
    pub open spec fn lo(&self) -> int {
        self.first * entry_width(self.cpsm)
    }

    /// One past the last byte, clipped to the buffer.
    pub open spec fn hi(&self) -> int {
        let end = self.lo() + self.count * entry_width(self.cpsm);
        if end < 1024 {
            end
        } else {
            1024
        }
    }

    fn width(&self) -> (w: usize)
        ensures
            w == entry_width(self.cpsm),
    {
        if self.cpsm == 0 {
            4
        } else {
            2
        }
    }

    fn bytes(&self) -> (r: Range<usize>)
        ensures
            r.start == self.lo(),
            r.end == self.hi(),
    {
        let w: usize = self.width();
        let s: usize = self.first as usize * w;
        let e: usize = s + self.count as usize * w;
        s..(if e < BYTES { e } else { BYTES })
    }
}

/// Where a lookup's entries come from.
#[derive(Clone, Copy, Debug, PartialEq, Eq, Structural)]
pub enum Source {
    /// Every entry from this one recorded load: read them from its memory.
    Load(Load),
    /// From the materialised bytes alone.
    Buffer,
    /// From the bytes and one or more loads: materialise first.
    Mixed,
}

/// What a TEX0 write asks of the unit, after CLD and CBP0/CBP1 are applied.
#[derive(Clone, Copy, Debug, PartialEq, Eq, Structural)]
pub enum Request {
    Nothing,
    Load(Load),
}

/// Number of entries that the pixel format of TEX0 indexes, zero for the
/// formats without a palette.
pub open spec fn palette_count(tex0: u64) -> int {
    let psm = bits(tex0, 20, 0x3F);
    if psm == 0x13 || psm == 0x1B {
        256
    } else if psm == 0x14 || psm == 0x24 || psm == 0x2C {
        16
    } else {
        0
    }
}

/// The palette pointer of TEX0.
pub open spec fn tex0_cbp(tex0: u64) -> u16 {
    bits(tex0, 37, 0x3FFF) as u16
}

/// The load that TEX0 describes.
pub open spec fn tex0_load(tex0: u64) -> Load {
    Load {
        cbp: tex0_cbp(tex0),
        cpsm: bits(tex0, 51, 0xF) as u8,
        csm: bits(tex0, 55, 1) as u8,
        first: if palette_count(tex0) == 256 {
            0
        } else {
            (bits(tex0, 56, 0x1F) * 16) as u16
        },
        count: palette_count(tex0) as u16,
    }
}

/// What the loads `loads[..n]`, applied in order, leave in byte `b` of a
/// buffer that held `buf`; `vals[i]` are the entries that load `i` read.
pub open spec fn byte_after(buf: Seq<u8>, loads: Seq<Load>, n: int, vals: Seq<Seq<u32>>, b: int) -> u8
    decreases n,
{
    if n <= 0 {
        buf[b]
    } else if loads[n - 1].fills(b) {
        let l = loads[n - 1];
        le_bytes(vals[n - 1][b / l.w() - l.start()] as nat, l.w() as nat)[b % l.w()]
    } else {
        byte_after(buf, loads, n - 1, vals, b)
    }
}

/// The whole buffer after the loads.
pub open spec fn buffer_after(buf: Seq<u8>, loads: Seq<Load>, vals: Seq<Seq<u32>>) -> Seq<u8> {
    Seq::new(buf.len(), |b: int| byte_after(buf, loads, loads.len() as int, vals, b))
}

/// `read` takes every entry of the loads.
pub open spec fn readable<F: Fn(&Load, u32) -> u32>(read: F, loads: Seq<Load>) -> bool {
    forall|k: int, e: u32|
        0 <= k < loads.len() && loads[k].start() <= e < loads[k].end() ==> #[trigger] call_requires(read, (&loads[k], e))
}

/// `vals` holds, load by load, entries that `read` answered.
pub open spec fn answered<F: Fn(&Load, u32) -> u32>(read: F, loads: Seq<Load>, vals: Seq<Seq<u32>>) -> bool {
    &&& vals.len() == loads.len()
    &&& forall|i: int| 0 <= i < loads.len() ==> #[trigger] vals[i].len() == loads[i].end() - loads[i].start()
    &&& forall|i: int, j: int|
        0 <= i < loads.len() && 0 <= j < vals[i].len() ==> call_ensures(
            read,
            (&loads[i], (loads[i].start() + j) as u32),
            #[trigger] vals[i][j],
        )
}

/// The entries that each load reads where `image` gives the palette entries
/// in local memory.
pub open spec fn entries_of(loads: Seq<Load>, image: spec_fn(Load, int) -> u32) -> Seq<Seq<u32>> {
    Seq::new(
        loads.len(),
        |i: int| Seq::new((loads[i].end() - loads[i].start()) as nat, |j: int| image(loads[i], loads[i].start() + j)),
    )
}

/// The buffer as the hardware has it: every load done when it was asked
/// for.
pub open spec fn effective(buf: Seq<u8>, loads: Seq<Load>, image: spec_fn(Load, int) -> u32) -> Seq<u8> {
    buffer_after(buf, loads, entries_of(loads, image))
}

/// The loads left after recording `load`.
pub open spec fn recorded(loads: Seq<Load>, load: Load) -> Seq<Load> {
    if loads.len() > 0 && loads.last() == load {
        loads
    } else {
        loads.filter(|o: Load| !load.overwrites(o)).push(load)
    }
}

#[derive(Clone)]
pub struct Unit {
    /// The buffer as of the last materialisation.
    pub buf: Vec<u8>,
    /// Loads recorded since then, oldest first; later ones overwrite.
    pub loads: Vec<Load>,
    /// Bumped whenever `buf` changes, so decoded palettes can key on it.
    pub epoch: u32,
    /// CLD 2-5's remembered buffer pointers. A 14-bit CBP never equals the
    /// initial value, so the first CLD=4/5 write always loads.
    pub cbp0: u16,
    pub cbp1: u16,
}

impl Default for Unit {
    fn default() -> (u: Self)
        ensures
            u.wf(),
            u.buf@ == Seq::new(1024, |i: int| 0u8),
            u.loads@ == Seq::<Load>::empty(),
            u.epoch == 0,
            u.cbp0 == 0xFFFF,
            u.cbp1 == 0xFFFF,
    {
        let buf: Vec<u8> = vec![0u8; BYTES];
        assert(buf@ =~= Seq::new(1024, |i: int| 0u8));
        Unit { buf, loads: Vec::new(), epoch: 0, cbp0: u16::MAX, cbp1: u16::MAX }
    }
}

impl Unit {
    pub open spec fn wf(&self) -> bool {
        self.buf@.len() == 1024
    }

    /// Whether the CLD field of TEX0 asks for a load.
    pub open spec fn wants_load(&self, tex0: u64) -> bool {
        let cld = bits(tex0, 61, 7);
        palette_count(tex0) != 0 && (cld == 1 || cld == 2 || cld == 3 || (cld == 4 && self.cbp0 != tex0_cbp(tex0)) || (cld
            == 5 && self.cbp1 != tex0_cbp(tex0)))
    }

    /// Apply a TEX0 (or TEX2-merged TEX0) write's CLD field. Returns the
    /// load the caller must [`record`](Self::record): split so the caller
    /// can settle queued drawing into the palette's memory first.
    pub fn request(&mut self, tex0: u64) -> (r: Request)
        ensures
            r == (if old(self).wants_load(tex0) {
                Request::Load(tex0_load(tex0))
            } else {
                Request::Nothing
            }),
            final(self).cbp0 == (if palette_count(tex0) != 0 && (bits(tex0, 61, 7) == 2 || bits(tex0, 61, 7) == 4) {
                tex0_cbp(tex0)
            } else {
                old(self).cbp0
            }),
            final(self).cbp1 == (if palette_count(tex0) != 0 && (bits(tex0, 61, 7) == 3 || bits(tex0, 61, 7) == 5) {
                tex0_cbp(tex0)
            } else {
                old(self).cbp1
            }),
            final(self).buf == old(self).buf,
            final(self).loads == old(self).loads,
            final(self).epoch == old(self).epoch,
    {
        let psm: u64 = bits(tex0, 20, 0x3F);
        let count: u16 = match psm {
            0x13 | 0x1B => 256,
            0x14 | 0x24 | 0x2C => 16,
            _ => return Request::Nothing,
        };
        let cbp: u16 = bits(tex0, 37, 0x3FFF) as u16;
        let cld: u64 = bits(tex0, 61, 7);
        let load = match cld {
            1 => true,
            2 => {
                self.cbp0 = cbp;
                true
            },
            3 => {
                self.cbp1 = cbp;
                true
            },
            4 => {
                let differs = self.cbp0 != cbp;
                self.cbp0 = cbp;
                differs
            },
            5 => {
                let differs = self.cbp1 != cbp;
                self.cbp1 = cbp;
                differs
            },
            _ => false,
        };
        if !load {
            return Request::Nothing;
        }
        let csa: u16 = bits(tex0, 56, 0x1F) as u16;
        Request::Load(
            Load {
                cbp,
                cpsm: bits(tex0, 51, 0xF) as u8,
                csm: bits(tex0, 55, 1) as u8,
                // An 8-bit index reads the whole buffer; CSA is meaningless.
                first: if count == 256 {
                    0
                } else {
                    csa * 16
                },
                count,
            },
        )
    }

    /// Whether `record` would first have to materialise.
    pub fn full(&self) -> (r: bool)
        ensures
            r == (self.loads@.len() >= MAX_LOADS),
    {
        self.loads.len() >= MAX_LOADS
    }

    /// Record a load. Loads it overwrites completely are dropped, so a
    /// program alternating palettes keeps the list at their number.
    pub fn record(&mut self, load: Load)
        requires
            old(self).loads@.len() < MAX_LOADS,
        ensures
            final(self).loads@ == recorded(old(self).loads@, load),
            final(self).loads@.len() <= MAX_LOADS,
            final(self).buf == old(self).buf,
            final(self).epoch == old(self).epoch,
            final(self).cbp0 == old(self).cbp0,
            final(self).cbp1 == old(self).cbp1,
    {
        let n: usize = self.loads.len();
        if n > 0 && self.loads[n - 1] == load {
            return;
        }
        let ghost keep = |o: Load| !load.overwrites(o);
        let r = load.bytes();
        let mut kept: Vec<Load> = Vec::new();
        for i in 0..n
            invariant
                n == self.loads.len(),
                keep == (|o: Load| !load.overwrites(o)),
                r.start == load.start() * load.w(),
                r.end == load.end() * load.w(),
                kept@ == self.loads@.subrange(0, i as int).filter(keep),
                kept@.len() <= i,
        {
            let o = self.loads[i];
            let ob = o.bytes();
            proof {
                reveal(Seq::filter);
                assert(self.loads@.subrange(0, i + 1).drop_last() =~= self.loads@.subrange(0, i as int));
            }
            if !(r.start <= ob.start && ob.end <= r.end) {
                kept.push(o);
            }
        }
        assert(self.loads@.subrange(0, n as int) =~= self.loads@);
        kept.push(load);
        self.loads = kept;
    }

    /// Recorded loads whose memory lies in `blocks`.
    pub fn pending_in(&self, blocks: &Range<u32>) -> (r: bool)
        ensures
            r == exists|i: int|
                0 <= i < self.loads@.len() && blocks.start < #[trigger] self.loads@[i].cbp + 4 && self.loads@[i].cbp
                    < blocks.end,
    {
        for i in 0..self.loads.len()
            invariant
                forall|j: int|
                    0 <= j < i ==> !(blocks.start < #[trigger] self.loads@[j].cbp + 4 && self.loads@[j].cbp < blocks.end),
        {
            let b = self.loads[i].blocks();
            if blocks.start < b.end && b.start < blocks.end {
                return true;
            }
        }
        false
    }

    pub fn pending(&self) -> (r: bool)
        ensures
            r == (self.loads@.len() > 0),
    {
        self.loads.len() > 0
    }

    pub fn epoch(&self) -> (e: u32)
        ensures
            e == self.epoch,
    {
        self.epoch
    }

    /// Load `i` is the newest one that fills any byte of `lo..hi`.
    pub open spec fn newest(&self, lo: int, hi: int, i: int) -> bool {
        &&& 0 <= i < self.loads@.len()
        &&& touches(self.loads@[i], lo, hi)
        &&& forall|j: int| i < j < self.loads@.len() ==> !touches(#[trigger] self.loads@[j], lo, hi)
    }

    /// No recorded load fills any byte of `lo..hi`.
    pub open spec fn untouched(&self, lo: int, hi: int) -> bool {
        forall|j: int| 0 <= j < self.loads@.len() ==> !touches(#[trigger] self.loads@[j], lo, hi)
    }

    /// The buffer, where no recorded load touches the view; else the newest
    /// load that does, if it covers the view.
    pub open spec fn comes_from(&self, view: View, s: Source) -> bool {
        &&& s == Source::Buffer <==> self.untouched(view.lo(), view.hi())
        &&& forall|i: int| #[trigger]
            self.newest(view.lo(), view.hi(), i) ==> s == (if covers(self.loads@[i], view) {
                Source::Load(self.loads@[i])
            } else {
                Source::Mixed
            })
        &&& s != Source::Buffer ==> exists|i: int| self.newest(view.lo(), view.hi(), i)
    }

    /// Where the entries of `view` come from.
    pub fn source(&self, view: &View) -> (s: Source)
        ensures
            self.comes_from(*view, s),
    {
        let r = view.bytes();
        let mut k: usize = self.loads.len();
        while k > 0
            invariant
                k <= self.loads@.len(),
                r.start == view.lo(),
                r.end == view.hi(),
                forall|j: int| k <= j < self.loads@.len() ==> !touches(#[trigger] self.loads@[j], view.lo(), view.hi()),
            decreases k,
        {
            k = k - 1;
            let l = self.loads[k];
            let lb = l.bytes();
            if r.start < lb.end && lb.start < r.end {
                assert(self.newest(view.lo(), view.hi(), k as int));
                let inside = lb.start <= r.start && r.end <= lb.end;
                return if inside && l.width() == view.width() {
                    Source::Load(l)
                } else {
                    Source::Mixed
                };
            }
        }
        Source::Buffer
    }

    /// Read every recorded load's memory into the buffer, oldest first.
    /// `read(load, e)` returns the raw entry `e` (of that load's width)
    /// of the palette image in local memory.
    pub fn materialise<F: Fn(&Load, u32) -> u32>(&mut self, read: F)
        requires
            old(self).wf(),
            readable(read, old(self).loads@),
        ensures
            final(self).wf(),
            final(self).loads@ == Seq::<Load>::empty(),
            final(self).epoch == (if old(self).loads@.len() == 0 {
                old(self).epoch
            } else {
                old(self).epoch.wrapping_add(1)
            }),
            exists|vals: Seq<Seq<u32>>| #[trigger]
                answered(read, old(self).loads@, vals) && final(self).buf@ == buffer_after(
                    old(self).buf@,
                    old(self).loads@,
                    vals,
                ),
            final(self).cbp0 == old(self).cbp0,
            final(self).cbp1 == old(self).cbp1,
    {
        let ghost loads = self.loads@;
        let ghost buf = self.buf@;
        let ghost mut vals: Seq<Seq<u32>> = Seq::empty();
        if self.loads.len() == 0 {
            assert(answered(read, loads, vals));
            assert(self.buf@ =~= buffer_after(buf, loads, vals));
            return;
        }
        let n: usize = self.loads.len();
        for i in 0..n
            invariant
                n == loads.len(),
                loads == self.loads@,
                self.buf@.len() == 1024,
                buf.len() == 1024,
                readable(read, loads),
                answered(read, loads.subrange(0, i as int), vals),
                forall|b: int| 0 <= b < 1024 ==> #[trigger] self.buf@[b] == byte_after(buf, loads, i as int, vals, b),
                self.epoch == old(self).epoch,
                self.cbp0 == old(self).cbp0,
                self.cbp1 == old(self).cbp1,
        {
            let l = self.loads[i];
            let range = l.entries();
            let w: usize = l.width();
            let mut e: usize = range.start;
            let ghost before = self.buf@;
            let ghost mut got: Seq<u32> = Seq::empty();
            while e < range.end
                invariant
                    range.start == l.start(),
                    range.end == l.end(),
                    w == l.w(),
                    l.start() <= e <= l.end(),
                    loads == self.loads@,
                    self.buf@.len() == 1024,
                    before.len() == 1024,
                    readable(read, loads),
                    0 <= i < loads.len(),
                    l == loads[i as int],
                    got.len() == e - l.start(),
                    forall|j: int|
                        0 <= j < got.len() ==> call_ensures(read, (&l, (l.start() + j) as u32), #[trigger] got[j]),
                    forall|b: int|
                        0 <= b < 1024 ==> #[trigger] self.buf@[b] == (if l.start() * w <= b < e * w {
                            le_bytes(got[b / l.w() - l.start()] as nat, l.w() as nat)[b % l.w()]
                        } else {
                            before[b]
                        }),
                    self.epoch == old(self).epoch,
                    self.cbp0 == old(self).cbp0,
                    self.cbp1 == old(self).cbp1,
                decreases range.end - e,
            {
                assert(call_requires(read, (&loads[i as int], e as u32)));
                let v: u32 = read(&l, e as u32);
                let ghost prior = self.buf@;
                proof {
                    lemma_le_bytes_len(v as nat, l.w() as nat);
                }
                if w == 4 {
                    wr32(&mut self.buf, e * 4, v);
                } else {
                    let h: u16 = (v % 0x1_0000) as u16;
                    wr16(&mut self.buf, e * 2, h);
                    proof {
                        lemma_low_half(v);
                    }
                }
                proof {
                    let ghost was = got;
                    got = got.push(v);
                    assert(self.buf@ == put(prior, e * w, l.w(), v as nat));
                    assert forall|b: int| 0 <= b < 1024 implies #[trigger] self.buf@[b] == (if l.start() * w <= b < (e + 1) * w {
                        le_bytes(got[b / l.w() - l.start()] as nat, l.w() as nat)[b % l.w()]
                    } else {
                        before[b]
                    }) by {
                        if l.start() * w <= b < e * w {
                            assert(prior[b] == le_bytes(was[b / l.w() - l.start()] as nat, l.w() as nat)[b % l.w()]);
                        } else if e * w <= b < (e + 1) * w {
                            assert(b / l.w() == e);
                            assert(b % l.w() == b - e * w);
                        } else {
                            assert(prior[b] == before[b]);
                        }
                    }
                }
                e = e + 1;
            }
            proof {
                let was = vals;
                vals = vals.push(got);
                assert(loads.subrange(0, i + 1).subrange(0, i as int) =~= loads.subrange(0, i as int));
                let now = loads.subrange(0, i + 1);
                let past = loads.subrange(0, i as int);
                assert forall|k: int| 0 <= k < now.len() implies #[trigger] vals[k].len() == now[k].end() - now[k].start() by {
                    if k < i {
                        assert(was[k].len() == past[k].end() - past[k].start());
                    }
                }
                assert forall|k: int, j: int| 0 <= k < now.len() && 0 <= j < vals[k].len() implies call_ensures(
                    read,
                    (&now[k], (now[k].start() + j) as u32),
                    #[trigger] vals[k][j],
                ) by {
                    if k < i {
                        assert(vals[k][j] == was[k][j]);
                        assert(call_ensures(read, (&past[k], (past[k].start() + j) as u32), was[k][j]));
                    }
                }
                assert(answered(read, now, vals));
                assert forall|b: int| 0 <= b < 1024 implies #[trigger] self.buf@[b] == byte_after(
                    buf,
                    loads,
                    i + 1,
                    vals,
                    b,
                ) by {
                    lemma_byte_after_prefix(buf, loads, i as int, was, vals, b);
                }
            }
        }
        proof {
            assert(loads.subrange(0, loads.len() as int) =~= loads);
            assert(self.buf@ =~= buffer_after(buf, loads, vals));
        }
        self.loads = Vec::new();
        self.epoch = self.epoch.wrapping_add(1);
    }

    /// Raw entry `e` of the materialised bytes in `cpsm`'s width; zero
    /// past the end of the buffer.
    pub fn entry(&self, cpsm: u8, e: usize) -> (v: u32)
        requires
            self.wf(),
        ensures
            v == (if e < 1024int / entry_width(cpsm) {
                get(self.buf@, e * entry_width(cpsm), entry_width(cpsm))
            } else {
                0
            }),
    {
        if cpsm == 0 {
            if e < 256 {
                rd32(self.buf.as_slice(), e * 4)
            } else {
                0
            }
        } else if e < 512 {
            rd16(self.buf.as_slice(), e * 2) as u32
        } else {
            0
        }
    }
}

/// Whether `l` fills any byte of `lo..hi`.
pub open spec fn touches(l: Load, lo: int, hi: int) -> bool {
    lo < l.end() * l.w() && l.start() * l.w() < hi
}

/// Whether every entry that `v` reads is an entry of `l`.
pub open spec fn covers(l: Load, v: View) -> bool {
    l.start() * l.w() <= v.lo() && v.hi() <= l.end() * l.w() && l.w() == entry_width(v.cpsm)
}

proof fn lemma_low_half(v: u32)
    ensures
        le_bytes(v as nat, 2) == le_bytes((v % 0x1_0000) as nat, 2),
{
    reveal_with_fuel(le_bytes, 3);
    assert(le_bytes(v as nat, 2) =~= le_bytes((v % 0x1_0000) as nat, 2));
}

proof fn lemma_byte_after_prefix(buf: Seq<u8>, loads: Seq<Load>, n: int, a: Seq<Seq<u32>>, b: Seq<Seq<u32>>, at: int)
    requires
        0 <= n <= a.len(),
        n <= b.len(),
        forall|i: int| 0 <= i < n ==> a[i] == b[i],
    ensures
        byte_after(buf, loads, n, a, at) == byte_after(buf, loads, n, b, at),
    decreases n,
{
    if n > 0 {
        lemma_byte_after_prefix(buf, loads, n - 1, a, b, at);
    }
}

/// The byte `b` of entry `b / w` of the palette image behind `l`.
pub open spec fn image_byte(image: spec_fn(Load, int) -> u32, l: Load, b: int) -> u8 {
    le_bytes(image(l, b / l.w()) as nat, l.w() as nat)[b % l.w()]
}

/// Byte `b` of the buffer as the hardware has it.
spec fn effective_byte(buf: Seq<u8>, loads: Seq<Load>, image: spec_fn(Load, int) -> u32, b: int) -> u8
    decreases loads.len(),
{
    if loads.len() == 0 {
        buf[b]
    } else if loads.last().fills(b) {
        image_byte(image, loads.last(), b)
    } else {
        effective_byte(buf, loads.drop_last(), image, b)
    }
}

proof fn lemma_effective_byte(buf: Seq<u8>, loads: Seq<Load>, n: int, image: spec_fn(Load, int) -> u32, b: int)
    requires
        0 <= n <= loads.len(),
        0 <= b,
    ensures
        byte_after(buf, loads, n, entries_of(loads, image), b) == effective_byte(buf, loads.subrange(0, n), image, b),
    decreases n,
{
    if n > 0 {
        let prefix = loads.subrange(0, n);
        assert(prefix.drop_last() =~= loads.subrange(0, n - 1));
        lemma_effective_byte(buf, loads, n - 1, image, b);
        let l = loads[n - 1];
        if l.fills(b) {
            assert(l.start() <= b / l.w() < l.end());
        }
    }
}

proof fn lemma_overwritten_do_not_show(buf: Seq<u8>, loads: Seq<Load>, load: Load, image: spec_fn(Load, int) -> u32, b: int)
    requires
        !load.fills(b),
    ensures
        effective_byte(buf, loads.filter(|o: Load| !load.overwrites(o)), image, b) == effective_byte(buf, loads, image, b),
    decreases loads.len(),
{
    reveal(Seq::filter);
    let keep = |o: Load| !load.overwrites(o);
    if loads.len() > 0 {
        lemma_overwritten_do_not_show(buf, loads.drop_last(), load, image, b);
        let rest = loads.drop_last().filter(keep);
        if keep(loads.last()) {
            assert(rest.push(loads.last()).drop_last() =~= rest);
        }
    }
}

/// Recording is loading: dropping the loads that a new one overwrites, and
/// a repeat of the last one, leaves the buffer that doing every load in
/// order would give.
pub proof fn law_record_is_loading(buf: Seq<u8>, loads: Seq<Load>, load: Load, image: spec_fn(Load, int) -> u32)
    ensures
        effective(buf, recorded(loads, load), image) == effective(buf, loads.push(load), image),
{
    let kept = recorded(loads, load);
    let all = loads.push(load);
    assert(all.drop_last() =~= loads);
    assert(all.subrange(0, all.len() as int) =~= all);
    assert(kept.subrange(0, kept.len() as int) =~= kept);
    assert forall|b: int| 0 <= b < buf.len() implies effective_byte(buf, kept, image, b) == effective_byte(
        buf,
        all,
        image,
        b,
    ) && byte_after(buf, kept, kept.len() as int, entries_of(kept, image), b) == effective_byte(buf, kept, image, b)
        && byte_after(buf, all, all.len() as int, entries_of(all, image), b) == effective_byte(buf, all, image, b) by {
        lemma_effective_byte(buf, kept, kept.len() as int, image, b);
        lemma_effective_byte(buf, all, all.len() as int, image, b);
        if !(loads.len() > 0 && loads.last() == load) {
            let rest = loads.filter(|o: Load| !load.overwrites(o));
            assert(kept.drop_last() =~= rest);
            if !load.fills(b) {
                lemma_overwritten_do_not_show(buf, loads, load, image, b);
            }
        }
    }
    assert forall|b: int| 0 <= b < buf.len() implies effective(buf, kept, image)[b] == effective(buf, all, image)[b] by {
        assert(effective_byte(buf, kept, image, b) == effective_byte(buf, all, image, b));
    }
    assert(effective(buf, kept, image) =~= effective(buf, all, image));
}

proof fn lemma_untouched(buf: Seq<u8>, loads: Seq<Load>, image: spec_fn(Load, int) -> u32, b: int, lo: int, hi: int)
    requires
        lo <= b < hi,
        forall|j: int| 0 <= j < loads.len() ==> !touches(#[trigger] loads[j], lo, hi),
    ensures
        effective_byte(buf, loads, image, b) == buf[b],
    decreases loads.len(),
{
    if loads.len() > 0 {
        assert(!touches(loads[loads.len() - 1], lo, hi));
        assert forall|j: int| 0 <= j < loads.drop_last().len() implies !touches(#[trigger] loads.drop_last()[j], lo, hi) by {
            assert(!touches(loads[j], lo, hi));
        }
        lemma_untouched(buf, loads.drop_last(), image, b, lo, hi);
    }
}

proof fn lemma_newest_shows(buf: Seq<u8>, loads: Seq<Load>, i: int, image: spec_fn(Load, int) -> u32, b: int, lo: int, hi: int)
    requires
        lo <= b < hi,
        0 <= i < loads.len(),
        loads[i].fills(b),
        forall|j: int| i < j < loads.len() ==> !touches(#[trigger] loads[j], lo, hi),
    ensures
        effective_byte(buf, loads, image, b) == image_byte(image, loads[i], b),
    decreases loads.len(),
{
    if i < loads.len() - 1 {
        assert(!touches(loads[loads.len() - 1], lo, hi));
        assert forall|j: int| i < j < loads.drop_last().len() implies !touches(#[trigger] loads.drop_last()[j], lo, hi) by {
            assert(!touches(loads[j], lo, hi));
        }
        lemma_newest_shows(buf, loads.drop_last(), i, image, b, lo, hi);
    }
}

/// A lookup that goes where `source` sends it reads the buffer as the
/// hardware has it: the materialised bytes where it says so, and one load's
/// memory where it names that load.
pub proof fn law_source_is_faithful(unit: Unit, view: View, image: spec_fn(Load, int) -> u32, source: Source, b: int)
    requires
        unit.wf(),
        unit.comes_from(view, source),
        view.lo() <= b < view.hi(),
    ensures
        source == Source::Buffer ==> effective(unit.buf@, unit.loads@, image)[b] == unit.buf@[b],
        source matches Source::Load(l) ==> effective(unit.buf@, unit.loads@, image)[b] == image_byte(image, l, b),
{
    let loads = unit.loads@;
    lemma_effective_byte(unit.buf@, loads, loads.len() as int, image, b);
    assert(loads.subrange(0, loads.len() as int) =~= loads);
    if source == Source::Buffer {
        lemma_untouched(unit.buf@, loads, image, b, view.lo(), view.hi());
    } else {
        let i = choose|i: int| unit.newest(view.lo(), view.hi(), i);
        assert(unit.newest(view.lo(), view.hi(), i));
        if covers(loads[i], view) {
            lemma_newest_shows(unit.buf@, loads, i, image, b, view.lo(), view.hi());
        }
    }
}

proof fn lemma_filter_shrinks(loads: Seq<Load>, load: Load)
    ensures
        loads.filter(|o: Load| !load.overwrites(o)).len() <= loads.len(),
        (exists|i: int| 0 <= i < loads.len() && load.overwrites(#[trigger] loads[i])) ==> loads.filter(
            |o: Load| !load.overwrites(o),
        ).len() < loads.len(),
    decreases loads.len(),
{
    reveal(Seq::filter);
    if loads.len() > 0 {
        let rest = loads.drop_last();
        lemma_filter_shrinks(rest, load);
        assert forall|i: int| 0 <= i < loads.len() && load.overwrites(#[trigger] loads[i]) implies i == loads.len() - 1
            || load.overwrites(rest[i]) by {}
    }
}

/// A load that overwrites a recorded one does not make the list longer, so
/// programs that alternate palettes do not fill it.
pub proof fn law_overwriting_does_not_grow(loads: Seq<Load>, load: Load)
    ensures
        recorded(loads, load).len() <= loads.len() + 1,
        (exists|i: int| 0 <= i < loads.len() && load.overwrites(#[trigger] loads[i])) ==> recorded(loads, load).len()
            <= loads.len(),
{
    lemma_filter_shrinks(loads, load);
}

} // verus!
