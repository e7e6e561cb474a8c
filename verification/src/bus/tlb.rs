//! EE address translation: fixed segments, and the TLB with a lookup cache.

use vstd::prelude::*;

verus! {

/// One TLB entry, as its raw registers.
#[derive(Clone, Copy)]
pub struct TlbEntry {
    pub mask: u32,
    pub hi: u32,
    pub lo0: u32,
    pub lo1: u32,
}

impl TlbEntry {
    /// Pages of 4 KiB in a page of this entry, less one.
    pub open spec fn extra(self) -> u32 {
        self.mask >> 13
    }

    /// The address bits that name the pair of pages.
    pub open spec fn pair_mask(self) -> u32 {
        !((self.extra() << 13) | 0x1FFF)
    }

    /// The address bits inside a page.
    pub open spec fn page_mask(self) -> u32 {
        (self.extra() << 12) | 0xFFF
    }

    /// Whether an address lies in the odd page of the pair.
    pub open spec fn odd(self, v: u32) -> bool {
        v & (((self.extra() + 1) as u32) << 12) != 0
    }

    /// The half of the entry that an address uses.
    pub open spec fn half(self, v: u32) -> u32 {
        if self.odd(v) {
            self.lo1
        } else {
            self.lo0
        }
    }

    /// The entry maps the address: it is set, its pair of pages is the
    /// address's, and it is the scratchpad's or the half is valid.
    pub open spec fn maps(self, v: u32) -> bool {
        &&& !(self.hi == 0 && self.lo0 == 0 && self.lo1 == 0)
        &&& v & self.pair_mask() == self.hi & self.pair_mask()
        &&& self.scratchpad() || self.half(v) & 2 != 0
    }

    pub open spec fn scratchpad(self) -> bool {
        self.lo0 & 0x8000_0000 != 0
    }

    /// Where the entry maps the address: the scratchpad's 16 KiB window, or
    /// the page frame of the half.
    pub open spec fn mapped(self, v: u32) -> u32 {
        if self.scratchpad() {
            0x7000_0000 | (v & 0x3FFF)
        } else {
            ((self.half(v) >> 6) << 12) | (v & self.page_mask())
        }
    }
}

/// The first entry from `i` on that maps the address.
pub open spec fn first_map(t: Seq<TlbEntry>, v: u32, i: int) -> Option<int>
    decreases t.len() - i,
{
    if i < 0 || i >= t.len() {
        None
    } else if t[i].maps(v) {
        Some(i)
    } else {
        first_map(t, v, i + 1)
    }
}

/// A mapped-segment address: what its entry says, or a direct fold where no
/// entry maps it, so early boot keeps working.
pub open spec fn looked_up(t: Seq<TlbEntry>, v: u32) -> u32 {
    match first_map(t, v, 0) {
        Some(i) => t[i].mapped(v),
        None => v & 0x1FFF_FFFF,
    }
}

/// EE virtual to physical: KSEG0 and KSEG1 fold directly, the scratchpad
/// window and low RAM are fixed, everything else goes through the TLB.
pub open spec fn translated(t: Seq<TlbEntry>, v: u32) -> u32 {
    if 0x8000_0000 <= v <= 0xBFFF_FFFF {
        v & 0x1FFF_FFFF
    } else if 0x7000_0000 <= v <= 0x7000_3FFF {
        v
    } else if v <= 0x01FF_FFFF {
        v
    } else {
        looked_up(t, v)
    }
}

/// Addresses of one 4 KiB page translate alike.
proof fn lemma_page_alike(k: u32, lo: u32, hi: u32, v: u32, w: u32)
    by (bit_vector)
    requires
        v >> 12 == w >> 12,
        k < 0x8_0000,
    ensures
        (v & !((k << 13) | 0x1FFF) == hi & !((k << 13) | 0x1FFF)) == (w & !((k << 13) | 0x1FFF) == hi & !((k << 13)
            | 0x1FFF)),
        (v & (((k + 1) as u32) << 12) != 0) == (w & (((k + 1) as u32) << 12) != 0),
        ({
            let p = ((lo >> 6) << 12) | (v & ((k << 12) | 0xFFF));
            let q = ((lo >> 6) << 12) | (w & ((k << 12) | 0xFFF));
            q == ((p >> 12) << 12) | (w & 0xFFF)
        }),
{
}

proof fn lemma_extra(mask: u32)
    by (bit_vector)
    ensures
        mask >> 13 < 0x8_0000,
{
}

proof fn lemma_slot(v: u32, lo: u32)
    by (bit_vector)
    ensures
        (v >> 12) & 1023 < 1024,
        (v >> 12) | 0x8000_0000 != 0,
        0u32 >> 13 == 0,
        ((lo >> 6) << 12) | (v & ((0u32 << 12) | 0xFFF)) == lo / 64 % 0x10_0000 * 4096 + v % 4096,
        v & (1u32 << 12) != 0 <==> v / 4096 % 2 == 1,
        v & !((0u32 << 13) | 0x1FFF) == v - v % 8192,
        lo & 2 != 0 <==> lo / 2 % 2 == 1,
{
}

proof fn lemma_same_tag(v: u32, w: u32)
    by (bit_vector)
    requires
        (v >> 12) | 0x8000_0000 == (w >> 12) | 0x8000_0000,
    ensures
        v >> 12 == w >> 12,
{
}

proof fn lemma_same_map(t: Seq<TlbEntry>, v: u32, w: u32, i: int)
    requires
        v >> 12 == w >> 12,
    ensures
        first_map(t, v, i) == first_map(t, w, i),
    decreases t.len() - i,
{
    if 0 <= i < t.len() {
        let e = t[i];
        lemma_extra(e.mask);
        lemma_page_alike(e.extra(), e.lo0, e.hi, v, w);
        lemma_same_map(t, v, w, i + 1);
    }
}

proof fn lemma_first_map_index(t: Seq<TlbEntry>, v: u32, i: int)
    ensures
        first_map(t, v, i) matches Some(j) ==> i <= j < t.len() && t[j].maps(v),
    decreases t.len() - i,
{
    if 0 <= i < t.len() {
        lemma_first_map_index(t, v, i + 1);
    }
}

proof fn lemma_page_arith(v: u32, w: u32, p: u32, q: u32)
    by (bit_vector)
    requires
        v / 4096 == w / 4096,
    ensures
        v >> 12 == w >> 12,
        w & 0x1FFF_FFFF == (v & 0x1FFF_FFFF) - v % 4096 + w % 4096,
        (v & 0x1FFF_FFFF) % 4096 == v % 4096,
        q == ((p >> 12) << 12) | (w & 0xFFF) ==> q == p - p % 4096 + w % 4096,
        0x7000_0000 | (v & 0x3FFF) >= 0x7000_0000,
{
}

/// A page that translates into RAM translates as a whole.
pub proof fn lemma_page_translation(t: Seq<TlbEntry>, v: u32, w: u32)
    requires
        v / 4096 == w / 4096,
        translated(t, v) < 0x0200_0000,
    ensures
        translated(t, w) == translated(t, v) - translated(t, v) % 4096 + w % 4096,
{
    lemma_page_arith(v, w, translated(t, v), translated(t, w));
    lemma_same_map(t, v, w, 0);
    lemma_first_map_index(t, v, 0);
    if let Some(i) = first_map(t, v, 0) {
        let e = t[i];
        lemma_extra(e.mask);
        lemma_page_alike(e.extra(), e.lo0, e.hi, v, w);
        lemma_page_alike(e.extra(), e.half(v), e.hi, v, w);
    }
}

pub struct Tlb {
    pub entries: Vec<TlbEntry>,
    /// Per slot (virtual page | top bit, physical page); zero = empty.
    pub cache: Vec<(u32, u32)>,
}

impl Tlb {
    /// What the cache says is what the TLB says.
    pub open spec fn cached(&self, i: int) -> bool {
        self.cache@[i].0 != 0 ==> forall|v: u32|
            (#[trigger] (v >> 12)) | 0x8000_0000 == self.cache@[i].0 ==> looked_up(self.entries@, v) == (self.cache@[i].1 << 12) | (v
                & 0xFFF)
    }

    pub open spec fn wf(&self) -> bool {
        &&& self.entries@.len() == 48
        &&& self.cache@.len() == 1024
        &&& forall|i: int| 0 <= i < 1024 ==> #[trigger] self.cached(i)
    }

    pub fn new() -> (t: Self)
        ensures
            t.wf(),
            t.entries@ == Seq::new(48, |i: int| TlbEntry { mask: 0, hi: 0, lo0: 0, lo1: 0 }),
    {
        let entries: Vec<TlbEntry> = vec![TlbEntry { mask: 0, hi: 0, lo0: 0, lo1: 0 }; 48];
        assert(entries@ =~= Seq::new(48, |i: int| TlbEntry { mask: 0, hi: 0, lo0: 0, lo1: 0 }));
        let t = Tlb { entries, cache: empty_cache() };
        assert forall|i: int| 0 <= i < 1024 implies #[trigger] t.cached(i) by {}
        t
    }

    /// Record a TLB entry (from tlbwi) and flush the translation cache.
    /// Whether there is such an entry.
    pub fn write(&mut self, idx: usize, e: TlbEntry) -> (ok: bool)
        requires
            old(self).wf(),
        ensures
            final(self).wf(),
            ok == (idx < 48),
            final(self).entries@ == (if idx < 48 {
                old(self).entries@.update(idx as int, e)
            } else {
                old(self).entries@
            }),
    {
        if idx < 48 {
            self.entries[idx] = e;
            self.cache = empty_cache();
            assert forall|i: int| 0 <= i < 1024 implies #[trigger] self.cached(i) by {}
            true
        } else {
            false
        }
    }

    /// Walk the TLB for a mapped-segment address.
    fn lookup(&mut self, v: u32) -> (p: u32)
        requires
            old(self).wf(),
        ensures
            final(self).wf(),
            final(self).entries == old(self).entries,
            p == looked_up(old(self).entries@, v),
    {
        proof {
            lemma_slot(v, 0);
        }
        let slot: usize = ((v >> 12) & 1023) as usize;
        let tag: u32 = (v >> 12) | 0x8000_0000;
        let (have, base) = self.cache[slot];
        if have == tag {
            assert(self.cached(slot as int));
            return (base << 12) | (v & 0xFFF);
        }
        for i in 0..48usize
            invariant
                *self == *old(self),
                self.wf(),
                slot < 1024,
                tag == (v >> 12) | 0x8000_0000,
                tag != 0,
                first_map(self.entries@, v, 0) == first_map(self.entries@, v, i as int),
        {
            let e = self.entries[i];
            proof {
                lemma_extra(e.mask);
            }
            let k: u32 = e.mask >> 13;
            let pair: u32 = !((k << 13) | 0x1FFF);
            let unset = e.hi == 0 && e.lo0 == 0 && e.lo1 == 0;
            if !unset && v & pair == e.hi & pair {
                if e.lo0 & 0x8000_0000 != 0 {
                    return 0x7000_0000 | (v & 0x3FFF);
                }
                let odd = v & ((k + 1) << 12) != 0;
                let lo: u32 = if odd { e.lo1 } else { e.lo0 };
                if lo & 2 != 0 {
                    let phys: u32 = ((lo >> 6) << 12) | (v & ((k << 12) | 0xFFF));
                    assert(e.maps(v));
                    assert(phys == looked_up(self.entries@, v));
                    self.cache[slot] = (tag, phys >> 12);
                    proof {
                        assert forall|j: int| 0 <= j < 1024 implies #[trigger] self.cached(j) by {
                            if j == slot {
                                assert forall|w: u32|
                                    (#[trigger] (w >> 12)) | 0x8000_0000 == tag implies looked_up(self.entries@, w) == ((
                                phys >> 12) << 12) | (w & 0xFFF) by {
                                    lemma_same_tag(w, v);
                                    lemma_same_map(self.entries@, v, w, 0);
                                    lemma_page_alike(k, e.lo0, e.hi, v, w);
                                    lemma_page_alike(k, lo, e.hi, v, w);
                                }
                            } else {
                                assert(old(self).cached(j));
                            }
                        }
                    }
                    return phys;
                }
            }
        }
        v & 0x1FFF_FFFF
    }

    /// Translate an EE virtual address.
    pub fn translate(&mut self, v: u32) -> (p: u32)
        requires
            old(self).wf(),
        ensures
            final(self).wf(),
            final(self).entries == old(self).entries,
            p == translated(old(self).entries@, v),
    {
        if v >= 0x8000_0000 && v <= 0xBFFF_FFFF {
            v & 0x1FFF_FFFF
        } else if v >= 0x7000_0000 && v <= 0x7000_3FFF {
            v
        } else if v <= 0x01FF_FFFF {
            v
        } else {
            self.lookup(v)
        }
    }
}

fn empty_cache() -> (c: Vec<(u32, u32)>)
    ensures
        c@.len() == 1024,
        forall|i: int| 0 <= i < 1024 ==> c@[i].0 == 0,
{
    let mut c: Vec<(u32, u32)> = Vec::new();
    for i in 0..1024usize
        invariant
            c@.len() == i,
            forall|j: int| 0 <= j < i ==> c@[j].0 == 0,
    {
        c.push((0, 0));
    }
    c
}

/// Low RAM is seen at the same place through kuseg, KSEG0 and KSEG1, whatever
/// the TLB holds.
pub proof fn law_kernel_segments_mirror_ram(t: Seq<TlbEntry>, a: u32)
    requires
        a <= 0x01FF_FFFF,
    ensures
        translated(t, a) == a,
        translated(t, (0x8000_0000 + a) as u32) == a,
        translated(t, (0xA000_0000 + a) as u32) == a,
{
    let b = (0x8000_0000 + a) as u32;
    let c = (0xA000_0000 + a) as u32;
    assert(b & 0x1FFF_FFFF == a && c & 0x1FFF_FFFF == a) by (bit_vector)
        requires
            a <= 0x01FF_FFFF,
            b == 0x8000_0000 + a,
            c == 0xA000_0000 + a,
    ;
}

/// The scratchpad window is no part of RAM.
pub proof fn law_scratchpad_is_apart(t: Seq<TlbEntry>, a: u32)
    requires
        0x7000_0000 <= a <= 0x7000_3FFF,
    ensures
        translated(t, a) == a,
        translated(t, a) >= super::memory::RAM_SIZE,
{
}

/// An entry of 4 KiB pages maps the 8 KiB that its EntryHi names, the even
/// page by EntryLo0 and the odd one by EntryLo1, each if its valid bit (1)
/// is set, to the page frame in bits 6 and up; the place within the page
/// stays.
pub proof fn law_small_pages(e: TlbEntry, v: u32)
    requires
        e.mask == 0,
        !e.scratchpad(),
        e.hi != 0 || e.lo0 != 0 || e.lo1 != 0,
    ensures
        ({
            let half = if v as int / 4096 % 2 == 0 {
                e.lo0 as int
            } else {
                e.lo1 as int
            };
            &&& e.maps(v) <==> v as int / 8192 == e.hi as int / 8192 && half / 2 % 2 == 1
            &&& e.mapped(v) == half / 64 % 0x10_0000 * 4096 + v as int % 4096
        }),
{
    lemma_slot(v, e.lo0);
    lemma_slot(v, e.lo1);
    lemma_slot(e.hi, 0);
}

/// The first entry that maps an address decides where it leads, and where
/// none does the address is folded.
pub proof fn law_first_entry_decides(t: Seq<TlbEntry>, v: u32, i: int)
    requires
        0x0200_0000 <= v < 0x7000_0000,
        0 <= i < t.len(),
        t[i].maps(v),
        forall|j: int| 0 <= j < i ==> !(#[trigger] t[j]).maps(v),
    ensures
        translated(t, v) == t[i].mapped(v),
{
    lemma_first_is(t, v, 0, i);
}

proof fn lemma_first_is(t: Seq<TlbEntry>, v: u32, from: int, i: int)
    requires
        0 <= from <= i < t.len(),
        t[i].maps(v),
        forall|j: int| from <= j < i ==> !(#[trigger] t[j]).maps(v),
    ensures
        first_map(t, v, from) == Some(i),
    decreases i - from,
{
    if from < i {
        lemma_first_is(t, v, from + 1, i);
    }
}

} // verus!
