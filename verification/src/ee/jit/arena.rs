//! Executable code arena: one mapping, bump-allocated. Blocks are never
//! freed individually; when the arena fills the whole block cache is dropped
//! and allocation restarts from the top. The mapping itself and the copying
//! into it are the host's.

use vstd::prelude::*;

verus! {

/// Code arena size; when full, every block is dropped and it starts over.
pub const ARENA_BYTES: u64 = 0x400_0000;

/// Room that `len` bytes of code take.
pub open spec fn rounded(len: u64) -> int {
    (len + 15) / 16 * 16
}

pub struct Arena {
    /// Address of the mapping.
    pub base: u64,
    pub size: u64,
    pub used: u64,
}

impl Arena {
    pub open spec fn wf(&self) -> bool {
        &&& self.base + rounded(self.size) <= u64::MAX
        &&& self.used <= rounded(self.size)
        &&& self.used % 16 == 0
    }

    /// An arena over a mapping of `size` bytes at `base`, if it fits the
    /// address space (rounded up to 16, as its blocks are).
    pub fn new(base: u64, size: u64) -> (r: Option<Self>)
        ensures
            r is Some == (base + rounded(size) <= u64::MAX),
            r matches Some(a) ==> a.wf() && a.base == base && a.size == size && a.used == 0,
    {
        if size > u64::MAX - 15 || base > u64::MAX - (size + 15) / 16 * 16 {
            return None;
        }
        Some(Arena { base, size, used: 0 })
    }

    /// Address the next block will be placed at (for position-dependent
    /// relocations while assembling).
    pub fn next_addr(&self) -> (r: u64)
        requires
            self.wf(),
        ensures
            r == self.base + self.used,
    {
        self.base + self.used
    }

    pub fn remaining(&self) -> (r: u64)
        requires
            self.wf(),
            self.used <= self.size,
        ensures
            r == self.size - self.used,
    {
        self.size - self.used
    }

    /// Take the room for `len` bytes of code, rounded up to 16, and return
    /// their address. The arena keeps 16-byte alignment.
    pub fn place(&mut self, len: u64) -> (r: u64)
        requires
            old(self).wf(),
            len <= old(self).size - old(self).used,
        ensures
            final(self).wf(),
            r == old(self).base + old(self).used,
            final(self).base == old(self).base,
            final(self).size == old(self).size,
            final(self).used == old(self).used + rounded(len),
    {
        let at: u64 = self.base + self.used;
        self.used = self.used + (len + 15) / 16 * 16;
        at
    }

    /// Forget every block (the memory is simply reused).
    pub fn reset(&mut self)
        requires
            old(self).wf(),
        ensures
            final(self).wf(),
            final(self).base == old(self).base,
            final(self).size == old(self).size,
            final(self).used == 0,
    {
        self.used = 0;
    }
}

/// Code placed one after the other does not overlap, and stays inside the
/// mapping.
pub proof fn law_placed_code_is_disjoint(a: Arena, b: Arena, first: u64, second: u64)
    requires
        a.wf(),
        first <= a.size - a.used,
        b == (Arena { used: (a.used + rounded(first)) as u64, ..a }),
        second <= b.size - b.used,
    ensures
        a.base + a.used + first <= b.base + b.used,
        b.base + b.used + second <= a.base + a.size,
{
}

} // verus!
