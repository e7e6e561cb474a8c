//! The fast path of loads and stores: plain RAM straight from the host.

use vstd::prelude::*;
use crate::bus::memory::{MemModel, RAM_SIZE};
use crate::bus::regs::BusModel;
use crate::bytes::put;

verus! {

/// Address bits below the segment.
pub const OFFSET_MASK: u32 = 0x1FFF_FFFF;

/// A bit for each segment that maps RAM whatever the TLB holds: the low
/// kuseg, KSEG0 and KSEG1.
pub const FAST_SEGMENTS: u32 = 0x31;

/// The RAM offset of an address that is plain RAM whatever the TLB holds:
/// kuseg below 32 MiB, or KSEG0/KSEG1 mapping there.
pub open spec fn fast_offset(vaddr: u32) -> Option<u32> {
    let segment = vaddr / 0x2000_0000;
    let offset = vaddr % 0x2000_0000;
    if offset < RAM_SIZE && (segment == 0 || segment == 4 || segment == 5) {
        Some(offset)
    } else {
        None
    }
}

pub fn ram_fast_path(vaddr: u32) -> (r: Option<u32>)
    ensures
        r == fast_offset(vaddr),
{
    let segment: u32 = vaddr >> 29;
    let offset: u32 = vaddr & OFFSET_MASK;
    assert(vaddr >> 29 == vaddr / 0x2000_0000 && vaddr & 0x1FFF_FFFF == vaddr % 0x2000_0000) by (bit_vector);
    assert((0x31u32 >> segment) & 1 == 1 <==> segment == 0 || segment == 4 || segment == 5) by (bit_vector)
        requires
            segment < 8,
    ;
    if (offset as usize) < RAM_SIZE && (FAST_SEGMENTS >> segment) & 1 == 1 {
        Some(offset)
    } else {
        None
    }
}

/// The fast path goes where the bus goes.
pub proof fn law_fast_path_agrees(m: BusModel, vaddr: u32)
    ensures
        fast_offset(vaddr) matches Some(offset) ==> m.phys(vaddr) == offset,
{
    assert(vaddr & 0x1FFF_FFFF == vaddr % 0x2000_0000) by (bit_vector);
}

/// A store on the fast path, to a page without code, only changes RAM: there
/// is nothing to note.
pub proof fn law_fast_stores_need_no_note(m: BusModel, vaddr: u32, n: usize, v: u64)
    requires
        fast_offset(vaddr) is Some,
        !m.mem.code_pages[fast_offset(vaddr)->Some_0 as int / 4096],
    ensures
        m.phys_written(m.phys(vaddr), n, v) == (BusModel {
            mem: MemModel { ram: put(m.mem.ram, fast_offset(vaddr)->Some_0 as int, n as int, v as nat), ..m.mem },
            ..m
        }),
{
    law_fast_path_agrees(m, vaddr);
}

} // verus!
