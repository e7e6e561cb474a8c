//! What commands leave alone.

use vstd::prelude::*;
use crate::bus::memory::MemModel;
use crate::bus::regs::BusModel;
use super::run::{ahead, byte_of, byte_put, copied, place, ran, stored, stored_all, strided};
use super::table::{applied, jump};
use super::{CheatModel, OpModel, Target};

verus! {

/// The two differ at most in RAM and the scratchpads, and in the notes of
/// code that was written over.
pub open spec fn only_memory(after: BusModel, before: BusModel) -> bool {
    after == (BusModel {
        mem: MemModel {
            ram: after.mem.ram,
            spad: after.mem.spad,
            iop_ram: after.mem.iop_ram,
            iop_spad: after.mem.iop_spad,
            dirty: after.mem.dirty,
            ..before.mem
        },
        ..before
    })
}

proof fn lemma_byte_put(m: BusModel, t: Target, a: u32, b: u8)
    ensures
        byte_put(m, t, a, b) matches Some(w) ==> only_memory(w, m),
{
    reveal(byte_put);
}

proof fn lemma_stored(m: BusModel, t: Target, addr: u32, width: int, v: u64, i: int)
    ensures
        only_memory(stored(m, t, addr, width, v, i).m, m),
    decreases width - i,
{
    if i < width {
        let b = (v as int / place(i) % 256) as u8;
        lemma_byte_put(m, t, ahead(addr, i), b);
        if let Some(w) = byte_put(m, t, ahead(addr, i), b) {
            lemma_stored(w, t, addr, width, v, i + 1);
        }
    }
}

proof fn lemma_stored_all(m: BusModel, t: Target, addr: u32, data: Seq<u8>, i: int)
    ensures
        only_memory(stored_all(m, t, addr, data, i).m, m),
    decreases data.len() - i,
{
    if i < data.len() {
        lemma_byte_put(m, t, ahead(addr, i), data[i]);
        if let Some(w) = byte_put(m, t, ahead(addr, i), data[i]) {
            lemma_stored_all(w, t, addr, data, i + 1);
        }
    }
}

proof fn lemma_strided(m: BusModel, t: Target, addr: u32, count: int, stride: u32, value: u32, step: u32)
    ensures
        only_memory(strided(m, t, addr, count, stride, value, step).m, m),
    decreases count,
{
    if count > 0 {
        lemma_stored(m, t, addr, 4, value as u64, 0);
        let r = stored(m, t, addr, 4, value as u64, 0);
        if r.refused is None {
            lemma_strided(r.m, t, ahead(addr, 4 * stride), count - 1, stride, ahead(value, step as int), step);
        }
    }
}

proof fn lemma_copied(m: BusModel, t: Target, src: u32, dst: u32, len: int, i: int)
    ensures
        only_memory(copied(m, t, src, dst, len, i).m, m),
    decreases len - i,
{
    if i < len {
        if let Some(b) = byte_of(m, t, ahead(src, i)) {
            lemma_byte_put(m, t, ahead(dst, i), b);
            if let Some(w) = byte_put(m, t, ahead(dst, i), b) {
                lemma_copied(w, t, src, dst, len, i + 1);
            }
        }
    }
}

/// A command changes RAM (scratchpads included) and nothing else: no register, no device and no ROM
/// sees it, whatever its address.
pub proof fn law_commands_touch_memory_only(m: BusModel, t: Target, op: OpModel)
    ensures
        only_memory(ran(m, t, op).0, m),
{
    reveal(ran);
    match op {
        OpModel::Write { addr, data } => lemma_stored_all(m, t, addr, data, 0),
        OpModel::Multi { addr, count, stride, value, step } => lemma_strided(m, t, addr, count as int, stride, value, step),
        OpModel::Copy { src, dst, len } => lemma_copied(m, t, src, dst, len as int, 0),
        _ => {
            assert forall|addr: u32, width: int, v: u64| only_memory(#[trigger] stored(m, t, addr, width, v, 0).m, m) by {
                lemma_stored(m, t, addr, width, v, 0);
            }
        },
    }
}

/// A whole table, too.
pub proof fn law_tables_touch_memory_only(m: BusModel, cheats: Seq<CheatModel>, on: Seq<bool>, done: Seq<bool>, i: int)
    ensures
        only_memory(applied(m, cheats, on, done, i).0, m),
    decreases cheats.len() - i,
{
    if 0 <= i < cheats.len() {
        if done[i] || !on[i] {
            law_tables_touch_memory_only(m, cheats, on, done, i + 1);
        } else {
            law_commands_touch_memory_only(m, cheats[i].target, cheats[i].op);
            let (w, r) = ran(m, cheats[i].target, cheats[i].op);
            match r {
                Ok(skip) => law_tables_touch_memory_only(
                    w,
                    cheats,
                    on,
                    if cheats[i].once {
                        done.update(i, true)
                    } else {
                        done
                    },
                    jump(i, skip, cheats.len() as int),
                ),
                Err(_) => law_tables_touch_memory_only(w, cheats, on, done.update(i, true), i + 1),
            }
        }
    }
}

} // verus!
