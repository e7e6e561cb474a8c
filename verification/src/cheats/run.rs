//! Running commands on the machine's memory. Writes go through the
//! debugger's `poke8` paths, which tell the recompiler about pages it holds
//! translated code for; writing RAM directly would leave stale blocks
//! running.

use vstd::prelude::*;
use crate::bus::memory::MemModel;
use crate::bus::regs::BusModel;
use crate::bus::Bus;
use super::{op_ok, Bitwise, Compare, Op, OpModel, Target};

verus! {

/// `a + i` around the 32-bit address space.
pub open spec fn ahead(a: u32, i: int) -> u32 {
    ((a + i) % 0x1_0000_0000) as u32
}

/// One byte of a CPU's memory.
#[verifier::opaque]
pub open spec fn byte_of(m: BusModel, t: Target, a: u32) -> Option<u8> {
    match t {
        Target::Ee => m.peeked(m.phys(a)),
        Target::Iop => m.mem.iop_peeked(a),
    }
}

/// After a byte of a CPU's memory was written, or `None` where it is not
/// RAM.
#[verifier::opaque]
pub open spec fn byte_put(m: BusModel, t: Target, a: u32, b: u8) -> Option<BusModel> {
    match t {
        Target::Ee => if BusModel::pokes(m.phys(a)) {
            Some(m.poked(m.phys(a), b))
        } else {
            None
        },
        Target::Iop => if MemModel::iop_pokes(a) {
            Some(BusModel { mem: m.mem.iop_poked(a, b), ..m })
        } else {
            None
        },
    }
}

/// Place value of byte `i` of a little-endian value.
pub open spec fn place(i: int) -> int {
    if i <= 0 {
        1
    } else if i == 1 {
        0x100
    } else if i == 2 {
        0x1_0000
    } else if i == 3 {
        0x100_0000
    } else if i == 4 {
        0x1_0000_0000
    } else if i == 5 {
        0x100_0000_0000
    } else if i == 6 {
        0x1_0000_0000_0000
    } else {
        0x100_0000_0000_0000
    }
}

fn place_of(i: u8) -> (p: u64)
    ensures
        p == place(i as int),
        p > 0,
{
    match i {
        0 => 1,
        1 => 0x100,
        2 => 0x1_0000,
        3 => 0x100_0000,
        4 => 0x1_0000_0000,
        5 => 0x100_0000_0000,
        6 => 0x1_0000_0000_0000,
        _ => 0x100_0000_0000_0000,
    }
}

/// The `width`-byte value at `addr`: `v` is what its bytes below `i` make.
/// Fails with the first address that is not RAM.
pub open spec fn loaded(m: BusModel, t: Target, addr: u32, width: int, i: int, v: int) -> Result<int, u32>
    decreases width - i,
{
    if i >= width {
        Ok(v)
    } else {
        match byte_of(m, t, ahead(addr, i)) {
            Some(b) => loaded(m, t, addr, width, i + 1, v + place(i) * b),
            None => Err(ahead(addr, i)),
        }
    }
}

/// The memory after a command, and the address that was not RAM, if any:
/// what was written before it stays.
pub struct Ran {
    pub m: BusModel,
    pub refused: Option<u32>,
}

/// Bytes `i..width` of `v` stored at `addr`.
pub open spec fn stored(m: BusModel, t: Target, addr: u32, width: int, v: u64, i: int) -> Ran
    decreases width - i,
{
    if i >= width {
        Ran { m, refused: None }
    } else {
        match byte_put(m, t, ahead(addr, i), (v as int / place(i) % 256) as u8) {
            Some(w) => stored(w, t, addr, width, v, i + 1),
            None => Ran { m, refused: Some(ahead(addr, i)) },
        }
    }
}

/// `data` from byte `i` on stored at `addr`.
pub open spec fn stored_all(m: BusModel, t: Target, addr: u32, data: Seq<u8>, i: int) -> Ran
    decreases data.len() - i,
{
    if i >= data.len() {
        Ran { m, refused: None }
    } else {
        match byte_put(m, t, ahead(addr, i), data[i]) {
            Some(w) => stored_all(w, t, addr, data, i + 1),
            None => Ran { m, refused: Some(ahead(addr, i)) },
        }
    }
}

/// `count` 32-bit writes, `stride` words apart, the value growing by `step`.
pub open spec fn strided(m: BusModel, t: Target, addr: u32, count: int, stride: u32, value: u32, step: u32) -> Ran
    decreases count,
{
    if count <= 0 {
        Ran { m, refused: None }
    } else {
        let r = stored(m, t, addr, 4, value as u64, 0);
        if r.refused is Some {
            r
        } else {
            strided(r.m, t, ahead(addr, 4 * stride), count - 1, stride, ahead(value, step as int), step)
        }
    }
}

/// Bytes `i..len` copied from `src` to `dst`, one after the other.
pub open spec fn copied(m: BusModel, t: Target, src: u32, dst: u32, len: int, i: int) -> Ran
    decreases len - i,
{
    if i >= len {
        Ran { m, refused: None }
    } else {
        match byte_of(m, t, ahead(src, i)) {
            Some(b) => match byte_put(m, t, ahead(dst, i), b) {
                Some(w) => copied(w, t, src, dst, len, i + 1),
                None => Ran { m, refused: Some(ahead(dst, i)) },
            },
            None => Ran { m, refused: Some(ahead(src, i)) },
        }
    }
}

/// A pointer followed through `hops` from hop `i` on.
pub open spec fn chased(m: BusModel, t: Target, p: u32, hops: Seq<u32>, i: int) -> Result<u32, u32>
    decreases hops.len() - i,
{
    if i >= hops.len() {
        Ok(p)
    } else {
        match loaded(m, t, ahead(p, hops[i] as int), 4, 0, 0) {
            Ok(q) => chased(m, t, q as u32, hops, i + 1),
            Err(a) => Err(a),
        }
    }
}

pub open spec fn combined(op: Bitwise, v: u64, x: u64) -> u64 {
    match op {
        Bitwise::Or => v | x,
        Bitwise::And => v & x,
        Bitwise::Xor => v ^ x,
    }
}

pub open spec fn holds(how: Compare, v: u64, x: u64) -> bool {
    match how {
        Compare::Equal => v == x,
        Compare::NotEqual => v != x,
        Compare::Less => v < x,
        Compare::Greater => v > x,
        Compare::Nand => v & x != x,
        Compare::And => v & x == x,
        Compare::Nor => v & x == 0,
        Compare::Or => v & x != 0,
    }
}

pub open spec fn ran_add(m: BusModel, t: Target, addr: u32, width: u8, amount: i64) -> Ran {
    match loaded(m, t, addr, width as int, 0, 0) {
        Ok(v) => stored(m, t, addr, width as int, ((v + amount) % 0x1_0000_0000_0000_0000) as u64, 0),
        Err(a) => Ran { m, refused: Some(a) },
    }
}

pub open spec fn ran_pointer(
    m: BusModel,
    t: Target,
    addr: u32,
    hops: Seq<u32>,
    offset: u32,
    width: u8,
    value: u32,
) -> Ran {
    match loaded(m, t, addr, 4, 0, 0) {
        Ok(p) => match chased(m, t, p as u32, hops, 0) {
            Ok(q) => stored(m, t, ahead(q, offset as int), width as int, value as u64, 0),
            Err(a) => Ran { m, refused: Some(a) },
        },
        Err(a) => Ran { m, refused: Some(a) },
    }
}

pub open spec fn ran_bitwise(m: BusModel, t: Target, addr: u32, width: u8, op: Bitwise, value: u32) -> Ran {
    match loaded(m, t, addr, width as int, 0, 0) {
        Ok(v) => stored(m, t, addr, width as int, combined(op, v as u64, value as u64), 0),
        Err(a) => Ran { m, refused: Some(a) },
    }
}

/// How many commands a conditional skips.
pub open spec fn ran_cond(
    m: BusModel,
    t: Target,
    addr: u32,
    width: u8,
    how: Compare,
    value: u32,
    skip: usize,
) -> Result<usize, u32> {
    match loaded(m, t, addr, width as int, 0, 0) {
        Ok(v) => Ok(
            if holds(how, v as u64, value as u64) {
                0
            } else {
                skip
            },
        ),
        Err(a) => Err(a),
    }
}

pub open spec fn ran_write(m: BusModel, t: Target, addr: u32, data: Seq<u8>) -> Ran {
    stored_all(m, t, addr, data, 0)
}

pub open spec fn ran_multi(m: BusModel, t: Target, addr: u32, count: u32, stride: u32, value: u32, step: u32) -> Ran {
    strided(m, t, addr, count as int, stride, value, step)
}

pub open spec fn ran_copy(m: BusModel, t: Target, src: u32, dst: u32, len: u32) -> Ran {
    copied(m, t, src, dst, len as int, 0)
}

pub open spec fn skipping(r: Ran) -> (BusModel, Result<usize, u32>) {
    (
        r.m,
        match r.refused {
            Some(a) => Err(a),
            None => Ok(0),
        },
    )
}

/// A command executed: the memory after it, and how many commands to skip
/// or the address that was not RAM.
#[verifier::opaque]
pub open spec fn ran(m: BusModel, t: Target, op: OpModel) -> (BusModel, Result<usize, u32>) {
    match op {
        OpModel::Write { addr, data } => skipping(ran_write(m, t, addr, data)),
        OpModel::Add { addr, width, amount } => skipping(ran_add(m, t, addr, width, amount)),
        OpModel::Multi { addr, count, stride, value, step } => skipping(
            ran_multi(m, t, addr, count, stride, value, step),
        ),
        OpModel::Copy { src, dst, len } => skipping(ran_copy(m, t, src, dst, len)),
        OpModel::Pointer { addr, hops, offset, width, value } => skipping(
            ran_pointer(m, t, addr, hops, offset, width, value),
        ),
        OpModel::Bitwise { addr, width, op, value } => skipping(ran_bitwise(m, t, addr, width, op, value)),
        OpModel::Cond { addr, width, cmp, value, skip } => (m, ran_cond(m, t, addr, width, cmp, value, skip)),
    }
}

fn step_ahead(a: u32, i: u32) -> (r: u32)
    ensures
        r == ahead(a, i as int),
{
    a.wrapping_add(i)
}

fn words_ahead(a: u32, stride: u32) -> (r: u32)
    ensures
        r == ahead(a, 4 * stride),
{
    ((a as u64 + 4 * stride as u64) % 0x1_0000_0000) as u32
}

fn peek(bus: &mut Bus, t: Target, a: u32) -> (r: Option<u8>)
    requires
        old(bus).wf(),
    ensures
        final(bus).wf(),
        final(bus).model() == old(bus).model(),
        r == byte_of(old(bus).model(), t, a),
{
    proof {
        reveal(byte_of);
    }
    match t {
        Target::Ee => bus.peek8(a),
        Target::Iop => bus.iop_peek8(a),
    }
}

fn poke(bus: &mut Bus, t: Target, a: u32, b: u8) -> (ok: bool)
    requires
        old(bus).wf(),
    ensures
        final(bus).wf(),
        match byte_put(old(bus).model(), t, a, b) {
            Some(w) => ok && final(bus).model() == w,
            None => !ok && final(bus).model() == old(bus).model(),
        },
{
    proof {
        reveal(byte_put);
    }
    match t {
        Target::Ee => bus.poke8(a, b),
        Target::Iop => bus.iop_poke8(a, b),
    }
}

fn load(bus: &mut Bus, t: Target, addr: u32, width: u8) -> (r: Result<u64, u32>)
    requires
        old(bus).wf(),
        width <= 8,
    ensures
        final(bus).wf(),
        final(bus).model() == old(bus).model(),
        match loaded(old(bus).model(), t, addr, width as int, 0, 0) {
            Ok(v) => r matches Ok(w) && w == v,
            Err(a) => r == Err::<u64, u32>(a),
        },
        r matches Ok(w) ==> width <= 4 ==> w <= 0xFFFF_FFFF,
{
    let ghost m = bus.model();
    let mut v: u64 = 0;
    let mut i: u8 = 0;
    while i < width
        invariant
            i <= width <= 8,
            bus.wf(),
            bus.model() == m,
            m == old(bus).model(),
            i < 8 ==> v < place(i as int),
            i <= 4 ==> v < 0x1_0000_0000,
            width <= 4 ==> v < 0x1_0000_0000,
            loaded(m, t, addr, width as int, 0, 0) == loaded(m, t, addr, width as int, i as int, v as int),
        decreases width - i,
    {
        let a: u32 = step_ahead(addr, i as u32);
        match peek(bus, t, a) {
            Some(b) => {
                let p: u64 = place_of(i);
                assert(p * (b as u64) <= p * 255) by (nonlinear_arith)
                    requires
                        0 <= b <= 255,
                ;
                v = v + p * (b as u64);
                i = i + 1;
            },
            None => {
                return Err(a);
            },
        }
    }
    Ok(v)
}

fn store(bus: &mut Bus, t: Target, addr: u32, width: u8, v: u64) -> (r: Result<(), u32>)
    requires
        old(bus).wf(),
        width <= 8,
    ensures
        final(bus).wf(),
        ({
            let s = stored(old(bus).model(), t, addr, width as int, v, 0);
            &&& final(bus).model() == s.m
            &&& r == (match s.refused {
                Some(a) => Err::<(), u32>(a),
                None => Ok(()),
            })
        }),
{
    let ghost m = bus.model();
    let mut i: u8 = 0;
    while i < width
        invariant
            i <= width <= 8,
            bus.wf(),
            m == old(bus).model(),
            stored(m, t, addr, width as int, v, 0) == stored(bus.model(), t, addr, width as int, v, i as int),
        decreases width - i,
    {
        let a: u32 = step_ahead(addr, i as u32);
        if !poke(bus, t, a, (v / place_of(i) % 256) as u8) {
            return Err(a);
        }
        i = i + 1;
    }
    Ok(())
}

fn run_write(bus: &mut Bus, t: Target, addr: u32, data: &Vec<u8>) -> (r: Result<(), u32>)
    requires
        old(bus).wf(),
    ensures
        final(bus).wf(),
        ({
            let s = ran_write(old(bus).model(), t, addr, data@);
            &&& final(bus).model() == s.m
            &&& r == (match s.refused {
                Some(a) => Err::<(), u32>(a),
                None => Ok(()),
            })
        }),
{
    let ghost m = bus.model();
    let n: usize = data.len();
    let mut a: u32 = addr;
    for i in 0..n
        invariant
            n == data@.len(),
            bus.wf(),
            m == old(bus).model(),
            a == ahead(addr, i as int),
            stored_all(m, t, addr, data@, 0) == stored_all(bus.model(), t, addr, data@, i as int),
    {
        if !poke(bus, t, a, data[i]) {
            return Err(a);
        }
        a = a.wrapping_add(1);
    }
    Ok(())
}

fn run_add(bus: &mut Bus, t: Target, addr: u32, width: u8, amount: i64) -> (r: Result<(), u32>)
    requires
        old(bus).wf(),
        width <= 8,
    ensures
        final(bus).wf(),
        ({
            let s = ran_add(old(bus).model(), t, addr, width, amount);
            &&& final(bus).model() == s.m
            &&& r == (match s.refused {
                Some(a) => Err::<(), u32>(a),
                None => Ok(()),
            })
        }),
{
    match load(bus, t, addr, width) {
        Ok(v) => {
            let sum: u64 = if amount >= 0 {
                v.wrapping_add(amount as u64)
            } else {
                v.wrapping_sub((-(amount + 1)) as u64 + 1)
            };
            store(bus, t, addr, width, sum)
        },
        Err(a) => Err(a),
    }
}

fn run_multi(bus: &mut Bus, t: Target, addr: u32, count: u32, stride: u32, value: u32, step: u32) -> (r: Result<
    (),
    u32,
>)
    requires
        old(bus).wf(),
    ensures
        final(bus).wf(),
        ({
            let s = ran_multi(old(bus).model(), t, addr, count, stride, value, step);
            &&& final(bus).model() == s.m
            &&& r == (match s.refused {
                Some(a) => Err::<(), u32>(a),
                None => Ok(()),
            })
        }),
{
    let ghost m = bus.model();
    let mut a: u32 = addr;
    let mut v: u32 = value;
    for i in 0..count
        invariant
            bus.wf(),
            m == old(bus).model(),
            strided(m, t, addr, count as int, stride, value, step) == strided(bus.model(), t, a, count - i, stride, v, step),
    {
        if let Err(e) = store(bus, t, a, 4, v as u64) {
            return Err(e);
        }
        a = words_ahead(a, stride);
        v = step_ahead(v, step);
    }
    Ok(())
}

fn run_copy(bus: &mut Bus, t: Target, src: u32, dst: u32, len: u32) -> (r: Result<(), u32>)
    requires
        old(bus).wf(),
    ensures
        final(bus).wf(),
        ({
            let s = ran_copy(old(bus).model(), t, src, dst, len);
            &&& final(bus).model() == s.m
            &&& r == (match s.refused {
                Some(a) => Err::<(), u32>(a),
                None => Ok(()),
            })
        }),
{
    let ghost m = bus.model();
    for i in 0..len
        invariant
            bus.wf(),
            m == old(bus).model(),
            copied(m, t, src, dst, len as int, 0) == copied(bus.model(), t, src, dst, len as int, i as int),
    {
        let from: u32 = step_ahead(src, i);
        let to: u32 = step_ahead(dst, i);
        match peek(bus, t, from) {
            Some(b) => {
                if !poke(bus, t, to, b) {
                    return Err(to);
                }
            },
            None => {
                return Err(from);
            },
        }
    }
    Ok(())
}

fn run_pointer(bus: &mut Bus, t: Target, addr: u32, hops: &Vec<u32>, offset: u32, width: u8, value: u32) -> (r: Result<
    (),
    u32,
>)
    requires
        old(bus).wf(),
        width <= 8,
    ensures
        final(bus).wf(),
        ({
            let s = ran_pointer(old(bus).model(), t, addr, hops@, offset, width, value);
            &&& final(bus).model() == s.m
            &&& r == (match s.refused {
                Some(a) => Err::<(), u32>(a),
                None => Ok(()),
            })
        }),
{
    let ghost m = bus.model();
    let first: u32 = match load(bus, t, addr, 4) {
        Ok(p) => p as u32,
        Err(a) => {
            return Err(a);
        },
    };
    let mut p: u32 = first;
    let n: usize = hops.len();
    for i in 0..n
        invariant
            n == hops@.len(),
            bus.wf(),
            bus.model() == m,
            m == old(bus).model(),
            loaded(m, t, addr, 4, 0, 0) matches Ok(q) && q == first,
            chased(m, t, first, hops@, 0) == chased(m, t, p, hops@, i as int),
    {
        match load(bus, t, step_ahead(p, hops[i]), 4) {
            Ok(q) => {
                p = q as u32;
            },
            Err(a) => {
                return Err(a);
            },
        }
    }
    store(bus, t, step_ahead(p, offset), width, value as u64)
}

fn run_bitwise(bus: &mut Bus, t: Target, addr: u32, width: u8, op: Bitwise, value: u32) -> (r: Result<(), u32>)
    requires
        old(bus).wf(),
        width <= 8,
    ensures
        final(bus).wf(),
        ({
            let s = ran_bitwise(old(bus).model(), t, addr, width, op, value);
            &&& final(bus).model() == s.m
            &&& r == (match s.refused {
                Some(a) => Err::<(), u32>(a),
                None => Ok(()),
            })
        }),
{
    match load(bus, t, addr, width) {
        Ok(v) => {
            let x: u64 = value as u64;
            let w: u64 = match op {
                Bitwise::Or => v | x,
                Bitwise::And => v & x,
                Bitwise::Xor => v ^ x,
            };
            store(bus, t, addr, width, w)
        },
        Err(a) => Err(a),
    }
}

fn run_cond(bus: &mut Bus, t: Target, addr: u32, width: u8, how: Compare, value: u32, skip: usize) -> (r: Result<
    usize,
    u32,
>)
    requires
        old(bus).wf(),
        width <= 8,
    ensures
        final(bus).wf(),
        final(bus).model() == old(bus).model(),
        r == ran_cond(old(bus).model(), t, addr, width, how, value, skip),
{
    match load(bus, t, addr, width) {
        Ok(v) => {
            let x: u64 = value as u64;
            let met = match how {
                Compare::Equal => v == x,
                Compare::NotEqual => v != x,
                Compare::Less => v < x,
                Compare::Greater => v > x,
                Compare::Nand => v & x != x,
                Compare::And => v & x == x,
                Compare::Nor => v & x == 0,
                Compare::Or => v & x != 0,
            };
            Ok(if met { 0 } else { skip })
        },
        Err(a) => Err(a),
    }
}

fn no_skip(r: Result<(), u32>) -> (s: Result<usize, u32>)
    ensures
        s == (match r {
            Ok(()) => Ok::<usize, u32>(0),
            Err(a) => Err(a),
        }),
{
    match r {
        Ok(()) => Ok(0),
        Err(a) => Err(a),
    }
}

/// Execute one command; the result is how many commands to skip.
#[verifier::rlimit(60)]
#[verifier::spinoff_prover]
pub fn run(bus: &mut Bus, t: Target, op: &Op) -> (r: Result<usize, u32>)
    requires
        old(bus).wf(),
        op_ok(op@),
    ensures
        final(bus).wf(),
        final(bus).model() == ran(old(bus).model(), t, op@).0,
        r == ran(old(bus).model(), t, op@).1,
{
    proof {
        reveal(ran);
    }
    match op {
        Op::Write { addr, data } => no_skip(run_write(bus, t, *addr, data)),
        Op::Add { addr, width, amount } => no_skip(run_add(bus, t, *addr, *width, *amount)),
        Op::Multi { addr, count, stride, value, step } => no_skip(
            run_multi(bus, t, *addr, *count, *stride, *value, *step),
        ),
        Op::Copy { src, dst, len } => no_skip(run_copy(bus, t, *src, *dst, *len)),
        Op::Pointer { addr, hops, offset, width, value } => no_skip(
            run_pointer(bus, t, *addr, hops, *offset, *width, *value),
        ),
        Op::Bitwise { addr, width, op, value } => no_skip(run_bitwise(bus, t, *addr, *width, *op, *value)),
        Op::Cond { addr, width, cmp, value, skip } => run_cond(bus, t, *addr, *width, *cmp, *value, *skip),
    }
}

} // verus!
