//! What commands do: which value they see, and what they leave in memory.

use vstd::prelude::*;
use crate::bits::lemma_common_bits;
use crate::bus::memory::RAM_SIZE;
use crate::bus::regs::BusModel;
use super::run::{
    ahead, byte_of, byte_put, combined, copied, holds, loaded, place, ran, ran_add, ran_bitwise, ran_cond, ran_pointer, skipping,
    stored, stored_all, strided,
};
use super::{Bitwise, Compare, OpModel, Target};

verus! {

/// The byte `i` places after `addr`, around the address space.
pub open spec fn byte_after(m: BusModel, t: Target, addr: u32, i: int) -> Option<u8> {
    byte_of(m, t, ((addr + i) % 0x1_0000_0000) as u32)
}

/// The `width` bytes from `addr` on can be read.
pub open spec fn readable(m: BusModel, t: Target, addr: u32, width: int) -> bool {
    forall|i: int| 0 <= i < width ==> (#[trigger] byte_after(m, t, addr, i)) is Some
}

/// A byte, lowest first.
pub open spec fn nth(m: BusModel, t: Target, addr: u32, i: int) -> int {
    byte_after(m, t, addr, i)->Some_0 as int
}

/// A byte, a halfword or a word from `addr` on, lowest byte first.
pub open spec fn little_endian(m: BusModel, t: Target, addr: u32, width: int) -> int {
    if width == 1 {
        nth(m, t, addr, 0)
    } else if width == 2 {
        nth(m, t, addr, 0) + 256 * nth(m, t, addr, 1)
    } else {
        nth(m, t, addr, 0) + 256 * (nth(m, t, addr, 1) + 256 * (nth(m, t, addr, 2) + 256 * nth(m, t, addr, 3)))
    }
}

proof fn lemma_load_step(m: BusModel, t: Target, addr: u32, width: int, i: int, v: int)
    requires
        0 <= i < width,
        i < 4,
        readable(m, t, addr, width),
    ensures
        loaded(m, t, addr, width, i, v) == loaded(m, t, addr, width, i + 1, v + place(i) * nth(m, t, addr, i)),
        0 <= nth(m, t, addr, i) < 256,
        i == 0 ==> place(i) == 1,
        i == 1 ==> place(i) == 0x100,
        i == 2 ==> place(i) == 0x1_0000,
        i == 3 ==> place(i) == 0x100_0000,
{
    assert(byte_after(m, t, addr, i) is Some);
}

proof fn lemma_load_end(m: BusModel, t: Target, addr: u32, width: int, v: int)
    ensures
        loaded(m, t, addr, width, width, v) == Ok::<int, u32>(v),
{
}

proof fn lemma_loaded(m: BusModel, t: Target, addr: u32, width: int)
    requires
        width == 1 || width == 2 || width == 4,
        readable(m, t, addr, width),
    ensures
        loaded(m, t, addr, width, 0, 0) == Ok::<int, u32>(little_endian(m, t, addr, width)),
        0 <= little_endian(m, t, addr, width) < 0x1_0000_0000,
{
    let b = |i: int| nth(m, t, addr, i);
    lemma_load_step(m, t, addr, width, 0, 0);
    if width == 1 {
        lemma_load_end(m, t, addr, width, b(0));
    } else {
        lemma_load_step(m, t, addr, width, 1, b(0));
        if width == 2 {
            lemma_load_end(m, t, addr, width, b(0) + 0x100 * b(1));
        } else {
            lemma_load_step(m, t, addr, width, 2, b(0) + 0x100 * b(1));
            lemma_load_step(m, t, addr, width, 3, b(0) + 0x100 * b(1) + 0x1_0000 * b(2));
            lemma_load_end(m, t, addr, width, b(0) + 0x100 * b(1) + 0x1_0000 * b(2) + 0x100_0000 * b(3));
        }
    }
}

/// What each command runs as.
proof fn lemma_ran(m: BusModel, t: Target, op: OpModel)
    ensures
        op matches OpModel::Write { addr, data } ==> ran(m, t, op) == skipping(stored_all(m, t, addr, data, 0)),
        op matches OpModel::Add { addr, width, amount } ==> ran(m, t, op) == skipping(ran_add(m, t, addr, width, amount)),
        op matches OpModel::Multi { addr, count, stride, value, step } ==> ran(m, t, op) == skipping(
            strided(m, t, addr, count as int, stride, value, step),
        ),
        op matches OpModel::Copy { src, dst, len } ==> ran(m, t, op) == skipping(copied(m, t, src, dst, len as int, 0)),
        op matches OpModel::Pointer { addr, hops, offset, width, value } ==> ran(m, t, op) == skipping(
            ran_pointer(m, t, addr, hops, offset, width, value),
        ),
        op matches OpModel::Bitwise { addr, width, op: o, value } ==> ran(m, t, op) == skipping(
            ran_bitwise(m, t, addr, width, o, value),
        ),
{
    reveal(ran);
}

/// A conditional lets the next command run (skips none).
pub open spec fn lets_run(m: BusModel, t: Target, addr: u32, width: u8, how: Compare, value: u32, skip: usize) -> bool {
    ran(m, t, OpModel::Cond { addr, width, cmp: how, value, skip }).1 == Ok::<usize, u32>(0)
}

/// A conditional skips its commands.
pub open spec fn skips(m: BusModel, t: Target, addr: u32, width: u8, how: Compare, value: u32, skip: usize) -> bool {
    ran(m, t, OpModel::Cond { addr, width, cmp: how, value, skip }).1 == Ok::<usize, u32>(skip)
}

proof fn lemma_ran_condition(m: BusModel, t: Target, addr: u32, width: u8, how: Compare, value: u32, skip: usize)
    ensures
        ran(m, t, OpModel::Cond { addr, width, cmp: how, value, skip }).1 == ran_cond(m, t, addr, width, how, value, skip),
{
    reveal(ran);
}

proof fn lemma_condition(m: BusModel, t: Target, addr: u32, width: u8, how: Compare, value: u32, skip: usize)
    requires
        width == 1 || width == 2 || width == 4,
        readable(m, t, addr, width as int),
        skip > 0,
    ensures
        lets_run(m, t, addr, width, how, value, skip) == holds(
            how,
            little_endian(m, t, addr, width as int) as u64,
            value as u64,
        ),
        skips(m, t, addr, width, how, value, skip) == !lets_run(m, t, addr, width, how, value, skip),
{
    lemma_ran_condition(m, t, addr, width, how, value, skip);
    lemma_loaded(m, t, addr, width as int);
}

/// A conditional on memory that can be read either lets the next command run
/// or skips, never both. EQUAL runs it exactly on the value that lies there,
/// lowest byte first, and NOT EQUAL exactly on every other; LESS and GREATER
/// share those out by the number's size.
pub proof fn law_conditions_compare(m: BusModel, t: Target, addr: u32, width: u8, value: u32, skip: usize)
    requires
        width == 1 || width == 2 || width == 4,
        readable(m, t, addr, width as int),
        skip > 0,
    ensures
        ({
            let runs = |how: Compare| lets_run(m, t, addr, width, how, value, skip);
            let passes_over = |how: Compare| skips(m, t, addr, width, how, value, skip);
            let v = little_endian(m, t, addr, width as int);
            &&& runs(Compare::Equal) <==> !passes_over(Compare::Equal)
            &&& runs(Compare::NotEqual) <==> !passes_over(Compare::NotEqual)
            &&& runs(Compare::Less) <==> !passes_over(Compare::Less)
            &&& runs(Compare::Greater) <==> !passes_over(Compare::Greater)
            &&& runs(Compare::Equal) <==> v == value
            &&& runs(Compare::NotEqual) <==> v != value
            &&& runs(Compare::Less) <==> v < value
            &&& runs(Compare::Greater) <==> value < v
            &&& runs(Compare::Equal) <==> passes_over(Compare::NotEqual)
            &&& runs(Compare::NotEqual) <==> passes_over(Compare::Equal)
        }),
{
    lemma_loaded(m, t, addr, width as int);
    lemma_condition(m, t, addr, width, Compare::Equal, value, skip);
    lemma_condition(m, t, addr, width, Compare::NotEqual, value, skip);
    lemma_condition(m, t, addr, width, Compare::Less, value, skip);
    lemma_condition(m, t, addr, width, Compare::Greater, value, skip);
}

/// Of the bitwise conditions, AND asks for every bit of the operand and NAND
/// for one that is missing; OR asks for any of them and NOR for none. A bit
/// that the operand does not hold decides nothing.
pub proof fn law_conditions_on_bits(m: BusModel, t: Target, addr: u32, width: u8, value: u32, skip: usize, k: u64)
    requires
        width == 1 || width == 2 || width == 4,
        readable(m, t, addr, width as int),
        skip > 0,
        k < 32,
    ensures
        ({
            let runs = |how: Compare| lets_run(m, t, addr, width, how, value, skip);
            let v = little_endian(m, t, addr, width as int) as u64;
            let here = (v >> k) & 1 == 1;
            let asked = ((value as u64) >> k) & 1 == 1;
            let alone = value as u64 == 1u64 << k;
            &&& runs(Compare::And) <==> !runs(Compare::Nand)
            &&& runs(Compare::Or) <==> !runs(Compare::Nor)
            &&& asked && here ==> runs(Compare::Or)
            &&& asked && !here ==> runs(Compare::Nand)
            &&& alone && !here ==> runs(Compare::Nor)
            &&& alone && here ==> runs(Compare::And)
            &&& v == value ==> runs(Compare::And)
            &&& value == 0 ==> runs(Compare::And) && runs(Compare::Nor)
        }),
{
    lemma_loaded(m, t, addr, width as int);
    lemma_condition(m, t, addr, width, Compare::And, value, skip);
    lemma_condition(m, t, addr, width, Compare::Nand, value, skip);
    lemma_condition(m, t, addr, width, Compare::Or, value, skip);
    lemma_condition(m, t, addr, width, Compare::Nor, value, skip);
    let v = little_endian(m, t, addr, width as int) as u64;
    lemma_common_bits(v, value as u64, k);
    lemma_common_bits(v, 0, k);
}

// --- what is left in memory ------------------------------------------------------------

/// The `n` bytes from `addr` on lie in main RAM, one after the other from
/// `base` on.
pub open spec fn in_ram(m: BusModel, addr: u32, base: int, n: int) -> bool {
    &&& 0 <= base
    &&& base + n <= RAM_SIZE
    &&& m.mem.ram.len() == RAM_SIZE
    &&& forall|i: int| 0 <= i < n ==> #[trigger] m.phys(((addr + i) % 0x1_0000_0000) as u32) == base + i
}

/// `after` is `before` but for `n` bytes of main RAM from `base` on.
pub open spec fn changed_only(after: BusModel, before: BusModel, base: int, n: int) -> bool {
    &&& after.mem.ram.len() == before.mem.ram.len()
    &&& after.tlb == before.tlb
    &&& forall|j: int|
        0 <= j < before.mem.ram.len() && !(base <= j < base + n) ==> after.mem.ram[j] == #[trigger] before.mem.ram[j]
}

proof fn lemma_put_in_ram(m: BusModel, addr: u32, base: int, n: int, i: int, b: u8)
    requires
        in_ram(m, addr, base, n),
        0 <= i < n,
    ensures
        byte_put(m, Target::Ee, ahead(addr, i), b) is Some,
        ({
            let w = byte_put(m, Target::Ee, ahead(addr, i), b)->Some_0;
            &&& w.mem.ram == m.mem.ram.update(base + i, b)
            &&& w.tlb == m.tlb
            &&& in_ram(w, addr, base, n)
        }),
        byte_after(m, Target::Ee, addr, i) == Some(m.mem.ram[base + i]),
{
    reveal(byte_put);
    reveal(byte_of);
    assert(m.phys(((addr + i) % 0x1_0000_0000) as u32) == base + i);
    let w = byte_put(m, Target::Ee, ahead(addr, i), b)->Some_0;
    assert forall|j: int| 0 <= j < n implies #[trigger] w.phys(((addr + j) % 0x1_0000_0000) as u32) == base + j by {
        assert(m.phys(((addr + j) % 0x1_0000_0000) as u32) == base + j);
    }
}

proof fn lemma_read_in_ram(m: BusModel, addr: u32, base: int, n: int, i: int)
    requires
        in_ram(m, addr, base, n),
        0 <= i < n,
    ensures
        byte_after(m, Target::Ee, addr, i) == Some(m.mem.ram[base + i]),
{
    reveal(byte_of);
    assert(m.phys(((addr + i) % 0x1_0000_0000) as u32) == base + i);
}

proof fn lemma_stored_in_ram(m: BusModel, addr: u32, base: int, width: int, v: u64, i: int)
    requires
        in_ram(m, addr, base, width),
        0 <= i <= width,
    ensures
        ({
            let r = stored(m, Target::Ee, addr, width, v, i);
            &&& r.refused is None
            &&& changed_only(r.m, m, base + i, width - i)
            &&& forall|j: int| i <= j < width ==> #[trigger] r.m.mem.ram[base + j] == v as int / place(j) % 256
        }),
    decreases width - i,
{
    if i < width {
        let b = (v as int / place(i) % 256) as u8;
        lemma_put_in_ram(m, addr, base, width, i, b);
        let w = byte_put(m, Target::Ee, ahead(addr, i), b)->Some_0;
        lemma_stored_in_ram(w, addr, base, width, v, i + 1);
        let r = stored(m, Target::Ee, addr, width, v, i);
        assert(w.mem.ram[base + i] == b);
        assert(r.m.mem.ram[base + i] == b);
        assert forall|j: int| 0 <= j < m.mem.ram.len() && !(base + i <= j < base + width) implies r.m.mem.ram[j]
            == #[trigger] m.mem.ram[j] by {
            assert(w.mem.ram[j] == m.mem.ram[j]);
        }
    }
}

proof fn lemma_stored_all_in_ram(m: BusModel, addr: u32, base: int, data: Seq<u8>, i: int)
    requires
        in_ram(m, addr, base, data.len() as int),
        0 <= i <= data.len(),
    ensures
        ({
            let r = stored_all(m, Target::Ee, addr, data, i);
            &&& r.refused is None
            &&& changed_only(r.m, m, base + i, data.len() - i)
            &&& forall|j: int| i <= j < data.len() ==> #[trigger] r.m.mem.ram[base + j] == data[j]
        }),
    decreases data.len() - i,
{
    if i < data.len() {
        lemma_put_in_ram(m, addr, base, data.len() as int, i, data[i]);
        let w = byte_put(m, Target::Ee, ahead(addr, i), data[i])->Some_0;
        lemma_stored_all_in_ram(w, addr, base, data, i + 1);
        let r = stored_all(m, Target::Ee, addr, data, i);
        assert(w.mem.ram[base + i] == data[i]);
        assert(r.m.mem.ram[base + i] == data[i]);
        assert forall|j: int| 0 <= j < m.mem.ram.len() && !(base + i <= j < base + data.len()) implies r.m.mem.ram[j]
            == #[trigger] m.mem.ram[j] by {
            assert(w.mem.ram[j] == m.mem.ram[j]);
        }
    }
}

/// A write leaves its bytes, in order, at its address, and no other.
pub proof fn law_writes_land(m: BusModel, addr: u32, base: int, data: Seq<u8>)
    requires
        in_ram(m, addr, base, data.len() as int),
    ensures
        ({
            let (after, r) = ran(m, Target::Ee, OpModel::Write { addr, data });
            &&& r == Ok::<usize, u32>(0)
            &&& changed_only(after, m, base, data.len() as int)
            &&& forall|j: int| 0 <= j < data.len() ==> #[trigger] after.mem.ram[base + j] == data[j]
        }),
{
    lemma_ran(m, Target::Ee, OpModel::Write { addr, data });
    lemma_stored_all_in_ram(m, addr, base, data, 0);
}

/// The word at `base` of main RAM, lowest byte first.
pub open spec fn word_at(m: BusModel, base: int) -> int {
    m.mem.ram[base] + 0x100 * m.mem.ram[base + 1] + 0x1_0000 * m.mem.ram[base + 2] + 0x100_0000 * m.mem.ram[base + 3]
}

proof fn lemma_word_in_ram(m: BusModel, addr: u32, base: int)
    requires
        in_ram(m, addr, base, 4),
    ensures
        readable(m, Target::Ee, addr, 4),
        little_endian(m, Target::Ee, addr, 4) == word_at(m, base),
        0 <= word_at(m, base) < 0x1_0000_0000,
        loaded(m, Target::Ee, addr, 4, 0, 0) == Ok::<int, u32>(word_at(m, base)),
{
    assert forall|i: int| 0 <= i < 4 implies (#[trigger] byte_after(m, Target::Ee, addr, i)) is Some by {
        lemma_read_in_ram(m, addr, base, 4, i);
    }
    lemma_read_in_ram(m, addr, base, 4, 0);
    lemma_read_in_ram(m, addr, base, 4, 1);
    lemma_read_in_ram(m, addr, base, 4, 2);
    lemma_read_in_ram(m, addr, base, 4, 3);
    lemma_loaded(m, Target::Ee, addr, 4);
}

proof fn lemma_four_digits(v: int)
    requires
        0 <= v,
    ensures
        v % 256 + 0x100 * (v / 0x100 % 256) + 0x1_0000 * (v / 0x1_0000 % 256) + 0x100_0000 * (v / 0x100_0000 % 256) == v
            % 0x1_0000_0000,
{
    let (a, b, c, d) = (v / 0x100, v / 0x100 / 0x100, v / 0x100 / 0x100 / 0x100, v / 0x100 / 0x100 / 0x100 / 0x100);
    vstd::arithmetic::div_mod::lemma_div_denominator(v, 0x100, 0x100);
    vstd::arithmetic::div_mod::lemma_div_denominator(v, 0x1_0000, 0x100);
    vstd::arithmetic::div_mod::lemma_div_denominator(v, 0x100_0000, 0x100);
    assert(v == v % 256 + 0x100 * a && a == a % 256 + 0x100 * b && b == b % 256 + 0x100 * c && c == c % 256 + 0x100 * d);
    assert(v % 0x1_0000_0000 == v - 0x1_0000_0000 * d);
}

proof fn lemma_word_stored(m: BusModel, addr: u32, base: int, v: u64)
    requires
        in_ram(m, addr, base, 4),
    ensures
        ({
            let r = stored(m, Target::Ee, addr, 4, v, 0);
            &&& r.refused is None
            &&& changed_only(r.m, m, base, 4)
            &&& word_at(r.m, base) == v as int % 0x1_0000_0000
        }),
{
    lemma_stored_in_ram(m, addr, base, 4, v, 0);
    lemma_four_digits(v as int);
    let r = stored(m, Target::Ee, addr, 4, v, 0).m;
    assert(r.mem.ram[base + 0] == v as int / place(0) % 256);
    assert(r.mem.ram[base + 1] == v as int / place(1) % 256);
    assert(r.mem.ram[base + 2] == v as int / place(2) % 256);
    assert(r.mem.ram[base + 3] == v as int / place(3) % 256);
}

/// Adding to a word leaves the sum modulo 2^32; a negative amount takes
/// away.
pub proof fn law_adding_to_words(m: BusModel, addr: u32, base: int, amount: i64)
    requires
        in_ram(m, addr, base, 4),
    ensures
        ({
            let (after, r) = ran(m, Target::Ee, OpModel::Add { addr, width: 4, amount });
            &&& r == Ok::<usize, u32>(0)
            &&& changed_only(after, m, base, 4)
            &&& word_at(after, base) == (word_at(m, base) + amount) % 0x1_0000_0000
        }),
{
    lemma_ran(m, Target::Ee, OpModel::Add { addr, width: 4, amount });
    lemma_word_in_ram(m, addr, base);
    let sum = word_at(m, base) + amount;
    vstd::arithmetic::div_mod::lemma_mod_mod(sum, 0x1_0000_0000, 0x1_0000_0000);
    lemma_word_stored(m, addr, base, (sum % 0x1_0000_0000_0000_0000) as u64);
}

/// The bitwise commands on a word, by bit: OR sets the operand's bits, AND
/// keeps only those, XOR turns them over, and turning twice is doing nothing.
pub proof fn law_bitwise_on_words(m: BusModel, addr: u32, base: int, value: u32, k: u64)
    requires
        in_ram(m, addr, base, 4),
        k < 32,
    ensures
        ({
            let after = |op: Bitwise| word_at(
                ran(m, Target::Ee, OpModel::Bitwise { addr, width: 4, op, value }).0,
                base,
            ) as u64;
            let on = |v: u64| (v >> k) & 1 == 1;
            let old = word_at(m, base) as u64;
            &&& on(after(Bitwise::Or)) <==> on(old) || on(value as u64)
            &&& on(after(Bitwise::And)) <==> on(old) && on(value as u64)
            &&& on(after(Bitwise::Xor)) <==> on(old) != on(value as u64)
            &&& after(Bitwise::Xor) ^ (value as u64) == old
        }),
{
    lemma_bitwise(m, addr, base, Bitwise::Or, value);
    lemma_bitwise(m, addr, base, Bitwise::And, value);
    lemma_bitwise(m, addr, base, Bitwise::Xor, value);
    lemma_word_in_ram(m, addr, base);
    lemma_common_bits(word_at(m, base) as u64, value as u64, k);
}

proof fn lemma_bitwise(m: BusModel, addr: u32, base: int, op: Bitwise, value: u32)
    requires
        in_ram(m, addr, base, 4),
    ensures
        word_at(ran(m, Target::Ee, OpModel::Bitwise { addr, width: 4, op, value }).0, base) == combined(
            op,
            word_at(m, base) as u64,
            value as u64,
        ),
{
    lemma_ran(m, Target::Ee, OpModel::Bitwise { addr, width: 4, op, value });
    lemma_word_in_ram(m, addr, base);
    let v = word_at(m, base) as u64;
    let c = combined(op, v, value as u64);
    lemma_word_stored(m, addr, base, c);
    lemma_common_bits(v, value as u64, 0);
}

/// A pointer command without hops writes at the address that the word holds,
/// plus its offset.
pub proof fn law_pointers_are_followed(
    m: BusModel,
    addr: u32,
    base: int,
    offset: u32,
    to: u32,
    target: int,
    value: u32,
)
    requires
        in_ram(m, addr, base, 4),
        to == (word_at(m, base) + offset) % 0x1_0000_0000,
        in_ram(m, to, target, 4),
    ensures
        ({
            let (after, r) = ran(
                m,
                Target::Ee,
                OpModel::Pointer { addr, hops: Seq::empty(), offset, width: 4, value },
            );
            &&& r == Ok::<usize, u32>(0)
            &&& changed_only(after, m, target, 4)
            &&& word_at(after, target) == value
        }),
{
    lemma_ran(m, Target::Ee, OpModel::Pointer { addr, hops: Seq::empty(), offset, width: 4, value });
    lemma_word_in_ram(m, addr, base);
    lemma_word_stored(m, to, target, value as u64);
}

proof fn lemma_copied_in_ram(m: BusModel, src: u32, dst: u32, from: int, to: int, len: int, i: int)
    requires
        in_ram(m, src, from, len),
        in_ram(m, dst, to, len),
        from + len <= to || to + len <= from,
        0 <= i <= len,
    ensures
        ({
            let r = copied(m, Target::Ee, src, dst, len, i);
            &&& r.refused is None
            &&& changed_only(r.m, m, to + i, len - i)
            &&& forall|j: int| i <= j < len ==> #[trigger] r.m.mem.ram[to + j] == m.mem.ram[from + j]
        }),
    decreases len - i,
{
    if i < len {
        lemma_read_in_ram(m, src, from, len, i);
        let b = m.mem.ram[from + i];
        lemma_put_in_ram(m, dst, to, len, i, b);
        let w = byte_put(m, Target::Ee, ahead(dst, i), b)->Some_0;
        assert forall|j: int| 0 <= j < len implies #[trigger] w.phys(((src + j) % 0x1_0000_0000) as u32) == from + j by {
            assert(m.phys(((src + j) % 0x1_0000_0000) as u32) == from + j);
        }
        lemma_copied_in_ram(w, src, dst, from, to, len, i + 1);
        let r = copied(m, Target::Ee, src, dst, len, i);
        assert(w.mem.ram[to + i] == b);
        assert(r.m.mem.ram[to + i] == b);
        assert forall|j: int| 0 <= j < m.mem.ram.len() && !(to + i <= j < to + len) implies r.m.mem.ram[j]
            == #[trigger] m.mem.ram[j] by {
            assert(w.mem.ram[j] == m.mem.ram[j]);
        }
        assert forall|j: int| i <= j < len implies #[trigger] r.m.mem.ram[to + j] == m.mem.ram[from + j] by {
            assert(w.mem.ram[from + j] == m.mem.ram[from + j]);
        }
    }
}

/// A copy leaves the source's bytes, in order, at the destination, where the
/// two do not overlap; nothing else changes.
pub proof fn law_copies_arrive(m: BusModel, src: u32, dst: u32, from: int, to: int, len: u32)
    requires
        in_ram(m, src, from, len as int),
        in_ram(m, dst, to, len as int),
        from + len <= to || to + len <= from,
    ensures
        ({
            let (after, r) = ran(m, Target::Ee, OpModel::Copy { src, dst, len });
            &&& r == Ok::<usize, u32>(0)
            &&& changed_only(after, m, to, len as int)
            &&& forall|j: int| 0 <= j < len ==> #[trigger] after.mem.ram[to + j] == m.mem.ram[from + j]
        }),
{
    lemma_ran(m, Target::Ee, OpModel::Copy { src, dst, len });
    lemma_copied_in_ram(m, src, dst, from, to, len as int, 0);
}

/// Two words written by one command: the second lies `stride` words after
/// the first and is larger by `step`.
pub proof fn law_strides(m: BusModel, addr: u32, base: int, next: u32, base2: int, stride: u32, value: u32, step: u32)
    requires
        in_ram(m, addr, base, 4),
        next == (addr + 4 * stride) % 0x1_0000_0000,
        in_ram(m, next, base2, 4),
        base + 4 <= base2 || base2 + 4 <= base,
    ensures
        ({
            let (after, r) = ran(m, Target::Ee, OpModel::Multi { addr, count: 2, stride, value, step });
            &&& r == Ok::<usize, u32>(0)
            &&& word_at(after, base) == value
            &&& word_at(after, base2) == (value + step) % 0x1_0000_0000
        }),
{
    lemma_ran(m, Target::Ee, OpModel::Multi { addr, count: 2, stride, value, step });
    reveal_with_fuel(strided, 3);
    lemma_word_stored(m, addr, base, value as u64);
    let w = stored(m, Target::Ee, addr, 4, value as u64, 0).m;
    assert forall|j: int| 0 <= j < 4 implies #[trigger] w.phys(((next + j) % 0x1_0000_0000) as u32) == base2 + j by {
        assert(m.phys(((next + j) % 0x1_0000_0000) as u32) == base2 + j);
    }
    let second = ahead(value, step as int);
    lemma_word_stored(w, next, base2, second as u64);
    let e = stored(w, Target::Ee, next, 4, second as u64, 0).m;
    assert(e.mem.ram[base] == w.mem.ram[base]);
    assert(e.mem.ram[base + 1] == w.mem.ram[base + 1]);
    assert(e.mem.ram[base + 2] == w.mem.ram[base + 2]);
    assert(e.mem.ram[base + 3] == w.mem.ram[base + 3]);
}

} // verus!
