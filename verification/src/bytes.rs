//! Little-endian values in byte sequences, the memory model every device
//! of the machine shares.

use vstd::prelude::*;

verus! {

/// 256 to the power `n`: one more than the largest `n`-byte value.
pub open spec fn pow256(n: nat) -> nat
    decreases n,
{
    if n == 0 {
        1
    } else {
        256 * pow256((n - 1) as nat)
    }
}

/// The number that `s` spells, least significant byte first.
pub open spec fn le(s: Seq<u8>) -> nat
    decreases s.len(),
{
    if s.len() == 0 {
        0
    } else {
        s[0] as nat + 256 * le(s.subrange(1, s.len() as int))
    }
}

/// The low `n` bytes of `v`, least significant first.
pub open spec fn le_bytes(v: nat, n: nat) -> Seq<u8>
    decreases n,
{
    if n == 0 {
        Seq::empty()
    } else {
        seq![(v % 256) as u8] + le_bytes(v / 256, (n - 1) as nat)
    }
}

/// The `n`-byte value stored at `at`.
pub open spec fn get(mem: Seq<u8>, at: int, n: int) -> nat {
    le(mem.subrange(at, at + n))
}

/// `mem` with `data` stored at `at`, everything else as it was.
pub open spec fn patch(mem: Seq<u8>, at: int, data: Seq<u8>) -> Seq<u8> {
    Seq::new(mem.len(), |i: int| if at <= i < at + data.len() { data[i - at] } else { mem[i] })
}

/// `mem` with the low `n` bytes of `v` stored at `at`.
pub open spec fn put(mem: Seq<u8>, at: int, n: int, v: nat) -> Seq<u8> {
    patch(mem, at, le_bytes(v, n as nat))
}

pub proof fn lemma_le_bytes_len(v: nat, n: nat)
    ensures
        le_bytes(v, n).len() == n,
    decreases n,
{
    if n > 0 {
        lemma_le_bytes_len(v / 256, (n - 1) as nat);
    }
}

/// `le` reads back what `le_bytes` wrote, up to the bytes it kept.
pub proof fn lemma_le_of_le_bytes(v: nat, n: nat)
    ensures
        le(le_bytes(v, n)) == v % pow256(n),
        pow256(n) > 0,
    decreases n,
{
    if n > 0 {
        let m = (n - 1) as nat;
        lemma_le_of_le_bytes(v / 256, m);
        lemma_le_bytes_len(v / 256, m);
        let s = le_bytes(v, n);
        assert(s.subrange(1, s.len() as int) =~= le_bytes(v / 256, m));
        vstd::arithmetic::div_mod::lemma_mod_breakdown(v as int, 256, pow256(m) as int);
    } else {
        assert(v % 1 == 0);
    }
}

pub proof fn lemma_le_bound(s: Seq<u8>)
    ensures
        le(s) < pow256(s.len()),
    decreases s.len(),
{
    if s.len() > 0 {
        lemma_le_bound(s.subrange(1, s.len() as int));
    }
}

/// `le_bytes` spells out again what `le` read.
pub proof fn lemma_le_bytes_of_le(s: Seq<u8>)
    ensures
        le_bytes(le(s), s.len()) == s,
    decreases s.len(),
{
    if s.len() > 0 {
        let t = s.subrange(1, s.len() as int);
        lemma_le_bytes_of_le(t);
        let v = le(s);
        assert(v % 256 == s[0] as nat && v / 256 == le(t)) by (nonlinear_arith)
            requires
                v == s[0] as nat + 256 * le(t),
                0 <= s[0] as nat,
                (s[0] as nat) < 256,
        ;
        assert(le_bytes(v, s.len()) =~= s);
    } else {
        assert(le_bytes(le(s), 0) =~= s);
    }
}

/// Only the low bytes of a value are stored.
pub proof fn lemma_le_bytes_low(v: nat, n: nat)
    ensures
        pow256(n) > 0,
        le_bytes(v, n) == le_bytes(v % pow256(n), n),
    decreases n,
{
    lemma_le_of_le_bytes(v, n);
    if n > 0 {
        let m = (n - 1) as nat;
        let p = pow256(m);
        lemma_le_bytes_low(v / 256, m);
        vstd::arithmetic::div_mod::lemma_mod_breakdown(v as int, 256, p as int);
        let low = v % pow256(n);
        assert(low == 256 * ((v / 256) % p) + v % 256);
        assert(low % 256 == v % 256 && low / 256 == (v / 256) % p);
    }
}

/// A read at `at` gives back what a write at `at` stored.
pub proof fn law_get_after_put(mem: Seq<u8>, at: int, n: int, v: nat)
    requires
        0 <= at,
        0 <= n,
        at + n <= mem.len(),
    ensures
        get(put(mem, at, n, v), at, n) == v % pow256(n as nat),
        v < pow256(n as nat) ==> get(put(mem, at, n, v), at, n) == v,
{
    lemma_le_bytes_len(v, n as nat);
    lemma_le_of_le_bytes(v, n as nat);
    assert(put(mem, at, n, v).subrange(at, at + n) =~= le_bytes(v, n as nat));
    if v < pow256(n as nat) {
        vstd::arithmetic::div_mod::lemma_small_mod(v, pow256(n as nat));
    }
}

/// A write leaves every value that it does not overlap as it was.
pub proof fn law_get_beside_put(mem: Seq<u8>, at: int, n: int, v: nat, other: int, m: int)
    requires
        0 <= at,
        0 <= n,
        at + n <= mem.len(),
        0 <= other,
        0 <= m,
        other + m <= mem.len(),
        other + m <= at || at + n <= other,
    ensures
        get(put(mem, at, n, v), other, m) == get(mem, other, m),
{
    lemma_le_bytes_len(v, n as nat);
    assert(put(mem, at, n, v).subrange(other, other + m) =~= mem.subrange(other, other + m));
}

/// Writing back what was read changes nothing.
pub proof fn law_put_what_was_read(mem: Seq<u8>, at: int, n: int)
    requires
        0 <= at,
        0 <= n,
        at + n <= mem.len(),
    ensures
        put(mem, at, n, get(mem, at, n)) == mem,
{
    let s = mem.subrange(at, at + n);
    lemma_le_bytes_of_le(s);
    assert(put(mem, at, n, get(mem, at, n)) =~= mem);
}

/// The value at `at` is its first byte plus 256 times the rest.
pub proof fn lemma_get_step(mem: Seq<u8>, at: int, n: int)
    requires
        0 <= at,
        0 < n,
        at + n <= mem.len(),
    ensures
        get(mem, at, n) == mem[at] as nat + 256 * get(mem, at + 1, n - 1),
{
    let s = mem.subrange(at, at + n);
    assert(s.subrange(1, s.len() as int) =~= mem.subrange(at + 1, at + n));
}

pub proof fn lemma_get_none(mem: Seq<u8>, at: int)
    requires
        0 <= at <= mem.len(),
    ensures
        get(mem, at, 0) == 0,
{
}

/// A value of `n + m` bytes is its low part plus its high part.
pub proof fn lemma_get_split(mem: Seq<u8>, at: int, n: int, m: int)
    requires
        0 <= at,
        0 <= n,
        0 <= m,
        at + n + m <= mem.len(),
    ensures
        get(mem, at, n + m) == get(mem, at, n) + pow256(n as nat) * get(mem, at + n, m),
    decreases n,
{
    if n > 0 {
        lemma_get_step(mem, at, n + m);
        lemma_get_step(mem, at, n);
        lemma_get_split(mem, at + 1, n - 1, m);
        assert(at + 1 + (n - 1) == at + n);
        let p = pow256((n - 1) as nat);
        let h = get(mem, at + n, m);
        assert(256 * (p * h) == (256 * p) * h) by (nonlinear_arith);
    } else {
        lemma_get_none(mem, at);
        assert(1 * get(mem, at, m) == get(mem, at, m));
    }
}

pub proof fn lemma_pow256_values()
    ensures
        pow256(0) == 1,
        pow256(1) == 0x100,
        pow256(2) == 0x1_0000,
        pow256(3) == 0x100_0000,
        pow256(4) == 0x1_0000_0000,
        pow256(8) == 0x1_0000_0000_0000_0000,
        pow256(16) == 0x1_0000_0000_0000_0000 * 0x1_0000_0000_0000_0000,
{
    reveal_with_fuel(pow256, 17);
}

pub fn rd16(mem: &[u8], at: usize) -> (r: u16)
    requires
        at + 2 <= mem.len(),
    ensures
        r == get(mem@, at as int, 2),
{
    proof {
        lemma_get_step(mem@, at as int, 2);
        lemma_get_step(mem@, at as int + 1, 1);
        lemma_get_none(mem@, at as int + 2);
    }
    mem[at] as u16 + 256 * mem[at + 1] as u16
}

pub fn rd32(mem: &[u8], at: usize) -> (r: u32)
    requires
        at + 4 <= mem.len(),
    ensures
        r == get(mem@, at as int, 4),
{
    proof {
        lemma_get_step(mem@, at as int, 4);
        lemma_get_step(mem@, at as int + 1, 3);
        lemma_get_step(mem@, at as int + 2, 2);
        lemma_get_step(mem@, at as int + 3, 1);
        lemma_get_none(mem@, at as int + 4);
    }
    mem[at] as u32 + 256 * (mem[at + 1] as u32 + 256 * (mem[at + 2] as u32 + 256 * mem[at + 3] as u32))
}

pub fn rd64(mem: &[u8], at: usize) -> (r: u64)
    requires
        at + 8 <= mem.len(),
    ensures
        r == get(mem@, at as int, 8),
{
    proof {
        lemma_get_split(mem@, at as int, 4, 4);
        lemma_pow256_values();
    }
    rd32(mem, at) as u64 + 0x1_0000_0000 * rd32(mem, at + 4) as u64
}

pub fn wr16(mem: &mut Vec<u8>, at: usize, v: u16)
    requires
        at + 2 <= old(mem).len(),
    ensures
        final(mem)@ == put(old(mem)@, at as int, 2, v as nat),
{
    mem[at] = (v % 256) as u8;
    mem[at + 1] = (v / 256) as u8;
    proof {
        reveal_with_fuel(le_bytes, 3);
        lemma_le_bytes_len(v as nat, 2);
        assert(mem@ =~= put(old(mem)@, at as int, 2, v as nat));
    }
}

pub fn wr32(mem: &mut Vec<u8>, at: usize, v: u32)
    requires
        at + 4 <= old(mem).len(),
    ensures
        final(mem)@ == put(old(mem)@, at as int, 4, v as nat),
{
    mem[at] = (v % 256) as u8;
    mem[at + 1] = (v / 256 % 256) as u8;
    mem[at + 2] = (v / 256 / 256 % 256) as u8;
    mem[at + 3] = (v / 256 / 256 / 256) as u8;
    proof {
        reveal_with_fuel(le_bytes, 5);
        lemma_le_bytes_len(v as nat, 4);
        assert(mem@ =~= put(old(mem)@, at as int, 4, v as nat));
    }
}

/// Bytes of a wider value: the low half's, then the high half's.
pub proof fn lemma_le_bytes_join(lo: nat, hi: nat, n: nat, m: nat)
    requires
        lo < pow256(n),
    ensures
        le_bytes(lo + pow256(n) * hi, n + m) == le_bytes(lo, n) + le_bytes(hi, m),
    decreases n,
{
    if n == 0 {
        assert(lo == 0 && pow256(0) * hi == hi) by {
            assert(pow256(0) == 1);
            assert(1 * hi == hi);
        }
        assert(n + m == m);
        assert(le_bytes(lo, 0) + le_bytes(hi, m) =~= le_bytes(hi, m));
    } else {
        let k = (n - 1) as nat;
        let p = pow256(k);
        let v = lo + pow256(n) * hi;
        assert(v == lo + 256 * (p * hi)) by (nonlinear_arith)
            requires
                v == lo + (256 * p) * hi,
        ;
        assert(v % 256 == lo % 256 && v / 256 == lo / 256 + p * hi);
        lemma_le_bytes_join(lo / 256, hi, k, m);
        assert(le_bytes(v, n + m) =~= le_bytes(lo, n) + le_bytes(hi, m));
    }
}

/// One wide write is two narrow ones side by side.
pub proof fn lemma_put_split(mem: Seq<u8>, at: int, n: int, m: int, lo: nat, hi: nat)
    requires
        0 <= at,
        0 <= n,
        0 <= m,
        at + n + m <= mem.len(),
        lo < pow256(n as nat),
    ensures
        put(put(mem, at, n, lo), at + n, m, hi) == put(mem, at, n + m, lo + pow256(n as nat) * hi),
{
    lemma_le_bytes_join(lo, hi, n as nat, m as nat);
    lemma_le_bytes_len(lo, n as nat);
    lemma_le_bytes_len(hi, m as nat);
    assert(put(put(mem, at, n, lo), at + n, m, hi) =~= put(mem, at, n + m, lo + pow256(n as nat) * hi));
}

pub fn wr64(mem: &mut Vec<u8>, at: usize, v: u64)
    requires
        at + 8 <= old(mem).len(),
    ensures
        final(mem)@ == put(old(mem)@, at as int, 8, v as nat),
{
    let lo: u32 = (v % 0x1_0000_0000) as u32;
    let hi: u32 = (v / 0x1_0000_0000) as u32;
    wr32(mem, at, lo);
    wr32(mem, at + 4, hi);
    proof {
        lemma_pow256_values();
        lemma_put_split(old(mem)@, at as int, 4, 4, lo as nat, hi as nat);
    }
}

} // verus!
