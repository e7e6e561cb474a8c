//! IOP root counters (0-2: 16-bit PS1-style, 3-5: 32-bit).

use vstd::prelude::*;

verus! {

/// Longest gap between periodic ticks, whatever the computed events say.
pub const MAX_TICK_GAP: u64 = 8192;

/// IOP clocks of the longest scanline.
pub const MAX_HBLANK: u64 = 2359;

/// EE cycles that a counter may take to its next event: a whole turn of a
/// wide one at the slowest rate.
pub const LONGEST_WAIT: u64 = 0x49B8_0000_0000;

#[derive(Clone, Copy)]
pub struct IopTimer {
    pub base: u32,
    pub base_cycle: u64,
    pub mode: u32,
    pub target: u32,
    pub last_check: u64,
}

/// Values that counter `idx` runs through before it wraps.
pub open spec fn counter_size(idx: int) -> int {
    if idx < 3 {
        0x1_0000
    } else {
        0x1_0000_0000
    }
}

impl IopTimer {
    pub open spec fn external(self) -> bool {
        self.mode & 0x100 != 0
    }

    /// IOP sysclock ticks per COUNT tick. Mode bit 8 selects the external
    /// clock (pixel for counter 0, coarsely approximated; hblank for
    /// counters 1/3, every `hblank` ticks), bit 9 is /8 on counter 2, and
    /// wide timers add a sysclock prescaler in bits 13-14.
    pub open spec fn divisor(self, idx: int, hblank: u64) -> int {
        if idx == 0 && self.external() {
            3
        } else if (idx == 1 || idx == 3) && self.external() {
            hblank as int
        } else if idx == 2 && self.mode & 0x200 != 0 {
            8
        } else if idx >= 3 {
            let p = (self.mode >> 13) & 3;
            if p == 0 {
                1
            } else if p == 1 {
                8
            } else if p == 2 {
                16
            } else {
                256
            }
        } else {
            1
        }
    }

    /// EE cycles since the base, none before it.
    pub open spec fn elapsed(self, now: u64) -> int {
        if now > self.base_cycle {
            now - self.base_cycle
        } else {
            0
        }
    }

    /// The counter's value: IOP sysclock ticks are EE cycles / 8.
    pub open spec fn value(self, idx: int, now: u64, hblank: u64) -> int {
        (self.base + self.elapsed(now) / 8 / self.divisor(idx, hblank)) % counter_size(idx)
    }

    fn divide(&self, idx: usize, hblank: u64) -> (d: u64)
        requires
            hblank > 0,
        ensures
            d == self.divisor(idx as int, hblank),
            d > 0,
    {
        let external = self.mode & 0x100 != 0;
        if idx == 0 && external {
            3
        } else if (idx == 1 || idx == 3) && external {
            hblank
        } else if idx == 2 && self.mode & 0x200 != 0 {
            8
        } else if idx >= 3 {
            match (self.mode >> 13) & 3 {
                0 => 1,
                1 => 8,
                2 => 16,
                _ => 256,
            }
        } else {
            1
        }
    }

    /// EE cycles per COUNT tick.
    pub fn cycles_per_tick(&self, idx: usize, hblank: u64) -> (c: u64)
        requires
            hblank > 0,
            8 * self.divisor(idx as int, hblank) <= u64::MAX,
        ensures
            c == 8 * self.divisor(idx as int, hblank),
            c > 0,
    {
        8 * self.divide(idx, hblank)
    }

    pub fn count(&self, idx: usize, now: u64, hblank: u64) -> (c: u32)
        requires
            hblank > 0,
        ensures
            c == self.value(idx as int, now, hblank),
    {
        let span: u64 = if now > self.base_cycle { now - self.base_cycle } else { 0 };
        let d: u64 = self.divide(idx, hblank);
        let sys: u64 = span / 8;
        let ticks: u64 = sys / d;
        assert(ticks <= sys) by {
            vstd::arithmetic::div_mod::lemma_div_is_ordered_by_denominator(sys as int, 1, d as int);
            assert(sys as int / 1 == sys);
        }
        let total: u64 = self.base as u64 + ticks;
        if idx < 3 {
            (total % 0x1_0000) as u32
        } else {
            (total % 0x1_0000_0000) as u32
        }
    }

    /// Restart the count from where it stands, so a change of clock rate
    /// does not reinterpret the span already elapsed.
    pub fn rebase(&mut self, idx: usize, now: u64, hblank: u64)
        requires
            hblank > 0,
        ensures
            *final(self) == (IopTimer {
                base: old(self).value(idx as int, now, hblank) as u32,
                base_cycle: now,
                ..*old(self)
            }),
    {
        self.base = self.count(idx, now, hblank);
        self.base_cycle = now;
    }

    /// COUNT ticks until the timer reaches its target or wraps, whichever
    /// is first.
    pub open spec fn ticks_left(self, idx: int, now: u64, hblank: u64) -> int {
        let size = counter_size(idx);
        let count = self.value(idx, now, hblank);
        let d = (self.target + size - count) % size;
        let to_target = if d == 0 {
            size
        } else {
            d
        };
        let to_wrap = size - count;
        if to_target < to_wrap {
            to_target
        } else {
            to_wrap
        }
    }

    /// Earliest cycle at which this timer reaches its target or wraps.
    pub open spec fn event_at(self, idx: int, now: u64, hblank: u64) -> int {
        let p = 8 * self.divisor(idx, hblank);
        now + self.ticks_left(idx, now, hblank) * p - self.elapsed(now) % p
    }

    /// The ticks up to the event, in whole periods, end in the range of the
    /// clock.
    pub open spec fn has_headroom(self, idx: int, now: u64, hblank: u64) -> bool {
        now + self.ticks_left(idx, now, hblank) * (8 * self.divisor(idx, hblank)) <= u64::MAX
    }

    pub fn next_event(&self, idx: usize, now: u64, hblank: u64) -> (at: u64)
        requires
            hblank > 0,
            self.has_headroom(idx as int, now, hblank),
        ensures
            at == self.event_at(idx as int, now, hblank),
            at > now,
    {
        let size: u64 = if idx < 3 { 0x1_0000 } else { 0x1_0000_0000 };
        let count: u64 = self.count(idx, now, hblank) as u64;
        let d: u64 = (self.target as u64 + size - count) % size;
        let to_target: u64 = if d == 0 { size } else { d };
        let to_wrap: u64 = size - count;
        let left: u64 = if to_target < to_wrap { to_target } else { to_wrap };
        let ghost period = 8 * self.divisor(idx as int, hblank);
        assert(0 < period <= left * period) by (nonlinear_arith)
            requires
                left >= 1,
                period > 0,
        ;
        let p: u64 = self.cycles_per_tick(idx, hblank);
        let span: u64 = if now > self.base_cycle { now - self.base_cycle } else { 0 };
        let phase: u64 = span % p;
        now + left * p - phase
    }
}

/// The count `x` cycles after the base, in one division.
proof fn lemma_ticks(t: IopTimer, idx: int, k: u64, hblank: u64)
    requires
        hblank > 0,
        t.base_cycle <= k,
    ensures
        t.divisor(idx, hblank) > 0,
        t.value(idx, k, hblank) == (t.base + (k - t.base_cycle) / (8 * t.divisor(idx, hblank))) % counter_size(idx),
{
    vstd::arithmetic::div_mod::lemma_div_denominator(k - t.base_cycle, 8, t.divisor(idx, hblank));
}

/// The event lies a whole number of ticks ahead, and every cycle before it
/// fewer.
proof fn lemma_ticks_to_the_event(x: int, y: int, left: int, p: int)
    requires
        p > 0,
        0 <= x,
        left > 0,
    ensures
        (x + left * p - x % p) / p == x / p + left,
        left * p - x % p > 0,
        x <= y < x + left * p - x % p ==> x / p <= y / p < x / p + left,
{
    vstd::arithmetic::div_mod::lemma_fundamental_div_mod(x, p);
    vstd::arithmetic::div_mod::lemma_mod_bound(x, p);
    let q = x / p;
    assert(x + left * p - x % p == (q + left) * p) by (nonlinear_arith)
        requires
            x == p * q + x % p,
    ;
    vstd::arithmetic::div_mod::lemma_div_by_multiple(q + left, p);
    assert(left * p >= p) by (nonlinear_arith)
        requires
            left >= 1,
            p > 0,
    ;
    if x <= y < x + left * p - x % p {
        vstd::arithmetic::div_mod::lemma_div_is_ordered(x, y, p);
        vstd::arithmetic::div_mod::lemma_fundamental_div_mod(y, p);
        vstd::arithmetic::div_mod::lemma_mod_bound(y, p);
        let r = y / p;
        assert(r < q + left) by (nonlinear_arith)
            requires
                p * r <= y,
                y < (q + left) * p,
                p > 0,
        ;
    }
}

/// At the event the timer stands at its target or at zero, and nothing
/// happens before: until then the count neither wraps nor comes to the
/// target.
pub proof fn law_the_event_is_the_earliest(t: IopTimer, idx: int, now: u64, hblank: u64)
    requires
        0 <= idx < 6,
        hblank > 0,
        t.has_headroom(idx, now, hblank),
        t.target < counter_size(idx),
        t.base_cycle <= now,
    ensures
        ({
            let e = t.event_at(idx, now, hblank);
            let from = t.value(idx, now, hblank);
            &&& now < e <= u64::MAX
            &&& t.value(idx, e as u64, hblank) == t.target || t.value(idx, e as u64, hblank) == 0
            &&& forall|k: u64|
                now <= k < e ==> {
                    let c = #[trigger] t.value(idx, k, hblank);
                    c >= from && (c != t.target || c == from)
                }
        }),
{
    let size = counter_size(idx);
    let p = 8 * t.divisor(idx, hblank);
    let left = t.ticks_left(idx, now, hblank);
    let e = t.event_at(idx, now, hblank);
    let from = t.value(idx, now, hblank);
    let x = now - t.base_cycle;
    let n = t.base + x / p;
    lemma_ticks(t, idx, now, hblank);
    vstd::arithmetic::div_mod::lemma_mod_bound(n, size);
    assert(from == n % size);
    assert(1 <= left <= size - from) by {
        vstd::arithmetic::div_mod::lemma_mod_bound(t.target + size - from, size);
    }
    lemma_ticks_to_the_event(x, x, left, p);
    vstd::arithmetic::div_mod::lemma_mod_bound(x, p);
    lemma_ticks(t, idx, e as u64, hblank);
    lemma_wrap(n, left, size);
    lemma_target(t.target as int, from, size);
    assert forall|k: u64| now <= k < e implies ({
        let c = #[trigger] t.value(idx, k, hblank);
        c >= from && (c != t.target || c == from)
    }) by {
        lemma_ticks(t, idx, k, hblank);
        lemma_ticks_to_the_event(x, k - t.base_cycle, left, p);
        let j = (k - t.base_cycle) / p - x / p;
        lemma_wrap(n, j, size);
    }
}

/// Counting on by less than is left to the wrap does not wrap.
proof fn lemma_wrap(n: int, j: int, size: int)
    requires
        size > 0,
        0 <= j <= size - n % size,
    ensures
        (n + j) % size == (if n % size + j == size {
            0
        } else {
            n % size + j
        }),
{
    vstd::arithmetic::div_mod::lemma_fundamental_div_mod(n, size);
    vstd::arithmetic::div_mod::lemma_mod_bound(n, size);
    let q = n / size;
    let r = n % size + j;
    if r == size {
        assert(n + j == (q + 1) * size) by (nonlinear_arith)
            requires
                n == size * q + n % size,
                n % size + j == size,
        ;
        vstd::arithmetic::div_mod::lemma_mod_multiples_basic(q + 1, size);
    } else {
        assert(n + j == q * size + r) by (nonlinear_arith)
            requires
                n == size * q + n % size,
                r == n % size + j,
        ;
        vstd::arithmetic::div_mod::lemma_fundamental_div_mod_converse(n + j, size, q, r);
    }
}

/// How far the target lies ahead.
proof fn lemma_target(target: int, from: int, size: int)
    requires
        0 <= target < size,
        0 <= from < size,
    ensures
        (target + size - from) % size == (if target >= from {
            target - from
        } else {
            target + size - from
        }),
{
    let d = target + size - from;
    if target >= from {
        vstd::arithmetic::div_mod::lemma_fundamental_div_mod_converse(d, size, 1, target - from);
    } else {
        vstd::arithmetic::div_mod::lemma_small_mod(d as nat, size as nat);
    }
}

/// On the rates of the machine there is headroom up to the longest wait
/// before the clock's end.
pub proof fn law_waits_are_bounded(t: IopTimer, idx: int, now: u64, hblank: u64)
    requires
        0 < hblank <= MAX_HBLANK,
        now + LONGEST_WAIT <= u64::MAX,
    ensures
        t.has_headroom(idx, now, hblank),
{
    let left = t.ticks_left(idx, now, hblank);
    let p = 8 * t.divisor(idx, hblank);
    let size = counter_size(idx);
    vstd::arithmetic::div_mod::lemma_mod_bound(t.base + t.elapsed(now) / 8 / t.divisor(idx, hblank), size);
    vstd::arithmetic::div_mod::lemma_mod_bound(t.target + size - t.value(idx, now, hblank), size);
    assert(left * p <= 0x1_0000_0000 * (8 * 2359)) by (nonlinear_arith)
        requires
            1 <= left <= 0x1_0000_0000,
            0 < p <= 8 * 2359,
    ;
}

/// A rebase keeps the count: it reads the same at that cycle before and
/// after.
pub proof fn law_rebase_keeps_the_count(t: IopTimer, idx: int, now: u64, hblank: u64)
    requires
        hblank > 0,
    ensures
        ({
            let r = IopTimer { base: t.value(idx, now, hblank) as u32, base_cycle: now, ..t };
            r.value(idx, now, hblank) == t.value(idx, now, hblank)
        }),
{
    let size = counter_size(idx);
    let v = t.base + t.elapsed(now) / 8 / t.divisor(idx, hblank);
    vstd::arithmetic::div_mod::lemma_mod_bound(v, size);
    vstd::arithmetic::div_mod::lemma_mod_twice(v, size);
    let r = IopTimer { base: t.value(idx, now, hblank) as u32, base_cycle: now, ..t };
    assert(r.elapsed(now) == 0);
    assert(0int / 8 / t.divisor(idx, hblank) == 0) by {
        vstd::arithmetic::div_mod::lemma_div_basics(t.divisor(idx, hblank));
    }
}

} // verus!
