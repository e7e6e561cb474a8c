//! What the devices' registers and tables mean, field by field.

use vstd::prelude::*;
use super::cdvd::{decrypted, rotated, sector_header};
use super::dma::EeDmaChannel;
use super::iop_timer::IopTimer;
use super::memory::Quad;
use super::sio2::{Pad, PAD_ANALOG, PAD_DIGITAL, PAD_DS2};

verus! {

proof fn lemma_device_bits(m: u32, b: u32, x: u32)
    by (bit_vector)
    requires
        b < 0x1_0000,
        x < 0x100,
    ensures
        m & 0x100 != 0 <==> m / 0x100 % 2 == 1,
        m & 0x200 != 0 <==> m / 0x200 % 2 == 1,
        (m >> 13) & 3 == m / 0x2000 % 4,
        b & 0x10 != 0 <==> b / 0x10 % 2 == 1,
        b & 0x20 != 0 <==> b / 0x20 % 2 == 1,
        b & 0x40 != 0 <==> b / 0x40 % 2 == 1,
        b & 0x80 != 0 <==> b / 0x80 % 2 == 1,
        b & 0x100 != 0 <==> b / 0x100 % 2 == 1,
        b & 0x200 != 0 <==> b / 0x200 % 2 == 1,
        b & 0x400 != 0 <==> b / 0x400 % 2 == 1,
        b & 0x800 != 0 <==> b / 0x800 % 2 == 1,
        b & 0x1000 != 0 <==> b / 0x1000 % 2 == 1,
        b & 0x2000 != 0 <==> b / 0x2000 % 2 == 1,
        b & 0x4000 != 0 <==> b / 0x4000 % 2 == 1,
        b & 0x8000 != 0 <==> b / 0x8000 % 2 == 1,
        x & 1 != 0 <==> x % 2 == 1,
        x & 2 != 0 <==> x / 2 % 2 == 1,
        (x >> 4) & 7 == x / 16 % 8,
{
}

proof fn lemma_rotation(b: u16, x: u8, n: u8, k: u8, y: u8)
    by (bit_vector)
    requires
        0 < n < 8,
        k == 8 - n,
    ensures
        !b == 0xFFFF - b,
        ((((x >> n) | (x << k)) >> k) | (((x >> n) | (x << k)) << n)) == x,
        (x ^ y) ^ y == x,
        ((x >> 1u8) | (x << 7u8)) & 0x80 == (x & 1) << 7u8,
{
}

/// Source chain tags by id, in bits 28-30: where their data lies and where
/// the next tag does. The data of refe, ref and refs (0, 3, 4) is at the
/// tag's address, that of the others follows the tag; the next tag follows
/// the tag, or for cnt (1) the data, and for next and call (2, 5) it is at
/// the address. refe and end (7) are the last.
pub proof fn law_chain_tags(c: EeDmaChannel, t: Quad)
    requires
        c.wf(),
        c.tadr < 0x7000_0000,
        c.asr_depth < 2,
    ensures
        ({
            let r = c.begun(t, false);
            let id = t.w0 as int / 0x1000_0000 % 8;
            let (n, a) = (t.w0 as int % 0x1_0000, t.w1 - t.w1 % 16);
            &&& r.qwc == n
            &&& id == 0 || id == 3 || id == 4 ==> r.madr == a && r.tadr == c.tadr + 16
            &&& id == 1 || id == 2 || id == 5 || id == 7 ==> r.madr == c.tadr + 16
            &&& id == 1 ==> r.tadr == c.tadr + 16 + 16 * n
            &&& id == 2 || id == 5 ==> r.tadr == a
            &&& id == 5 ==> r.asr_depth == c.asr_depth + 1
            &&& id == 0 || id == 7 ==> r.tag_end
            &&& 1 <= id <= 5 ==> r.tag_end == c.tag_end
            &&& r.chcr == c.chcr && r.sadr == c.sadr
        }),
{
}

/// A counter's tick in IOP clocks: counter 0 takes the pixel clock (a third)
/// and counters 1 and 3 the hblank with bit 8 of the mode, counter 2 an
/// eighth with bit 9, and the wide counters a prescaler in bits 13-14. The
/// first three counters are 16 bits wide.
pub proof fn law_counter_clocks(t: IopTimer, hblank: u64)
    ensures
        ({
            let m = t.mode as int;
            let outside = m / 0x100 % 2 == 1;
            let p = m / 0x2000 % 4;
            let wide = |i: int| t.divisor(i, hblank) == (if p == 0 {
                1int
            } else if p == 1 {
                8
            } else if p == 2 {
                16
            } else {
                256
            });
            &&& t.divisor(0, hblank) == (if outside {
                3int
            } else {
                1
            })
            &&& outside ==> t.divisor(1, hblank) == hblank && t.divisor(3, hblank) == hblank
            &&& !outside ==> t.divisor(1, hblank) == 1 && wide(3)
            &&& t.divisor(2, hblank) == (if m / 0x200 % 2 == 1 {
                8int
            } else {
                1
            })
            &&& wide(4) && wide(5)
        }),
{
    lemma_device_bits(t.mode, 0, 0);
}

/// A counter reads its base at its base cycle, and one more eight EE cycles
/// per clock of its tick later.
pub proof fn law_counters_count(t: IopTimer, idx: int, hblank: u64, k: int, now: u64)
    requires
        t.divisor(idx, hblank) > 0,
        k >= 0,
        now == t.base_cycle + 8 * (t.divisor(idx, hblank) * k),
    ensures
        t.value(idx, now, hblank) == (t.base + k) % (if idx < 3 {
            0x1_0000int
        } else {
            0x1_0000_0000
        }),
{
    let d = t.divisor(idx, hblank);
    assert(d * k >= 0) by (nonlinear_arith)
        requires
            d > 0,
            k >= 0,
    ;
    assert(t.elapsed(now) / 8 == d * k);
    vstd::arithmetic::div_mod::lemma_div_multiples_vanish(k, d);
}

/// A poll reports the buttons as two bytes, clear for pressed; the sticks
/// follow in the analog formats, and in the DualShock 2's the pressures, of
/// right, left, up, down, triangle, circle, cross, square, L1, R1, L2 and R2
/// in that order: full for a pressed button and none for the others.
pub proof fn law_pad_polls(p: Pad)
    ensures
        ({
            let r = p.poll();
            let b = p.buttons as int;
            let force = |bit: int| if b / bit % 2 == 1 {
                0xFFu8
            } else {
                0u8
            };
            &&& r[0] + 0x100 * r[1] == 0xFFFF - b
            &&& p.mode == PAD_DIGITAL ==> r.len() == 2
            &&& p.mode == PAD_ANALOG ==> r.len() == 6
            &&& p.mode == PAD_DS2 ==> r.len() == 18
            &&& p.mode == PAD_DS2 ==> r[6] == force(0x20) && r[7] == force(0x80) && r[8] == force(0x10) && r[9] == force(0x40)
            &&& p.mode == PAD_DS2 ==> r[10] == force(0x1000) && r[11] == force(0x2000) && r[12] == force(0x4000) && r[13]
                == force(0x8000)
            &&& p.mode == PAD_DS2 ==> r[14] == force(0x400) && r[15] == force(0x800) && r[16] == force(0x100) && r[17]
                == force(0x200)
        }),
{
    lemma_device_bits(0, p.buttons as u32, 0);
    lemma_rotation(p.buttons, 0, 1, 7, 0);
}

/// Which poll format a pad is in: command 0x44 switches between digital and
/// analog and 0x4F picks by response mask, both in config mode alone, which
/// 0x43 enters and leaves.
pub proof fn law_pad_modes(p: Pad, cmd: Seq<u8>)
    requires
        cmd.len() >= 6,
    ensures
        ({
            let n = p.commanded(cmd);
            let on = cmd[3] == 1;
            let mask = cmd[3] + 0x100 * cmd[4] + 0x1_0000 * cmd[5];
            &&& cmd[1] == 0x43 ==> n.config == on && n.mode == p.mode
            &&& cmd[1] == 0x44 && p.config ==> n.mode == (if on {
                PAD_ANALOG
            } else {
                PAD_DIGITAL
            })
            &&& cmd[1] == 0x4F && p.config && mask == 0x3F ==> n.mode == PAD_ANALOG
            &&& cmd[1] == 0x4F && p.config && mask == 0x3_FFFF ==> n.mode == PAD_DS2
            &&& cmd[1] == 0x4F && p.config && mask == 0 ==> n.mode == PAD_DIGITAL
            &&& cmd[1] == 0x4D && p.config ==> n.motor0 == cmd[3] && n.motor1 == cmd[4] && n.mode == p.mode
            &&& !p.config && cmd[1] != 0x43 ==> n == p
        }),
{
}

/// Rotating right by `n` and then by what is left of eight is doing nothing;
/// by one, the lowest bit comes out on top.
pub proof fn law_rotation(b: u8, n: u8)
    requires
        0 < n < 8,
    ensures
        rotated(rotated(b, n), (8 - n) as u8) == b,
        rotated(b, 0) == b,
        rotated(b, 1) & 0x80 == (b & 1) << 7u8,
{
    lemma_rotation(0, b, n, (8 - n) as u8, 0);
}

/// The drive's decryption: bit 0 of its mode mixes in the key byte, which
/// twice is not at all, and bit 1 rotates by bits 4-6; with neither the data
/// passes as it is.
pub proof fn law_decryption(b: u8, dec: u8, key: u8)
    ensures
        ({
            let d = dec as int;
            &&& d % 4 == 0 ==> decrypted(b, dec, key) == b
            &&& d % 4 == 1 ==> decrypted(decrypted(b, dec, key), dec, key) == b && decrypted(b, dec, key) == b ^ key
            &&& d % 4 == 2 ==> decrypted(b, dec, key) == rotated(b, (d / 16 % 8) as u8)
            &&& d % 4 == 3 ==> decrypted(b, dec, key) == rotated(b ^ key, (d / 16 % 8) as u8)
        }),
{
    lemma_device_bits(0, 0, dec as u32);
    lemma_rotation(0, b, 1, 7, key);
}

/// A framed sector's header holds its physical number, 0x30000 above the
/// logical one, in three bytes, highest first.
pub proof fn law_sector_headers(lsn: u32)
    requires
        lsn < 0xFC_0000,
    ensures
        ({
            let h = sector_header(lsn);
            &&& h.len() == 12
            &&& h[0] == 0x20
            &&& 0x1_0000 * h[1] + 0x100 * h[2] + h[3] == lsn + 0x3_0000
        }),
{
}

} // verus!
