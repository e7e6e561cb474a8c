//! The bus: memories, the scratchpad channels, TTY, RDRAM and the debugger.

use ps2_core::bus::dma::EE_CHCR_STR;
use ps2_core::bus::iop_timer::IopTimer;
use ps2_core::bus::memory::BIOS_SIZE;
use ps2_core::bus::regs::Region;
use ps2_core::bus::tick::Ticks;
use ps2_core::bus::Bus;

fn bus() -> Bus {
    Bus::new(vec![0u8; BIOS_SIZE], false, Region::Ntsc)
}

#[test]
fn ram_read_write_roundtrip() {
    let mut b = bus();
    b.write32(0x0010_0000, 0xDEAD_BEEF);
    assert_eq!(b.read32(0x0010_0000), 0xDEAD_BEEF);
    // KSEG0/KSEG1 mirrors reach the same storage.
    assert_eq!(b.read32(0x8010_0000), 0xDEAD_BEEF);
    assert_eq!(b.read32(0xA010_0000), 0xDEAD_BEEF);
}

#[test]
fn scratchpad_is_isolated_from_ram() {
    let mut b = bus();
    b.write32(0x7000_0000, 0x1234_5678);
    assert_eq!(b.read32(0x7000_0000), 0x1234_5678);
    assert_ne!(b.read32(0x0000_0000), 0x1234_5678);
}

/// Channel 9 moves quadwords from memory into the scratchpad and
/// leaves both addresses past the run.
#[test]
fn to_spr_copies_memory_into_the_scratchpad() {
    let mut b = bus();
    for i in 0..8u32 {
        b.write32(0x0010_0000 + i * 4, 0x1000 + i);
    }
    b.write32(0x1000_D410, 0x0010_0000); // MADR
    b.write32(0x1000_D480, 0x0100); // SADR
    b.write32(0x1000_D420, 2); // QWC
    b.write32(0x1000_D400, EE_CHCR_STR);
    for i in 0..8u32 {
        assert_eq!(b.read32(0x7000_0100 + i * 4), 0x1000 + i);
    }
    assert_eq!(b.read32(0x1000_D400) & EE_CHCR_STR, 0);
    assert_eq!(b.read32(0x1000_D420), 0);
    assert_eq!(b.read32(0x1000_D410), 0x0010_0020);
    assert_eq!(b.read32(0x1000_D480), 0x0120);
}

/// Channel 8 the other way, and its start bit clears the same way.
#[test]
fn from_spr_copies_the_scratchpad_into_memory() {
    let mut b = bus();
    for i in 0..4u32 {
        b.write32(0x7000_0200 + i * 4, 0x2000 + i);
    }
    b.write32(0x1000_D010, 0x0020_0000); // MADR
    b.write32(0x1000_D080, 0x0200); // SADR
    b.write32(0x1000_D020, 1); // QWC
    b.write32(0x1000_D000, EE_CHCR_STR);
    for i in 0..4u32 {
        assert_eq!(b.read32(0x0020_0000 + i * 4), 0x2000 + i);
    }
    assert_eq!(b.read32(0x1000_D000) & EE_CHCR_STR, 0);
    assert_eq!(b.read32(0x1000_D080), 0x0210);
}

/// Channel 9's chain reads its tags from memory at TADR: one cnt of
/// a quadword, then end.
#[test]
fn to_spr_follows_a_source_chain() {
    let mut b = bus();
    // cnt, qwc 1, then the quadword it covers.
    b.write32(0x0030_0000, 1 | (1 << 28));
    for i in 0..4u32 {
        b.write32(0x0030_0010 + i * 4, 0x3000 + i);
    }
    b.write32(0x0030_0020, 7 << 28); // end, qwc 0
    b.write32(0x1000_D430, 0x0030_0000); // TADR
    b.write32(0x1000_D480, 0); // SADR
    b.write32(0x1000_D400, EE_CHCR_STR | (1 << 2)); // chain mode
    for i in 0..4u32 {
        assert_eq!(b.read32(0x7000_0000 + i * 4), 0x3000 + i);
    }
    assert_eq!(b.read32(0x1000_D400) & EE_CHCR_STR, 0);
}

/// Channel 8's chain reads its tags from the scratchpad instead, each
/// naming where in memory the quadwords behind it land.
#[test]
fn from_spr_follows_a_chain_out_of_the_scratchpad() {
    let mut b = bus();
    // end tag: one quadword, destination 0x0040_0000.
    b.write32(0x7000_0000, 1 | (7 << 28));
    b.write32(0x7000_0004, 0x0040_0000);
    for i in 0..4u32 {
        b.write32(0x7000_0010 + i * 4, 0x4000 + i);
    }
    b.write32(0x1000_D080, 0); // SADR
    b.write32(0x1000_D000, EE_CHCR_STR | (1 << 2)); // chain mode
    for i in 0..4u32 {
        assert_eq!(b.read32(0x0040_0000 + i * 4), 0x4000 + i);
    }
    assert_eq!(b.read32(0x1000_D000) & EE_CHCR_STR, 0);
    assert_eq!(b.read32(0x1000_D080), 0x0020);
}

#[test]
fn tty_capture() {
    let mut b = bus();
    for c in b"hi\n" {
        b.write8(0x1000_F180, *c);
    }
    assert_eq!(b.tty_buffer, "hi\n");
}

#[test]
fn rdram_init_handshake() {
    let mut b = bus();
    // SOP=0, SA=0x21 (INIT): first two reads answer 0x1F, then 0.
    b.write32(0x1000_F430, 0x21 << 16);
    assert_eq!(b.read32(0x1000_F440), 0x1F);
    assert_eq!(b.read32(0x1000_F440), 0x1F);
    assert_eq!(b.read32(0x1000_F440), 0);
}

#[test]
fn debugger_peeks_gs_priv_and_refuses_the_rdram_handshake() {
    let mut b = bus();
    // SMODE1 (write-only to software) still reads back for a debugger.
    b.write64(0xB200_0010, 0x0000_0000_C74F_0F1E);
    assert_eq!(b.peek8(0xB200_0010), Some(0x1E));
    assert_eq!(b.peek8(0xB200_0013), Some(0xC7));
    // SYNCHV, which is otherwise only visible in the shadow array.
    b.write64(0xB200_0060, 0x00C7_800A_1500_0801);
    assert_eq!(b.peek8(0xB200_0066), Some(0xC7));

    b.write32(0x1000_F010, 0x0000_0400);
    assert_eq!(b.peek8(0xB000_F011), Some(0x04));

    // MCH_DRD advances the RDRAM device count on read, so it stays
    // refused rather than being answered from a peek.
    assert_eq!(b.peek8(0xB000_F440), None);
}

#[test]
fn every_width_reads_back() {
    let mut b = bus();
    b.write8(0x0010_0003, 0x12);
    b.write16(0x0010_0000, 0xABCD);
    assert_eq!(b.read32(0x0010_0000), 0x1200_ABCD);
    assert_eq!(b.read16(0x0010_0002), 0x1200);
    assert_eq!(b.read8(0x0010_0001), 0xAB);
    b.write64(0x0010_0008, 0x0102_0304_0506_0708);
    assert_eq!(b.read64(0x0010_0008), 0x0102_0304_0506_0708);
    b.write128(0x0010_0010, [1, 2]);
    assert_eq!(b.read128(0x0010_0010), [1, 2]);
}

#[test]
fn iop_ram_is_one_memory_from_both_sides() {
    let mut b = bus();
    b.write32(0xBC00_0100, 0xCAFE_F00D);
    assert_eq!(b.iop_read32(0x100), 0xCAFE_F00D);
    b.iop_write16(0x8000_0104, 0x1234);
    assert_eq!(b.read16(0xBC00_0104), 0x1234);
    b.iop_write8(0x106, 0x56);
    assert_eq!(b.iop_read8(0xA000_0106), 0x56);
    assert_eq!(b.iop_read16(0x106), 0x0056);
}

#[test]
fn peeking_sees_what_poking_wrote() {
    let mut b = bus();
    assert!(b.poke8(0x0010_0000, 0x5A));
    assert_eq!(b.peek8(0x0010_0000), Some(0x5A));
    assert_eq!(b.read8(0x0010_0000), 0x5A);
    // The BIOS is a ROM.
    assert!(!b.poke8(0xBFC0_0000, 1));
    assert!(b.iop_poke8(0x200, 7));
    assert_eq!(b.iop_peek8(0x200), Some(7));
}

#[test]
fn an_interrupt_is_seen_after_its_latency() {
    let mut b = bus();
    b.write32(0x1000_F010, 4);
    b.raise_intc(4);
    assert_eq!(b.read32(0x1000_F000), 4);
    assert!(!b.ee_int0_pending());
    b.ee.now = 31;
    assert!(!b.ee_int0_pending());
    b.ee.now = 32;
    assert!(b.ee_int0_pending());
    // Writing the bit back clears it, and the line with it.
    b.write32(0x1000_F000, 4);
    assert_eq!(b.read32(0x1000_F000), 0);
    assert!(!b.ee_int0_pending());
    // INTC_MASK toggles.
    b.write32(0x1000_F010, 4);
    assert_eq!(b.read32(0x1000_F010), 0);
}

#[test]
fn a_dma_completion_is_deferred() {
    let mut b = bus();
    b.write32(0x1000_D420, 1);
    b.write32(0x1000_D400, EE_CHCR_STR);
    assert_eq!(b.read32(0x1000_E010) & 0x3FF, 0);
    let quiet = Ticks {
        timer_irqs: 0,
        timer_next: u64::MAX,
        spu_done0: false,
        spu_done1: false,
        spu_irq: false,
        spu_next: u64::MAX,
    };
    b.ee.now = 1023;
    b.tick_timers(quiet);
    assert_eq!(b.read32(0x1000_E010) & 0x3FF, 0);
    b.ee.now = 1024;
    b.tick_timers(quiet);
    assert_eq!(b.read32(0x1000_E010) & 0x3FF, 0x200);
    assert!(!b.ee_int1_pending());
    // D_STAT's upper half toggles the mask.
    b.write32(0x1000_E010, 0x200 << 16);
    assert!(b.ee_int1_pending());
    // And its lower half acknowledges.
    b.write32(0x1000_E010, 0x200);
    assert!(!b.ee_int1_pending());
}

#[test]
fn a_tlb_entry_maps_its_pages() {
    let mut b = bus();
    b.write32(0x0010_0010, 0x1111_1111);
    b.write32(0x0010_1010, 0x2222_2222);
    assert!(!b.jit_flush_needed);
    // A pair of 4 KiB pages at 0x2000_0000 onto 0x0010_0000.
    b.ee_tlb_write(5, 0, 0x2000_0000, (0x100 << 6) | 2, (0x101 << 6) | 2);
    assert!(b.jit_flush_needed);
    assert_eq!(b.read32(0x2000_0010), 0x1111_1111);
    assert_eq!(b.read32(0x2000_1010), 0x2222_2222);
    assert_eq!(b.ram_phys_of(0x2000_1010), Some(0x0010_1010));
    assert_eq!(b.ram_phys_of(0xBFC0_0000), None);
}

#[test]
fn accesses_over_the_end_of_a_memory_are_told() {
    let mut b = bus();
    assert!(b.fits_at(0x01FF_FFFC, 4));
    assert!(!b.fits_at(0x01FF_FFFE, 4));
    assert!(b.fits_at(0x7000_3FF8, 8));
    assert!(!b.fits_at(0x7000_3FFC, 8));
}

#[test]
fn a_code_page_notes_its_writes() {
    let mut b = bus();
    b.write32(0x0010_0000, 1);
    assert!(b.take_code_writes().is_empty());
    b.mark_code_page(0x100, true);
    b.write32(0x0010_0004, 1);
    b.write8(0x0010_0007, 1);
    b.write32(0x0010_0010, 1);
    assert_eq!(b.take_code_writes(), [0x0010_0000, 0x0010_0010]);
    b.forget_code();
    b.write32(0x0010_0004, 1);
    assert!(b.take_code_writes().is_empty());
}

#[test]
fn device_registers_become_events_and_replies() {
    let mut b = bus();
    // An EE timer is a device outside the bus.
    assert!(b.asks_device(0xB000_0000));
    assert!(!b.asks_device(0x0010_0000));
    b.write32(0xB000_0010, 0x80);
    assert_eq!(b.events.len(), 1);
    b.reply = 0x1234;
    assert_eq!(b.read32(0xB000_0000), 0x1234);
}

#[test]
fn root_counters_count() {
    let t = IopTimer { base: 5, base_cycle: 0, mode: 0, target: 0, last_check: 0 };
    assert_eq!(t.count(0, 80, 2343), 15);
    let slow = IopTimer { mode: 0x200, ..t };
    assert_eq!(slow.count(2, 80, 2343), 6);
    let full = IopTimer { base: 0xFFFF, ..t };
    assert_eq!(full.count(0, 8, 2343), 0);
    assert_eq!(full.count(3, 8, 2343), 0x1_0000);
    let mut moved = slow;
    let before = moved.count(2, 1000, 2343);
    moved.rebase(2, 1000, 2343);
    assert_eq!(moved.count(2, 1000, 2343), before);
}

#[test]
fn the_timer_event_is_the_first_thing_that_happens() {
    let t = IopTimer { base: 0, base_cycle: 0, mode: 0, target: 100, last_check: 0 };
    assert_eq!(t.next_event(0, 3, 0x1000), 800);
    assert_eq!((t.count(0, 799, 0x1000), t.count(0, 800, 0x1000)), (99, 100));
    // Up to the last cycle that the wait leaves room for.
    let late = IopTimer { base_cycle: u64::MAX - 800, ..t };
    assert_eq!(late.next_event(0, u64::MAX - 800, 0x1000), u64::MAX);
    // Past its target the counter runs on to the wrap.
    assert_eq!(t.next_event(0, 800, 0x1000), 0x1_0000 * 8);
    assert_eq!((t.count(0, 0x7_FFFF, 0x1000), t.count(0, 0x8_0000, 0x1000)), (0xFFFF, 0));
}

#[test]
fn the_iop_fetches_from_the_bios_at_the_top_too() {
    let mut bios = vec![0u8; BIOS_SIZE];
    bios[0x3E_0000] = 0x78;
    let mut b = Bus::new(bios, false, Region::Ntsc);
    assert_eq!(b.iop_fetch32(0xFFFE_0000), 0x78);
    assert_eq!(b.iop_fetch32(0x9FFE_0000), 0x78);
    assert_eq!(b.iop_read32(0xFFFE_0000), 0);
}

#[test]
fn accesses_move_no_code_mark() {
    let mut b = bus();
    b.mark_code_page(1, true);
    b.write32(0x1000, 1);
    assert_eq!(b.read32(0x1000), 1);
    assert!(b.mem.code_pages[1] && !b.mem.code_pages[2]);
}

#[test]
fn quadwords_are_two_doublewords_at_any_address() {
    let mut b = bus();
    b.write128(0x1004, [0x0102_0304_0506_0708, 9]);
    assert_eq!(b.read128(0x1004), [0x0102_0304_0506_0708, 9]);
    assert_eq!((b.read64(0x1004), b.read64(0x100C)), (0x0102_0304_0506_0708, 9));
}
