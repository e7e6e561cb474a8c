//! The disc drive, the memory card and the pad.

use ps2_core::bus::cdvd::{boot_serial, disc_serial, Cdvd, NCommand};
use ps2_core::bus::memcard::MemCard;
use ps2_core::bus::sio2::{Pad, Sio2};

const CNF: &[u8] = b"BOOT2 = cdrom0:\\SLPS_254.18;1\r\nVER = 1.00\r\nVMODE = NTSC\r\n";

#[test]
fn a_disc_names_its_serial() {
    assert_eq!(disc_serial(CNF), Some(b"SLPS25418".to_vec()));
    assert_eq!(boot_serial(CNF).as_deref(), Some("SLPS-25418"));
    assert_eq!(boot_serial(b"VER = 1.00\r\n"), None);
    assert_eq!(boot_serial(b"BOOT2 = cdrom0:\\MAIN.ELF;1\r\n"), None);
}

fn s_command(c: &mut Cdvd, cmd: u32, params: &[u8]) {
    for p in params {
        assert!(c.write(0x17, *p as u32).is_none());
    }
    assert!(c.write(0x16, cmd).is_none());
}

#[test]
fn config_blocks_read_back() {
    let mut c = Cdvd::new();
    let block: Vec<u8> = (1..=16).collect();
    s_command(&mut c, 0x40, &[1, 1, 1]);
    s_command(&mut c, 0x42, &block);
    s_command(&mut c, 0x43, &[]);
    assert!(c.nvram_dirty);
    s_command(&mut c, 0x40, &[0, 1, 1]);
    s_command(&mut c, 0x41, &[]);
    let read: Vec<u8> = (0..16).map(|_| c.read(0x18, 0) as u8).collect();
    assert_eq!(read, block);
}

#[test]
fn nvm_words_read_back() {
    let mut c = Cdvd::new();
    s_command(&mut c, 0x0B, &[0, 0x10, 0xAB, 0xCD]);
    assert_eq!(c.read(0x18, 0), 0);
    s_command(&mut c, 0x0A, &[0, 0x10]);
    assert_eq!((c.read(0x18, 0), c.read(0x18, 0), c.read(0x18, 0)), (0, 0xAB, 0xCD));
    // Past the end.
    s_command(&mut c, 0x0A, &[0xFF, 0xFF]);
    assert_eq!(c.read(0x18, 0), 0xFF);
}

fn n_read(c: &mut Cdvd, lsn: u8, count: u8) -> Option<(NCommand, u64)> {
    for p in [lsn, 0, 0, 0, count, 0, 0, 0] {
        assert!(c.write(0x05, p as u32).is_none());
    }
    c.write(0x04, 0x06)
}

#[test]
fn reads_need_a_disc() {
    let mut c = Cdvd::new();
    assert!(matches!(n_read(&mut c, 16, 2), Some((NCommand::Quick, _))));
    c.finish_n();
    c.close_tray(true, 0);
    assert!(!c.tray_open());
    assert!(matches!(n_read(&mut c, 16, 2), Some((NCommand::Read { lsn: 16, count: 2 }, _))));
    let mut sector = vec![0u8; 2048];
    sector[0] = 0x77;
    c.stage(16, &vec![sector.clone(), vec![0x55; 2048]]);
    assert_eq!(c.read_remaining(), 4096);
    assert_eq!(c.next_byte(), 0x77);
    assert_eq!(c.dma_read(2), [0, 0]);
    assert_eq!(c.read_remaining(), 4093);
    assert!(c.open_tray());
    assert!(c.tray_open());
    assert_eq!(c.read_remaining(), 0);
}

#[test]
fn an_nvram_image_of_the_wrong_size_is_not_taken() {
    let mut c = Cdvd::new();
    let fresh = c.nvram.clone();
    assert!(c.load_nvram(Some(vec![1, 2, 3])));
    assert_eq!(c.nvram, fresh);
    let image = vec![0x42; fresh.len()];
    assert!(!c.load_nvram(Some(image.clone())));
    assert_eq!(c.nvram, image);
}

#[test]
fn a_card_reads_back_its_pages() {
    let mut m = MemCard::new();
    assert_eq!(m.respond(&[0x81, 0x22, 3, 0, 0, 0, 3], 9), [0, 0, 0, 0, 0, 0, 0, 0x2B, 0x55]);
    assert_eq!(m.respond(&[0x81, 0x42, 4, 0xDE, 0xAD, 0xBE, 0xEF], 10), [0, 0, 0, 0x2B, 0, 0, 0, 0, 0x22, 0x55]);
    assert!(m.dirty);
    m.respond(&[0x81, 0x23, 3, 0, 0, 0, 3], 9);
    assert_eq!(m.respond(&[0x81, 0x43, 4], 10), [0, 0, 0, 0x2B, 0xDE, 0xAD, 0xBE, 0xEF, 0x22, 0x55]);
    // The next bytes of the page are still erased.
    assert_eq!(m.respond(&[0x81, 0x43, 2], 8), [0, 0, 0, 0x2B, 0xFF, 0xFF, 0, 0x55]);
    // Erasing the block takes the page with it.
    m.respond(&[0x81, 0x21, 3, 0, 0, 0, 3], 9);
    m.respond(&[0x81, 0x82], 4);
    m.respond(&[0x81, 0x23, 3, 0, 0, 0, 3], 9);
    assert_eq!(m.respond(&[0x81, 0x43, 1], 7), [0, 0, 0, 0x2B, 0xFF, 0xFF, 0x55]);
}

#[test]
fn a_card_describes_itself() {
    let mut m = MemCard::new();
    assert_eq!(m.respond(&[0x81, 0x26], 13), [0, 0, 0x2B, 0, 2, 0x10, 0, 0, 0x40, 0, 0, 0x52, 0x55]);
    assert_eq!(m.respond(&[0x81, 0x27, 0x5A], 5), [0, 0, 0, 0x2B, 0x5A]);
    assert_eq!(m.respond(&[0x81, 0x28], 5), [0, 0, 0x2B, 0x5A, 0x5A]);
    assert!(!m.dirty);
    // A reply has the length of its transfer.
    assert_eq!(m.respond(&[0x81, 0x28], 2), [0, 0]);
    assert_eq!(m.respond(&[0x81, 0x28], 7).len(), 7);
}

#[test]
fn a_digital_pad_reports_its_buttons() {
    let mut p: Pad = Sio2::new().pad;
    p.buttons = 0x4008;
    assert_eq!(p.respond(&[0x01, 0x42, 0, 0, 0], 5), [0xFF, 0x41, 0x5A, 0xF7, 0xBF]);
    // Config mode answers with its own id and leaves the mode alone.
    p.respond(&[0x01, 0x43, 0, 1, 0], 5);
    assert!(p.config);
    assert_eq!(p.respond(&[0x01, 0x40, 0, 0, 0, 0, 0, 0, 0], 9), [0xFF, 0xF3, 0x5A, 0, 0, 2, 0, 0, 0x5A]);
    // Switch to analog, locked, and leave.
    p.respond(&[0x01, 0x44, 0, 1, 3, 0, 0, 0, 0], 9);
    p.respond(&[0x01, 0x43, 0, 0, 0], 9);
    assert!(!p.config);
    assert_eq!(p.mode, 0x73);
    assert_eq!(p.respond(&[0x01, 0x42, 0], 9), [0xFF, 0x73, 0x5A, 0xF7, 0xBF, 0x7F, 0x7F, 0x7F, 0x7F]);
}

#[test]
fn a_fresh_card_takes_and_gives_back_bytes() {
    let mut m = MemCard::default();
    assert!(!m.dirty);
    m.respond(&[0x81, 0x22, 0x01, 0x02, 0, 0, 3], 9);
    m.respond(&[0x81, 0x42, 3, 0x11, 0x22, 0x44], 9);
    assert!(m.dirty);
    m.respond(&[0x81, 0x23, 0x01, 0x02, 0, 0, 3], 9);
    assert_eq!(m.respond(&[0x81, 0x43, 3], 9), [0, 0, 0, 0x2B, 0x11, 0x22, 0x44, 0x77, 0x55]);
    // The pages beside it are still erased.
    let at = 0x201 * 528;
    assert_eq!(&m.data[at - 1..at + 4], [0xFF, 0x11, 0x22, 0x44, 0xFF]);
}

#[test]
fn a_pad_answers_beside_an_empty_port() {
    let mut s = Sio2::default();
    s.pad.buttons = 0x4000;
    assert!(!s.write(0x00, 0x500));
    assert!(!s.write(0x04, 0x501));
    for _ in 0..2 {
        for b in [0x01, 0x42, 0, 0, 0] {
            assert!(!s.write(0x60, b));
        }
    }
    assert!(s.write(0x68, 1));
    let reply: Vec<u32> = (0..10).map(|_| s.read(0x64)).collect();
    assert_eq!(reply, [0xFF, 0x41, 0x5A, 0xFF, 0xBF, 0xFF, 0xFF, 0xFF, 0xFF, 0xFF]);
    assert_eq!(s.read(0x64), 0);
    assert_eq!(s.read(0x6C), 0x2D200);
}

#[test]
fn a_first_read_waits_for_the_seek() {
    let mut c = Cdvd::default();
    for p in [16, 0, 0, 0, 1, 0, 0, 0] {
        assert!(c.write(0x05, p).is_none());
    }
    let (asked, latency) = c.write(0x04, 0x08).unwrap();
    assert!(matches!(asked, NCommand::Quick));
    assert_eq!(latency, 3_067_084);
    assert_eq!(c.read_remaining(), 0);
    assert_eq!(c.read(0x05, 0), 0x80);
    c.finish_n();
    assert_eq!(c.read(0x05, 0), 0x40);
}
