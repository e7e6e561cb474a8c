//! Cheats: parsing and running.

use ps2_core::bus::memory::BIOS_SIZE;
use ps2_core::bus::regs::Region;
use ps2_core::bus::Bus;
use ps2_core::cheats::parse::parse;
use ps2_core::cheats::table::Table;
use ps2_core::cheats::{Bitwise, Cheat, Compare, Op, Target};

fn ee(op: Op) -> Cheat {
    Cheat { target: Target::Ee, once: false, op }
}

#[test]
fn every_documented_line_shape_parses() {
    let text = "\u{FEFF}gametitle=Some Game // title\r\n\
                [Infinite Health]\r\n\
                author=someone\r\n\
                \r\n\
                patch=1,EE,00123456,word,0000abcd // hp\r\n\
                patch=0,ee,0x00100000,short,1234\r\n\
                patch=1,IOP,00001000,byte,7f\r\n\
                patch=1,EE,00200000,double,0102030405060708\r\n\
                patch=1,EE,00200008,beword,11223344\r\n\
                patch=1,EE,00200010,bytes,deadbeef\r\n\
                patch=1,EE,203E5320,extended,00004370\r\n\
                patch=2,EE,10300000,extended,ffff1234\r\n\
                patch=3,EE,00400000,extended,ab\r\n";
    let g = parse(text);
    assert_eq!(g.len(), 1);
    assert_eq!(g[0].name, "Infinite Health");
    assert!(g[0].warnings.is_empty(), "{:?}", g[0].warnings);
    let c = &g[0].cheats;
    let write = |addr, data: &[u8], once| Cheat { target: Target::Ee, once, op: Op::Write { addr, data: data.to_vec() } };
    assert_eq!(c, &vec![
        write(0x0012_3456, &[0xCD, 0xAB, 0, 0], false),
        write(0x0010_0000, &[0x34, 0x12], true),
        Cheat { target: Target::Iop, once: false, op: Op::Write { addr: 0x1000, data: vec![0x7F] } },
        write(0x0020_0000, &[8, 7, 6, 5, 4, 3, 2, 1], false),
        write(0x0020_0008, &[0x11, 0x22, 0x33, 0x44], false),
        write(0x0020_0010, &[0xDE, 0xAD, 0xBE, 0xEF], false),
        write(0x003E_5320, &[0x70, 0x43, 0, 0], false),
        write(0x0030_0000, &[0x34, 0x12], false),
        write(0x0040_0000, &[0xAB], true),
    ]);
}

#[test]
fn multi_line_codes_take_their_continuation_lines() {
    let text = "patch=1,EE,30100005,extended,00100000\n\
                patch=1,EE,3020ffff,extended,00100002\n\
                patch=1,EE,30500000,extended,00100004\n\
                patch=1,EE,00000010,extended,00000000\n\
                patch=1,EE,40100000,extended,00030002\n\
                patch=1,EE,00000001,extended,00000010\n\
                patch=1,EE,50100000,extended,00000008\n\
                patch=1,EE,00200000,extended,00000000\n\
                patch=1,EE,60100000,extended,00000042\n\
                patch=1,EE,00020003,extended,00000010\n\
                patch=1,EE,00000020,extended,00000004\n\
                patch=1,EE,60100000,extended,00000007\n\
                patch=1,EE,00000001,extended,00000008\n\
                patch=1,EE,70100000,extended,003000f0\n\
                patch=1,EE,D0100000,extended,02100005\n\
                patch=1,EE,D0100000,extended,000100ff\n";
    let g = parse(text);
    assert_eq!(g.len(), 1);
    assert_eq!(g[0].name, "", "a file with no header is one unnamed group");
    assert!(g[0].warnings.is_empty(), "{:?}", g[0].warnings);
    assert_eq!(g[0].cheats, vec![
        ee(Op::Add { addr: 0x10_0000, width: 1, amount: -5 }),
        ee(Op::Add { addr: 0x10_0002, width: 2, amount: 0xFFFF }),
        ee(Op::Add { addr: 0x10_0004, width: 4, amount: -0x10 }),
        ee(Op::Multi { addr: 0x10_0000, count: 3, stride: 2, value: 1, step: 0x10 }),
        ee(Op::Copy { src: 0x10_0000, dst: 0x20_0000, len: 8 }),
        ee(Op::Pointer { addr: 0x10_0000, hops: vec![0x10, 0x20], offset: 4, width: 4, value: 0x42 }),
        ee(Op::Pointer { addr: 0x10_0000, hops: vec![], offset: 8, width: 1, value: 7 }),
        ee(Op::Bitwise { addr: 0x10_0000, width: 2, op: Bitwise::And, value: 0xF0 }),
        ee(Op::Cond { addr: 0x10_0000, width: 2, cmp: Compare::NotEqual, value: 5, skip: 2 }),
        ee(Op::Cond { addr: 0x10_0000, width: 1, cmp: Compare::Equal, value: 0xFF, skip: 1 }),
    ]);
}

#[test]
fn bad_lines_are_reported_by_number_and_the_rest_kept() {
    let text = "patch=1,EE,00100000,word\n\
                patch=9,EE,00100000,word,1\n\
                patch=1,VU0,00100000,word,1\n\
                patch=1,EE,zz,word,1\n\
                patch=1,EE,00100000,float,1\n\
                patch=1,EE,E0100000,extended,1\n\
                patch=1,EE,00100000,bytes,abc\n\
                what is this\n\
                patch=1,EE,00100000,byte,5\n\
                patch=1,EE,30400000,extended,00100000\n";
    let g = parse(text);
    assert_eq!(g.len(), 1);
    let (c, w) = (&g[0].cheats, &g[0].warnings);
    assert_eq!(c.len(), 1);
    assert_eq!(c[0].op, Op::Write { addr: 0x10_0000, data: vec![5] });
    let lines: Vec<u32> = w.iter().map(|m| m.split(&[' ', ':']).nth(1).unwrap().parse().unwrap()).collect();
    assert_eq!(lines, [1, 2, 3, 4, 5, 6, 7, 8, 10]);
    assert!(w[5].contains("type E"), "{}", w[5]);
    assert!(w[4].contains("float"));
    assert!(w[8].contains("another line"), "{}", w[8]);
}

fn bus() -> Bus {
    Bus::new(vec![0u8; BIOS_SIZE], false, Region::Ntsc)
}

fn table(cheats: Vec<Cheat>) -> Table {
    Table {
        done: vec![false; cheats.len()],
        owner: vec![0; cheats.len()],
        groups: vec![(String::new(), true)],
        cheats,
        enabled: true,
    }
}

#[test]
fn each_code_type_does_what_the_page_says() {
    let mut b = bus();
    b.write32(0x10_0000, 0x0000_00F0);
    b.write32(0x10_0010, 0x0010_0100); // pointer to the block below
    b.write32(0x10_0100, 0x0010_0200); // hop 0 lands here
    let mut t = table(vec![
        ee(Op::Add { addr: 0x10_0000, width: 1, amount: -1 }),
        ee(Op::Add { addr: 0x10_0002, width: 2, amount: 0x102 }),
        ee(Op::Bitwise { addr: 0x10_0000, width: 1, op: Bitwise::Xor, value: 0xFF }),
        ee(Op::Multi { addr: 0x10_0020, count: 3, stride: 2, value: 7, step: 1 }),
        ee(Op::Copy { src: 0x10_0020, dst: 0x10_0040, len: 16 }),
        ee(Op::Pointer { addr: 0x10_0010, hops: vec![0], offset: 4, width: 2, value: 0xBEEF }),
    ]);
    t.apply(&mut b);
    assert_eq!(b.read32(0x10_0000), 0x0102_0010); // F0-1 = EF, ^FF = 10; +0x102 above
    assert_eq!(b.read32(0x10_0020), 7);
    assert_eq!(b.read32(0x10_0028), 8);
    assert_eq!(b.read32(0x10_0030), 9);
    assert_eq!(b.read32(0x10_0040), 7);
    assert_eq!(b.read32(0x10_0048), 8);
    assert_eq!(b.read32(0x10_0204), 0xBEEF);
}

#[test]
fn a_failed_condition_skips_the_commands_it_counts() {
    let mut b = bus();
    b.write32(0x10_0000, 0x1234);
    let write = |addr, v| ee(Op::Write { addr, data: vec![v] });
    let mut t = table(vec![
        ee(Op::Cond { addr: 0x10_0000, width: 2, cmp: Compare::Equal, value: 0x1234, skip: 1 }),
        write(0x10_0010, 1), // taken
        ee(Op::Cond { addr: 0x10_0000, width: 2, cmp: Compare::Less, value: 0x1234, skip: 2 }),
        write(0x10_0011, 2), // skipped
        write(0x10_0012, 3), // skipped
        write(0x10_0013, 4), // taken
        ee(Op::Cond { addr: 0x10_0000, width: 1, cmp: Compare::And, value: 0x30, skip: 1 }),
        write(0x10_0014, 5), // taken: 0x34 has both bits
        ee(Op::Cond { addr: 0x10_0000, width: 1, cmp: Compare::Nor, value: 0x04, skip: 9 }),
        write(0x10_0015, 6), // skipped, and the skip runs off the end
    ]);
    t.apply(&mut b);
    assert_eq!(b.read32(0x10_0010), 0x0400_0001);
    assert_eq!(b.read32(0x10_0014), 0x0000_0005);
}

#[test]
fn sections_become_groups_that_know_their_own_lines() {
    let text = "gametitle=Some Game\n\
                \n\
                [Infinite Health]\n\
                // keeps hp pinned\n\
                patch=1,EE,00100000,word,00000063\n\
                \n\
                [All Weapons]\n\
                patch=1,EE,00100010,byte,ff\n\
                patch=1,EE,00100011,byte,ff\n";
    let g = parse(text);
    assert_eq!(g.iter().map(|g| g.name.as_str()).collect::<Vec<_>>(), ["Infinite Health", "All Weapons"]);
    assert_eq!(g[0].cheats.len(), 1);
    assert_eq!(g[1].cheats.len(), 2);
    // The span runs from the header through the section's last line,
    // comments included, and stops before the next header.
    assert_eq!(g[0].span, (3, 5));
    assert_eq!(g[1].span, (7, 9));
}

#[test]
fn a_header_with_nothing_usable_still_appears() {
    let g = parse("[Broken]\npatch=1,EE,zz,word,1\n");
    assert_eq!(g.len(), 1);
    assert!(g[0].cheats.is_empty());
    assert_eq!(g[0].warnings.len(), 1);
}

/// A conditional counts commands as the file writes them, so a
/// disabled group in front of one must not shift what it skips.
#[test]
fn a_disabled_group_is_stepped_over_not_removed() {
    let mut b = bus();
    b.write32(0x10_0000, 1);
    let mut t = Table {
        cheats: vec![
            ee(Op::Write { addr: 0x10_0010, data: vec![0xAA] }),
            ee(Op::Cond { addr: 0x10_0000, width: 4, cmp: Compare::Equal, value: 0, skip: 1 }),
            ee(Op::Write { addr: 0x10_0020, data: vec![0xBB] }),
            ee(Op::Write { addr: 0x10_0024, data: vec![0xCC] }),
        ],
        owner: vec![0, 1, 1, 1],
        groups: vec![("off".into(), true), ("on".into(), true)],
        done: vec![false; 4],
        enabled: true,
    };
    t.set_group_enabled("off", false);
    t.apply(&mut b);
    assert_eq!(b.peek8(0x10_0010), Some(0), "the disabled group did not write");
    assert_eq!(b.peek8(0x10_0020), Some(0), "the condition still skipped its own command");
    assert_eq!(b.peek8(0x10_0024), Some(0xCC));
}

/// Switching one cheat on must not re-arm another's start-up writes,
/// which is what rebuilding the table would do.
#[test]
fn toggling_a_group_leaves_the_others_fired() {
    let mut b = bus();
    let once = |addr| Cheat { target: Target::Ee, once: true, op: Op::Write { addr, data: vec![1] } };
    let mut t = Table {
        cheats: vec![once(0x10_0000), once(0x10_0004)],
        owner: vec![0, 1],
        groups: vec![("a".into(), true), ("b".into(), false)],
        done: vec![false; 2],
        enabled: true,
    };
    t.apply(&mut b);
    b.poke8(0x10_0000, 0); // the game moves the value on
    t.set_group_enabled("b", true);
    t.apply(&mut b);
    assert_eq!(b.peek8(0x10_0000), Some(0), "a's one-shot stayed fired");
    assert_eq!(b.peek8(0x10_0004), Some(1));
}

#[test]
fn a_command_outside_ram_is_dropped_not_retried() {
    let mut b = bus();
    let mut t = table(vec![
        ee(Op::Write { addr: 0x1000_F000, data: vec![1] }),
        ee(Op::Write { addr: 0x10_0000, data: vec![1] }),
    ]);
    t.apply(&mut b);
    assert_eq!(t.done, [true, false]);
    assert_eq!(b.read32(0x10_0000), 1);
}

#[test]
fn a_table_switched_off_writes_nothing() {
    let mut b = bus();
    let mut t = Table::new();
    t.set_cheats(parse("[One]\npatch=1,EE,00100000,byte,7\n"));
    assert_eq!((t.len(), t.groups(), t.is_empty()), (1, 1, false));
    t.apply_cheats(&mut b);
    assert_eq!(b.peek8(0x10_0000), Some(0));
    t.set_cheats_enabled(true);
    t.apply_cheats(&mut b);
    assert_eq!(b.peek8(0x10_0000), Some(7));
}

#[test]
fn a_one_shot_fires_again_once_rearmed() {
    let mut b = bus();
    let mut t = Table::new();
    t.set_cheats(parse("patch=0,EE,00100000,byte,7\n"));
    t.set_cheats_enabled(true);
    t.apply_cheats(&mut b);
    assert_eq!(t.done, [true]);
    b.poke8(0x10_0000, 0);
    t.apply_cheats(&mut b);
    assert_eq!(b.peek8(0x10_0000), Some(0));
    t.rearm();
    t.apply_cheats(&mut b);
    assert_eq!(b.peek8(0x10_0000), Some(7));
}

#[test]
fn iop_commands_reach_iop_memory() {
    let mut b = bus();
    let mut t = table(vec![Cheat { target: Target::Iop, once: false, op: Op::Write { addr: 0x1000, data: vec![1, 2] } }]);
    t.apply(&mut b);
    assert_eq!(b.iop_read16(0x1000), 0x0201);
    assert_eq!(b.read16(0x1000), 0);
}

#[test]
fn commands_leave_registers_and_rom_alone() {
    let mut b = bus();
    b.write32(0x1000_F010, 4); // INTC_MASK
    let mut t = table(vec![
        ee(Op::Bitwise { addr: 0x1000_F010, width: 4, op: Bitwise::Or, value: 0xFF }),
        ee(Op::Multi { addr: 0x1FC0_0000, count: 2, stride: 1, value: 7, step: 1 }),
        ee(Op::Copy { src: 0x10_0000, dst: 0x1200_1000, len: 4 }),
    ]);
    t.apply(&mut b);
    assert_eq!(t.done, [true, true, true]);
    assert_eq!(b.read32(0x1000_F010), 4);
    assert_eq!(b.read32(0x1FC0_0000), 0);
    assert_eq!(b.read32(0x1200_1000) & 0xFF, 0);
    assert!(b.events.is_empty());
}
