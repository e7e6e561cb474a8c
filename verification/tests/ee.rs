//! The EE interpreter.

use ps2_core::bus::memory::BIOS_SIZE;
use ps2_core::bus::regs::Region;
use ps2_core::bus::Bus;
use ps2_core::ee::cop0::Cop0;
use ps2_core::ee::cpu::{Cpu, FpuOp, Outcome};

struct System {
    ee: Cpu,
    bus: Bus,
    cycles: u64,
}

/// Build a system whose BIOS contains `code` at the reset vector.
fn system_with(code: &[u32]) -> System {
    let mut bios = vec![0u8; BIOS_SIZE];
    for (i, w) in code.iter().enumerate() {
        bios[i * 4..i * 4 + 4].copy_from_slice(&w.to_le_bytes());
    }
    System { ee: Cpu::new(), bus: Bus::new(bios, false, Region::Ntsc), cycles: 0 }
}

/// Step only the EE.
fn run_ee(sys: &mut System, n: u64) {
    for _ in 0..n {
        sys.bus.ee.now = sys.cycles;
        sys.ee.step(&mut sys.bus);
        sys.cycles += 1;
    }
}

#[test]
fn lui_ori_addiu() {
    let mut sys = system_with(&[
        0x3C08_DEAD, // lui $t0, 0xDEAD
        0x3508_BEEF, // ori $t0, $t0, 0xBEEF
        0x2509_0001, // addiu $t1, $t0, 1
    ]);
    run_ee(&mut sys, 3);
    assert_eq!(sys.ee.gpr[8].lo, 0xFFFF_FFFF_DEAD_BEEF);
    assert_eq!(sys.ee.gpr[9].lo, 0xFFFF_FFFF_DEAD_BEF0);
}

#[test]
fn branch_delay_slot_executes() {
    let mut sys = system_with(&[
        0x1000_0002, // beq $0, $0, +2 (taken)
        0x2401_0001, // addiu $at, $0, 1   (delay slot: executes)
        0x2402_0002, // addiu $v0, $0, 2   (skipped)
        0x2403_0003, // addiu $v1, $0, 3   (branch target)
    ]);
    run_ee(&mut sys, 3);
    assert_eq!(sys.ee.gpr[1].lo, 1);
    assert_eq!(sys.ee.gpr[2].lo, 0);
    assert_eq!(sys.ee.gpr[3].lo, 3);
}

#[test]
fn likely_branch_skips_delay_slot_when_not_taken() {
    let mut sys = system_with(&[
        0x5401_0002, // bnel $0, $at, +2 (not taken: $at == 0)
        0x2402_0002, // addiu $v0, $0, 2   (delay slot: skipped)
        0x2403_0003, // addiu $v1, $0, 3
    ]);
    run_ee(&mut sys, 2);
    assert_eq!(sys.ee.gpr[2].lo, 0);
    assert_eq!(sys.ee.gpr[3].lo, 3);
}

#[test]
fn jal_links_and_jumps() {
    let mut sys = system_with(&[
        0x0FF0_0004, // jal 0xBFC00010
        0x0000_0000, // nop (delay)
        0x0000_0000,
        0x0000_0000,
        0x2404_0007, // addiu $a0, $0, 7 (target)
    ]);
    run_ee(&mut sys, 3);
    assert_eq!(sys.ee.gpr[31].lo, 0xFFFF_FFFF_BFC0_0008);
    assert_eq!(sys.ee.gpr[4].lo, 7);
}

#[test]
fn sq_lq_roundtrip() {
    let mut sys = system_with(&[
        0x3C08_DEAD, // lui $t0, 0xDEAD
        0x3C01_0010, // lui $at, 0x0010 (RAM address 0x00100000)
        0x7C28_0000, // sq $t0, 0($at)
        0x7829_0000, // lq $t1, 0($at)
    ]);
    run_ee(&mut sys, 4);
    assert_eq!((sys.ee.gpr[9].lo, sys.ee.gpr[9].hi), (sys.ee.gpr[8].lo, sys.ee.gpr[8].hi));
}

#[test]
fn mult_div_pipelines() {
    let mut sys = system_with(&[
        0x2408_0006, // addiu $t0, $0, 6
        0x2409_0007, // addiu $t1, $0, 7
        0x0109_0018, // mult $t0, $t1
        0x0109_001A, // div $t0, $t1 (6/7 = 0 rem 6)
    ]);
    run_ee(&mut sys, 4);
    assert_eq!(sys.ee.lo.lo, 0); // div overwrote lo0
    assert_eq!(sys.ee.hi.lo, 6);
}

fn single(ft: u32, fs: u32, fd: u32, f: u32) -> u32 {
    (0x11 << 26) | (0x10 << 21) | (ft << 16) | (fs << 11) | (fd << 6) | f
}

#[test]
fn the_host_computes_and_the_fpu_clamps() {
    let mut sys = system_with(&[]);
    sys.ee.fpu.regs[0] = 1.5f32.to_bits();
    sys.ee.fpu.regs[1] = 2.0f32.to_bits();
    let call = match sys.ee.execute(single(1, 0, 2, 0), &mut sys.bus) {
        Outcome::Fpu(call) => call,
        other => panic!("{other:?}"),
    };
    assert_eq!((call.op, call.fd), (FpuOp::Sum, 2));
    let sum = f32::from_bits(call.a) + f32::from_bits(call.b);
    sys.ee.finish_fpu(call, sum.to_bits());
    assert_eq!(sys.ee.fpu.regs[2], 3.5f32.to_bits());
    sys.ee.finish_fpu(call, f32::INFINITY.to_bits());
    assert_eq!(sys.ee.fpu.regs[2], f32::MAX.to_bits());
    sys.ee.finish_fpu(call, f32::NEG_INFINITY.to_bits());
    assert_eq!(sys.ee.fpu.regs[2], f32::MIN.to_bits());
    sys.ee.finish_fpu(call, f32::NAN.to_bits());
    assert_eq!(sys.ee.fpu.regs[2], 0);
}

#[test]
fn abs_mov_and_neg_work_on_bits() {
    let mut sys = system_with(&[]);
    sys.ee.fpu.regs[3] = (-2.5f32).to_bits();
    for (f, want) in [(0x05, 2.5f32), (0x06, -2.5), (0x07, 2.5)] {
        assert_eq!(sys.ee.execute(single(0, 3, 4, f), &mut sys.bus), Outcome::Done);
        assert_eq!(sys.ee.fpu.regs[4], want.to_bits());
    }
}

#[test]
fn what_cannot_be_run_is_told() {
    let mut sys = system_with(&[]);
    assert_eq!(sys.ee.execute(0xEC00_0000, &mut sys.bus), Outcome::Unimplemented);
    sys.ee.gpr[8].lo = 0x01FF_FFFE;
    // lw $t1, 0($t0)
    assert_eq!(sys.ee.execute(0x8D09_0000, &mut sys.bus), Outcome::OutOfRange);
    sys.ee.pc = 0;
    assert_eq!(sys.ee.step(&mut sys.bus), Outcome::Null);
}

#[test]
fn an_exception_and_its_return() {
    let mut sys = system_with(&[
        0x0000_0000, // nop
        0x0000_000C, // syscall
    ]);
    run_ee(&mut sys, 2);
    // BEV is set after reset.
    assert_eq!(sys.ee.pc, 0xBFC0_0380);
    assert_eq!(sys.ee.cop0.regs[14], 0xBFC0_0004);
    // Reset also sets ERL, which ERET would return from first.
    let status = sys.ee.cop0.status();
    sys.ee.cop0.write(12, status & !4);
    // eret
    assert_eq!(sys.ee.execute(0x4200_0018, &mut sys.bus), Outcome::Done);
    assert_eq!(sys.ee.pc, 0xBFC0_0004);
    assert_eq!(sys.ee.cop0.status() & 2, 0);
}

#[test]
fn unaligned_halves_make_a_word() {
    let mut sys = system_with(&[]);
    for i in 0..8u32 {
        sys.bus.write8(0x10_0000 + i, 0x10 + i as u8);
    }
    sys.ee.gpr[1].lo = 0x10_0000;
    // lwr $t0, 1($at); lwl $t0, 4($at)
    assert_eq!(sys.ee.execute(0x9828_0001, &mut sys.bus), Outcome::Done);
    assert_eq!(sys.ee.execute(0x8828_0004, &mut sys.bus), Outcome::Done);
    assert_eq!(sys.ee.gpr[8].lo, 0x1413_1211);
    // And back out at another odd address: swr, swl.
    assert_eq!(sys.ee.execute(0xB828_0011, &mut sys.bus), Outcome::Done);
    assert_eq!(sys.ee.execute(0xA828_0014, &mut sys.bus), Outcome::Done);
    assert_eq!(sys.bus.read32(0x10_0010), 0x1312_1100);
    assert_eq!(sys.bus.read8(0x10_0014), 0x14);
}

#[test]
fn division_follows_the_hardware() {
    let mut sys = system_with(&[]);
    let mut div = |a: i32, b: i32, f: u32| {
        sys.ee.gpr[8].lo = a as i64 as u64;
        sys.ee.gpr[9].lo = b as i64 as u64;
        sys.ee.execute((8 << 21) | (9 << 16) | f, &mut sys.bus);
        (sys.ee.lo.lo as i64, sys.ee.hi.lo as i64)
    };
    assert_eq!(div(-7, 2, 0x1A), (-3, -1));
    assert_eq!(div(7, -2, 0x1A), (-3, 1));
    assert_eq!(div(5, 0, 0x1A), (-1, 5));
    assert_eq!(div(-5, 0, 0x1A), (1, -5));
    assert_eq!(div(i32::MIN, -1, 0x1A), (i32::MIN as i64, 0));
    assert_eq!(div(-1, 16, 0x1B), (0x0FFF_FFFF, 15));
}

#[test]
fn an_instruction_in_place_tells_whether_it_diverted() {
    let mut sys = system_with(&[]);
    // addiu $at, $0, 1 / beq $0, $0, +2
    assert_eq!(sys.ee.exec_at(&mut sys.bus, 0x10_0000, 0x2401_0001), (false, Outcome::Done));
    assert_eq!(sys.ee.gpr[1].lo, 1);
    assert_eq!(sys.ee.exec_at(&mut sys.bus, 0x10_0000, 0x1000_0002), (true, Outcome::Done));
    assert_eq!((sys.ee.pc, sys.ee.next_pc), (0x10_0004, 0x10_000C));
}

#[test]
fn lanes_stay_apart() {
    let mut sys = system_with(&[]);
    sys.ee.gpr[8].lo = 0x7FFF_FFFF_0000_0001;
    sys.ee.gpr[8].hi = 0x0000_0005_8000_0000;
    sys.ee.gpr[9].lo = 0x0000_0001_FFFF_FFFF;
    sys.ee.gpr[9].hi = 0x0000_0006_FFFF_FFFF;
    // paddw $t2, $t0, $t1
    assert_eq!(sys.ee.execute(0x7109_5008, &mut sys.bus), Outcome::Done);
    assert_eq!((sys.ee.gpr[10].lo, sys.ee.gpr[10].hi), (0x8000_0000_0000_0000, 0x0000_000B_7FFF_FFFF));
    // paddsw saturates.
    assert_eq!(sys.ee.execute(0x7109_5408, &mut sys.bus), Outcome::Done);
    assert_eq!((sys.ee.gpr[10].lo, sys.ee.gpr[10].hi), (0x7FFF_FFFF_0000_0000, 0x0000_000B_8000_0000));
}

#[test]
fn eret_goes_back_to_the_branch_of_a_delay_slot() {
    let mut c = Cop0::default();
    c.write(12, 0x0001_0001);
    c.enter_exception(8, 0x1004, true);
    assert_eq!(c.status() & 2, 2);
    assert_eq!(c.eret(), 0x1000);
    assert_eq!(c.status(), 0x0001_0001);
    c.enter_exception(8, 0x1004, false);
    assert_eq!(c.eret(), 0x1004);
}
