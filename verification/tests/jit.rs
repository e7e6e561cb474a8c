//! The recompiler: blocks, the cache and the dispatcher.

use ps2_core::bus::memory::BIOS_SIZE;
use ps2_core::bus::regs::Region;
use ps2_core::bus::Bus;
use ps2_core::ee::cpu::{Cpu, Outcome};
use ps2_core::ee::exec::{access_size_of, load_extend, store_cut};
use ps2_core::ee::jit::arena::Arena;
use ps2_core::ee::jit::block::{draw, is_control_flow, settle, End, Item, Link, Plan, Stop, Way};
use ps2_core::ee::jit::cache::Jit;
use ps2_core::ee::jit::dispatch::Action;
use ps2_core::ee::jit::emit::{emit, Alu, BranchKind, Emitted, HostOp, HostReg, Test};
use ps2_core::ee::jit::fast::ram_fast_path;
use ps2_core::ee::jit::fetch::{fetch_block, is_idle_loop};
use ps2_core::ee::jit::native::Natives;

const BASE: u64 = 0x7000_0000;

fn bus() -> Bus {
    Bus::new(vec![0u8; BIOS_SIZE], false, Region::Ntsc)
}

fn jit() -> Jit {
    Jit::new(Arena::new(BASE, 0x400_0000).unwrap())
}

fn words(code: &[u32]) -> Vec<u32> {
    let mut w = code.to_vec();
    w.resize(66, 0);
    w
}

#[test]
fn instructions_turn_into_host_operations() {
    // addiu $t1, $t0, 1
    let (ops, to) = emit(0x1000, 0x2509_0001);
    assert_eq!(to, Emitted::Plain);
    assert_eq!(ops, [
        HostOp::LoadLow { reg: HostReg::Rax, gpr: 8 },
        HostOp::AddWord { v: 1 },
        HostOp::Extend { reg: HostReg::Rax },
        HostOp::Store { gpr: 9 },
    ]);
    // Nothing is left of a write to $zero.
    assert_eq!(emit(0x1000, 0x2500_0001), (vec![], Emitted::Plain));
    // jal: the link register is set, the target is constant.
    let (ops, to) = emit(0x1000, 0x0C00_0800);
    assert_eq!(to, Emitted::Branch(BranchKind::Jump(0x2000)));
    assert_eq!(ops.last(), Some(&HostOp::Store { gpr: 31 }));
    // bnel
    let (_, to) = emit(0x1000, 0x5509_FFFF);
    assert_eq!(to, Emitted::Branch(BranchKind::Cond { target: 0x1000, likely: true }));
    // syscall and lwl are the interpreter's.
    assert_eq!(emit(0x1000, 0x0000_000C).1, Emitted::Interp);
    assert_eq!(emit(0x1000, 0x8828_0004).1, Emitted::Interp);
}

#[test]
fn control_flow_ends_blocks() {
    for i in [0x03E0_0008, 0x0000_000C, 0x0C00_0800, 0x1000_FFFF, 0x4200_0018, 0x4501_0004] {
        assert!(is_control_flow(i), "{i:#010x}");
    }
    // addiu, ei, mtc0, bc-less COP1
    for i in [0x2509_0001, 0x4200_0038, 0x4088_6000, 0x4600_0080] {
        assert!(!is_control_flow(i), "{i:#010x}");
    }
}

#[test]
fn a_couple_costs_one_cycle() {
    // addiu $v0, $0, 1 / addiu $v1, $0, 1 / beq $0, $0, +2 / nop
    let b = draw(&Natives::all(), &words(&[0x2402_0001, 0x2403_0001, 0x1000_0002]), 0x1000, 7);
    assert_eq!((b.count, b.cycles), (4, 3));
    assert_eq!(b.stop, Stop::Branch {
        kind: BranchKind::Cond { target: 0x1014, likely: false },
        addr: 0x1008,
        instr: 0x1000_0002,
        slot: 0,
    });
    let p = settle(b, 0x1000, 7, false);
    assert_eq!(p.end, End::Cond {
        taken: Way::Linked(Link { cell: 7, target: 0x1014 }),
        fall: Link { cell: 8, target: 0x1010 },
    });
    // One address later the second of the pair leads the branch instead,
    // and leads nothing where a syscall follows.
    let b = draw(&Natives::all(), &words(&[0x2402_0001, 0x2403_0001, 0x1000_0002]), 0x1004, 7);
    assert_eq!(b.cycles, 3);
    let b = draw(&Natives::all(), &words(&[0x2402_0001, 0x2403_0001, 0x0000_000C]), 0x1004, 7);
    assert_eq!((b.count, b.cycles, b.stop), (3, 3, Stop::Stored));
}

#[test]
fn blocks_end_aligned_or_at_their_page() {
    let b = draw(&Natives::all(), &words(&[]), 0x1000, 0);
    assert_eq!((b.count, b.cycles, b.stop), (64, 32, Stop::Full { to: 0x1100 }));
    let b = draw(&Natives::all(), &words(&[]), 0x1004, 0);
    assert_eq!((b.count, b.stop), (65, Stop::Full { to: 0x1108 }));
    let b = draw(&Natives::all(), &words(&[]), 0x1FF8, 0);
    assert_eq!((b.count, b.stop), (2, Stop::Full { to: 0x2000 }));
}

#[test]
fn a_likely_branch_leaves_before_its_slot() {
    // bnel $t0, $t1, -1 / addiu
    let b = draw(&Natives::all(), &words(&[0x5509_FFFF, 0x2402_0002]), 0x1000, 3);
    let skip = Link { cell: 3, target: 0x1008 };
    assert_eq!(b.links, [skip]);
    assert!(b.items.contains(&Item::LikelySkip { link: skip, retired: 1 }));
    let p = settle(b, 0x1000, 3, false);
    let cells: Vec<usize> = p.links.iter().map(|l| l.cell).collect();
    assert_eq!(cells, [3, 4, 5]);
}

#[test]
fn a_branch_in_a_delay_slot_is_interpreted() {
    // beq with a jr in its slot
    let b = draw(&Natives::all(), &words(&[0x1000_0002, 0x03E0_0008]), 0x1000, 0);
    assert_eq!(b.stop, Stop::Stored);
    assert_eq!(b.items, [Item::Interp { addr: 0x1000, instr: 0x1000_0002, retired: 1 }]);
}

#[test]
fn the_idle_thread_is_recognised() {
    let mut b = bus();
    // Three nops before a branch back over them.
    assert!(is_idle_loop(&mut b, 0x10_000C, 0x1000_FFFC, 0));
    assert!(!is_idle_loop(&mut b, 0x10_000C, 0x1000_FFFC, 1));
    assert!(!is_idle_loop(&mut b, 0x10_000C, 0x1100_FFFC, 0));
    b.write32(0x10_0004, 0x2402_0001);
    assert!(!is_idle_loop(&mut b, 0x10_000C, 0x1000_FFFC, 0));
    // Its exit is never linked.
    let d = draw(&Natives::all(), &words(&[0x1000_FFFF]), 0x1000, 0);
    let p = settle(d, 0x1000, 0, true);
    assert_eq!(p.end, End::Cond { taken: Way::Idle(0x1000), fall: Link { cell: 0, target: 0x1008 } });
}

#[test]
fn placed_code_stays_aligned() {
    let mut a = Arena::new(BASE, 0x100).unwrap();
    assert_eq!(a.place(17), BASE);
    assert_eq!(a.place(16), BASE + 32);
    assert_eq!((a.next_addr(), a.remaining()), (BASE + 48, 0x100 - 48));
    a.reset();
    assert_eq!(a.remaining(), 0x100);
    assert!(Arena::new(u64::MAX, 0x100).is_none());
    // Any size will do; its last bytes take code, too.
    let mut b = Arena::new(BASE, 0x101).unwrap();
    assert_eq!(b.remaining(), 0x101);
    b.place(0x100);
    assert_eq!((b.place(1), b.used), (BASE + 0x100, 0x110));
}

fn plan_at(j: &mut Jit, cpu: &mut Cpu, b: &mut Bus, pc: u32) -> Plan {
    cpu.pc = pc;
    cpu.next_pc = pc + 4;
    match j.decide(cpu, b) {
        Action::Compile(p) => p,
        _ => panic!("a block at {pc:#x} already"),
    }
}

#[test]
fn blocks_are_found_linked_and_dropped() {
    let (mut j, mut cpu, mut b) = (jit(), Cpu::new(), bus());
    // j 0x2000 / nop at 0x1000; j 0x1000 / nop at 0x2000
    b.write32(0x1000, 0x0800_0800);
    b.write32(0x2000, 0x0800_0400);
    let p = plan_at(&mut j, &mut cpu, &mut b, 0x1000);
    assert_eq!((p.pc, p.count, p.links.as_slice()), (0x1000, 2, &[Link { cell: 0, target: 0x2000 }][..]));
    assert_eq!(j.install_plan(&mut b, &p, 100, 20, &vec![60]), BASE);
    assert_eq!(j.find(0x1000), Some(BASE));
    assert_eq!(j.find(0x2000), None);
    // Its exit takes the slow path until the target exists.
    assert_eq!(j.cells[0], BASE + 60);
    let p = plan_at(&mut j, &mut cpu, &mut b, 0x2000);
    let second = j.install_plan(&mut b, &p, 100, 20, &vec![60]);
    assert_eq!(second, BASE + 112);
    assert_eq!(j.cells[0], second + 20);
    assert_eq!(j.cells[1], BASE + 20);
    cpu.pc = 0x2000;
    assert!(matches!(j.decide(&mut cpu, &mut b), Action::Run(e) if e == second));
    // A write beside the code drops nothing, one into it drops its block.
    b.write32(0x2010, 1);
    j.prepare(&mut b);
    assert_eq!(j.find(0x2000), Some(second));
    b.write32(0x2004, 0);
    j.prepare(&mut b);
    assert_eq!(j.find(0x2000), None);
    assert_eq!(j.find(0x1000), Some(BASE));
    assert_eq!(j.cells[0], BASE + 60);
    assert_eq!(j.blocks_invalidated, 1);
    // Its page is unmarked, the other stays.
    assert!(b.mem.code_pages[1] && !b.mem.code_pages[2]);
    assert_eq!(b.mem.code_pages.iter().filter(|on| **on).count(), 1);
    // A TLB rewrite drops everything.
    b.ee_tlb_write(0, 0, 0, 0, 0);
    j.prepare(&mut b);
    assert_eq!(j.find(0x1000), None);
    assert_eq!(j.cells_used, 0);
    assert!(!b.jit_flush_needed && !b.mem.code_pages[1]);
}

#[test]
fn a_flush_leaves_the_request_for_one() {
    let (mut j, mut b) = (jit(), bus());
    b.ee_tlb_write(0, 0, 0, 0, 0);
    j.flush(&mut b);
    assert!(b.jit_flush_needed);
    j.prepare(&mut b);
    assert!(!b.jit_flush_needed);
}

#[test]
fn a_page_is_unmarked_by_a_note_on_it() {
    let (mut j, mut cpu, mut b) = (jit(), Cpu::new(), bus());
    // A branch in the last word of a page, its slot in the next.
    b.write32(0x1FFC, 0x0800_0800);
    let p = plan_at(&mut j, &mut cpu, &mut b, 0x1FFC);
    j.install_plan(&mut b, &p, 100, 20, &vec![60]);
    assert!(b.mem.code_pages[1] && b.mem.code_pages[2]);
    b.write32(0x2000, 0);
    j.prepare(&mut b);
    assert_eq!(j.find(0x1FFC), None);
    assert!(b.mem.code_pages[1] && !b.mem.code_pages[2]);
    // The first note on the page finds it empty.
    b.write32(0x1000, 0);
    j.prepare(&mut b);
    assert!(!b.mem.code_pages[1]);
}

#[test]
fn the_interpreter_finishes_what_a_block_left() {
    let (mut j, mut cpu, mut b) = (jit(), Cpu::new(), bus());
    b.write32(0x1004, 0x2402_0001);
    cpu.pc = 0x1004;
    cpu.next_pc = 0x2000;
    cpu.next_is_delay = true;
    assert!(matches!(j.decide(&mut cpu, &mut b), Action::Stepped(Outcome::Done)));
    assert_eq!((cpu.pc, cpu.gpr[2].lo), (0x2000, 1));
    assert_eq!(j.finish_branch(&mut cpu, &mut b), None);
    assert_eq!((j.interp_steps, j.blocks_run), (1, 0));
    cpu.pc = 0;
    assert!(matches!(j.decide(&mut cpu, &mut b), Action::Null));
    assert_eq!((j.interp_steps, j.blocks_run, j.blocks_compiled), (1, 1, 0));
}

#[test]
fn the_cache_starts_over_when_it_is_full() {
    let mut j = Jit::new(Arena::new(BASE, 0x2_0000).unwrap());
    let (mut cpu, mut b) = (Cpu::new(), bus());
    b.write32(0x1000, 0x0800_0800);
    let p = plan_at(&mut j, &mut cpu, &mut b, 0x1000);
    j.install_plan(&mut b, &p, 0x1_8000, 20, &vec![60]);
    assert_eq!((j.blocks_run, j.blocks_compiled, j.cells_used), (1, 1, 1));
    assert!(b.mem.code_pages[1]);
    plan_at(&mut j, &mut cpu, &mut b, 0x3000);
    assert_eq!((j.blocks_run, j.blocks_compiled, j.cells_used), (2, 1, 0));
    assert_eq!((j.find(0x1000), j.arena.remaining()), (None, 0x2_0000));
    assert!(!b.mem.code_pages[1]);
}

#[test]
fn a_block_is_fetched_as_far_as_it_goes() {
    let mut b = bus();
    // Nops up to the limit, and the word after it.
    assert_eq!(fetch_block(&mut b, 0x1000).len(), 65);
    // A page ends a block, a branch ends with its slot.
    assert_eq!(fetch_block(&mut b, 0x1FF8).len(), 3);
    b.write32(0x2004, 0x0800_0800);
    b.write32(0x2008, 0x2402_0001);
    assert_eq!(fetch_block(&mut b, 0x2000), [0, 0x0800_0800, 0x2402_0001]);
    // A block of 64 that would end unaligned takes one more.
    assert_eq!(fetch_block(&mut b, 0x3004).len(), 66);
}

#[test]
fn a_word_is_looked_at_before_it_is_drawn() {
    // The memory controller's answers count what was read.
    let mut b = bus();
    b.write32(0x1000_F430, 0x21 << 16);
    let words = fetch_block(&mut b, 0x1000_F43C);
    assert_eq!(words[1], 0x1F);
    assert_eq!(b.read32(0x1000_F440), 0);
    // As the first instruction it is read once.
    let mut b = bus();
    b.write32(0x1000_F430, 0x21 << 16);
    fetch_block(&mut b, 0x1000_F440);
    assert_eq!(b.read32(0x1000_F440), 0x1F);
    assert_eq!(b.read32(0x1000_F440), 0);
}

#[test]
fn accesses_have_their_width_and_sign() {
    assert_eq!([0x20, 0x25, 0x31, 0x39, 0x37].map(access_size_of), [1, 2, 4, 4, 8]);
    assert_eq!(load_extend(0x20, 0x80), 0xFFFF_FFFF_FFFF_FF80);
    assert_eq!(load_extend(0x24, 0x1_80), 0x80);
    assert_eq!(load_extend(0x23, 0x8000_0000), 0xFFFF_FFFF_8000_0000);
    assert_eq!(load_extend(0x27, 0x8000_0000), 0x8000_0000);
    assert_eq!(store_cut(2, 0x1234_5678), 0x5678);
}

#[test]
fn only_plain_ram_takes_the_fast_path() {
    assert_eq!(ram_fast_path(0x0010_0000), Some(0x10_0000));
    assert_eq!(ram_fast_path(0x8010_0000), Some(0x10_0000));
    assert_eq!(ram_fast_path(0xA010_0000), Some(0x10_0000));
    for a in [0x2010_0000, 0x1000_F000, 0x7000_0000, 0xBFC0_0000] {
        assert_eq!(ram_fast_path(a), None, "{a:#x}");
    }
}

/// A host for the operations that the block below is made of.
struct Host {
    rax: u64,
    rcx: u64,
    r13: u64,
}

impl Host {
    fn reg(&mut self, r: HostReg) -> &mut u64 {
        match r {
            HostReg::Rax => &mut self.rax,
            HostReg::Rcx => &mut self.rcx,
            HostReg::R13 => &mut self.r13,
            _ => panic!("not used"),
        }
    }

    fn test(how: Test, a: u64, b: u64) -> u64 {
        let r = match how {
            Test::Equal => a == b,
            Test::NotEqual => a != b,
            Test::Less => (a as i64) < b as i64,
            Test::NotLess => a as i64 >= b as i64,
            Test::LessOrEqual => a as i64 <= b as i64,
            Test::Greater => a as i64 > b as i64,
            Test::Below => a < b,
        };
        r as u64
    }

    fn run(&mut self, op: &HostOp, cpu: &mut Cpu, b: &mut Bus) {
        match *op {
            HostOp::Load { reg, gpr } => *self.reg(reg) = cpu.gpr[gpr as usize].lo,
            HostOp::LoadLow { reg, gpr } => *self.reg(reg) = cpu.gpr[gpr as usize].lo & 0xFFFF_FFFF,
            HostOp::Put { reg, v } => *self.reg(reg) = v,
            HostOp::Extend { reg } => *self.reg(reg) = *self.reg(reg) as i32 as u64,
            HostOp::Store { gpr } => cpu.gpr[gpr as usize].lo = self.rax,
            HostOp::AddWord { v } => self.rax = (self.rax as u32).wrapping_add(v) as u64,
            HostOp::LogicImm { op: Alu::Or, v } => self.rax |= v as u64,
            HostOp::Compare { to, how, left, right } => {
                let (x, y) = (*self.reg(left), *self.reg(right));
                *self.reg(to) = Self::test(how, x, y);
            }
            HostOp::CompareImm { to, how, left, v } => {
                let x = *self.reg(left);
                *self.reg(to) = Self::test(how, x, v);
            }
            HostOp::Read { op: 0x23 } => self.rax = b.read32(self.rax as u32) as i32 as u64,
            HostOp::Write { op: 0x2B } => b.write32(self.rax as u32, self.rcx as u32),
            _ => panic!("{op:?}"),
        }
    }
}

#[test]
fn a_block_does_what_the_interpreter_does() {
    let code = [
        0x3C0F_8000u32, // lui $15, 0x8000
        0x3C08_1234,    // lui $8, 0x1234
        0x3508_5678,    // ori $8, $8, 0x5678
        0x2509_FFFF,    // addiu $9, $8, -1
        0xADE9_0100,    // sw $9, 0x100($15)
        0x8DEA_0100,    // lw $10, 0x100($15)
        0x89EB_0103,    // lwl $11, 0x103($15), interpreted
        0x0128_602A,    // slt $12, $9, $8
        0x1580_0003,    // bne $12, $0, +3
        0x258D_0005,    // addiu $13, $12, 5
    ];
    let pc = 0x8000_1000u32;
    let (mut host_bus, mut ref_bus) = (bus(), bus());
    for (i, w) in code.iter().enumerate() {
        host_bus.write32(pc + 4 * i as u32, *w);
        ref_bus.write32(pc + 4 * i as u32, *w);
    }
    let (mut cpu, mut reference) = (Cpu::new(), Cpu::new());
    for c in [&mut cpu, &mut reference] {
        c.pc = pc;
        c.next_pc = pc + 4;
    }
    for _ in 0..code.len() {
        assert_eq!(reference.step(&mut ref_bus), Outcome::Done);
    }
    let plan = settle(draw(&Natives::all(), &words(&code), pc, 0), pc, 0, false);
    assert_eq!(plan.count as usize, code.len());
    let mut host = Host { rax: 0, rcx: 0, r13: 0 };
    for item in &plan.items {
        match item {
            Item::Op(op) => host.run(op, &mut cpu, &mut host_bus),
            Item::Interp { addr, instr, .. } => {
                assert_eq!(cpu.exec_at(&mut host_bus, *addr, *instr), (false, Outcome::Done));
            }
            Item::LikelySkip { .. } => panic!("not a likely branch"),
        }
    }
    let End::Cond { taken: Way::Linked(taken), fall } = plan.end else { panic!("{:?}", plan.end) };
    let to = if host.r13 != 0 { taken.target } else { fall.target };
    assert_eq!(to, reference.pc);
    assert_eq!(cpu.gpr, reference.gpr);
    assert_eq!(cpu.gpr[13].lo, 6);
    assert_eq!(host_bus.read32(0x8000_0100), 0x1234_5677);
    assert_eq!(ref_bus.read32(0x8000_0100), 0x1234_5677);
}

#[test]
fn a_list_limits_what_is_recompiled() {
    // addiu, sll, jr and lw; beq by its own.
    let (addiu, sll, jr, lw) = (0x2509_0001, 0x0008_4880, 0x03E0_0008, 0x8DEA_0100);
    let listed = |l: &str| Natives { list: Some(l.as_bytes().to_vec()) };
    let all = |n: &Natives| [addiu, sll, jr, lw].map(|i| n.allows(i));
    assert_eq!(all(&Natives::all()), [true; 4]);
    assert_eq!(all(&listed("")), [false; 4]);
    assert_eq!(all(&listed("load,imm")), [true, false, false, true]);
    // A SPECIAL instruction is listed by its function, too.
    assert_eq!(all(&listed("special,f00")), [false, true, false, false]);
    assert_eq!(all(&listed("special,branch,f08")), [false, false, true, false]);
    // Names are whole.
    assert_eq!(all(&listed("imms,loa")), [false; 4]);
    let d = draw(&listed("imm"), &words(&[addiu, lw, jr, addiu]), 0x1000, 0);
    assert!(matches!(d.items[4], Item::Interp { addr: 0x1004, .. }));
    assert!(matches!(d.stop, Stop::Stored));
}
