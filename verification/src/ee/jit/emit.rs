//! Native translation of individual EE instructions.
//!
//! Register file model: every GPR lives in memory, so an instruction is a
//! few loads, an ALU op and a store. Fixed roles: r13 = pending branch
//! condition, r14 = pending jump target; rax, rcx, rdx are scratch. Results
//! are sign-extended into 64 bits exactly as the interpreter's `set32` does.

use vstd::prelude::*;
use crate::ee::cpu::{
    amount, function, immediate, jump_of, jump_target, relative, relative_of, simm, FpuOp,
};
use crate::ee::exec::{fpu_function, opcode};
use crate::ee::alu::{low32, sext32};

verus! {

/// Host registers.
#[derive(Clone, Copy, PartialEq, Eq, Structural, Debug)]
pub enum HostReg {
    Rax,
    Rcx,
    Rdx,
    R13,
    R14,
}

/// Two-operand operations.
#[derive(Clone, Copy, PartialEq, Eq, Structural, Debug)]
pub enum Alu {
    Plus,
    Minus,
    And,
    Or,
    Xor,
    Nor,
}

#[derive(Clone, Copy, PartialEq, Eq, Structural, Debug)]
pub enum ShiftKind {
    Left,
    Right,
    Arithmetic,
}

/// Comparisons.
#[derive(Clone, Copy, PartialEq, Eq, Structural, Debug)]
pub enum Test {
    Equal,
    NotEqual,
    /// Signed.
    Less,
    NotLess,
    LessOrEqual,
    Greater,
    /// Unsigned.
    Below,
}

/// One host operation, or a short fixed sequence of them. 32-bit results
/// are zero-extended, as the host does.
#[allow(inconsistent_fields)]
#[derive(Clone, Copy, PartialEq, Eq, Structural, Debug)]
pub enum HostOp {
    /// 64 bits of a GPR.
    Load { reg: HostReg, gpr: u32 },
    /// 32 bits of a GPR.
    LoadLow { reg: HostReg, gpr: u32 },
    /// A constant.
    Put { reg: HostReg, v: u64 },
    /// movsxd: the low word sign-extended.
    Extend { reg: HostReg },
    /// rax to a GPR's low half.
    Store { gpr: u32 },
    /// rax to a GPR's low half if rcx is zero (or not).
    StoreIf { gpr: u32, zero: bool },
    /// eax += v.
    AddWord { v: u32 },
    /// rax += v.
    AddDouble { v: u64 },
    /// rax with a zero-extended immediate.
    LogicImm { op: Alu, v: u32 },
    /// eax with ecx.
    Word { op: Alu },
    /// rax with rcx.
    Double { op: Alu },
    ShiftWord { kind: ShiftKind, n: u32 },
    /// By cl, which the host masks.
    ShiftWordCl { kind: ShiftKind },
    ShiftDouble { kind: ShiftKind, n: u32 },
    ShiftDoubleCl { kind: ShiftKind },
    /// Compare 64 bits into a flag.
    Compare { to: HostReg, how: Test, left: HostReg, right: HostReg },
    CompareImm { to: HostReg, how: Test, left: HostReg, v: u64 },
    /// HI or LO of a pipeline.
    LoadPipe { hi: bool, second: bool },
    StorePipe { hi: bool, second: bool, from: HostReg },
    /// edx:eax = eax * ecx.
    Multiply { signed: bool },
    /// eax = eax / ecx, edx = the remainder, with the EE's special cases.
    Divide { signed: bool },
    LoadSa,
    StoreSa,
    // Helpers.
    /// eax = a COP0 register.
    Cop0Read { reg: u32 },
    /// A COP0 register = eax.
    Cop0Write { reg: u32 },
    SetEie { on: bool },
    Mmi { instr: u32 },
    Cop2 { instr: u32 },
    // Memory; the address is in eax.
    /// rax = what a load instruction reads, extended.
    Read { op: u32 },
    /// What a store instruction writes, from rcx.
    Write { op: u32 },
    /// eax aligned down to a quadword.
    AlignQuad,
    ReadQuad { gpr: u32 },
    WriteQuad { gpr: u32 },
    ReadQuadVu { vf: u32 },
    WriteQuadVu { vf: u32 },
    // FPU.
    LoadFpr { fpr: u32 },
    /// FPR bits to ecx.
    LoadFprCx { fpr: u32 },
    StoreFpr { fpr: u32 },
    /// eax with an immediate, on bit patterns.
    AndWord { v: u32 },
    XorWord { v: u32 },
    /// r13 = the condition (or its negation).
    LoadCondition { negated: bool },
    ClearCondition,
    /// A single-precision operation on registers, clamped and stored as the
    /// interpreter does.
    Single { op: FpuOp, fd: u32, fs: u32, ft: u32 },
}

#[derive(Clone, Copy, PartialEq, Eq, Structural, Debug)]
pub enum BranchKind {
    /// Unconditional to a constant target.
    Jump(u32),
    /// Unconditional to the address in r14.
    JumpReg,
    /// Conditional (r13 != 0: taken) to a constant target; `likely` skips
    /// the delay slot when not taken.
    Cond { target: u32, likely: bool },
}

/// What a decoded instruction turned into.
#[derive(Clone, Copy, PartialEq, Eq, Structural, Debug)]
pub enum Emitted {
    /// Plain instruction, control falls through.
    Plain,
    /// The instruction was not translated (the interpreter runs it).
    Interp,
    /// A branch/jump: the condition (r13) / target (r14) and any link
    /// register are set; the delay slot and the exits follow.
    Branch(BranchKind),
}

/// Operations and what becomes of the instruction.
pub struct Lowered {
    pub ops: Seq<HostOp>,
    pub to: Emitted,
}

pub open spec fn plain(ops: Seq<HostOp>) -> Lowered {
    Lowered { ops, to: Emitted::Plain }
}

pub open spec fn interp() -> Lowered {
    Lowered { ops: seq![], to: Emitted::Interp }
}

pub open spec fn branch(ops: Seq<HostOp>, kind: BranchKind) -> Lowered {
    Lowered { ops, to: Emitted::Branch(kind) }
}

/// Operations for nothing where the destination is the zero register.
pub open spec fn into(gpr: u32, ops: Seq<HostOp>) -> Lowered {
    if gpr == 0 {
        plain(seq![])
    } else {
        plain(ops)
    }
}

/// Register fields as they stand in operations.
pub open spec fn field_s(instr: u32) -> u32 {
    (instr / 0x20_0000) % 32
}

pub open spec fn field_t(instr: u32) -> u32 {
    (instr / 0x1_0000) % 32
}

pub open spec fn field_d(instr: u32) -> u32 {
    (instr / 0x800) % 32
}

pub open spec fn shift_kind(f: u32) -> ShiftKind {
    if f % 4 == 0 {
        ShiftKind::Left
    } else if f % 4 == 2 {
        ShiftKind::Right
    } else {
        ShiftKind::Arithmetic
    }
}

fn kind_of(f: u32) -> (k: ShiftKind)
    ensures
        k == shift_kind(f),
{
    match f % 4 {
        0 => ShiftKind::Left,
        2 => ShiftKind::Right,
        _ => ShiftKind::Arithmetic,
    }
}

/// SPECIAL.
pub open spec fn lower_special(addr: u32, instr: u32) -> Lowered {
    special_ops(addr, function(instr), field_s(instr), field_t(instr), field_d(instr), amount(instr))
}

/// SPECIAL, by its fields.
#[verifier::opaque]
pub open spec fn special_ops(addr: u32, f: u32, s: u32, t: u32, d: u32, n: u32) -> Lowered {
    let load_s = HostOp::Load { reg: HostReg::Rax, gpr: s };
    let load_t = HostOp::Load { reg: HostReg::Rax, gpr: t };
    let load_s_cx = HostOp::Load { reg: HostReg::Rcx, gpr: s };
    let load_t_cx = HostOp::Load { reg: HostReg::Rcx, gpr: t };
    let low_s = HostOp::LoadLow { reg: HostReg::Rax, gpr: s };
    let low_t = HostOp::LoadLow { reg: HostReg::Rax, gpr: t };
    let low_s_cx = HostOp::LoadLow { reg: HostReg::Rcx, gpr: s };
    let low_t_cx = HostOp::LoadLow { reg: HostReg::Rcx, gpr: t };
    let extend = HostOp::Extend { reg: HostReg::Rax };
    let store = HostOp::Store { gpr: d };
    match f {
        // sll / srl / sra
        0x00 | 0x02 | 0x03 => into(d, seq![low_t, HostOp::ShiftWord { kind: shift_kind(f), n }, extend, store]),
        // sllv / srlv / srav
        0x04 | 0x06 | 0x07 => into(
            d,
            seq![low_s_cx, low_t, HostOp::ShiftWordCl { kind: shift_kind(f) }, extend, store],
        ),
        // jr / jalr
        0x08 => branch(seq![HostOp::LoadLow { reg: HostReg::R14, gpr: s }], BranchKind::JumpReg),
        0x09 => branch(
            if d == 0 {
                seq![HostOp::LoadLow { reg: HostReg::R14, gpr: s }]
            } else {
                seq![
                    HostOp::LoadLow { reg: HostReg::R14, gpr: s },
                    HostOp::Put { reg: HostReg::Rax, v: addr.wrapping_add(8) as u64 },
                    extend,
                    store,
                ]
            },
            BranchKind::JumpReg,
        ),
        // movz / movn
        0x0A => into(d, seq![load_t_cx, load_s, HostOp::StoreIf { gpr: d, zero: true }]),
        0x0B => into(d, seq![load_t_cx, load_s, HostOp::StoreIf { gpr: d, zero: false }]),
        // sync
        0x0F => plain(seq![]),
        // mfhi / mthi / mflo / mtlo
        0x10 => into(d, seq![HostOp::LoadPipe { hi: true, second: false }, store]),
        0x11 => plain(seq![load_s, HostOp::StorePipe { hi: true, second: false, from: HostReg::Rax }]),
        0x12 => into(d, seq![HostOp::LoadPipe { hi: false, second: false }, store]),
        0x13 => plain(seq![load_s, HostOp::StorePipe { hi: false, second: false, from: HostReg::Rax }]),
        // mult / multu / div / divu
        0x18 => lower_mult(s, t, d, false, true),
        0x19 => lower_mult(s, t, d, false, false),
        0x1A => lower_div(s, t, false, true),
        0x1B => lower_div(s, t, false, false),
        // dsllv / dsrlv / dsrav
        0x14 | 0x16 | 0x17 => into(
            d,
            seq![low_s_cx, load_t, HostOp::ShiftDoubleCl { kind: shift_kind(f) }, store],
        ),
        // add / addu / sub / subu
        0x20 | 0x21 => into(d, seq![low_s, low_t_cx, HostOp::Word { op: Alu::Plus }, extend, store]),
        0x22 | 0x23 => into(d, seq![low_s, low_t_cx, HostOp::Word { op: Alu::Minus }, extend, store]),
        // and / or / xor / nor
        0x24 => into(d, seq![load_s, load_t_cx, HostOp::Double { op: Alu::And }, store]),
        0x25 => into(d, seq![load_s, load_t_cx, HostOp::Double { op: Alu::Or }, store]),
        0x26 => into(d, seq![load_s, load_t_cx, HostOp::Double { op: Alu::Xor }, store]),
        0x27 => into(d, seq![load_s, load_t_cx, HostOp::Double { op: Alu::Nor }, store]),
        // mfsa / mtsa
        0x28 => into(d, seq![HostOp::LoadSa, store]),
        0x29 => plain(seq![low_s, HostOp::StoreSa]),
        // slt / sltu
        0x2A => into(
            d,
            seq![
                load_s_cx,
                load_t,
                HostOp::Compare { to: HostReg::Rax, how: Test::Less, left: HostReg::Rcx, right: HostReg::Rax },
                store,
            ],
        ),
        0x2B => into(
            d,
            seq![
                load_s_cx,
                load_t,
                HostOp::Compare { to: HostReg::Rax, how: Test::Below, left: HostReg::Rcx, right: HostReg::Rax },
                store,
            ],
        ),
        // dadd / daddu / dsub / dsubu
        0x2C | 0x2D => into(d, seq![load_s, load_t_cx, HostOp::Double { op: Alu::Plus }, store]),
        0x2E | 0x2F => into(d, seq![load_s, load_t_cx, HostOp::Double { op: Alu::Minus }, store]),
        // dsll / dsrl / dsra and the forms by 32 more
        0x38 | 0x3A | 0x3B => into(d, seq![load_t, HostOp::ShiftDouble { kind: shift_kind(f), n }, store]),
        0x3C | 0x3E | 0x3F => into(
            d,
            seq![load_t, HostOp::ShiftDouble { kind: shift_kind(f), n: (n + 32) as u32 }, store],
        ),
        _ => interp(),
    }
}

/// mult/multu: LO/HI get the sign-extended halves; rd gets LO.
pub open spec fn lower_mult(s: u32, t: u32, d: u32, second: bool, signed: bool) -> Lowered {
    let head = seq![
        HostOp::LoadLow { reg: HostReg::Rax, gpr: s },
        HostOp::LoadLow { reg: HostReg::Rcx, gpr: t },
        HostOp::Multiply { signed },
        HostOp::Extend { reg: HostReg::Rax },
        HostOp::Extend { reg: HostReg::Rdx },
        HostOp::StorePipe { hi: false, second, from: HostReg::Rax },
        HostOp::StorePipe { hi: true, second, from: HostReg::Rdx },
    ];
    plain(
        if d == 0 {
            head
        } else {
            head.push(HostOp::Store { gpr: d })
        },
    )
}

pub open spec fn lower_div(s: u32, t: u32, second: bool, signed: bool) -> Lowered {
    plain(
        seq![
            HostOp::LoadLow { reg: HostReg::Rax, gpr: s },
            HostOp::LoadLow { reg: HostReg::Rcx, gpr: t },
            HostOp::Divide { signed },
            HostOp::Extend { reg: HostReg::Rax },
            HostOp::Extend { reg: HostReg::Rdx },
            HostOp::StorePipe { hi: false, second, from: HostReg::Rax },
            HostOp::StorePipe { hi: true, second, from: HostReg::Rdx },
        ],
    )
}

/// REGIMM: bltz / bgez, their likely and linking forms.
pub open spec fn lower_regimm(addr: u32, instr: u32) -> Lowered {
    let (s, t) = (field_s(instr), field_t(instr));
    let target = relative(addr.wrapping_add(4), immediate(instr));
    let how = if t % 2 == 0 {
        Test::Less
    } else {
        Test::NotLess
    };
    let head = seq![
        HostOp::Load { reg: HostReg::Rax, gpr: s },
        HostOp::CompareImm { to: HostReg::R13, how, left: HostReg::Rax, v: 0 },
    ];
    let kind = BranchKind::Cond { target, likely: t / 2 % 2 == 1 };
    if t < 4 {
        branch(head, kind)
    } else if 0x10 <= t < 0x14 {
        branch(
            seq![
                HostOp::Load { reg: HostReg::Rax, gpr: s },
                HostOp::CompareImm { to: HostReg::R13, how, left: HostReg::Rax, v: 0 },
                HostOp::Put { reg: HostReg::Rax, v: addr.wrapping_add(8) as u64 },
                HostOp::Extend { reg: HostReg::Rax },
                HostOp::Store { gpr: 31 },
            ],
            kind,
        )
    } else {
        interp()
    }
}

/// MMI: pipe-1 HI/LO moves, mult1/div1 natively; the 128-bit multimedia ops
/// through the interpreter's handler.
pub open spec fn lower_mmi(instr: u32) -> Lowered {
    let (s, t, d) = (field_s(instr), field_t(instr), field_d(instr));
    let load_s = HostOp::Load { reg: HostReg::Rax, gpr: s };
    let store = HostOp::Store { gpr: d };
    match function(instr) {
        0x10 => into(d, seq![HostOp::LoadPipe { hi: true, second: true }, store]),
        0x11 => plain(seq![load_s, HostOp::StorePipe { hi: true, second: true, from: HostReg::Rax }]),
        0x12 => into(d, seq![HostOp::LoadPipe { hi: false, second: true }, store]),
        0x13 => plain(seq![load_s, HostOp::StorePipe { hi: false, second: true, from: HostReg::Rax }]),
        0x18 => lower_mult(s, t, d, true, true),
        0x19 => lower_mult(s, t, d, true, false),
        0x1A => lower_div(s, t, true, true),
        0x1B => lower_div(s, t, true, false),
        _ => plain(seq![HostOp::Mmi { instr }]),
    }
}

/// COP0: mfc0, mtc0 and the ei/di pair; eret and the TLB group divert or
/// touch state the translator does not model.
pub open spec fn lower_cop0(instr: u32) -> Lowered {
    let (s, t, d) = (field_s(instr), field_t(instr), field_d(instr));
    let f = function(instr);
    if s == 0 {
        plain(
            if t == 0 {
                seq![HostOp::Cop0Read { reg: d }]
            } else {
                seq![HostOp::Cop0Read { reg: d }, HostOp::Extend { reg: HostReg::Rax }, HostOp::Store { gpr: t }]
            },
        )
    } else if s == 4 {
        plain(seq![HostOp::LoadLow { reg: HostReg::Rax, gpr: t }, HostOp::Cop0Write { reg: d }])
    } else if s >= 0x10 && (f == 0x38 || f == 0x39) {
        plain(seq![HostOp::SetEie { on: f == 0x38 }])
    } else {
        interp()
    }
}

/// COP1: moves, branches on the condition flag, and single-precision
/// arithmetic with the interpreter's NaN/Inf clamping.
pub open spec fn lower_cop1(addr: u32, instr: u32) -> Lowered {
    let (s, t, d) = (field_s(instr), field_t(instr), field_d(instr));
    let fd = amount(instr);
    let f = function(instr);
    if s == 0x00 {
        into(
            t,
            seq![HostOp::LoadFpr { fpr: d }, HostOp::Extend { reg: HostReg::Rax }, HostOp::Store { gpr: t }],
        )
    } else if s == 0x04 {
        plain(seq![HostOp::LoadLow { reg: HostReg::Rax, gpr: t }, HostOp::StoreFpr { fpr: d }])
    } else if s == 0x08 && t < 4 {
        branch(
            seq![HostOp::LoadCondition { negated: t % 2 == 0 }],
            BranchKind::Cond { target: relative(addr.wrapping_add(4), immediate(instr)), likely: t >= 2 },
        )
    } else if s == 0x10 {
        match f {
            // abs.s / mov.s / neg.s
            0x05 => plain(
                seq![HostOp::LoadFpr { fpr: d }, HostOp::AndWord { v: 0x7FFF_FFFF }, HostOp::StoreFpr { fpr: fd }],
            ),
            0x06 => plain(seq![HostOp::LoadFpr { fpr: d }, HostOp::StoreFpr { fpr: fd }]),
            0x07 => plain(
                seq![HostOp::LoadFpr { fpr: d }, HostOp::XorWord { v: 0x8000_0000 }, HostOp::StoreFpr { fpr: fd }],
            ),
            // c.f
            0x30 => plain(seq![HostOp::ClearCondition]),
            // max.s and min.s are the interpreter's.
            0x28 | 0x29 => interp(),
            _ => match fpu_function(f) {
                Some(op) => plain(seq![HostOp::Single { op, fd, fs: d, ft: t }]),
                None => interp(),
            },
        }
    } else if s == 0x14 && f == 0x20 {
        plain(seq![HostOp::Single { op: FpuOp::FromWord, fd, fs: d, ft: t }])
    } else {
        interp()
    }
}

/// Immediate forms.
pub open spec fn lower_immediate(instr: u32) -> Lowered {
    let (s, t) = (field_s(instr), field_t(instr));
    let imm = immediate(instr);
    let load = HostOp::Load { reg: HostReg::Rax, gpr: s };
    let store = HostOp::Store { gpr: t };
    match opcode(instr) {
        // addi / addiu
        0x08 | 0x09 => into(
            t,
            seq![
                HostOp::LoadLow { reg: HostReg::Rax, gpr: s },
                HostOp::AddWord { v: low32(simm(imm)) },
                HostOp::Extend { reg: HostReg::Rax },
                store,
            ],
        ),
        // slti / sltiu
        0x0A => into(
            t,
            seq![
                HostOp::Load { reg: HostReg::Rcx, gpr: s },
                HostOp::CompareImm { to: HostReg::Rax, how: Test::Less, left: HostReg::Rcx, v: simm(imm) },
                store,
            ],
        ),
        0x0B => into(
            t,
            seq![
                HostOp::Load { reg: HostReg::Rcx, gpr: s },
                HostOp::CompareImm { to: HostReg::Rax, how: Test::Below, left: HostReg::Rcx, v: simm(imm) },
                store,
            ],
        ),
        // andi / ori / xori
        0x0C => into(t, seq![load, HostOp::LogicImm { op: Alu::And, v: imm }, store]),
        0x0D => into(t, seq![load, HostOp::LogicImm { op: Alu::Or, v: imm }, store]),
        0x0E => into(t, seq![load, HostOp::LogicImm { op: Alu::Xor, v: imm }, store]),
        // lui
        0x0F => into(
            t,
            seq![HostOp::Put { reg: HostReg::Rax, v: sext32((imm * 0x1_0000) as u32) }, store],
        ),
        // daddi / daddiu
        _ => into(t, seq![load, HostOp::AddDouble { v: simm(imm) }, store]),
    }
}

/// beq, bne, blez, bgtz and their likely forms.
pub open spec fn lower_branch(addr: u32, instr: u32) -> Lowered {
    let op = opcode(instr);
    let (s, t) = (field_s(instr), field_t(instr));
    let kind = BranchKind::Cond { target: relative(addr.wrapping_add(4), immediate(instr)), likely: op >= 0x14 };
    let load = HostOp::Load { reg: HostReg::Rax, gpr: s };
    if op == 0x04 || op == 0x05 || op == 0x14 || op == 0x15 {
        branch(
            seq![
                load,
                HostOp::Load { reg: HostReg::Rcx, gpr: t },
                HostOp::Compare {
                    to: HostReg::R13,
                    how: if op % 2 == 0 {
                        Test::Equal
                    } else {
                        Test::NotEqual
                    },
                    left: HostReg::Rax,
                    right: HostReg::Rcx,
                },
            ],
            kind,
        )
    } else {
        branch(
            seq![
                load,
                HostOp::CompareImm {
                    to: HostReg::R13,
                    how: if op % 2 == 0 {
                        Test::LessOrEqual
                    } else {
                        Test::Greater
                    },
                    left: HostReg::Rax,
                    v: 0,
                },
            ],
            kind,
        )
    }
}

/// The address of a load or store into eax.
pub open spec fn address_ops(instr: u32) -> Seq<HostOp> {
    seq![
        HostOp::LoadLow { reg: HostReg::Rax, gpr: field_s(instr) },
        HostOp::AddWord { v: low32(simm(immediate(instr))) },
    ]
}

/// Loads and stores.
pub open spec fn lower_access(instr: u32) -> Lowered {
    let op = opcode(instr);
    let t = field_t(instr);
    let at = address_ops(instr);
    match op {
        0x20 | 0x21 | 0x23 | 0x24 | 0x25 | 0x27 | 0x37 => plain(
            if t == 0 {
                at.push(HostOp::Read { op })
            } else {
                at.push(HostOp::Read { op }).push(HostOp::Store { gpr: t })
            },
        ),
        0x31 => plain(at.push(HostOp::Read { op }).push(HostOp::StoreFpr { fpr: t })),
        0x28 | 0x29 | 0x2B | 0x3F => plain(
            at.push(HostOp::Load { reg: HostReg::Rcx, gpr: t }).push(HostOp::Write { op }),
        ),
        0x39 => plain(at.push(HostOp::LoadFprCx { fpr: t }).push(HostOp::Write { op })),
        // lq / sq
        0x1E => plain(
            if t == 0 {
                // No side effects on RAM: the read is skipped.
                at.push(HostOp::AlignQuad)
            } else {
                at.push(HostOp::AlignQuad).push(HostOp::ReadQuad { gpr: t })
            },
        ),
        0x1F => plain(at.push(HostOp::AlignQuad).push(HostOp::WriteQuad { gpr: t })),
        // lqc2 / sqc2
        0x36 => plain(
            if t == 0 {
                at.push(HostOp::AlignQuad)
            } else {
                at.push(HostOp::AlignQuad).push(HostOp::ReadQuadVu { vf: t })
            },
        ),
        0x3E => plain(at.push(HostOp::AlignQuad).push(HostOp::WriteQuadVu { vf: t })),
        _ => interp(),
    }
}

/// What an instruction at `addr` turns into.
#[verifier::opaque]
pub open spec fn lower(addr: u32, instr: u32) -> Lowered {
    match opcode(instr) {
        0x00 => lower_special(addr, instr),
        0x01 => lower_regimm(addr, instr),
        // j / jal
        0x02 => branch(seq![], BranchKind::Jump(jump_target(addr.wrapping_add(4), instr))),
        0x03 => branch(
            seq![
                HostOp::Put { reg: HostReg::Rax, v: addr.wrapping_add(8) as u64 },
                HostOp::Extend { reg: HostReg::Rax },
                HostOp::Store { gpr: 31 },
            ],
            BranchKind::Jump(jump_target(addr.wrapping_add(4), instr)),
        ),
        0x04 | 0x05 | 0x06 | 0x07 | 0x14 | 0x15 | 0x16 | 0x17 => lower_branch(addr, instr),
        0x08 | 0x09 | 0x0A | 0x0B | 0x0C | 0x0D | 0x0E | 0x0F | 0x18 | 0x19 => lower_immediate(instr),
        0x10 => lower_cop0(instr),
        0x11 => lower_cop1(addr, instr),
        // COP2 macro ops (not bc2): the interpreter's handler.
        0x12 => if field_s(instr) == 8 {
            interp()
        } else {
            plain(seq![HostOp::Cop2 { instr }])
        },
        0x1C => lower_mmi(instr),
        // cache
        0x2F => plain(seq![]),
        _ => lower_access(instr),
    }
}

// --- emission ---------------------------------------------------------------------

fn t_or_nothing(gpr: u32, ops: Vec<HostOp>) -> (r: Vec<HostOp>)
    ensures
        r@ == into(gpr, ops@).ops,
{
    if gpr == 0 {
        Vec::new()
    } else {
        ops
    }
}

fn emit_mult(s: u32, t: u32, d: u32, second: bool, signed: bool) -> (r: Vec<HostOp>)
    ensures
        r@ == lower_mult(s, t, d, second, signed).ops,
{
    let mut r: Vec<HostOp> = vec![
        HostOp::LoadLow { reg: HostReg::Rax, gpr: s },
        HostOp::LoadLow { reg: HostReg::Rcx, gpr: t },
        HostOp::Multiply { signed },
        HostOp::Extend { reg: HostReg::Rax },
        HostOp::Extend { reg: HostReg::Rdx },
        HostOp::StorePipe { hi: false, second, from: HostReg::Rax },
        HostOp::StorePipe { hi: true, second, from: HostReg::Rdx },
    ];
    if d != 0 {
        r.push(HostOp::Store { gpr: d });
    }
    assert(r@ =~= lower_mult(s, t, d, second, signed).ops);
    r
}

fn emit_div(s: u32, t: u32, second: bool, signed: bool) -> (r: Vec<HostOp>)
    ensures
        r@ == lower_div(s, t, second, signed).ops,
{
    let r: Vec<HostOp> = vec![
        HostOp::LoadLow { reg: HostReg::Rax, gpr: s },
        HostOp::LoadLow { reg: HostReg::Rcx, gpr: t },
        HostOp::Divide { signed },
        HostOp::Extend { reg: HostReg::Rax },
        HostOp::Extend { reg: HostReg::Rdx },
        HostOp::StorePipe { hi: false, second, from: HostReg::Rax },
        HostOp::StorePipe { hi: true, second, from: HostReg::Rdx },
    ];
    assert(r@ =~= lower_div(s, t, second, signed).ops);
    r
}

fn emit_special(addr: u32, instr: u32) -> (r: (Vec<HostOp>, Emitted))
    ensures
        r.0@ == lower_special(addr, instr).ops,
        r.1 == lower_special(addr, instr).to,
{
    proof {
        reveal(special_ops);
    }
    let f: u32 = instr % 64;
    let (s, t, d): (u32, u32, u32) = (instr / 0x20_0000 % 32, instr / 0x1_0000 % 32, instr / 0x800 % 32);
    let n: u32 = instr / 64 % 32;
    let load_s = HostOp::Load { reg: HostReg::Rax, gpr: s };
    let load_t = HostOp::Load { reg: HostReg::Rax, gpr: t };
    let load_s_cx = HostOp::Load { reg: HostReg::Rcx, gpr: s };
    let load_t_cx = HostOp::Load { reg: HostReg::Rcx, gpr: t };
    let low_s = HostOp::LoadLow { reg: HostReg::Rax, gpr: s };
    let low_t = HostOp::LoadLow { reg: HostReg::Rax, gpr: t };
    let low_s_cx = HostOp::LoadLow { reg: HostReg::Rcx, gpr: s };
    let low_t_cx = HostOp::LoadLow { reg: HostReg::Rcx, gpr: t };
    let extend = HostOp::Extend { reg: HostReg::Rax };
    let store = HostOp::Store { gpr: d };
    // Instructions that may leave the zero register alone come first.
    let ops: Vec<HostOp> = match f {
        0x00 | 0x02 | 0x03 => vec![low_t, HostOp::ShiftWord { kind: kind_of(f), n }, extend, store],
        0x04 | 0x06 | 0x07 => vec![low_s_cx, low_t, HostOp::ShiftWordCl { kind: kind_of(f) }, extend, store],
        0x0A => vec![load_t_cx, load_s, HostOp::StoreIf { gpr: d, zero: true }],
        0x0B => vec![load_t_cx, load_s, HostOp::StoreIf { gpr: d, zero: false }],
        0x10 => vec![HostOp::LoadPipe { hi: true, second: false }, store],
        0x12 => vec![HostOp::LoadPipe { hi: false, second: false }, store],
        0x14 | 0x16 | 0x17 => vec![low_s_cx, load_t, HostOp::ShiftDoubleCl { kind: kind_of(f) }, store],
        0x20 | 0x21 => vec![low_s, low_t_cx, HostOp::Word { op: Alu::Plus }, extend, store],
        0x22 | 0x23 => vec![low_s, low_t_cx, HostOp::Word { op: Alu::Minus }, extend, store],
        0x24 => vec![load_s, load_t_cx, HostOp::Double { op: Alu::And }, store],
        0x25 => vec![load_s, load_t_cx, HostOp::Double { op: Alu::Or }, store],
        0x26 => vec![load_s, load_t_cx, HostOp::Double { op: Alu::Xor }, store],
        0x27 => vec![load_s, load_t_cx, HostOp::Double { op: Alu::Nor }, store],
        0x28 => vec![HostOp::LoadSa, store],
        0x2A => vec![
            load_s_cx,
            load_t,
            HostOp::Compare { to: HostReg::Rax, how: Test::Less, left: HostReg::Rcx, right: HostReg::Rax },
            store,
        ],
        0x2B => vec![
            load_s_cx,
            load_t,
            HostOp::Compare { to: HostReg::Rax, how: Test::Below, left: HostReg::Rcx, right: HostReg::Rax },
            store,
        ],
        0x2C | 0x2D => vec![load_s, load_t_cx, HostOp::Double { op: Alu::Plus }, store],
        0x2E | 0x2F => vec![load_s, load_t_cx, HostOp::Double { op: Alu::Minus }, store],
        0x38 | 0x3A | 0x3B => vec![load_t, HostOp::ShiftDouble { kind: kind_of(f), n }, store],
        0x3C | 0x3E | 0x3F => vec![load_t, HostOp::ShiftDouble { kind: kind_of(f), n: n + 32 }, store],
        _ => {
            return emit_special_rest(addr, instr);
        },
    };
    let r = (t_or_nothing(d, ops), Emitted::Plain);
    assert(r.0@ =~= lower_special(addr, instr).ops);
    r
}

fn emit_special_rest(addr: u32, instr: u32) -> (r: (Vec<HostOp>, Emitted))
    requires
        ({
            let f = function(instr);
            f == 0x08 || f == 0x09 || f == 0x0F || f == 0x11 || f == 0x13 || f == 0x18 || f == 0x19 || f == 0x1A || f
                == 0x1B || f == 0x29 || lower_special(addr, instr) == interp()
        }),
    ensures
        r.0@ == lower_special(addr, instr).ops,
        r.1 == lower_special(addr, instr).to,
{
    proof {
        reveal(special_ops);
    }
    let f: u32 = instr % 64;
    let (s, t, d): (u32, u32, u32) = (instr / 0x20_0000 % 32, instr / 0x1_0000 % 32, instr / 0x800 % 32);
    let load_s = HostOp::Load { reg: HostReg::Rax, gpr: s };
    let jump_s = HostOp::LoadLow { reg: HostReg::R14, gpr: s };
    let r: (Vec<HostOp>, Emitted) = match f {
        0x08 => (vec![jump_s], Emitted::Branch(BranchKind::JumpReg)),
        0x09 => {
            if d == 0 {
                (vec![jump_s], Emitted::Branch(BranchKind::JumpReg))
            } else {
                (
                    vec![
                        jump_s,
                        HostOp::Put { reg: HostReg::Rax, v: addr.wrapping_add(8) as u64 },
                        HostOp::Extend { reg: HostReg::Rax },
                        HostOp::Store { gpr: d },
                    ],
                    Emitted::Branch(BranchKind::JumpReg),
                )
            }
        },
        0x0F => (Vec::new(), Emitted::Plain),
        0x11 => (vec![load_s, HostOp::StorePipe { hi: true, second: false, from: HostReg::Rax }], Emitted::Plain),
        0x13 => (vec![load_s, HostOp::StorePipe { hi: false, second: false, from: HostReg::Rax }], Emitted::Plain),
        0x18 => (emit_mult(s, t, d, false, true), Emitted::Plain),
        0x19 => (emit_mult(s, t, d, false, false), Emitted::Plain),
        0x1A => (emit_div(s, t, false, true), Emitted::Plain),
        0x1B => (emit_div(s, t, false, false), Emitted::Plain),
        0x29 => (vec![HostOp::LoadLow { reg: HostReg::Rax, gpr: s }, HostOp::StoreSa], Emitted::Plain),
        _ => (Vec::new(), Emitted::Interp),
    };
    assert(r.0@ =~= lower_special(addr, instr).ops);
    r
}

fn emit_regimm(addr: u32, instr: u32) -> (r: (Vec<HostOp>, Emitted))
    ensures
        r.0@ == lower_regimm(addr, instr).ops,
        r.1 == lower_regimm(addr, instr).to,
{
    let (s, t): (u32, u32) = (instr / 0x20_0000 % 32, instr / 0x1_0000 % 32);
    if !(t < 4 || (t >= 0x10 && t < 0x14)) {
        return (Vec::new(), Emitted::Interp);
    }
    let how = if t % 2 == 0 { Test::Less } else { Test::NotLess };
    let mut ops: Vec<HostOp> = vec![
        HostOp::Load { reg: HostReg::Rax, gpr: s },
        HostOp::CompareImm { to: HostReg::R13, how, left: HostReg::Rax, v: 0 },
    ];
    if t >= 0x10 {
        ops.push(HostOp::Put { reg: HostReg::Rax, v: addr.wrapping_add(8) as u64 });
        ops.push(HostOp::Extend { reg: HostReg::Rax });
        ops.push(HostOp::Store { gpr: 31 });
    }
    let target: u32 = relative_of(addr.wrapping_add(4), instr % 0x1_0000);
    assert(ops@ =~= lower_regimm(addr, instr).ops);
    (ops, Emitted::Branch(BranchKind::Cond { target, likely: t / 2 % 2 == 1 }))
}

fn emit_mmi(instr: u32) -> (r: Vec<HostOp>)
    ensures
        r@ == lower_mmi(instr).ops,
{
    let (s, t, d): (u32, u32, u32) = (instr / 0x20_0000 % 32, instr / 0x1_0000 % 32, instr / 0x800 % 32);
    let load_s = HostOp::Load { reg: HostReg::Rax, gpr: s };
    let store = HostOp::Store { gpr: d };
    let r: Vec<HostOp> = match instr % 64 {
        0x10 => t_or_nothing(d, vec![HostOp::LoadPipe { hi: true, second: true }, store]),
        0x11 => vec![load_s, HostOp::StorePipe { hi: true, second: true, from: HostReg::Rax }],
        0x12 => t_or_nothing(d, vec![HostOp::LoadPipe { hi: false, second: true }, store]),
        0x13 => vec![load_s, HostOp::StorePipe { hi: false, second: true, from: HostReg::Rax }],
        0x18 => emit_mult(s, t, d, true, true),
        0x19 => emit_mult(s, t, d, true, false),
        0x1A => emit_div(s, t, true, true),
        0x1B => emit_div(s, t, true, false),
        _ => vec![HostOp::Mmi { instr }],
    };
    assert(r@ =~= lower_mmi(instr).ops);
    r
}

fn emit_cop0(instr: u32) -> (r: (Vec<HostOp>, Emitted))
    ensures
        r.0@ == lower_cop0(instr).ops,
        r.1 == lower_cop0(instr).to,
{
    let (s, t, d): (u32, u32, u32) = (instr / 0x20_0000 % 32, instr / 0x1_0000 % 32, instr / 0x800 % 32);
    let f: u32 = instr % 64;
    let r: (Vec<HostOp>, Emitted) = if s == 0 {
        let mut ops: Vec<HostOp> = vec![HostOp::Cop0Read { reg: d }];
        if t != 0 {
            ops.push(HostOp::Extend { reg: HostReg::Rax });
            ops.push(HostOp::Store { gpr: t });
        }
        (ops, Emitted::Plain)
    } else if s == 4 {
        (vec![HostOp::LoadLow { reg: HostReg::Rax, gpr: t }, HostOp::Cop0Write { reg: d }], Emitted::Plain)
    } else if s >= 0x10 && (f == 0x38 || f == 0x39) {
        (vec![HostOp::SetEie { on: f == 0x38 }], Emitted::Plain)
    } else {
        (Vec::new(), Emitted::Interp)
    };
    assert(r.0@ =~= lower_cop0(instr).ops);
    r
}

fn single_of(f: u32) -> (r: Option<FpuOp>)
    ensures
        r == (if f == 0x28 || f == 0x29 {
            None
        } else {
            fpu_function(f)
        }),
{
    match f {
        0x00 => Some(FpuOp::Sum),
        0x01 => Some(FpuOp::Difference),
        0x02 => Some(FpuOp::Product),
        0x03 => Some(FpuOp::Quotient),
        0x04 => Some(FpuOp::Root),
        0x16 => Some(FpuOp::OverRoot),
        0x18 => Some(FpuOp::SumAcc),
        0x19 => Some(FpuOp::DifferenceAcc),
        0x1A => Some(FpuOp::ProductAcc),
        0x1C => Some(FpuOp::PlusProduct),
        0x1D => Some(FpuOp::MinusProduct),
        0x1E => Some(FpuOp::PlusProductAcc),
        0x1F => Some(FpuOp::MinusProductAcc),
        0x24 => Some(FpuOp::ToWord),
        0x32 => Some(FpuOp::Equal),
        0x34 => Some(FpuOp::Less),
        0x36 => Some(FpuOp::LessOrEqual),
        _ => None,
    }
}

fn emit_cop1_single(instr: u32) -> (r: (Vec<HostOp>, Emitted))
    requires
        field_s(instr) == 0x10,
    ensures
        forall|addr: u32| r.0@ == (#[trigger] lower_cop1(addr, instr)).ops && r.1 == lower_cop1(addr, instr).to,
{
    let (t, d): (u32, u32) = (instr / 0x1_0000 % 32, instr / 0x800 % 32);
    let fd: u32 = instr / 64 % 32;
    let f: u32 = instr % 64;
    let r: (Vec<HostOp>, Emitted) = match f {
        0x05 => (
            vec![HostOp::LoadFpr { fpr: d }, HostOp::AndWord { v: 0x7FFF_FFFF }, HostOp::StoreFpr { fpr: fd }],
            Emitted::Plain,
        ),
        0x06 => (vec![HostOp::LoadFpr { fpr: d }, HostOp::StoreFpr { fpr: fd }], Emitted::Plain),
        0x07 => (
            vec![HostOp::LoadFpr { fpr: d }, HostOp::XorWord { v: 0x8000_0000 }, HostOp::StoreFpr { fpr: fd }],
            Emitted::Plain,
        ),
        0x30 => (vec![HostOp::ClearCondition], Emitted::Plain),
        _ => match single_of(f) {
            Some(op) => (vec![HostOp::Single { op, fd, fs: d, ft: t }], Emitted::Plain),
            None => (Vec::new(), Emitted::Interp),
        },
    };
    assert forall|addr: u32| r.0@ == (#[trigger] lower_cop1(addr, instr)).ops && r.1 == lower_cop1(addr, instr).to by {
        assert(r.0@ =~= lower_cop1(addr, instr).ops);
    }
    r
}

fn emit_cop1(addr: u32, instr: u32) -> (r: (Vec<HostOp>, Emitted))
    ensures
        r.0@ == lower_cop1(addr, instr).ops,
        r.1 == lower_cop1(addr, instr).to,
{
    let (s, t, d): (u32, u32, u32) = (instr / 0x20_0000 % 32, instr / 0x1_0000 % 32, instr / 0x800 % 32);
    let fd: u32 = instr / 64 % 32;
    if s == 0x10 {
        return emit_cop1_single(instr);
    }
    let r: (Vec<HostOp>, Emitted) = if s == 0x00 {
        (
            t_or_nothing(
                t,
                vec![HostOp::LoadFpr { fpr: d }, HostOp::Extend { reg: HostReg::Rax }, HostOp::Store { gpr: t }],
            ),
            Emitted::Plain,
        )
    } else if s == 0x04 {
        (vec![HostOp::LoadLow { reg: HostReg::Rax, gpr: t }, HostOp::StoreFpr { fpr: d }], Emitted::Plain)
    } else if s == 0x08 && t < 4 {
        let target: u32 = relative_of(addr.wrapping_add(4), instr % 0x1_0000);
        (
            vec![HostOp::LoadCondition { negated: t % 2 == 0 }],
            Emitted::Branch(BranchKind::Cond { target, likely: t >= 2 }),
        )
    } else if s == 0x14 && instr % 64 == 0x20 {
        (vec![HostOp::Single { op: FpuOp::FromWord, fd, fs: d, ft: t }], Emitted::Plain)
    } else {
        (Vec::new(), Emitted::Interp)
    };
    assert(r.0@ =~= lower_cop1(addr, instr).ops);
    r
}

fn emit_immediate(instr: u32) -> (r: Vec<HostOp>)
    ensures
        r@ == lower_immediate(instr).ops,
{
    let (s, t): (u32, u32) = (instr / 0x20_0000 % 32, instr / 0x1_0000 % 32);
    let imm: u32 = instr % 0x1_0000;
    let load = HostOp::Load { reg: HostReg::Rax, gpr: s };
    let load_cx = HostOp::Load { reg: HostReg::Rcx, gpr: s };
    let store = HostOp::Store { gpr: t };
    let ops: Vec<HostOp> = match instr / 0x400_0000 {
        0x08 | 0x09 => vec![
            HostOp::LoadLow { reg: HostReg::Rax, gpr: s },
            HostOp::AddWord { v: low32(simm(imm)) },
            HostOp::Extend { reg: HostReg::Rax },
            store,
        ],
        0x0A => vec![
            load_cx,
            HostOp::CompareImm { to: HostReg::Rax, how: Test::Less, left: HostReg::Rcx, v: simm(imm) },
            store,
        ],
        0x0B => vec![
            load_cx,
            HostOp::CompareImm { to: HostReg::Rax, how: Test::Below, left: HostReg::Rcx, v: simm(imm) },
            store,
        ],
        0x0C => vec![load, HostOp::LogicImm { op: Alu::And, v: imm }, store],
        0x0D => vec![load, HostOp::LogicImm { op: Alu::Or, v: imm }, store],
        0x0E => vec![load, HostOp::LogicImm { op: Alu::Xor, v: imm }, store],
        0x0F => vec![HostOp::Put { reg: HostReg::Rax, v: sext32(imm * 0x1_0000) }, store],
        _ => vec![load, HostOp::AddDouble { v: simm(imm) }, store],
    };
    let r = t_or_nothing(t, ops);
    assert(r@ =~= lower_immediate(instr).ops);
    r
}

fn emit_branch(addr: u32, instr: u32) -> (r: (Vec<HostOp>, Emitted))
    ensures
        r.0@ == lower_branch(addr, instr).ops,
        r.1 == lower_branch(addr, instr).to,
{
    let op: u32 = instr / 0x400_0000;
    let (s, t): (u32, u32) = (instr / 0x20_0000 % 32, instr / 0x1_0000 % 32);
    let target: u32 = relative_of(addr.wrapping_add(4), instr % 0x1_0000);
    let load = HostOp::Load { reg: HostReg::Rax, gpr: s };
    let even = op % 2 == 0;
    let ops: Vec<HostOp> = if op == 0x04 || op == 0x05 || op == 0x14 || op == 0x15 {
        let how = if even { Test::Equal } else { Test::NotEqual };
        vec![
            load,
            HostOp::Load { reg: HostReg::Rcx, gpr: t },
            HostOp::Compare { to: HostReg::R13, how, left: HostReg::Rax, right: HostReg::Rcx },
        ]
    } else {
        let how = if even { Test::LessOrEqual } else { Test::Greater };
        vec![load, HostOp::CompareImm { to: HostReg::R13, how, left: HostReg::Rax, v: 0 }]
    };
    assert(ops@ =~= lower_branch(addr, instr).ops);
    (ops, Emitted::Branch(BranchKind::Cond { target, likely: op >= 0x14 }))
}

fn emit_access(instr: u32) -> (r: (Vec<HostOp>, Emitted))
    ensures
        r.0@ == lower_access(instr).ops,
        r.1 == lower_access(instr).to,
{
    let op: u32 = instr / 0x400_0000;
    let (s, t): (u32, u32) = (instr / 0x20_0000 % 32, instr / 0x1_0000 % 32);
    let mut ops: Vec<HostOp> = vec![
        HostOp::LoadLow { reg: HostReg::Rax, gpr: s },
        HostOp::AddWord { v: low32(simm(instr % 0x1_0000)) },
    ];
    match op {
        0x20 | 0x21 | 0x23 | 0x24 | 0x25 | 0x27 | 0x37 => {
            ops.push(HostOp::Read { op });
            if t != 0 {
                ops.push(HostOp::Store { gpr: t });
            }
        },
        0x31 => {
            ops.push(HostOp::Read { op });
            ops.push(HostOp::StoreFpr { fpr: t });
        },
        0x28 | 0x29 | 0x2B | 0x3F => {
            ops.push(HostOp::Load { reg: HostReg::Rcx, gpr: t });
            ops.push(HostOp::Write { op });
        },
        0x39 => {
            ops.push(HostOp::LoadFprCx { fpr: t });
            ops.push(HostOp::Write { op });
        },
        0x1E => {
            ops.push(HostOp::AlignQuad);
            if t != 0 {
                ops.push(HostOp::ReadQuad { gpr: t });
            }
        },
        0x1F => {
            ops.push(HostOp::AlignQuad);
            ops.push(HostOp::WriteQuad { gpr: t });
        },
        0x36 => {
            ops.push(HostOp::AlignQuad);
            if t != 0 {
                ops.push(HostOp::ReadQuadVu { vf: t });
            }
        },
        0x3E => {
            ops.push(HostOp::AlignQuad);
            ops.push(HostOp::WriteQuadVu { vf: t });
        },
        _ => {
            return (Vec::new(), Emitted::Interp);
        },
    }
    assert(ops@ =~= lower_access(instr).ops);
    (ops, Emitted::Plain)
}

/// Emit `instr` at `addr`: the host operations and how to continue.
pub fn emit(addr: u32, instr: u32) -> (r: (Vec<HostOp>, Emitted))
    ensures
        r.0@ == lower(addr, instr).ops,
        r.1 == lower(addr, instr).to,
{
    proof {
        reveal(lower);
    }
    match instr / 0x400_0000 {
        0x00 => emit_special(addr, instr),
        0x01 => emit_regimm(addr, instr),
        0x02 => {
            let ops: Vec<HostOp> = Vec::new();
            assert(ops@ =~= lower(addr, instr).ops);
            (ops, Emitted::Branch(BranchKind::Jump(jump_of(addr.wrapping_add(4), instr))))
        },
        0x03 => {
            let ops: Vec<HostOp> = vec![
                HostOp::Put { reg: HostReg::Rax, v: addr.wrapping_add(8) as u64 },
                HostOp::Extend { reg: HostReg::Rax },
                HostOp::Store { gpr: 31 },
            ];
            assert(ops@ =~= lower(addr, instr).ops);
            (ops, Emitted::Branch(BranchKind::Jump(jump_of(addr.wrapping_add(4), instr))))
        },
        0x04 | 0x05 | 0x06 | 0x07 | 0x14 | 0x15 | 0x16 | 0x17 => emit_branch(addr, instr),
        0x08 | 0x09 | 0x0A | 0x0B | 0x0C | 0x0D | 0x0E | 0x0F | 0x18 | 0x19 => (emit_immediate(instr), Emitted::Plain),
        0x10 => emit_cop0(instr),
        0x11 => emit_cop1(addr, instr),
        0x12 => {
            if instr / 0x20_0000 % 32 == 8 {
                let ops: Vec<HostOp> = Vec::new();
                assert(ops@ =~= lower(addr, instr).ops);
                (ops, Emitted::Interp)
            } else {
                let ops: Vec<HostOp> = vec![HostOp::Cop2 { instr }];
                assert(ops@ =~= lower(addr, instr).ops);
                (ops, Emitted::Plain)
            }
        },
        0x1C => (emit_mmi(instr), Emitted::Plain),
        0x2F => {
            let ops: Vec<HostOp> = Vec::new();
            assert(ops@ =~= lower(addr, instr).ops);
            (ops, Emitted::Plain)
        },
        _ => emit_access(instr),
    }
}

} // verus!
