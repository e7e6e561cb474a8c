//! Dual issue.

use ps2_core::ee::issue::dual_issue;

const NOP: u32 = 0;
/// addiu rt, rs, imm
fn addiu(rt: u32, rs: u32, imm: u16) -> u32 {
    (0x09 << 26) | (rs << 21) | (rt << 16) | imm as u32
}
/// or rd, rs, rt
fn or(rd: u32, rs: u32, rt: u32) -> u32 {
    (rs << 21) | (rt << 16) | (rd << 11) | 0x25
}
/// lw rt, imm(rs)
fn lw(rt: u32, rs: u32, imm: u16) -> u32 {
    (0x23 << 26) | (rs << 21) | (rt << 16) | imm as u32
}
/// sw rt, imm(rs)
fn sw(rt: u32, rs: u32, imm: u16) -> u32 {
    (0x2B << 26) | (rs << 21) | (rt << 16) | imm as u32
}
/// bne rs, rt, off
fn bne(rs: u32, rt: u32, off: u16) -> u32 {
    (0x05 << 26) | (rs << 21) | (rt << 16) | off as u32
}

#[test]
fn independent_alu_pairs() {
    assert!(dual_issue(NOP, NOP));
    assert!(dual_issue(addiu(2, 2, 1), addiu(3, 3, 1)));
    assert!(dual_issue(addiu(2, 0, 5), or(4, 5, 6)));
}

#[test]
fn hazards_do_not_pair() {
    // RAW: second reads the first's destination.
    assert!(!dual_issue(addiu(2, 0, 1), or(3, 2, 4)));
    assert!(!dual_issue(addiu(2, 0, 1), lw(3, 2, 0)));
    assert!(!dual_issue(addiu(2, 0, 1), sw(2, 3, 0)));
    // WAW: both write the same register.
    assert!(!dual_issue(addiu(2, 0, 1), addiu(2, 3, 1)));
    // Writes to $zero never hazard.
    assert!(dual_issue(addiu(0, 1, 1), or(2, 3, 4)));
}

#[test]
fn one_memory_op_per_couple() {
    assert!(dual_issue(addiu(2, 0, 1), lw(3, 4, 0)));
    assert!(dual_issue(NOP, sw(2, 3, 0)));
    assert!(dual_issue(lw(2, 3, 0), NOP));
    assert!(dual_issue(sw(2, 3, 0), addiu(4, 5, 1)));
    assert!(!dual_issue(lw(2, 3, 0), lw(4, 5, 0)));
    assert!(!dual_issue(lw(2, 3, 0), sw(4, 5, 0)));
}

#[test]
fn branches_pair_second_only() {
    assert!(dual_issue(NOP, bne(2, 3, 4)));
    assert!(dual_issue(lw(2, 3, 0), bne(4, 5, 6)));
    // jr $ra / jal
    assert!(dual_issue(NOP, (31 << 21) | 0x08));
    assert!(dual_issue(addiu(2, 0, 1), 0x0C00_0000 | 0x40));
    // RAW into the branch condition.
    assert!(!dual_issue(addiu(2, 0, 1), bne(2, 3, 4)));
    // Branches never lead.
    assert!(!dual_issue(bne(2, 3, 4), NOP));
}

#[test]
fn diverting_ops_never_pair() {
    // mult
    assert!(!dual_issue(NOP, (2 << 21) | (3 << 16) | 0x18));
    // syscall
    assert!(!dual_issue(NOP, 0x0C));
    // addi (may trap on overflow)
    assert!(!dual_issue(NOP, (0x08 << 26) | (2 << 16) | 1));
}
