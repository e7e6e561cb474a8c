//! Cheats in the pnach format: a text file of `patch=` lines, each a
//! command on EE or IOP memory applied once at start or once per frame.
//!
//! The format is the one PCSX2 documents at
//! <https://pcsx2.net/docs/advanced/writing-patches/>; this module is
//! written from that description. The `extended` code types are the RAW
//! codes of that page: plain writes (0-2), increment/decrement (3), the
//! strided multi-write (4), memory copy (5), pointer-chain write (6),
//! bitwise operations (7) and the conditional skip (D). Types the page
//! does not list are reported and skipped.

use vstd::prelude::*;

pub mod code_laws;
pub mod effects;
pub mod laws;
pub mod parse;
pub mod run;
pub mod table;

verus! {

#[derive(Clone, Copy, Debug, PartialEq, Eq, Structural)]
pub enum Target {
    Ee,
    Iop,
}

/// The test a conditional (type D) applies to the value it reads.
#[derive(Clone, Copy, Debug, PartialEq, Eq, Structural)]
pub enum Compare {
    Equal,
    NotEqual,
    Less,
    Greater,
    /// Not all the bits of `v` set.
    Nand,
    /// All the bits of `v` set.
    And,
    /// None of the bits of `v` set.
    Nor,
    /// Some bit of `v` set.
    Or,
}

#[derive(Clone, Copy, Debug, PartialEq, Eq, Structural)]
pub enum Bitwise {
    Or,
    And,
    Xor,
}

/// What one command does. `width` is in bytes; every multi-byte value is
/// little-endian in memory.
#[derive(Clone, Debug, PartialEq, Eq)]
pub enum Op {
    /// Store `data` at `addr`.
    Write { addr: u32, data: Vec<u8> },
    /// Add `amount` (negative to decrement) to the `width`-byte value.
    Add { addr: u32, width: u8, amount: i64 },
    /// `count` 32-bit writes from `addr`, `stride` words apart, the value
    /// growing by `step` each time.
    Multi { addr: u32, count: u32, stride: u32, value: u32, step: u32 },
    /// Copy `len` bytes from `src` to `dst`.
    Copy { src: u32, dst: u32, len: u32 },
    /// Read a pointer at `addr`, follow it through `hops` (adding each
    /// offset and reading again), then write `value` at the final pointer
    /// plus `offset`.
    Pointer { addr: u32, hops: Vec<u32>, offset: u32, width: u8, value: u32 },
    /// Combine the `width`-byte value with `value`.
    Bitwise { addr: u32, width: u8, op: Bitwise, value: u32 },
    /// Read the `width`-byte value and, when the comparison fails, skip
    /// the next `skip` commands.
    Cond { addr: u32, width: u8, cmp: Compare, value: u32, skip: usize },
}

/// What a command does, over sequences.
pub enum OpModel {
    Write { addr: u32, data: Seq<u8> },
    Add { addr: u32, width: u8, amount: i64 },
    Multi { addr: u32, count: u32, stride: u32, value: u32, step: u32 },
    Copy { src: u32, dst: u32, len: u32 },
    Pointer { addr: u32, hops: Seq<u32>, offset: u32, width: u8, value: u32 },
    Bitwise { addr: u32, width: u8, op: Bitwise, value: u32 },
    Cond { addr: u32, width: u8, cmp: Compare, value: u32, skip: usize },
}

impl View for Op {
    type V = OpModel;

    open spec fn view(&self) -> OpModel {
        match *self {
            Op::Write { addr, data } => OpModel::Write { addr, data: data@ },
            Op::Add { addr, width, amount } => OpModel::Add { addr, width, amount },
            Op::Multi { addr, count, stride, value, step } => OpModel::Multi { addr, count, stride, value, step },
            Op::Copy { src, dst, len } => OpModel::Copy { src, dst, len },
            Op::Pointer { addr, hops, offset, width, value } => OpModel::Pointer { addr, hops: hops@, offset, width, value },
            Op::Bitwise { addr, width, op, value } => OpModel::Bitwise { addr, width, op, value },
            Op::Cond { addr, width, cmp, value, skip } => OpModel::Cond { addr, width, cmp, value, skip },
        }
    }
}

/// One command.
#[derive(Clone, Debug, PartialEq, Eq)]
pub struct Cheat {
    pub target: Target,
    /// `place` 0 or 3: applied once, at start. Otherwise every frame.
    pub once: bool,
    pub op: Op,
}

pub struct CheatModel {
    pub target: Target,
    pub once: bool,
    pub op: OpModel,
}

impl View for Cheat {
    type V = CheatModel;

    open spec fn view(&self) -> CheatModel {
        CheatModel { target: self.target, once: self.once, op: self.op@ }
    }
}

pub open spec fn cheat_models(s: Seq<Cheat>) -> Seq<CheatModel> {
    s.map(|i: int, c: Cheat| c@)
}

/// A named block of commands: a `[Name]` section of the file, or the run
/// of lines before the first header. A file may open the same section
/// name twice; each occurrence is its own group, and enabling matches by
/// name, so the two switch together.
#[derive(Debug, PartialEq, Eq)]
pub struct Group {
    /// The section header, empty for the leading unnamed run.
    pub name: String,
    pub cheats: Vec<Cheat>,
    /// Lines the parser rejected, each naming its line number. Kept in
    /// the model rather than only logged, so a front-end can show what a
    /// file lost.
    pub warnings: Vec<String>,
    pub enabled: bool,
    /// 1-based inclusive line span in the source file. Rewriting one
    /// section means replacing these lines, which leaves the comments and
    /// metadata of a hand-written pnach elsewhere in the file alone.
    pub span: (usize, usize),
}

pub struct GroupModel {
    pub name: Seq<char>,
    pub cheats: Seq<CheatModel>,
    pub warnings: Seq<Seq<char>>,
    pub enabled: bool,
    pub span: (nat, nat),
}

impl View for Group {
    type V = GroupModel;

    open spec fn view(&self) -> GroupModel {
        GroupModel {
            name: self.name@,
            cheats: cheat_models(self.cheats@),
            warnings: self.warnings@.map(|i: int, w: String| w@),
            enabled: self.enabled,
            span: (self.span.0 as nat, self.span.1 as nat),
        }
    }
}

pub open spec fn group_models(s: Seq<Group>) -> Seq<GroupModel> {
    s.map(|i: int, g: Group| g@)
}

/// A command on values of up to eight bytes.
pub open spec fn op_ok(op: OpModel) -> bool {
    match op {
        OpModel::Add { width, .. } => width <= 8,
        OpModel::Pointer { width, .. } => width <= 8,
        OpModel::Bitwise { width, .. } => width <= 8,
        OpModel::Cond { width, .. } => width <= 8,
        _ => true,
    }
}

pub open spec fn cheats_ok(cheats: Seq<CheatModel>) -> bool {
    forall|i: int| 0 <= i < cheats.len() ==> op_ok((#[trigger] cheats[i]).op)
}

pub open spec fn models_ok(groups: Seq<GroupModel>) -> bool {
    forall|g: int| 0 <= g < groups.len() ==> cheats_ok((#[trigger] groups[g]).cheats)
}

/// Groups whose commands can all be run.
pub open spec fn groups_ok(groups: Seq<Group>) -> bool {
    models_ok(group_models(groups))
}

impl Group {
    /// One unnamed group holding these commands, for a caller with no
    /// file behind it.
    pub fn of(cheats: Vec<Cheat>) -> (g: Group)
        ensures
            g.cheats == cheats,
            g.name@ == Seq::<char>::empty(),
            g.warnings@.len() == 0,
            g.enabled,
            g.span == (0usize, 0usize),
    {
        Group { name: String::new(), cheats, warnings: Vec::new(), enabled: true, span: (0, 0) }
    }
}

} // verus!
