//! EE core: R5900 (MIPS III/IV + 128-bit MMI).

pub mod alu;
pub mod cop0;
pub mod cop0_laws;
pub mod cpu;
pub mod exec;
pub mod fpu;
pub mod issue;
pub mod jit;
pub mod laws;
pub mod mmi_laws;
pub mod unaligned;
