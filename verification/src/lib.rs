//! A PlayStation 2 core whose logic is stated in contracts and proved.
//!
//! `bus` is the machine's address space and the devices on it, `ee` the main
//! processor with its recompiler's planning, `gif` and `gs` the path to the
//! picture, `cheats` the memory patches. `bits`, `bytes` and `text` are what
//! the rest is stated over.

pub mod bits;
pub mod bus;
pub mod bytes;
pub mod cheats;
pub mod ee;
pub mod gif;
pub mod gs;
pub mod text;
