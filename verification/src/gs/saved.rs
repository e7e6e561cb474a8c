//! The display side as plain values, to be kept and put back.

use vstd::prelude::*;
use super::canvas::Canvas;
use super::display::Display;
use super::regs::Registers;
use super::upload::Local;
use super::{Gs, Weaver, VRAM_SIZE};

verus! {

/// Bytes of the internal-2x overlay.
pub const OVERLAY_SIZE: usize = 0x100_0000;

/// Everything that outlives a pause. Decoded palettes do not: they are
/// decoded again.
pub struct Saved {
    pub display: Display,
    pub regs: Registers,
    pub vram: Vec<u8>,
    pub overlay: Option<Vec<u8>>,
    pub trx_x: u32,
    pub trx_y: u32,
    pub trx24: Vec<u8>,
    pub weaver: Weaver,
}

impl Saved {
    pub open spec fn over(&self) -> Option<Seq<u8>> {
        match self.overlay {
            Some(o) => Some(o@),
            None => None,
        }
    }

    /// A state that the unit can be in.
    pub open spec fn valid(&self) -> bool {
        &&& self.regs.wf()
        &&& self.vram@.len() == VRAM_SIZE
        &&& self.over() matches Some(o) ==> o.len() == OVERLAY_SIZE
        &&& self.trx_x < 0x1000
        &&& self.trx_y <= 0x1000
        &&& self.trx24@.len() < 3
        &&& self.weaver.wf()
    }

    /// This is what `gs` holds.
    pub open spec fn of(&self, gs: &Gs) -> bool {
        &&& self.display == gs.display
        &&& self.regs == gs.regs
        &&& self.vram@ == gs.local.canvas@
        &&& self.over() == gs.local.over()
        &&& self.trx_x == gs.local.trx_x
        &&& self.trx_y == gs.local.trx_y
        &&& self.trx24@ == gs.local.trx24@
        &&& self.weaver.memory() == gs.weaver.memory()
        &&& self.weaver.dims == gs.weaver.dims
    }

    /// Put a kept state back, unless the unit cannot be in it.
    pub fn restore(self) -> (r: Option<Gs>)
        ensures
            r is Some == self.valid(),
            r matches Some(gs) ==> gs.wf() && self.of(&gs) && gs.clut_dirty,
    {
        let over_ok = match &self.overlay {
            Some(o) => o.len() == OVERLAY_SIZE,
            None => true,
        };
        if !self.regs.valid() || self.vram.len() != VRAM_SIZE || !over_ok || self.trx_x >= 0x1000 || self.trx_y > 0x1000
            || self.trx24.len() >= 3 || !self.weaver.valid() {
            return None;
        }
        proof {
            vstd::arithmetic::power2::lemma2_to64();
            assert(VRAM_SIZE == vstd::arithmetic::power2::pow2(22));
            assert(OVERLAY_SIZE == vstd::arithmetic::power2::pow2(24));
        }
        let overlay: Option<Canvas> = match self.overlay {
            Some(o) => Some(Canvas::of(o)),
            None => None,
        };
        Some(
            Gs {
                local: Local {
                    canvas: Canvas::of(self.vram),
                    overlay,
                    trx_x: self.trx_x,
                    trx_y: self.trx_y,
                    trx24: self.trx24,
                },
                display: self.display,
                regs: self.regs,
                weaver: self.weaver,
                clut_dirty: true,
            },
        )
    }
}

fn copied(b: &Vec<u8>) -> (r: Vec<u8>)
    ensures
        r@ == b@,
{
    let r = b.clone();
    assert(r@ =~= b@);
    r
}

impl Weaver {
    /// Whether the frames have the size that goes with them.
    pub fn valid(&self) -> (r: bool)
        ensures
            r == self.wf(),
    {
        let (w, h): (u32, u32) = self.dims;
        assert(w * h * 4 <= 0xFFFF_FFFF * 0xFFFF_FFFF * 4) by (nonlinear_arith)
            requires
                0 <= w <= 0xFFFF_FFFF,
                0 <= h <= 0xFFFF_FFFF,
        ;
        assert(w * h >= 0) by (nonlinear_arith)
            requires
                w >= 0,
                h >= 0,
        ;
        let px: u128 = w as u128 * h as u128;
        self.woven.len() as u128 == px * 4 && self.motion.len() as u128 == px && self.history0.len() as u128 == px * 4
            && self.history1.len() as u128 == px * 4
    }
}

impl Gs {
    /// What is to be kept.
    pub fn saved(&self) -> (s: Saved)
        ensures
            s.of(self),
    {
        let overlay: Option<Vec<u8>> = match &self.local.overlay {
            Some(o) => Some(o.to_vec()),
            None => None,
        };
        Saved {
            display: self.display,
            regs: self.regs,
            vram: self.local.canvas.to_vec(),
            overlay,
            trx_x: self.local.trx_x,
            trx_y: self.local.trx_y,
            trx24: copied(&self.local.trx24),
            weaver: Weaver {
                woven: copied(&self.weaver.woven),
                motion: copied(&self.weaver.motion),
                history0: copied(&self.weaver.history0),
                history1: copied(&self.weaver.history1),
                dims: self.weaver.dims,
            },
        }
    }
}

/// What is saved can be put back, and both hold the same; the overlay has
/// the size that turning it on gives it.
pub proof fn law_saved_states_are_valid(s: Saved, gs: Gs)
    requires
        gs.wf(),
        gs.local.over() matches Some(o) ==> o.len() == OVERLAY_SIZE,
        s.of(&gs),
    ensures
        s.valid(),
{
    assert(s.weaver.memory() == gs.weaver.memory());
}

} // verus!
