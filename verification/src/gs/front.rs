//! EE-side view of the GS: privileged registers, CSR/IMR interrupt logic,
//! and the command stream into the renderer.
//!
//! Everything the EE can observe stays on this side and is decided when a
//! command is queued (SIGNAL/FINISH flags, CSR, display registers), so
//! emulated behaviour does not depend on how far the renderer has got.

use vstd::prelude::*;
use super::deinterlace::Deinterlace;
use super::display::Display;

verus! {

/// Renderer command.
pub enum Cmd {
    /// General register write (GIF/VIF/VU1 paths).
    Reg(u8, u64),
    /// A run of HWREG words (IMAGE transfer payload), kept as one command
    /// so the renderer decodes the transfer setup once per run instead of
    /// once per 64 bits.
    Image(Vec<u64>),
    /// Privileged display register (PMODE, DISPFB, ...), kept in order
    /// with the drawing that precedes it.
    Priv(u32, u64),
    /// Vertical blank with the field now displayed and the deinterlace
    /// mode: composite the display.
    Vblank(bool, Deinterlace),
    /// Turn the internal-2x overlay on or off.
    Internal2x(bool),
    /// Start over on a blank renderer (power cycle).
    Reset,
}

/// What the renderer is told, one step at a time: an image run is its words.
pub enum Step {
    Reg(u8, u64),
    Priv(u32, u64),
    Vblank(bool, Deinterlace),
    Internal2x(bool),
    Reset,
}

pub open spec fn words(data: Seq<u64>) -> Seq<Step> {
    data.map(|i: int, v: u64| Step::Reg(0x54, v))
}

pub open spec fn steps(c: Cmd) -> Seq<Step> {
    match c {
        Cmd::Reg(reg, v) => seq![Step::Reg(reg, v)],
        Cmd::Image(data) => words(data@),
        Cmd::Priv(addr, v) => seq![Step::Priv(addr, v)],
        Cmd::Vblank(field, mode) => seq![Step::Vblank(field, mode)],
        Cmd::Internal2x(on) => seq![Step::Internal2x(on)],
        Cmd::Reset => seq![Step::Reset],
    }
}

/// The steps of a batch of commands, in order.
pub open spec fn stream(batch: Seq<Cmd>) -> Seq<Step>
    decreases batch.len(),
{
    if batch.len() == 0 {
        Seq::empty()
    } else {
        stream(batch.drop_last()) + steps(batch.last())
    }
}

/// Hand a batch over once it holds this many commands.
pub const BATCH_MAX: usize = 4096;

/// HWREG words per image command at most (512 KiB), so a long upload
/// streams to the renderer instead of landing all at once.
pub const IMAGE_RUN_MAX: usize = 65536;

/// CSR bits that always read set: FIFO empty, revision and id. REV 0x1B is
/// what retail hardware reports.
pub const CSR_FIXED: u64 = 0x551B_4000;

/// The interrupt side: CSR, IMR and the line into the EE INTC.
#[derive(Clone, Copy)]
pub struct Csr {
    pub csr: u64,
    pub imr: u64,
    /// Rising edge into the EE INTC GS line.
    pub intc_pending: bool,
}

impl Csr {
    /// Flag `n` raised: a rising edge reaches the INTC unless IMR masks it;
    /// IMR masks sit 8 bits above the CSR flags, 1 = masked.
    pub open spec fn raised(self, n: u64) -> Csr {
        Csr {
            csr: self.csr | (1u64 << n),
            intc_pending: self.intc_pending || (self.csr & (1u64 << n) == 0 && self.imr & (1u64 << ((n + 8) as u64)) == 0),
            ..self
        }
    }

    fn raise_int(&mut self, n: u64)
        requires
            n < 8,
        ensures
            *final(self) == old(self).raised(n),
    {
        let was = self.csr & (1u64 << n) != 0;
        self.csr = self.csr | (1u64 << n);
        if !was && self.imr & (1u64 << (n + 8)) == 0 {
            self.intc_pending = true;
        }
    }

    /// A CSR write: interrupt flags are write-1-to-clear; bit 9 is reset.
    pub open spec fn acknowledged(self, v: u64) -> Csr {
        Csr {
            csr: if v & 0x200 != 0 {
                0
            } else {
                self.csr & !(v & 0x1F)
            },
            ..self
        }
    }
}

/// A save state's view of the display side.
pub struct GsState {
    pub display: Display,
    pub irq: Csr,
    pub priv_shadow: Vec<u64>,
    pub internal_2x: bool,
}

pub struct GsFront {
    /// The renderer runs every command as it comes; otherwise commands
    /// collect in a batch.
    pub inline: bool,
    pub batch: Vec<Cmd>,
    /// HWREG words accumulated since the last other command.
    pub image: Vec<u64>,
    /// Privileged registers (EE-visible copies).
    pub display: Display,
    pub irq: Csr,
    pub priv_shadow: Vec<u64>,
    /// Composite at every vblank.
    pub publish_frames: bool,
    /// How the published frame treats interlaced field buffers.
    pub deinterlace: Deinterlace,
    /// Flip which rows each field lands on.
    pub swap_fields: bool,
    /// EE-side copy of the internal-2x switch (commands are sent on change).
    pub internal_2x: bool,
}

/// Display registers that the renderer keeps too.
pub open spec fn is_display_reg(addr: u32) -> bool {
    let reg = addr & 0x1FF0;
    reg == 0 || reg == 0x10 || reg == 0x20 || reg == 0x70 || reg == 0x80 || reg == 0x90 || reg == 0xA0 || reg == 0xE0
}

/// Shadow slot of a register without a function here.
pub open spec fn shadow_slot(addr: u32) -> int {
    ((addr >> 4) & 31) as int
}

proof fn lemma_slot(addr: u32)
    by (bit_vector)
    ensures
        (addr >> 4) & 31 < 32,
{
}

impl GsFront {
    pub open spec fn wf(&self) -> bool {
        &&& self.priv_shadow@.len() == 32
        &&& self.image@.len() < IMAGE_RUN_MAX
        &&& self.inline ==> self.image@.len() == 0
    }

    /// Everything queued for the renderer, in order.
    pub open spec fn queued(&self) -> Seq<Step> {
        stream(self.batch@) + words(self.image@)
    }

    fn build(inline: bool) -> (f: Self)
        ensures
            f.wf(),
            f.model() == FrontModel::reset(inline),
            f.batch@.len() == 0,
    {
        let f = GsFront {
            inline,
            batch: Vec::new(),
            image: Vec::new(),
            display: no_display(),
            // All sources masked at reset.
            irq: Csr { csr: 0, imr: 0xFF00, intc_pending: false },
            priv_shadow: vec![0; 32],
            publish_frames: false,
            deinterlace: Deinterlace::Weave,
            swap_fields: false,
            internal_2x: false,
        };
        assert(f.priv_shadow@ =~= Seq::new(32, |i: int| 0u64));
        assert(f.queued() =~= Seq::<Step>::empty());
        f
    }

    /// Renderer beside the caller: commands collect in batches.
    pub fn new() -> (f: Self)
        ensures
            f.wf(),
            f.model() == FrontModel::reset(false),
    {
        Self::build(false)
    }

    /// Renderer on the calling thread.
    pub fn inline() -> (f: Self)
        ensures
            f.wf(),
            f.model() == FrontModel::reset(true),
    {
        Self::build(true)
    }

    pub fn is_threaded(&self) -> (r: bool)
        ensures
            r == !self.inline,
    {
        !self.inline
    }

    /// Whether the batch is to be handed over now.
    pub fn ready(&self) -> (r: bool)
        ensures
            r == (self.batch@.len() >= BATCH_MAX || (self.inline && self.batch@.len() > 0)),
    {
        self.batch.len() >= BATCH_MAX || (self.inline && self.batch.len() > 0)
    }

    /// Queue the accumulated HWREG words as one command.
    fn flush_image(&mut self)
        requires
            old(self).priv_shadow@.len() == 32,
        ensures
            final(self).wf(),
            final(self).image@.len() == 0,
            stream(final(self).batch@) == old(self).queued(),
            final(self).same_registers(*old(self)),
    {
        if self.image.len() > 0 {
            let mut data: Vec<u64> = Vec::new();
            std::mem::swap(&mut data, &mut self.image);
            self.batch.push(Cmd::Image(data));
            proof {
                assert(self.batch@.drop_last() =~= old(self).batch@);
            }
        } else {
            assert(stream(self.batch@) =~= old(self).queued());
        }
    }

    /// Everything but the command queue is the same.
    pub open spec fn same_registers(&self, o: GsFront) -> bool {
        &&& self.inline == o.inline
        &&& self.display == o.display
        &&& self.irq == o.irq
        &&& self.priv_shadow == o.priv_shadow
        &&& self.publish_frames == o.publish_frames
        &&& self.deinterlace == o.deinterlace
        &&& self.swap_fields == o.swap_fields
        &&& self.internal_2x == o.internal_2x
    }

    fn push(&mut self, cmd: Cmd)
        requires
            old(self).wf(),
        ensures
            final(self).wf(),
            final(self).queued() == old(self).queued() + steps(cmd),
            final(self).same_registers(*old(self)),
            final(self).image@.len() == 0,
    {
        self.flush_image();
        let ghost before = self.batch@;
        self.batch.push(cmd);
        proof {
            assert(self.batch@.drop_last() =~= before);
            assert(self.queued() =~= old(self).queued() + steps(cmd));
        }
    }

    /// Take the pending batch, to be run by the renderer.
    pub fn flush(&mut self) -> (batch: Vec<Cmd>)
        requires
            old(self).wf(),
        ensures
            final(self).wf(),
            stream(batch@) == old(self).queued(),
            final(self).queued() == Seq::<Step>::empty(),
            final(self).same_registers(*old(self)),
    {
        self.flush_image();
        let mut out: Vec<Cmd> = Vec::new();
        std::mem::swap(&mut out, &mut self.batch);
        assert(self.queued() =~= Seq::<Step>::empty());
        out
    }

    /// Render internally at 2x and scan out the overlay.
    pub fn set_internal_2x(&mut self, on: bool)
        requires
            old(self).wf(),
        ensures
            final(self).wf(),
            final(self).internal_2x == on,
            final(self).queued() == (if old(self).internal_2x == on {
                old(self).queued()
            } else {
                old(self).queued() + seq![Step::Internal2x(on)]
            }),
            final(self).inline == old(self).inline,
            final(self).display == old(self).display,
            final(self).irq == old(self).irq,
            final(self).priv_shadow == old(self).priv_shadow,
            final(self).publish_frames == old(self).publish_frames,
            final(self).deinterlace == old(self).deinterlace,
            final(self).swap_fields == old(self).swap_fields,
    {
        if self.internal_2x == on {
            return;
        }
        self.internal_2x = on;
        assert(self.queued() == old(self).queued());
        self.push(Cmd::Internal2x(on));
    }

    pub fn set_publish_frames(&mut self, on: bool)
        ensures
            final(self).publish_frames == on,
            final(self).queued() == old(self).queued(),
            final(self).inline == old(self).inline,
            final(self).display == old(self).display,
            final(self).irq == old(self).irq,
            final(self).priv_shadow == old(self).priv_shadow,
            final(self).deinterlace == old(self).deinterlace,
            final(self).swap_fields == old(self).swap_fields,
            final(self).internal_2x == old(self).internal_2x,
    {
        self.publish_frames = on;
    }

    /// The interrupt side after a general register write.
    pub open spec fn irq_after(&self, reg: u8) -> Csr {
        if reg == 0x60 {
            self.irq.raised(0)
        } else if reg == 0x61 {
            self.irq.raised(1)
        } else {
            self.irq
        }
    }

    /// General register write. SIGNAL/FINISH/LABEL are resolved here so the
    /// EE sees them at a deterministic point; drawing registers stream on.
    pub fn write_reg(&mut self, reg: u8, v: u64)
        requires
            old(self).wf(),
        ensures
            final(self).wf(),
            final(self).irq == old(self).irq_after(reg),
            final(self).queued() == (if reg == 0x60 || reg == 0x61 || reg == 0x62 {
                old(self).queued()
            } else {
                old(self).queued() + seq![Step::Reg(reg, v)]
            }),
            final(self).inline == old(self).inline,
            final(self).display == old(self).display,
            final(self).priv_shadow == old(self).priv_shadow,
            final(self).publish_frames == old(self).publish_frames,
            final(self).deinterlace == old(self).deinterlace,
            final(self).swap_fields == old(self).swap_fields,
            final(self).internal_2x == old(self).internal_2x,
    {
        if reg == 0x60 {
            self.irq.raise_int(0);
            assert(self.queued() == old(self).queued());
        } else if reg == 0x61 {
            self.irq.raise_int(1);
            assert(self.queued() == old(self).queued());
        } else if reg == 0x62 {
            // LABEL.
        } else if reg == 0x54 && !self.inline {
            // HWREG: collect the run.
            let ghost before = self.image@;
            self.image.push(v);
            proof {
                assert(words(self.image@) =~= words(before) + seq![Step::Reg(0x54, v)]);
                assert(self.queued() =~= old(self).queued() + seq![Step::Reg(0x54, v)]);
            }
            if self.image.len() >= IMAGE_RUN_MAX {
                self.flush_image();
                assert(self.queued() =~= stream(self.batch@));
            }
        } else {
            self.push(Cmd::Reg(reg, v));
        }
    }

    /// The interrupt side after a privileged write.
    pub open spec fn irq_written(&self, addr: u32, v: u64) -> Csr {
        let reg = addr & 0x1FF0;
        if reg == 0x1000 {
            self.irq.acknowledged(v)
        } else if reg == 0x1010 {
            Csr { imr: v, ..self.irq }
        } else {
            self.irq
        }
    }

    pub fn priv_write(&mut self, addr: u32, v: u64)
        requires
            old(self).wf(),
        ensures
            final(self).wf(),
            final(self).irq == old(self).irq_written(addr, v),
            final(self).display == old(self).display.written(addr, v),
            final(self).priv_shadow@ == (if is_display_reg(addr) || addr & 0x1FF0 == 0x1000 || addr & 0x1FF0 == 0x1010 {
                old(self).priv_shadow@
            } else {
                old(self).priv_shadow@.update(shadow_slot(addr), v)
            }),
            // Display registers also reach the renderer, in order with
            // drawing.
            final(self).queued() == (if is_display_reg(addr) {
                old(self).queued() + seq![Step::Priv(addr, v)]
            } else {
                old(self).queued()
            }),
            final(self).inline == old(self).inline,
            final(self).publish_frames == old(self).publish_frames,
            final(self).deinterlace == old(self).deinterlace,
            final(self).swap_fields == old(self).swap_fields,
            final(self).internal_2x == old(self).internal_2x,
    {
        let reg: u32 = addr & 0x1FF0;
        match reg {
            0x0000 | 0x0010 | 0x0020 | 0x0070 | 0x0080 | 0x0090 | 0x00A0 | 0x00E0 => {
                self.display.priv_write(addr, v);
                assert(self.queued() == old(self).queued());
                self.push(Cmd::Priv(addr, v));
            },
            0x1000 => {
                self.irq.csr = if v & 0x200 != 0 {
                    0
                } else {
                    self.irq.csr & !(v & 0x1F)
                };
                assert(self.queued() == old(self).queued());
            },
            0x1010 => {
                self.irq.imr = v;
                assert(self.queued() == old(self).queued());
            },
            _ => {
                proof {
                    lemma_slot(addr);
                }
                let slot: usize = ((addr >> 4) & 31) as usize;
                self.priv_shadow[slot] = v;
                assert(self.queued() == old(self).queued());
            },
        }
    }

    /// What a privileged register reads as.
    pub open spec fn priv_value(&self, addr: u32) -> u64 {
        let reg = addr & 0x1FF0;
        let d = self.display;
        if reg == 0x0000 {
            d.pmode
        } else if reg == 0x0010 {
            d.smode1
        } else if reg == 0x0020 {
            d.smode2
        } else if reg == 0x0070 {
            d.dispfb1
        } else if reg == 0x0080 {
            d.display1
        } else if reg == 0x0090 {
            d.dispfb2
        } else if reg == 0x00A0 {
            d.display2
        } else if reg == 0x00E0 {
            d.bgcolor
        } else if reg == 0x1000 {
            self.irq.csr | CSR_FIXED
        } else if reg == 0x1010 {
            self.irq.imr
        } else {
            self.priv_shadow@[shadow_slot(addr)]
        }
    }

    pub fn priv_read(&self, addr: u32) -> (v: u64)
        requires
            self.wf(),
        ensures
            v == self.priv_value(addr),
    {
        let reg: u32 = addr & 0x1FF0;
        match reg {
            0x0000 => self.display.pmode,
            0x0010 => self.display.smode1,
            0x0020 => self.display.smode2,
            0x0070 => self.display.dispfb1,
            0x0080 => self.display.display1,
            0x0090 => self.display.dispfb2,
            0x00A0 => self.display.display2,
            0x00E0 => self.display.bgcolor,
            0x1000 => self.irq.csr | CSR_FIXED,
            0x1010 => self.irq.imr,
            _ => {
                proof {
                    lemma_slot(addr);
                }
                self.priv_shadow[((addr >> 4) & 31) as usize]
            },
        }
    }

    /// Vertical sync: toggles FIELD, latches VSINT, and lets the renderer
    /// composite the frame the display shows now. Gives the batch to run.
    pub fn vblank(&mut self) -> (batch: Vec<Cmd>)
        requires
            old(self).wf(),
        ensures
            final(self).wf(),
            final(self).irq == (Csr { csr: old(self).irq.csr ^ 0x2000, ..old(self).irq }).raised(3),
            // CSR FIELD=1 holds the even rows; `swap_fields` flips that.
            stream(batch@) == (if old(self).publish_frames {
                old(self).queued() + seq![
                    Step::Vblank(
                        (final(self).irq.csr & 0x2000 == 0) != old(self).swap_fields,
                        old(self).deinterlace,
                    ),
                ]
            } else {
                old(self).queued()
            }),
            final(self).queued() == Seq::<Step>::empty(),
            final(self).inline == old(self).inline,
            final(self).display == old(self).display,
            final(self).priv_shadow == old(self).priv_shadow,
            final(self).publish_frames == old(self).publish_frames,
            final(self).deinterlace == old(self).deinterlace,
            final(self).swap_fields == old(self).swap_fields,
            final(self).internal_2x == old(self).internal_2x,
    {
        self.irq.csr = self.irq.csr ^ 0x2000;
        self.irq.raise_int(3);
        assert(self.queued() == old(self).queued());
        if self.publish_frames {
            let odd_rows = (self.irq.csr & 0x2000 == 0) != self.swap_fields;
            self.push(Cmd::Vblank(odd_rows, self.deinterlace));
        }
        self.flush()
    }

    /// Everything a save state needs from the display side.
    pub fn snapshot(&self) -> (s: GsState)
        ensures
            s.display == self.display,
            s.irq == self.irq,
            s.priv_shadow@ == self.priv_shadow@,
            s.internal_2x == self.internal_2x,
    {
        GsState {
            display: self.display,
            irq: self.irq,
            priv_shadow: copy_words(&self.priv_shadow),
            internal_2x: self.internal_2x,
        }
    }

    /// Put back a snapshot. What was queued belongs to the state that goes;
    /// the display switches belong to the host and stay.
    pub fn restore(&mut self, state: &GsState)
        requires
            old(self).wf(),
            state.priv_shadow@.len() == 32,
        ensures
            final(self).wf(),
            final(self).display == state.display,
            final(self).irq == state.irq,
            final(self).priv_shadow@ == state.priv_shadow@,
            final(self).internal_2x == state.internal_2x,
            final(self).queued() == Seq::<Step>::empty(),
            final(self).inline == old(self).inline,
            final(self).publish_frames == old(self).publish_frames,
            final(self).deinterlace == old(self).deinterlace,
            final(self).swap_fields == old(self).swap_fields,
    {
        self.batch = Vec::new();
        self.image = Vec::new();
        self.display = state.display;
        self.irq = state.irq;
        self.priv_shadow = copy_words(&state.priv_shadow);
        self.internal_2x = state.internal_2x;
        assert(self.queued() =~= Seq::<Step>::empty());
    }

    /// Blank the renderer for a power cycle. Local memory and the privileged
    /// registers are machine state and go; the display switches belong to
    /// the host and stay, so the internal-2x switch is sent again.
    pub fn reset(&mut self)
        requires
            old(self).wf(),
        ensures
            final(self).wf(),
            final(self).display == zero_display(),
            final(self).irq == (Csr { csr: 0, imr: 0xFF00, intc_pending: false }),
            final(self).priv_shadow@ == Seq::new(32, |i: int| 0u64),
            final(self).queued() == (if old(self).internal_2x {
                seq![Step::Reset, Step::Internal2x(true)]
            } else {
                seq![Step::Reset]
            }),
            final(self).inline == old(self).inline,
            final(self).publish_frames == old(self).publish_frames,
            final(self).deinterlace == old(self).deinterlace,
            final(self).swap_fields == old(self).swap_fields,
            final(self).internal_2x == old(self).internal_2x,
    {
        self.batch = Vec::new();
        self.image = Vec::new();
        self.display = no_display();
        self.irq = Csr { csr: 0, imr: 0xFF00, intc_pending: false };
        self.priv_shadow = vec![0; 32];
        assert(self.priv_shadow@ =~= Seq::new(32, |i: int| 0u64));
        let internal_2x = self.internal_2x;
        self.internal_2x = false;
        assert(self.queued() =~= Seq::<Step>::empty());
        self.push(Cmd::Reset);
        assert(self.queued() =~= seq![Step::Reset]);
        self.set_internal_2x(internal_2x);
        assert(seq![Step::Reset] + seq![Step::Internal2x(true)] =~= seq![Step::Reset, Step::Internal2x(true)]);
    }
}

pub open spec fn zero_display() -> Display {
    Display { pmode: 0, smode1: 0, smode2: 0, dispfb1: 0, display1: 0, dispfb2: 0, display2: 0, bgcolor: 0 }
}

fn no_display() -> (d: Display)
    ensures
        d == zero_display(),
{
    Display { pmode: 0, smode1: 0, smode2: 0, dispfb1: 0, display1: 0, dispfb2: 0, display2: 0, bgcolor: 0 }
}

fn copy_words(v: &Vec<u64>) -> (r: Vec<u64>)
    ensures
        r@ == v@,
{
    let mut out: Vec<u64> = Vec::new();
    for i in 0..v.len()
        invariant
            out@ == v@.subrange(0, i as int),
    {
        out.push(v[i]);
        assert(out@ =~= v@.subrange(0, i + 1));
    }
    assert(out@ =~= v@);
    out
}

/// A privileged register other than CSR reads as what was last written to
/// it.
pub proof fn law_priv_read_after_write(f: GsFront, g: GsFront, addr: u32, v: u64)
    requires
        f.wf(),
        addr & 0x1FF0 != 0x1000,
        g.display == f.display.written(addr, v),
        g.irq == f.irq_written(addr, v),
        g.priv_shadow@ == (if is_display_reg(addr) || addr & 0x1FF0 == 0x1010 {
            f.priv_shadow@
        } else {
            f.priv_shadow@.update(shadow_slot(addr), v)
        }),
    ensures
        g.priv_value(addr) == v,
{
    lemma_slot(addr);
}

/// Acknowledging clears exactly the flags named, and a flag raised again
/// while still set, or masked in IMR, does not reach the INTC.
pub proof fn law_flags_are_write_one_to_clear(c: Csr, v: u64, n: u64)
    requires
        v & 0x200 == 0,
        n < 5,
    ensures
        c.acknowledged(v).csr & (1u64 << n) == (if v & (1u64 << n) != 0 {
            0
        } else {
            c.csr & (1u64 << n)
        }),
        c.raised(n).csr & (1u64 << n) != 0,
        c.raised(n).raised(n) == c.raised(n),
{
    let s = c.csr;
    assert((s & !(v & 0x1F)) & (1u64 << n) == (if v & (1u64 << n) != 0 {
        0
    } else {
        s & (1u64 << n)
    }) && (s | (1u64 << n)) & (1u64 << n) != 0 && (s | (1u64 << n)) | (1u64 << n) == s | (1u64 << n)) by (bit_vector)
        requires
            n < 5,
    ;
}

/// The front end over sequences.
pub struct FrontModel {
    pub inline: bool,
    pub queued: Seq<Step>,
    pub display: Display,
    pub irq: Csr,
    pub shadow: Seq<u64>,
    pub publish_frames: bool,
    pub deinterlace: Deinterlace,
    pub swap_fields: bool,
    pub internal_2x: bool,
}

impl FrontModel {
    /// After power-on: nothing queued, every interrupt masked.
    pub open spec fn reset(inline: bool) -> FrontModel {
        FrontModel {
            inline,
            queued: Seq::empty(),
            display: zero_display(),
            irq: Csr { csr: 0, imr: 0xFF00, intc_pending: false },
            shadow: Seq::new(32, |i: int| 0u64),
            publish_frames: false,
            deinterlace: Deinterlace::Weave,
            swap_fields: false,
            internal_2x: false,
        }
    }

    /// After a general register write.
    pub open spec fn reg_written(self, reg: u8, v: u64) -> FrontModel {
        if reg == 0x60 {
            FrontModel { irq: self.irq.raised(0), ..self }
        } else if reg == 0x61 {
            FrontModel { irq: self.irq.raised(1), ..self }
        } else if reg == 0x62 {
            self
        } else {
            FrontModel { queued: self.queued + seq![Step::Reg(reg, v)], ..self }
        }
    }

    /// After a privileged register write.
    pub open spec fn priv_written(self, addr: u32, v: u64) -> FrontModel {
        let reg = addr & 0x1FF0;
        if is_display_reg(addr) {
            FrontModel {
                display: self.display.written(addr, v),
                queued: self.queued + seq![Step::Priv(addr, v)],
                ..self
            }
        } else if reg == 0x1000 {
            FrontModel { irq: self.irq.acknowledged(v), ..self }
        } else if reg == 0x1010 {
            FrontModel { irq: Csr { imr: v, ..self.irq }, ..self }
        } else {
            FrontModel { shadow: self.shadow.update(shadow_slot(addr), v), ..self }
        }
    }

    /// What a privileged register reads as.
    pub open spec fn priv_value(self, addr: u32) -> u64 {
        let reg = addr & 0x1FF0;
        let d = self.display;
        if reg == 0x0000 {
            d.pmode
        } else if reg == 0x0010 {
            d.smode1
        } else if reg == 0x0020 {
            d.smode2
        } else if reg == 0x0070 {
            d.dispfb1
        } else if reg == 0x0080 {
            d.display1
        } else if reg == 0x0090 {
            d.dispfb2
        } else if reg == 0x00A0 {
            d.display2
        } else if reg == 0x00E0 {
            d.bgcolor
        } else if reg == 0x1000 {
            self.irq.csr | CSR_FIXED
        } else if reg == 0x1010 {
            self.irq.imr
        } else {
            self.shadow[shadow_slot(addr)]
        }
    }
}

impl GsFront {
    pub open spec fn model(&self) -> FrontModel {
        FrontModel {
            inline: self.inline,
            queued: self.queued(),
            display: self.display,
            irq: self.irq,
            shadow: self.priv_shadow@,
            publish_frames: self.publish_frames,
            deinterlace: self.deinterlace,
            swap_fields: self.swap_fields,
            internal_2x: self.internal_2x,
        }
    }

    /// [`GsFront::write_reg`], over the model.
    pub fn put_reg(&mut self, reg: u8, v: u64)
        requires
            old(self).wf(),
        ensures
            final(self).wf(),
            final(self).model() == old(self).model().reg_written(reg, v),
    {
        self.write_reg(reg, v);
    }

    /// [`GsFront::priv_write`], over the model.
    pub fn put_priv(&mut self, addr: u32, v: u64)
        requires
            old(self).wf(),
        ensures
            final(self).wf(),
            final(self).model() == old(self).model().priv_written(addr, v),
    {
        self.priv_write(addr, v);
    }

    pub fn get_priv(&self, addr: u32) -> (v: u64)
        requires
            self.wf(),
        ensures
            v == self.model().priv_value(addr),
    {
        self.priv_read(addr)
    }

    /// Take the pending interrupt edge.
    pub fn take_irq(&mut self) -> (pending: bool)
        requires
            old(self).wf(),
        ensures
            final(self).wf(),
            pending == old(self).irq.intc_pending,
            final(self).model() == (FrontModel {
                irq: Csr { intc_pending: false, ..old(self).irq },
                ..old(self).model()
            }),
    {
        let pending = self.irq.intc_pending;
        self.irq.intc_pending = false;
        assert(self.queued() == old(self).queued());
        pending
    }
}

} // verus!
