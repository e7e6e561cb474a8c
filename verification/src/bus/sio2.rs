//! SIO2 (pad/memory-card serial controller) with one digital-capable
//! DualShock in port 0. A transfer is described by the SEND3 slots
//! (port in bit 0, byte length in bits 8-17); command bytes arrive in
//! the in-FIFO (PIO or DMA ch11) and responses leave through the
//! out-FIFO (PIO or DMA ch12). The first command byte selects the
//! device class: 0x01 pad, 0x81 memory card, 0x21 multitap.

use vstd::prelude::*;
use super::memcard::{append, arg, arg_of, cut_to, pad, resized, zeros, Card, MemCard};

verus! {

/// Pad modes, which are also the id byte a poll answers with.
pub const PAD_DIGITAL: u8 = 0x41;

pub const PAD_ANALOG: u8 = 0x73;

pub const PAD_DS2: u8 = 0x79;

/// RECV1 bits SIO2MAN checks after a transfer. The third nibble counts the
/// ports the packet addressed; the high bits tag a port whose device did not
/// answer. One open port with everything present is `0x1100`.
pub const RECV1_ONE_PORT: u32 = 0x100;

pub const RECV1_TWO_PORTS: u32 = 0x200;

pub const RECV1_ALL_PRESENT: u32 = 0x1000;

pub const RECV1_PORT1_MISSING: u32 = 0x1D000;

pub const RECV1_PORT2_MISSING: u32 = 0x2D000;

pub const RECV1_CONNECTED: u32 = 0x1100;

// --- the pad --------------------------------------------------------------------

#[derive(Clone, Copy)]
pub struct Pad {
    /// Buttons currently held, active-high in PS1 bit order
    /// (SELECT=0, L3, R3, START, UP, RIGHT, DOWN, LEFT,
    ///  L2, R2, L1, R1, TRIANGLE, CIRCLE, CROSS, SQUARE=15).
    pub buttons: u16,
    /// DualShock command-0x43 config mode.
    pub config: bool,
    /// The mode the pad reports and polls in: `PAD_DIGITAL`, `PAD_ANALOG`
    /// (adds four stick bytes) or `PAD_DS2` (also twelve pressure bytes).
    pub mode: u8,
    /// The vibration slots as command 0x4D last left them.
    pub motor0: u8,
    pub motor1: u8,
}

/// Pressure of a button: fully down or not pressed at all.
pub open spec fn pressure(buttons: u16, mask: u16) -> u8 {
    if buttons & mask != 0 {
        0xFF
    } else {
        0
    }
}

fn pressure_of(buttons: u16, mask: u16) -> (r: u8)
    ensures
        r == pressure(buttons, mask),
{
    if buttons & mask != 0 {
        0xFF
    } else {
        0
    }
}

/// The pressures in the order a DualShock 2 reports them: right, left, up,
/// down, triangle, circle, cross, square, L1, R1, L2, R2.
pub open spec fn pressures(b: u16) -> Seq<u8> {
    seq![
        pressure(b, 0x20),
        pressure(b, 0x80),
        pressure(b, 0x10),
        pressure(b, 0x40),
        pressure(b, 0x1000),
        pressure(b, 0x2000),
        pressure(b, 0x4000),
        pressure(b, 0x8000),
        pressure(b, 0x400),
        pressure(b, 0x800),
        pressure(b, 0x100),
        pressure(b, 0x200),
    ]
}

/// Byte `i` of a command, or `d` past its end.
pub open spec fn arg_or(cmd: Seq<u8>, i: int, d: u8) -> u8 {
    if 0 <= i < cmd.len() {
        cmd[i]
    } else {
        d
    }
}

impl Pad {
    /// Answer to a config-mode query. A DualShock 2 answers these with fixed
    /// constants.
    pub open spec fn query(self, op: u8, cmd: Seq<u8>) -> Seq<u8> {
        let third = arg(cmd, 3);
        if op == 0x40 {
            // Set VREF param: a fixed acknowledgement.
            seq![0x00, 0x00, 0x02, 0x00, 0x00, 0x5A]
        } else if op == 0x41 && self.mode != PAD_DIGITAL {
            // Button query: only a pad that has been switched to analog
            // answers.
            seq![0xFF, 0xFF, 0x03, 0x00, 0x00, 0x5A]
        } else if op == 0x4F {
            seq![0x00, 0x00, 0x00, 0x00, 0x00, 0x5A]
        } else if op == 0x45 {
            // Query model: DS2, current mode, one mode entry.
            seq![
                0x03,
                0x02,
                if self.mode != PAD_DIGITAL {
                    1
                } else {
                    0
                },
                0x02,
                0x01,
                0x00,
            ]
        } else if op == 0x46 && third == 0 {
            // Query act: the two actuators' descriptions.
            seq![0x00, 0x00, 0x01, 0x02, 0x00, 0x0A]
        } else if op == 0x46 {
            seq![0x00, 0x00, 0x01, 0x01, 0x01, 0x14]
        } else if op == 0x47 {
            // Query comb: one combination driving two actuators.
            seq![0x00, 0x00, 0x02, 0x00, 0x01, 0x00]
        } else if op == 0x4C && third == 0 {
            // Query mode: the digital and analog mode ids.
            seq![0x00, 0x00, 0x00, 0x04, 0x00, 0x00]
        } else if op == 0x4C {
            seq![0x00, 0x00, 0x00, 0x07, 0x00, 0x00]
        } else if op == 0x4D {
            // Vibration mapping: each slot answers with what it held before.
            seq![self.motor0, self.motor1, 0xFF, 0xFF, 0xFF, 0xFF]
        } else {
            zeros(6)
        }
    }

    /// A poll: buttons active-low, then the sticks centered, then the
    /// pressures, as the mode has it.
    pub open spec fn poll(self) -> Seq<u8> {
        let b = !self.buttons;
        let sticks: Seq<u8> = if self.mode != PAD_DIGITAL {
            seq![0x7F, 0x7F, 0x7F, 0x7F]
        } else {
            seq![]
        };
        let pressed: Seq<u8> = if self.mode == PAD_DS2 {
            pressures(self.buttons)
        } else {
            seq![]
        };
        seq![(b % 256) as u8, (b / 256) as u8] + sticks + pressed
    }

    /// The id byte of a reply.
    pub open spec fn id(self) -> u8 {
        if self.config {
            0xF3
        } else {
            self.mode
        }
    }

    /// The reply before it is cut to length.
    pub open spec fn reply(self, cmd: Seq<u8>) -> Seq<u8> {
        let op = arg(cmd, 1);
        seq![0xFF, self.id(), 0x5A] + (if self.config {
            self.query(op, cmd)
        } else if op == 0x42 || op == 0x43 {
            self.poll()
        } else {
            seq![]
        })
    }

    /// The poll format that a response mask picks.
    pub open spec fn masked_mode(cmd: Seq<u8>) -> u8 {
        let mask = arg(cmd, 3) + 0x100 * arg(cmd, 4) + 0x1_0000 * arg(cmd, 5);
        if mask == 0x3F {
            PAD_ANALOG
        } else if mask == 0x3_FFFF {
            PAD_DS2
        } else {
            PAD_DIGITAL
        }
    }

    /// The pad after a command. Mode changes take effect after the frame
    /// that carries them.
    pub open spec fn commanded(self, cmd: Seq<u8>) -> Pad {
        let op = arg(cmd, 1);
        let asked = cmd.len() > 3 && cmd[3] == 1;
        if op == 0x43 {
            Pad { config: asked, ..self }
        } else if self.config && op == 0x4F {
            Pad { mode: Pad::masked_mode(cmd), ..self }
        } else if self.config && op == 0x4D {
            Pad { motor0: arg_or(cmd, 3, 0xFF), motor1: arg_or(cmd, 4, 0xFF), ..self }
        } else if self.config && op == 0x44 {
            Pad {
                mode: if asked {
                    PAD_ANALOG
                } else {
                    PAD_DIGITAL
                },
                ..self
            }
        } else {
            self
        }
    }

    fn query_bytes(&self, op: u8, cmd: &[u8]) -> (r: Vec<u8>)
        ensures
            r@ == self.query(op, cmd@),
    {
        let third: u8 = arg_of(cmd, 3);
        let analog: u8 = if self.mode != PAD_DIGITAL { 1 } else { 0 };
        let r: Vec<u8> = if op == 0x40 {
            vec![0x00, 0x00, 0x02, 0x00, 0x00, 0x5A]
        } else if op == 0x41 && self.mode != PAD_DIGITAL {
            vec![0xFF, 0xFF, 0x03, 0x00, 0x00, 0x5A]
        } else if op == 0x4F {
            vec![0x00, 0x00, 0x00, 0x00, 0x00, 0x5A]
        } else if op == 0x45 {
            vec![0x03, 0x02, analog, 0x02, 0x01, 0x00]
        } else if op == 0x46 && third == 0 {
            vec![0x00, 0x00, 0x01, 0x02, 0x00, 0x0A]
        } else if op == 0x46 {
            vec![0x00, 0x00, 0x01, 0x01, 0x01, 0x14]
        } else if op == 0x47 {
            vec![0x00, 0x00, 0x02, 0x00, 0x01, 0x00]
        } else if op == 0x4C && third == 0 {
            vec![0x00, 0x00, 0x00, 0x04, 0x00, 0x00]
        } else if op == 0x4C {
            vec![0x00, 0x00, 0x00, 0x07, 0x00, 0x00]
        } else if op == 0x4D {
            vec![self.motor0, self.motor1, 0xFF, 0xFF, 0xFF, 0xFF]
        } else {
            vec![0, 0, 0, 0, 0, 0]
        };
        assert(r@ =~= self.query(op, cmd@));
        r
    }

    fn poll_bytes(&self) -> (r: Vec<u8>)
        ensures
            r@ == self.poll(),
    {
        let b: u16 = !self.buttons;
        let mut r: Vec<u8> = vec![(b % 256) as u8, (b / 256) as u8];
        if self.mode != PAD_DIGITAL {
            r.push(0x7F);
            r.push(0x7F);
            r.push(0x7F);
            r.push(0x7F);
        }
        if self.mode == PAD_DS2 {
            let h: u16 = self.buttons;
            let p: Vec<u8> = vec![
                pressure_of(h, 0x20),
                pressure_of(h, 0x80),
                pressure_of(h, 0x10),
                pressure_of(h, 0x40),
                pressure_of(h, 0x1000),
                pressure_of(h, 0x2000),
                pressure_of(h, 0x4000),
                pressure_of(h, 0x8000),
                pressure_of(h, 0x400),
                pressure_of(h, 0x800),
                pressure_of(h, 0x100),
                pressure_of(h, 0x200),
            ];
            assert(p@ =~= pressures(h));
            append(&mut r, p.as_slice());
        }
        assert(r@ =~= self.poll());
        r
    }

    /// Answer one `[0x01, op, ...]` sub-transfer with `len` bytes.
    pub fn respond(&mut self, cmd: &[u8], len: usize) -> (r: Vec<u8>)
        ensures
            r@ == resized(old(self).reply(cmd@), len as int),
            *final(self) == old(self).commanded(cmd@),
    {
        let op: u8 = arg_of(cmd, 1);
        let id: u8 = if self.config { 0xF3 } else { self.mode };
        let mut r: Vec<u8> = vec![0xFF, id, 0x5A];
        assert(r@ =~= seq![0xFFu8, id, 0x5A]);
        if self.config {
            append(&mut r, self.query_bytes(op, cmd).as_slice());
        } else if op == 0x42 || op == 0x43 {
            append(&mut r, self.poll_bytes().as_slice());
        }
        assert(r@ =~= self.reply(cmd@));
        let asked = cmd.len() > 3 && cmd[3] == 1;
        if op == 0x43 {
            self.config = asked;
        } else if self.config && op == 0x4F {
            let mask: u32 = arg_of(cmd, 3) as u32 + 0x100 * arg_of(cmd, 4) as u32 + 0x1_0000 * arg_of(cmd, 5) as u32;
            self.mode = if mask == 0x3F {
                PAD_ANALOG
            } else if mask == 0x3_FFFF {
                PAD_DS2
            } else {
                PAD_DIGITAL
            };
        } else if self.config && op == 0x4D {
            self.motor0 = if cmd.len() > 3 { cmd[3] } else { 0xFF };
            self.motor1 = if cmd.len() > 4 { cmd[4] } else { 0xFF };
        } else if self.config && op == 0x44 {
            self.mode = if asked { PAD_ANALOG } else { PAD_DIGITAL };
        }
        cut_to(&mut r, len);
        r
    }
}

// --- transfers --------------------------------------------------------------------

/// RECV1 with one more addressed port folded in.
pub open spec fn port_noted(recv1: u32, present: bool, port: u32) -> u32 {
    let counted = if recv1 & RECV1_ONE_PORT != 0 {
        (recv1 & !RECV1_ONE_PORT) | RECV1_TWO_PORTS
    } else {
        recv1 | RECV1_ONE_PORT
    };
    let all = counted | RECV1_ALL_PRESENT;
    if present {
        all
    } else if port == 0 {
        all | RECV1_PORT1_MISSING
    } else {
        all | RECV1_PORT2_MISSING
    }
}

fn note_port(recv1: u32, present: bool, port: u32) -> (r: u32)
    ensures
        r == port_noted(recv1, present, port),
{
    let counted: u32 = if recv1 & RECV1_ONE_PORT != 0 {
        (recv1 & !RECV1_ONE_PORT) | RECV1_TWO_PORTS
    } else {
        recv1 | RECV1_ONE_PORT
    };
    let all: u32 = counted | RECV1_ALL_PRESENT;
    if present {
        all
    } else if port == 0 {
        all | RECV1_PORT1_MISSING
    } else {
        all | RECV1_PORT2_MISSING
    }
}

/// A transfer under way.
pub struct Transfer {
    pub out: Seq<u8>,
    /// Command bytes consumed.
    pub pos: int,
    pub recv1: u32,
    pub pad: Pad,
    pub card: Card,
}

/// What a port without a tap answers: 0x66 ("not a tap") at byte 5.
pub open spec fn no_tap(len: int) -> Seq<u8> {
    Seq::new(
        len as nat,
        |i: int|
            if i == 5 {
                0x66u8
            } else {
                0xFFu8
            },
    )
}

/// Byte length of a SEND3 slot.
pub open spec fn slot_len(slot: u32) -> int {
    slot as int / 256 % 1024
}

/// One sub-transfer: `cmd` to the device that its first byte selects.
pub open spec fn exchanged(t: Transfer, port: u32, cmd: Seq<u8>, len: int) -> Transfer {
    if port == 0 && cmd.len() > 0 && cmd[0] == 0x01 {
        Transfer {
            out: t.out + resized(t.pad.reply(cmd), len),
            pad: t.pad.commanded(cmd),
            recv1: port_noted(t.recv1, true, port),
            ..t
        }
    } else if port == 0 && cmd.len() > 0 && cmd[0] == 0x81 {
        // MCMAN checks one status word for the whole packet and the card
        // overwrites it, the way the hardware does.
        Transfer {
            out: t.out + t.card.respond(cmd, len).0,
            card: t.card.respond(cmd, len).1,
            recv1: RECV1_CONNECTED,
            ..t
        }
    } else if cmd.len() > 0 && cmd[0] == 0x21 {
        Transfer { out: t.out + no_tap(len), recv1: port_noted(t.recv1, false, 0), ..t }
    } else {
        // No device: the line floats high, so reads return 0xFF.
        Transfer {
            out: t.out + Seq::new(len as nat, |i: int| 0xFFu8),
            recv1: port_noted(t.recv1, false, port),
            ..t
        }
    }
}

/// The command bytes of a sub-transfer: as many of `len` as the in-FIFO has
/// from `pos` on.
pub open spec fn command_at(fifo: Seq<u8>, pos: int, len: int) -> Seq<u8> {
    let end = if pos + len < fifo.len() {
        pos + len
    } else {
        fifo.len() as int
    };
    if pos < end {
        fifo.subrange(pos, end)
    } else {
        seq![]
    }
}

/// The sub-transfers from slot `i` on. With more than one DMA block, each
/// sub-transfer's command sits at the start of its own block and its reply
/// is padded to a full block (MCMAN's layout); a single block packs the
/// sub-transfers back to back (PADMAN's).
pub open spec fn walked(t: Transfer, send3: Seq<u32>, fifo: Seq<u8>, block: (usize, usize), i: int) -> Transfer
    decreases send3.len() - i,
{
    if i < 0 || i >= send3.len() || send3[i] == 0 || slot_len(send3[i]) == 0 {
        t
    } else {
        let len = slot_len(send3[i]);
        let blocked = block.1 > 1;
        let pos = if blocked {
            i * block.0
        } else {
            t.pos
        };
        let x = exchanged(t, (send3[i] % 2) as u32, command_at(fifo, pos, len), len);
        let done = Transfer {
            pos: pos + len,
            out: if blocked {
                resized(x.out, (i + 1) * block.0)
            } else {
                x.out
            },
            ..x
        };
        walked(done, send3, fifo, block, i + 1)
    }
}

pub struct Sio2 {
    pub send3: Vec<u32>,
    pub fifo_in: Vec<u8>,
    pub fifo_out: Vec<u8>,
    pub out_pos: usize,
    pub ctrl: u32,
    pub recv1: u32,
    /// RECV2/RECV3 and the two FIFO position registers: plain storage that
    /// reads back what was written, which is all the hardware does with them.
    pub recv2: u32,
    pub recv3: u32,
    pub fifo_pos0: u32,
    pub fifo_pos1: u32,
    /// Interrupt status. Bit 0 latches on transfer completion and the ISR
    /// clears it by writing the bit back.
    pub istat: u32,
    /// Transfer started while the in-FIFO was empty: waiting for DMA ch11
    /// to deliver the command bytes (the DMAC only moves data once the
    /// start bit asserts DRQ, so CTRL can legitimately come first).
    pub pending: bool,
    /// DMA ch11 block geometry (block bytes, block count).
    pub in_block: (usize, usize),
    pub pad: Pad,
    /// Memory card in slot 1 (SIO2 port 2).
    pub memcard: MemCard,
}

/// The controller over sequences.
pub struct SioModel {
    pub send3: Seq<u32>,
    pub fifo_in: Seq<u8>,
    pub fifo_out: Seq<u8>,
    pub out_pos: int,
    pub ctrl: u32,
    pub recv1: u32,
    pub recv2: u32,
    pub recv3: u32,
    pub fifo_pos0: u32,
    pub fifo_pos1: u32,
    pub istat: u32,
    pub pending: bool,
    pub in_block: (usize, usize),
    pub pad: Pad,
    pub card: Card,
}

impl SioModel {
    /// After power-on: nothing queued, a digital pad and a blank card.
    pub open spec fn reset() -> SioModel {
        SioModel {
            send3: Seq::new(16, |i: int| 0u32),
            fifo_in: Seq::empty(),
            fifo_out: Seq::empty(),
            out_pos: 0,
            ctrl: 0,
            recv1: 0,
            // "Command OK", the only value the hardware is ever seen with.
            recv2: 0xF,
            recv3: 0,
            fifo_pos0: 0,
            fifo_pos1: 0,
            istat: 0,
            pending: false,
            in_block: (0, 0),
            pad: Pad { buttons: 0, config: false, mode: PAD_DIGITAL, motor0: 0xFF, motor1: 0xFF },
            card: Card::blank(),
        }
    }

    /// The queued transfer as it runs.
    pub open spec fn transfer(self) -> Transfer {
        walked(
            Transfer { out: Seq::empty(), pos: 0, recv1: 0, pad: self.pad, card: self.card },
            self.send3,
            self.fifo_in,
            self.in_block,
            0,
        )
    }

    /// After the queued transfer has run.
    pub open spec fn ran(self) -> SioModel {
        let t = self.transfer();
        SioModel {
            fifo_out: t.out,
            out_pos: 0,
            recv1: t.recv1,
            pad: t.pad,
            card: t.card,
            fifo_in: Seq::empty(),
            in_block: (0, 0),
            ..self
        }
    }

    /// After the completion interrupt was latched.
    pub open spec fn irq_raised(self) -> SioModel {
        SioModel { istat: self.istat | 1, ..self }
    }

    /// After command bytes came by DMA.
    pub open spec fn fed(self, data: Seq<u8>, block: usize, blocks: usize) -> SioModel {
        SioModel { fifo_in: self.fifo_in + data, in_block: (block, blocks), ..self }
    }

    /// What a register read gives. Past its end the out-FIFO gives zeros.
    pub open spec fn value(self, r: int) -> u32 {
        if r < 0x40 {
            self.send3[r / 4]
        } else if r == 0x64 {
            if self.out_pos < self.fifo_out.len() {
                self.fifo_out[self.out_pos] as u32
            } else {
                0
            }
        } else if r == 0x68 {
            self.ctrl
        } else if r == 0x6C {
            self.recv1
        } else if r == 0x70 {
            self.recv2
        } else if r == 0x74 {
            self.recv3
        } else if r == 0x78 {
            self.fifo_pos0
        } else if r == 0x7C {
            self.fifo_pos1
        } else if r == 0x80 {
            self.istat
        } else {
            0
        }
    }

    /// After a register read: the out-FIFO moves on.
    pub open spec fn read(self, r: int) -> SioModel {
        if r == 0x64 {
            self.drained(1)
        } else {
            self
        }
    }

    /// The next `n` bytes of the out-FIFO.
    pub open spec fn response(self, n: int) -> Seq<u8> {
        Seq::new(
            n as nat,
            |i: int|
                if self.out_pos + i < self.fifo_out.len() {
                    self.fifo_out[self.out_pos + i]
                } else {
                    0u8
                },
        )
    }

    pub open spec fn drained(self, n: int) -> SioModel {
        SioModel {
            out_pos: if self.out_pos + n < self.fifo_out.len() {
                self.out_pos + n
            } else {
                self.fifo_out.len() as int
            },
            ..self
        }
    }

    /// Whether a CTRL write empties the FIFOs: bits 2/3 reset them, but only
    /// without the start bit (SIO2MAN sets both in one write after DMA has
    /// already loaded the in-FIFO).
    pub open spec fn resets(v: u32) -> bool {
        v & 0xC != 0 && v & 1 == 0
    }

    /// Whether a register write runs the transfer.
    pub open spec fn completes(self, r: int, v: u32) -> bool {
        r == 0x68 && v & 1 != 0 && self.fifo_in.len() > 0
    }

    /// After a CTRL write.
    pub open spec fn controlled(self, v: u32) -> SioModel {
        let c = SioModel { ctrl: v & !1u32, ..self };
        if v & 1 != 0 {
            if self.fifo_in.len() == 0 {
                SioModel { pending: true, ..c }
            } else {
                c.ran()
            }
        } else if SioModel::resets(v) {
            SioModel { fifo_in: Seq::empty(), fifo_out: Seq::empty(), out_pos: 0, pending: false, ..c }
        } else {
            c
        }
    }

    /// After a register write.
    pub open spec fn written(self, r: int, v: u32) -> SioModel {
        if r < 0x40 {
            SioModel { send3: self.send3.update(r / 4, v), ..self }
        } else if r == 0x60 {
            SioModel { fifo_in: self.fifo_in.push((v % 256) as u8), ..self }
        } else if r == 0x68 {
            self.controlled(v)
        } else if r == 0x70 {
            SioModel { recv2: v, ..self }
        } else if r == 0x74 {
            SioModel { recv3: v, ..self }
        } else if r == 0x78 {
            SioModel { fifo_pos0: v, ..self }
        } else if r == 0x7C {
            SioModel { fifo_pos1: v, ..self }
        } else if r == 0x80 {
            // ISTAT acknowledges the bits written back as 1.
            SioModel { istat: self.istat & !v, ..self }
        } else {
            self
        }
    }
}

impl Sio2 {
    pub open spec fn model(&self) -> SioModel {
        SioModel {
            send3: self.send3@,
            fifo_in: self.fifo_in@,
            fifo_out: self.fifo_out@,
            out_pos: self.out_pos as int,
            ctrl: self.ctrl,
            recv1: self.recv1,
            recv2: self.recv2,
            recv3: self.recv3,
            fifo_pos0: self.fifo_pos0,
            fifo_pos1: self.fifo_pos1,
            istat: self.istat,
            pending: self.pending,
            in_block: self.in_block,
            pad: self.pad,
            card: self.memcard.model(),
        }
    }

    pub open spec fn wf(&self) -> bool {
        &&& self.send3@.len() == 16
        &&& self.out_pos <= self.fifo_out@.len()
        &&& self.in_block.0 <= 0x4_0000
        &&& self.memcard.wf()
    }

    /// The registers that no transfer touches.
    spec fn same_setup(&self, o: Sio2) -> bool {
        &&& self.send3@ == o.send3@
        &&& self.recv2 == o.recv2
        &&& self.recv3 == o.recv3
        &&& self.fifo_pos0 == o.fifo_pos0
        &&& self.fifo_pos1 == o.fifo_pos1
        &&& self.istat == o.istat
    }

    pub fn new() -> (s: Self)
        ensures
            s.wf(),
            s.model() == SioModel::reset(),
    {
        let send3: Vec<u32> = vec![0; 16];
        assert(send3@ =~= Seq::new(16, |i: int| 0u32));
        let s = Sio2 {
            send3,
            fifo_in: Vec::new(),
            fifo_out: Vec::new(),
            out_pos: 0,
            ctrl: 0,
            recv1: 0,
            recv2: 0xF,
            recv3: 0,
            fifo_pos0: 0,
            fifo_pos1: 0,
            istat: 0,
            pending: false,
            in_block: (0, 0),
            pad: Pad { buttons: 0, config: false, mode: PAD_DIGITAL, motor0: 0xFF, motor1: 0xFF },
            memcard: MemCard::new(),
        };
        assert(s.fifo_in@ =~= Seq::<u8>::empty() && s.fifo_out@ =~= Seq::<u8>::empty());
        s
    }

    /// Latch the completion interrupt. Returns true when the IOP's line
    /// should be pulsed, i.e. the previous one has been acknowledged.
    pub fn raise_irq(&mut self) -> (first: bool)
        requires
            old(self).wf(),
        ensures
            final(self).wf(),
            first == (old(self).istat == 0),
            final(self).model() == old(self).model().irq_raised(),
    {
        let first = self.istat == 0;
        self.istat = self.istat | 1;
        first
    }

    fn command(&self, pos: usize, len: usize) -> (cmd: Vec<u8>)
        requires
            len <= 1024,
            pos <= 0x100_0000,
        ensures
            cmd@ == command_at(self.fifo_in@, pos as int, len as int),
    {
        let end: usize = if pos + len < self.fifo_in.len() { pos + len } else { self.fifo_in.len() };
        let mut cmd: Vec<u8> = Vec::new();
        let mut i: usize = pos;
        while i < end
            invariant
                end <= self.fifo_in@.len(),
                pos <= i,
                i <= end || i == pos,
                cmd@ == (if pos < i {
                    self.fifo_in@.subrange(pos as int, i as int)
                } else {
                    seq![]
                }),
            decreases end - i,
        {
            cmd.push(self.fifo_in[i]);
            i = i + 1;
            assert(cmd@ =~= self.fifo_in@.subrange(pos as int, i as int));
        }
        assert(cmd@ =~= command_at(self.fifo_in@, pos as int, len as int));
        cmd
    }

    /// One sub-transfer; returns RECV1 after it.
    fn exchange(&mut self, port: u32, cmd: &Vec<u8>, len: usize, recv1: u32) -> (r: u32)
        requires
            old(self).memcard.wf(),
        ensures
            final(self).memcard.wf(),
            ({
                let t = Transfer {
                    out: old(self).fifo_out@,
                    pos: 0,
                    recv1,
                    pad: old(self).pad,
                    card: old(self).memcard.model(),
                };
                let x = exchanged(t, port, cmd@, len as int);
                &&& final(self).fifo_out@ == x.out
                &&& final(self).pad == x.pad
                &&& final(self).memcard.model() == x.card
                &&& r == x.recv1
            }),
            final(self).same_setup(*old(self)),
            final(self).fifo_in == old(self).fifo_in,
            final(self).in_block == old(self).in_block,
            final(self).ctrl == old(self).ctrl,
            final(self).pending == old(self).pending,
            final(self).out_pos == old(self).out_pos,
    {
        let class: u8 = if cmd.len() > 0 { cmd[0] } else { 0 };
        if port == 0 && class == 0x01 {
            let r = self.pad.respond(cmd.as_slice(), len);
            append(&mut self.fifo_out, r.as_slice());
            note_port(recv1, true, port)
        } else if port == 0 && class == 0x81 {
            let r = self.memcard.respond(cmd.as_slice(), len);
            append(&mut self.fifo_out, r.as_slice());
            RECV1_CONNECTED
        } else if class == 0x21 {
            // Multitap query. No tap is modelled, and MTAPMAN only looks at
            // the port-1 bit.
            let mut r: Vec<u8> = vec![0xFF; len];
            if len > 5 {
                r[5] = 0x66;
            }
            assert(r@ =~= no_tap(len as int));
            append(&mut self.fifo_out, r.as_slice());
            note_port(recv1, false, 0)
        } else {
            let r: Vec<u8> = vec![0xFF; len];
            assert(r@ =~= Seq::new(len as nat, |i: int| 0xFFu8));
            append(&mut self.fifo_out, r.as_slice());
            note_port(recv1, false, port)
        }
    }

    /// Execute the queued transfer: walk SEND3, consume the in-FIFO and
    /// synthesize each sub-transfer's response.
    fn run_transfer(&mut self)
        requires
            old(self).wf(),
        ensures
            final(self).wf(),
            final(self).model() == old(self).model().ran(),
    {
        let ghost start = *self;
        self.fifo_out = Vec::new();
        self.out_pos = 0;
        let (block_bytes, blocks) = self.in_block;
        let blocked = blocks > 1;
        let mut pos: usize = 0;
        let mut recv1: u32 = 0;
        let mut i: usize = 0;
        let mut stop = false;
        assert(self.fifo_out@ =~= Seq::empty());
        while i < 16 && !stop
            invariant
                i <= 16,
                pos <= 16 * 0x4_0000 + 0x8000,
                !blocked ==> pos <= i * 1024,
                self.send3@.len() == 16,
                block_bytes <= 0x4_0000,
                self.in_block == (block_bytes, blocks),
                blocked == (blocks > 1),
                self.memcard.wf(),
                self.same_setup(start),
                self.fifo_in == start.fifo_in,
                self.in_block == start.in_block,
                self.ctrl == start.ctrl,
                self.pending == start.pending,
                self.out_pos == 0,
                ({
                    let t = Transfer {
                        out: self.fifo_out@,
                        pos: pos as int,
                        recv1,
                        pad: self.pad,
                        card: self.memcard.model(),
                    };
                    start.model().transfer() == (if stop {
                        t
                    } else {
                        walked(t, start.send3@, start.fifo_in@, start.in_block, i as int)
                    })
                }),
            decreases
                if stop {
                    0int
                } else {
                    17 - i
                },
        {
            let slot: u32 = self.send3[i];
            let len: usize = (slot / 256 % 1024) as usize;
            if slot == 0 || len == 0 {
                stop = true;
            } else {
                if blocked {
                    assert(i * block_bytes <= 15 * 0x4_0000) by (nonlinear_arith)
                        requires
                            0 <= i <= 15,
                            0 <= block_bytes <= 0x4_0000,
                    ;
                    pos = i * block_bytes;
                }
                let cmd = self.command(pos, len);
                recv1 = self.exchange(slot % 2, &cmd, len, recv1);
                pos = pos + len;
                if blocked {
                    // Each sub-transfer's reply fills its own block.
                    assert((i + 1) * block_bytes <= 16 * 0x4_0000) by (nonlinear_arith)
                        requires
                            0 <= i <= 15,
                            0 <= block_bytes <= 0x4_0000,
                    ;
                    cut_to(&mut self.fifo_out, (i + 1) * block_bytes);
                }
                i = i + 1;
            }
        }
        self.in_block = (0, 0);
        self.recv1 = recv1;
        self.fifo_in = Vec::new();
    }

    /// Run a start that was waiting for its DMA-delivered command bytes.
    /// Returns true when the transfer executed (raises the interrupt).
    pub fn dma_in_done(&mut self) -> (r: bool)
        requires
            old(self).wf(),
        ensures
            final(self).wf(),
            r == old(self).pending,
            final(self).model() == (if r {
                (SioModel { pending: false, ..old(self).model() }).ran()
            } else {
                old(self).model()
            }),
    {
        if self.pending {
            self.pending = false;
            self.run_transfer();
            true
        } else {
            false
        }
    }

    /// Command bytes delivered by DMA ch11, in blocks of `block` bytes.
    pub fn dma_in(&mut self, data: &[u8], block: usize, blocks: usize)
        requires
            old(self).wf(),
            block <= 0x4_0000,
        ensures
            final(self).wf(),
            final(self).model() == old(self).model().fed(data@, block, blocks),
    {
        append(&mut self.fifo_in, data);
        self.in_block = (block, blocks);
    }

    pub fn read(&mut self, addr: u32) -> (v: u32)
        requires
            old(self).wf(),
        ensures
            final(self).wf(),
            v == old(self).model().value(addr as int % 256),
            final(self).model() == old(self).model().read(addr as int % 256),
    {
        let r: u32 = addr % 256;
        if r < 0x40 {
            return self.send3[(r / 4) as usize];
        }
        match r {
            0x64 => {
                if self.out_pos < self.fifo_out.len() {
                    let v: u8 = self.fifo_out[self.out_pos];
                    self.out_pos = self.out_pos + 1;
                    v as u32
                } else {
                    0
                }
            },
            0x68 => self.ctrl,
            0x6C => self.recv1,
            0x70 => self.recv2,
            0x74 => self.recv3,
            0x78 => self.fifo_pos0,
            0x7C => self.fifo_pos1,
            0x80 => self.istat,
            _ => 0,
        }
    }

    /// Returns true when the write completed a transfer (raises the SIO2
    /// interrupt line).
    pub fn write(&mut self, addr: u32, v: u32) -> (done: bool)
        requires
            old(self).wf(),
        ensures
            final(self).wf(),
            done == old(self).model().completes(addr as int % 256, v),
            final(self).model() == old(self).model().written(addr as int % 256, v),
    {
        let r: u32 = addr % 256;
        if r < 0x40 {
            self.send3[(r / 4) as usize] = v;
            return false;
        }
        match r {
            0x60 => self.fifo_in.push((v % 256) as u8),
            0x68 => {
                if v & 0xC != 0 && v & 1 == 0 {
                    self.fifo_in = Vec::new();
                    self.fifo_out = Vec::new();
                    self.out_pos = 0;
                    self.pending = false;
                }
                self.ctrl = v & !1u32;
                if v & 1 != 0 {
                    if self.fifo_in.len() == 0 {
                        self.pending = true;
                    } else {
                        self.run_transfer();
                        return true;
                    }
                }
            },
            0x70 => self.recv2 = v,
            0x74 => self.recv3 = v,
            0x78 => self.fifo_pos0 = v,
            0x7C => self.fifo_pos1 = v,
            0x80 => self.istat = self.istat & !v,
            _ => {},
        }
        false
    }
}

impl Default for Sio2 {
    fn default() -> (s: Self)
        ensures
            s.wf(),
            s.model() == SioModel::reset(),
    {
        Sio2::new()
    }
}

/// A poll in digital mode names the held buttons and nothing else, whatever
/// else the pad was told before.
pub proof fn law_digital_poll_reports_buttons(p: Pad, cmd: Seq<u8>)
    requires
        !p.config,
        p.mode == PAD_DIGITAL,
        arg(cmd, 1) == 0x42,
    ensures
        p.reply(cmd) == seq![0xFFu8, 0x41, 0x5A, (!p.buttons % 256) as u8, (!p.buttons / 256) as u8],
        p.commanded(cmd) == p,
{
    assert(p.reply(cmd) =~= seq![0xFFu8, 0x41, 0x5A, (!p.buttons % 256) as u8, (!p.buttons / 256) as u8]);
}

/// Config mode is entered and left by command 0x43 alone, and nothing but
/// config mode changes the mode or the vibration slots.
pub proof fn law_pad_changes_only_in_config_mode(p: Pad, cmd: Seq<u8>)
    ensures
        arg(cmd, 1) != 0x43 ==> p.commanded(cmd).config == p.config,
        !p.config ==> p.commanded(cmd).mode == p.mode && p.commanded(cmd).motor0 == p.motor0 && p.commanded(cmd).motor1
            == p.motor1,
        p.commanded(cmd).buttons == p.buttons,
{
}

} // verus!
