//! A PS2 memory card: 16384 pages of 512 data + 16 ECC bytes, stored as
//! contiguous 528-byte pages (the common .ps2 image layout). MCMAN talks
//! to it with `[0x81, cmd, ...]` sub-transfers; replies carry an 0x2B
//! acknowledge and end with a settable terminator byte. The MagicGate
//! authentication (cmd 0xF0) is answered formally, without real crypto:
//! MCMAN only checks the message shapes and the XOR of its own challenge
//! bytes.

use vstd::prelude::*;

verus! {

pub const MEMCARD_PAGE: usize = 528;

pub const MEMCARD_PAGES: usize = 16384;

/// Bytes of a card.
pub const MEMCARD_SIZE: usize = 8650752;

/// Bytes of an erase block of 16 pages.
pub const MEMCARD_BLOCK: usize = 8448;

/// Sector size the PS1 read command works in, unrelated to the PS2 page
/// size.
pub const PS1_SECTOR: usize = 128;

pub struct MemCard {
    pub data: Vec<u8>,
    /// Set whenever a write or erase lands, so the host can persist.
    pub dirty: bool,
    pub terminator: u8,
    /// Page selected by SetSector, and the byte cursor within it that
    /// ReadData/WriteData advance; the cursor wraps at the card's size.
    pub sector: u32,
    pub progress: u32,
}

/// A card over sequences.
pub struct Card {
    pub data: Seq<u8>,
    pub dirty: bool,
    pub terminator: u8,
    pub sector: u32,
    pub progress: u32,
}

/// Byte `i` of a command, zero past its end.
pub open spec fn arg(cmd: Seq<u8>, i: int) -> u8 {
    if 0 <= i < cmd.len() {
        cmd[i]
    } else {
        0
    }
}

pub fn arg_of(cmd: &[u8], i: usize) -> (b: u8)
    ensures
        b == arg(cmd@, i as int),
{
    if i < cmd.len() {
        cmd[i]
    } else {
        0
    }
}

/// All bytes exclusive-ored.
pub open spec fn xor_all(s: Seq<u8>) -> u8
    decreases s.len(),
{
    if s.len() == 0 {
        0
    } else {
        xor_all(s.drop_last()) ^ s.last()
    }
}

/// `n` zero bytes.
pub open spec fn zeros(n: int) -> Seq<u8> {
    Seq::new(n as nat, |i: int| 0u8)
}

/// `s` cut or zero-padded to `n` bytes.
pub open spec fn resized(s: Seq<u8>, n: int) -> Seq<u8> {
    Seq::new(
        n as nat,
        |i: int|
            if i < s.len() {
                s[i]
            } else {
                0u8
            },
    )
}

/// A reply of `n` bytes (at least four) that only acknowledges: zeros, 0x2B
/// and the terminator.
pub open spec fn acked(n: int, terminator: u8) -> Seq<u8> {
    zeros(
        if n > 4 {
            n - 2
        } else {
            2
        },
    ) + seq![0x2B, terminator]
}

/// Card memory from `at` on, wrapping at the end.
pub open spec fn card_bytes(data: Seq<u8>, at: int, n: int) -> Seq<u8> {
    Seq::new(n as nat, |i: int| data[(at + i) % MEMCARD_SIZE as int])
}

/// Card memory with the first `n` of `b` stored from `at` on.
pub open spec fn stored(data: Seq<u8>, at: int, b: Seq<u8>, n: int) -> Seq<u8>
    decreases n,
{
    if n <= 0 {
        data
    } else {
        stored(data, at, b, n - 1).update((at + n - 1) % MEMCARD_SIZE as int, b[n - 1])
    }
}

/// The block holding page `sector`, erased.
pub open spec fn erased(data: Seq<u8>, sector: u32) -> Seq<u8> {
    let start = (sector as int / 16 * MEMCARD_BLOCK) % MEMCARD_SIZE as int;
    Seq::new(
        data.len(),
        |i: int|
            if start <= i < start + MEMCARD_BLOCK {
                0xFFu8
            } else {
                data[i]
            },
    )
}

/// The payload of a WriteData command, missing bytes as zeros.
pub open spec fn payload(cmd: Seq<u8>, n: int) -> Seq<u8> {
    Seq::new(n as nat, |i: int| arg(cmd, 3 + i))
}

pub open spec fn moved(c: Card, n: int) -> Card {
    Card { progress: ((c.progress + n) % MEMCARD_SIZE as int) as u32, ..c }
}

impl Card {
    /// A blank card: erased flash reads all-ones.
    pub open spec fn blank() -> Card {
        Card {
            data: Seq::new(MEMCARD_SIZE as nat, |i: int| 0xFFu8),
            dirty: false,
            terminator: 0x55,
            sector: 0,
            progress: 0,
        }
    }

    /// Byte that the cursor stands on.
    pub open spec fn pos(self) -> int {
        (self.sector * MEMCARD_PAGE + self.progress) % MEMCARD_SIZE as int
    }

    /// The page that SetSector selects.
    pub open spec fn selected(cmd: Seq<u8>) -> u32 {
        (arg(cmd, 2) + 0x100 * arg(cmd, 3) + 0x1_0000 * arg(cmd, 4) + 0x100_0000 * arg(cmd, 5)) as u32
    }

    /// The reply to a sub-transfer before it is cut to length, and the card
    /// after it. Every reply opens with two bytes clocked out while the host
    /// sends the 0x81 and the command byte, which a present card drives low.
    pub open spec fn answer(self, cmd: Seq<u8>, len: int) -> (Seq<u8>, Card) {
        let op = arg(cmd, 1);
        let t = self.terminator;
        let n = arg(cmd, 2) as int;
        if op == 0x82 {
            (acked(4, t), Card { data: erased(self.data, self.sector), dirty: true, ..self })
        } else if op == 0x11 || op == 0x12 || op == 0x81 {
            (acked(4, t), self)
        } else if op == 0xBF || op == 0xF7 {
            (acked(5, t), self)
        } else if op == 0xF3 {
            // MagicGate session reset; also forces the terminator back.
            (acked(5, 0x55), Card { terminator: 0x55, ..self })
        } else if op == 0x21 || op == 0x22 || op == 0x23 {
            (acked(9, t), Card { sector: Card::selected(cmd), progress: 0, ..self })
        } else if op == 0x26 {
            // GetSpecs: sector size, pages per erase block, page count.
            (seq![0, 0, 0x2B, 0x00, 0x02, 0x10, 0x00, 0x00, 0x40, 0x00, 0x00, 0x52, t], self)
        } else if op == 0x27 {
            // SetTerminator: the reply already carries the new byte.
            let now = if cmd.len() > 2 {
                cmd[2]
            } else {
                0x55
            };
            (seq![0, 0, 0, 0x2B, now], Card { terminator: now, ..self })
        } else if op == 0x28 {
            (seq![0, 0, 0x2B, t, t], self)
        } else if op == 0x42 {
            // WriteData: the card echoes zeros for the payload and answers
            // with its own checksum.
            let b = payload(cmd, n);
            (
                seq![0, 0, 0, 0x2B] + zeros(n) + seq![xor_all(b), t],
                moved(Card { data: stored(self.data, self.pos(), b, n), dirty: true, ..self }, n),
            )
        } else if op == 0x43 {
            // ReadData: the page bytes plus their XOR.
            let b = card_bytes(self.data, self.pos(), n);
            (seq![0, 0, 0, 0x2B] + b + seq![xor_all(b), t], moved(self, n))
        } else if op == 0x52 {
            // PS1 card read, used to tell a PS1 card from a PS2 one.
            let (hi, lo) = (arg(cmd, 4), arg(cmd, 5));
            let b = card_bytes(self.data, (hi * 0x100 + lo) * PS1_SECTOR, PS1_SECTOR as int);
            (
                seq![0, 0, 0x5A, 0x5D, 0x00, 0x00, 0x5C, 0x5D, hi, lo] + b + seq![xor_all(seq![hi, lo] + b), 0x47],
                self,
            )
        } else if op == 0xF0 {
            let mode = arg(cmd, 2);
            if mode == 0x01 || mode == 0x02 || mode == 0x04 || mode == 0x0F || mode == 0x11 || mode == 0x13 {
                // Eight console bytes, answered with their XOR.
                (seq![0, 0, 0, 0x2B] + zeros(8) + seq![xor_all(payload(cmd, 8)), t], self)
            } else if mode == 0x06 || mode == 0x07 || mode == 0x0B {
                (acked(14, t), self)
            } else {
                (acked(5, t), self)
            }
        } else {
            (acked(len, t), self)
        }
    }

    /// The reply cut or padded to the sub-transfer's length, and the card
    /// after it.
    pub open spec fn respond(self, cmd: Seq<u8>, len: int) -> (Seq<u8>, Card) {
        (resized(self.answer(cmd, len).0, len), self.answer(cmd, len).1)
    }
}

/// Zeros up to `n` bytes.
pub fn pad(r: &mut Vec<u8>, n: usize)
    requires
        old(r)@.len() <= n,
    ensures
        final(r)@ == old(r)@ + zeros(n - old(r)@.len()),
{
    let start: usize = r.len();
    for i in start..n
        invariant
            r@ == old(r)@ + zeros(i - start),
            start == old(r)@.len(),
    {
        r.push(0);
        assert(r@ =~= old(r)@ + zeros(i + 1 - start));
    }
}

pub fn cut_to(r: &mut Vec<u8>, n: usize)
    ensures
        final(r)@ == resized(old(r)@, n as int),
{
    if r.len() > n {
        r.truncate(n);
    } else {
        pad(r, n);
    }
    assert(r@ =~= resized(old(r)@, n as int));
}

pub fn append(r: &mut Vec<u8>, b: &[u8])
    ensures
        final(r)@ == old(r)@ + b@,
{
    let n: usize = b.len();
    for i in 0..n
        invariant
            n == b@.len(),
            r@ == old(r)@ + b@.subrange(0, i as int),
    {
        r.push(b[i]);
        assert(r@ =~= old(r)@ + b@.subrange(0, i + 1));
    }
    assert(r@ =~= old(r)@ + b@);
}

fn acknowledge(n: usize, terminator: u8) -> (r: Vec<u8>)
    ensures
        r@ == acked(n as int, terminator),
{
    let mut r: Vec<u8> = Vec::new();
    let m: usize = if n > 4 { n - 2 } else { 2 };
    pad(&mut r, m);
    r.push(0x2B);
    r.push(terminator);
    assert(r@ =~= acked(n as int, terminator));
    r
}

fn xor_of(b: &[u8], start: u8) -> (x: u8)
    requires
        start == 0,
    ensures
        x == xor_all(b@),
{
    let n: usize = b.len();
    let mut x: u8 = start;
    for i in 0..n
        invariant
            n == b@.len(),
            x == xor_all(b@.subrange(0, i as int)),
    {
        assert(b@.subrange(0, i + 1).drop_last() =~= b@.subrange(0, i as int));
        x = x ^ b[i];
    }
    assert(b@.subrange(0, n as int) =~= b@);
    x
}

fn specs_reply(t: u8) -> (r: Vec<u8>)
    ensures
        r@ == seq![0u8, 0, 0x2B, 0x00, 0x02, 0x10, 0x00, 0x00, 0x40, 0x00, 0x00, 0x52, t],
{
    let r: Vec<u8> = vec![0, 0, 0x2B, 0x00, 0x02, 0x10, 0x00, 0x00, 0x40, 0x00, 0x00, 0x52, t];
    assert(r@ =~= seq![0u8, 0, 0x2B, 0x00, 0x02, 0x10, 0x00, 0x00, 0x40, 0x00, 0x00, 0x52, t]);
    r
}

impl MemCard {
    pub open spec fn wf(&self) -> bool {
        self.data@.len() == MEMCARD_SIZE && self.progress < MEMCARD_SIZE
    }

    pub open spec fn model(&self) -> Card {
        Card {
            data: self.data@,
            dirty: self.dirty,
            terminator: self.terminator,
            sector: self.sector,
            progress: self.progress,
        }
    }

    /// A blank card: erased flash reads all-ones; the OSD offers to format
    /// it.
    pub fn new() -> (c: Self)
        ensures
            c.wf(),
            c.model() == Card::blank(),
    {
        let data: Vec<u8> = vec![0xFF; MEMCARD_SIZE];
        assert(data@ =~= Seq::new(MEMCARD_SIZE as nat, |i: int| 0xFFu8));
        MemCard { data, dirty: false, terminator: 0x55, sector: 0, progress: 0 }
    }

    pub fn pos(&self) -> (p: usize)
        requires
            self.wf(),
        ensures
            p == self.model().pos(),
            p < MEMCARD_SIZE,
    {
        ((self.sector as u64 * 528 + self.progress as u64) % 8650752) as usize
    }

    fn erase_block(&mut self)
        requires
            old(self).wf(),
        ensures
            final(self).wf(),
            final(self).model() == (Card { data: erased(old(self).data@, old(self).sector), dirty: true, ..old(self).model() }),
    {
        let start: usize = ((self.sector / 16) as u64 * 8448 % 8650752) as usize;
        assert(start + MEMCARD_BLOCK <= MEMCARD_SIZE);
        for i in 0..MEMCARD_BLOCK
            invariant
                start + MEMCARD_BLOCK <= MEMCARD_SIZE,
                self.data@.len() == MEMCARD_SIZE,
                self.sector == old(self).sector,
                self.progress == old(self).progress,
                self.terminator == old(self).terminator,
                forall|k: int|
                    0 <= k < MEMCARD_SIZE ==> self.data@[k] == (if start <= k < start + i {
                        0xFFu8
                    } else {
                        old(self).data@[k]
                    }),
        {
            self.data[start + i] = 0xFF;
        }
        self.dirty = true;
        assert(self.data@ =~= erased(old(self).data@, old(self).sector));
    }

    fn read_data(&mut self, n: usize) -> (b: Vec<u8>)
        requires
            old(self).wf(),
            n <= 255,
        ensures
            final(self).wf(),
            b@ == card_bytes(old(self).data@, old(self).model().pos(), n as int),
            final(self).model() == moved(old(self).model(), n as int),
    {
        let at: usize = self.pos();
        let mut b: Vec<u8> = Vec::new();
        for i in 0..n
            invariant
                *self == *old(self),
                self.wf(),
                n <= 255,
                at == self.model().pos(),
                b@ == card_bytes(self.data@, at as int, i as int),
        {
            b.push(self.data[(at + i) % MEMCARD_SIZE]);
            assert(b@ =~= card_bytes(self.data@, at as int, i + 1));
        }
        self.progress = (self.progress + n as u32) % 8650752;
        b
    }

    fn write_data(&mut self, b: &Vec<u8>)
        requires
            old(self).wf(),
            b@.len() <= 255,
        ensures
            final(self).wf(),
            final(self).model() == moved(
                (Card {
                    data: stored(old(self).data@, old(self).model().pos(), b@, b@.len() as int),
                    dirty: true,
                    ..old(self).model()
                }),
                b@.len() as int,
            ),
    {
        let at: usize = self.pos();
        let n: usize = b.len();
        for i in 0..n
            invariant
                n == b@.len(),
                n <= 255,
                self.wf(),
                at == old(self).model().pos(),
                at < MEMCARD_SIZE,
                self.sector == old(self).sector,
                self.progress == old(self).progress,
                self.terminator == old(self).terminator,
                self.data@ == stored(old(self).data@, at as int, b@, i as int),
        {
            self.data[(at + i) % MEMCARD_SIZE] = b[i];
        }
        self.progress = (self.progress + n as u32) % 8650752;
        self.dirty = true;
    }

    /// Build the `len`-byte reply for one `[0x81, op, ...]` sub-transfer.
    pub fn respond(&mut self, cmd: &[u8], len: usize) -> (r: Vec<u8>)
        requires
            old(self).wf(),
        ensures
            final(self).wf(),
            r@ == old(self).model().respond(cmd@, len as int).0,
            final(self).model() == old(self).model().respond(cmd@, len as int).1,
    {
        let op: u8 = arg_of(cmd, 1);
        let t: u8 = self.terminator;
        let mut r: Vec<u8> = match op {
            0x11 | 0x12 | 0x81 => acknowledge(4, t),
            0x82 => {
                self.erase_block();
                acknowledge(4, t)
            },
            0xBF | 0xF7 => acknowledge(5, t),
            0xF3 => {
                self.terminator = 0x55;
                acknowledge(5, 0x55)
            },
            0x21 | 0x22 | 0x23 => {
                self.sector = arg_of(cmd, 2) as u32 + 0x100 * arg_of(cmd, 3) as u32 + 0x1_0000 * arg_of(cmd, 4) as u32
                    + 0x100_0000 * arg_of(cmd, 5) as u32;
                self.progress = 0;
                acknowledge(9, t)
            },
            0x26 => specs_reply(t),
            0x27 => {
                let now: u8 = if cmd.len() > 2 { cmd[2] } else { 0x55 };
                self.terminator = now;
                let r: Vec<u8> = vec![0, 0, 0, 0x2B, now];
                assert(r@ =~= seq![0u8, 0, 0, 0x2B, now]);
                r
            },
            0x28 => {
                let r: Vec<u8> = vec![0, 0, 0x2B, t, t];
                assert(r@ =~= seq![0u8, 0, 0x2B, t, t]);
                r
            },
            0x42 => {
                let n: usize = arg_of(cmd, 2) as usize;
                let b = read_payload(cmd, n);
                self.write_data(&b);
                let mut r: Vec<u8> = vec![0, 0, 0, 0x2B];
                assert(r@ =~= seq![0u8, 0, 0, 0x2B]);
                pad(&mut r, 4 + n);
                r.push(xor_of(b.as_slice(), 0));
                r.push(t);
                assert(r@ =~= seq![0u8, 0, 0, 0x2B] + zeros(n as int) + seq![xor_all(b@), t]);
                r
            },
            0x43 => {
                let n: usize = arg_of(cmd, 2) as usize;
                let b = self.read_data(n);
                let mut r: Vec<u8> = vec![0, 0, 0, 0x2B];
                assert(r@ =~= seq![0u8, 0, 0, 0x2B]);
                append(&mut r, b.as_slice());
                r.push(xor_of(b.as_slice(), 0));
                r.push(t);
                assert(r@ =~= seq![0u8, 0, 0, 0x2B] + b@ + seq![xor_all(b@), t]);
                r
            },
            0x52 => self.ps1_read(arg_of(cmd, 4), arg_of(cmd, 5)),
            0xF0 => match arg_of(cmd, 2) {
                0x01 | 0x02 | 0x04 | 0x0F | 0x11 | 0x13 => {
                    let b = read_payload(cmd, 8);
                    let mut r: Vec<u8> = vec![0, 0, 0, 0x2B];
                    assert(r@ =~= seq![0u8, 0, 0, 0x2B]);
                    pad(&mut r, 12);
                    r.push(xor_of(b.as_slice(), 0));
                    r.push(t);
                    assert(r@ =~= seq![0u8, 0, 0, 0x2B] + zeros(8) + seq![xor_all(b@), t]);
                    r
                },
                // These carry eight bytes but want the plain acknowledge.
                0x06 | 0x07 | 0x0B => acknowledge(14, t),
                _ => acknowledge(5, t),
            },
            _ => acknowledge(len, t),
        };
        assert(r@ == old(self).model().answer(cmd@, len as int).0);
        assert(self.model() == old(self).model().answer(cmd@, len as int).1);
        cut_to(&mut r, len);
        r
    }

    fn ps1_read(&self, hi: u8, lo: u8) -> (r: Vec<u8>)
        requires
            self.wf(),
        ensures
            ({
                let b = card_bytes(self.data@, (hi * 0x100 + lo) * PS1_SECTOR, PS1_SECTOR as int);
                r@ == seq![0u8, 0, 0x5A, 0x5D, 0x00, 0x00, 0x5C, 0x5D, hi, lo] + b + seq![xor_all(seq![hi, lo] + b), 0x47]
            }),
    {
        let start: usize = (hi as usize * 0x100 + lo as usize) * PS1_SECTOR;
        let mut b: Vec<u8> = vec![hi, lo];
        assert(b@ =~= seq![hi, lo]);
        for i in 0..PS1_SECTOR
            invariant
                self.wf(),
                start == (hi * 0x100 + lo) * PS1_SECTOR,
                b@ == seq![hi, lo] + card_bytes(self.data@, start as int, i as int),
        {
            b.push(self.data[(start + i) % MEMCARD_SIZE]);
            assert(b@ =~= seq![hi, lo] + card_bytes(self.data@, start as int, i + 1));
        }
        let x: u8 = xor_of(b.as_slice(), 0);
        let mut r: Vec<u8> = vec![0, 0, 0x5A, 0x5D, 0x00, 0x00, 0x5C, 0x5D];
        assert(r@ =~= seq![0u8, 0, 0x5A, 0x5D, 0x00, 0x00, 0x5C, 0x5D]);
        append(&mut r, b.as_slice());
        r.push(x);
        r.push(0x47);
        proof {
            let c = card_bytes(self.data@, start as int, PS1_SECTOR as int);
            assert(r@ =~= seq![0u8, 0, 0x5A, 0x5D, 0x00, 0x00, 0x5C, 0x5D, hi, lo] + c + seq![xor_all(seq![hi, lo] + c), 0x47]);
        }
        r
    }
}

impl Default for MemCard {
    fn default() -> (c: Self)
        ensures
            c.wf(),
            c.model() == Card::blank(),
    {
        MemCard::new()
    }
}

fn read_payload(cmd: &[u8], n: usize) -> (b: Vec<u8>)
    requires
        n <= 255,
    ensures
        b@ == payload(cmd@, n as int),
        b@.len() == n,
{
    let mut b: Vec<u8> = Vec::new();
    for i in 0..n
        invariant
            n <= 255,
            b@ == payload(cmd@, i as int),
    {
        b.push(arg_of(cmd, 3 + i));
        assert(b@ =~= payload(cmd@, i + 1));
    }
    b
}

proof fn lemma_stored_len(data: Seq<u8>, at: int, b: Seq<u8>, n: int)
    requires
        data.len() == MEMCARD_SIZE,
    ensures
        stored(data, at, b, n).len() == MEMCARD_SIZE,
    decreases n,
{
    if n > 0 {
        lemma_stored_len(data, at, b, n - 1);
    }
}

proof fn lemma_stored(data: Seq<u8>, at: int, b: Seq<u8>, n: int, i: int)
    requires
        data.len() == MEMCARD_SIZE,
        0 <= at,
        0 <= i < n <= MEMCARD_SIZE,
    ensures
        stored(data, at, b, n)[(at + i) % MEMCARD_SIZE as int] == b[i],
    decreases n,
{
    lemma_stored_len(data, at, b, n - 1);
    if i < n - 1 {
        lemma_stored(data, at, b, n - 1, i);
        let (x, y) = ((at + i) % 8650752, (at + n - 1) % 8650752);
        if x == y {
            assert(0 < (n - 1) - i < 8650752);
            assert(false);
        }
    }
}

proof fn lemma_read_back(data: Seq<u8>, at: int, b: Seq<u8>, n: int)
    requires
        data.len() == MEMCARD_SIZE,
        0 <= at,
        0 <= n <= b.len(),
        n <= 255,
    ensures
        card_bytes(stored(data, at, b, n), at, n) == b.subrange(0, n),
{
    assert forall|i: int| 0 <= i < n implies card_bytes(stored(data, at, b, n), at, n)[i] == b[i] by {
        lemma_stored(data, at, b, n, i);
    }
    assert(card_bytes(stored(data, at, b, n), at, n) =~= b.subrange(0, n));
}

/// Byte `k` of the card is none of the `n` from `at` on.
pub open spec fn beside(k: int, at: int, n: int) -> bool {
    forall|i: int| 0 <= i < n ==> k != #[trigger] ((at + i) % MEMCARD_SIZE as int)
}

proof fn lemma_stored_beside(data: Seq<u8>, at: int, b: Seq<u8>, n: int, k: int)
    requires
        data.len() == MEMCARD_SIZE,
        0 <= k < MEMCARD_SIZE,
        beside(k, at, n),
    ensures
        stored(data, at, b, n)[k] == data[k],
    decreases n,
{
    if n > 0 {
        lemma_stored_len(data, at, b, n - 1);
        assert(k != (at + (n - 1)) % MEMCARD_SIZE as int);
        assert(beside(k, at, n - 1));
        lemma_stored_beside(data, at, b, n - 1, k);
    }
}

/// A read gives back what a write stored: SetSector and WriteData, then
/// SetSector of the same page and ReadData of as many bytes, answer with the
/// bytes written and their exclusive or. The rest of the card is as it was.
/// The transfers may have any lengths, which only cut the replies.
pub proof fn law_card_reads_back_what_was_written(
    c: Card,
    to: Seq<u8>,
    write: Seq<u8>,
    back: Seq<u8>,
    read: Seq<u8>,
    lens: Seq<int>,
)
    requires
        c.data.len() == MEMCARD_SIZE,
        arg(to, 1) == 0x21 || arg(to, 1) == 0x22 || arg(to, 1) == 0x23,
        arg(back, 1) == 0x21 || arg(back, 1) == 0x22 || arg(back, 1) == 0x23,
        Card::selected(to) == Card::selected(back),
        arg(write, 1) == 0x42,
        arg(read, 1) == 0x43,
        arg(write, 2) == arg(read, 2),
    ensures
        ({
            let n = arg(write, 2) as int;
            let d = payload(write, n);
            let at = Card::selected(to) * MEMCARD_PAGE % MEMCARD_SIZE as int;
            let written = c.respond(to, lens[0]).1.respond(write, lens[1]).1;
            let (reply, after) = written.respond(back, lens[2]).1.respond(read, lens[3]);
            &&& reply == resized(seq![0, 0, 0, 0x2B] + d + seq![xor_all(d), c.terminator], lens[3])
            &&& after.dirty
            &&& after.terminator == c.terminator
            &&& after.data.len() == MEMCARD_SIZE
            &&& forall|i: int| 0 <= i < n ==> after.data[#[trigger] ((at + i) % MEMCARD_SIZE as int)] == d[i]
            &&& forall|k: int| 0 <= k < MEMCARD_SIZE && #[trigger] beside(k, at, n) ==> after.data[k] == c.data[k]
        }),
{
    let n = arg(write, 2) as int;
    let d = payload(write, n);
    let at = Card::selected(to) * MEMCARD_PAGE % MEMCARD_SIZE as int;
    lemma_stored_len(c.data, at, d, n);
    lemma_read_back(c.data, at, d, n);
    assert(d.subrange(0, n) =~= d);
    assert forall|i: int| 0 <= i < n implies stored(c.data, at, d, n)[#[trigger] ((at + i) % MEMCARD_SIZE as int)]
        == d[i] by {
        lemma_stored(c.data, at, d, n, i);
    }
    assert forall|k: int| 0 <= k < MEMCARD_SIZE && #[trigger] beside(k, at, n) implies stored(c.data, at, d, n)[k]
        == c.data[k] by {
        lemma_stored_beside(c.data, at, d, n, k);
    }
}

/// Only writing and erasing change the card's contents.
pub proof fn law_queries_leave_the_card_alone(c: Card, cmd: Seq<u8>, len: int)
    requires
        arg(cmd, 1) != 0x42,
        arg(cmd, 1) != 0x82,
    ensures
        c.respond(cmd, len).1.data == c.data,
        c.respond(cmd, len).1.dirty == c.dirty,
{
}

/// A reply is as long as the sub-transfer.
pub proof fn law_reply_has_the_transfer_length(c: Card, cmd: Seq<u8>, len: int)
    requires
        len >= 0,
    ensures
        c.respond(cmd, len).0.len() == len,
{
}

} // verus!
