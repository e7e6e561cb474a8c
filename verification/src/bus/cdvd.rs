//! CDVD (MECHACON) model: S commands answer instantly; N commands read
//! sectors of a disc image, which the host streams one request at a time.

use vstd::prelude::*;
use crate::bytes::{get, rd32};
use super::memcard::{append, arg, arg_of, zeros};

verus! {

/// EE cycles per millisecond, for the drive-latency model.
pub const CDVD_MS: u64 = 294_912;

/// Initial spin-up/identification time after power-on, and again after an
/// IOP reboot.
pub const CDVD_SPINUP: u64 = 1_916_928_000;

pub const CDVD_RESETTLE: u64 = 353_894_400;

/// Streaming time of a sector: two fifths of a millisecond.
pub const CDVD_SECTOR: u64 = 117_964;

/// ISO sector payload size; DVD reads wrap it in a 2064-byte raw sector.
pub const ISO_SECTOR: usize = 2048;

/// Sectors that one read command stages at most.
pub const READ_MAX: u32 = 4096;

/// NVRAM size (mechacon EEPROM, 8 Kbit).
pub const NVRAM_SIZE: usize = 1024;

/// NVRAM layout for v1.70+ BIOSes; offsets and per-area block caps as on
/// the real EEPROM. Area 1 holds the OSD's config: block 1 is the
/// language/timezone block whose byte +2 bit 7 is the "initialized" flag:
/// while it is clear the boot runs the first-time setup.
pub const NVRAM_REGPARAMS: usize = 0x180;

pub const NVRAM_ILINK_ID: usize = 0x1E0;

pub const NVRAM_LANGUAGE: usize = 0x2C0;

// --- NVRAM ------------------------------------------------------------------------

/// The three config areas: first byte and number of 16-byte blocks.
pub open spec fn config_area(area: u8) -> Option<(int, int)> {
    if area == 0 {
        Some((0x270, 4))
    } else if area == 1 {
        Some((0x2B0, 2))
    } else if area == 2 {
        Some((0x200, 7))
    } else {
        None
    }
}

/// A factory-fresh Japanese NVRAM, byte by byte: region parameters
/// ("JJjpnJJ"), a dummy i.Link id with its checksum, and the default
/// language block WITHOUT the initialized flag.
pub open spec fn factory_byte(i: int) -> u8 {
    if i == 0x180 || i == 0x181 || i == 0x185 || i == 0x186 {
        0x4A
    } else if i == 0x182 {
        0x6A
    } else if i == 0x183 {
        0x70
    } else if i == 0x184 {
        0x6E
    } else if i == 0x1E1 {
        0xAC
    } else if 0x1E2 <= i <= 0x1E5 {
        0xFF
    } else if i == 0x1E6 {
        0xB9
    } else if i == 0x1E7 {
        0x86
    } else if i == 0x1E9 {
        0x18
    } else if i == 0x2C0 || i == 0x2C1 {
        0x20
    } else if i == 0x2C5 {
        0x70
    } else if i == 0x2CF {
        0x30
    } else {
        0
    }
}

pub open spec fn factory_nvram() -> Seq<u8> {
    Seq::new(NVRAM_SIZE as nat, |i: int| factory_byte(i))
}

pub fn nvram_defaults() -> (nv: Vec<u8>)
    ensures
        nv@ == factory_nvram(),
{
    let mut nv: Vec<u8> = vec![0; NVRAM_SIZE];
    nv[0x180] = 0x4A;
    nv[0x181] = 0x4A;
    nv[0x182] = 0x6A;
    nv[0x183] = 0x70;
    nv[0x184] = 0x6E;
    nv[0x185] = 0x4A;
    nv[0x186] = 0x4A;
    nv[0x1E1] = 0xAC;
    nv[0x1E2] = 0xFF;
    nv[0x1E3] = 0xFF;
    nv[0x1E4] = 0xFF;
    nv[0x1E5] = 0xFF;
    nv[0x1E6] = 0xB9;
    nv[0x1E7] = 0x86;
    nv[0x1E9] = 0x18;
    nv[0x2C0] = 0x20;
    nv[0x2C1] = 0x20;
    nv[0x2C5] = 0x70;
    nv[0x2CF] = 0x30;
    assert(nv@ =~= factory_nvram());
    nv
}

/// All of `n` bytes from `at` on are zero.
pub open spec fn wiped(s: Seq<u8>, at: int, n: int) -> bool {
    forall|i: int| at <= i < at + n ==> s[i] == 0
}

fn is_wiped(s: &Vec<u8>, at: usize, n: usize) -> (r: bool)
    requires
        at + n <= s@.len(),
        at + n <= 0x1_0000,
    ensures
        r == wiped(s@, at as int, n as int),
{
    for i in at..at + n
        invariant
            at + n <= s@.len(),
            at + n <= 0x1_0000,
            forall|j: int| at <= j < i ==> s@[j] == 0,
    {
        if s[i] != 0 {
            return false;
        }
    }
    true
}

/// The NVRAM that an image on the host gives: an image of the wrong size,
/// or none, counts as factory-fresh; region parameters and a language block
/// must exist, so a wiped image gets the defaults of both and the i.Link id.
pub open spec fn nvram_loaded(image: Option<Seq<u8>>) -> Seq<u8> {
    match image {
        Some(d) if d.len() == NVRAM_SIZE => {
            if wiped(d, NVRAM_LANGUAGE as int, 16) || wiped(d, NVRAM_REGPARAMS as int, 12) {
                Seq::new(
                    NVRAM_SIZE as nat,
                    |i: int|
                        if NVRAM_REGPARAMS <= i < NVRAM_REGPARAMS + 12 || NVRAM_ILINK_ID <= i < NVRAM_ILINK_ID + 10
                            || NVRAM_LANGUAGE <= i < NVRAM_LANGUAGE + 16 {
                            factory_byte(i)
                        } else {
                            d[i]
                        },
                )
            } else {
                d
            }
        },
        _ => factory_nvram(),
    }
}

fn refill(nv: &mut Vec<u8>, d: &Vec<u8>, at: usize, n: usize)
    requires
        old(nv)@.len() == NVRAM_SIZE,
        d@ == factory_nvram(),
        at + n <= NVRAM_SIZE,
    ensures
        final(nv)@ == Seq::new(
            NVRAM_SIZE as nat,
            |i: int|
                if at <= i < at + n {
                    factory_byte(i)
                } else {
                    old(nv)@[i]
                },
        ),
{
    for i in at..at + n
        invariant
            nv@.len() == NVRAM_SIZE,
            d@ == factory_nvram(),
            at + n <= NVRAM_SIZE,
            forall|k: int|
                0 <= k < NVRAM_SIZE ==> nv@[k] == (if at <= k < i {
                    factory_byte(k)
                } else {
                    old(nv)@[k]
                }),
    {
        nv[i] = d[i];
    }
    assert(nv@ =~= Seq::new(
        NVRAM_SIZE as nat,
        |i: int|
            if at <= i < at + n {
                factory_byte(i)
            } else {
                old(nv)@[i]
            },
    ));
}

// --- the disc ---------------------------------------------------------------------

/// Sector 16 of an ISO9660 image names itself and the root directory.
pub open spec fn root_extent(pvd: Seq<u8>) -> Option<u32> {
    if pvd.len() >= 162 && pvd[1] == 0x43 && pvd[2] == 0x44 && pvd[3] == 0x30 && pvd[4] == 0x30 && pvd[5] == 0x31 {
        Some(get(pvd, 158, 4) as u32)
    } else {
        None
    }
}

pub fn read_root_extent(pvd: &[u8]) -> (r: Option<u32>)
    ensures
        r == root_extent(pvd@),
{
    if pvd.len() >= 162 && pvd[1] == 0x43 && pvd[2] == 0x44 && pvd[3] == 0x30 && pvd[4] == 0x30 && pvd[5] == 0x31 {
        Some(rd32(pvd, 158))
    } else {
        None
    }
}

/// "SYSTEM.CNF"
pub open spec fn cnf_name() -> Seq<u8> {
    seq![0x53, 0x59, 0x53, 0x54, 0x45, 0x4D, 0x2E, 0x43, 0x4E, 0x46]
}

/// "BOOT2"
pub open spec fn boot_key() -> Seq<u8> {
    seq![0x42, 0x4F, 0x4F, 0x54, 0x32]
}

/// `pat` stands at `at` in `s`.
pub open spec fn matches_at(s: Seq<u8>, at: int, pat: Seq<u8>) -> bool {
    0 <= at && at + pat.len() <= s.len() && s.subrange(at, at + pat.len()) == pat
}

fn is_match(s: &[u8], at: usize, pat: &Vec<u8>) -> (r: bool)
    requires
        pat@.len() <= 16,
    ensures
        r == matches_at(s@, at as int, pat@),
{
    let n: usize = s.len();
    let m: usize = pat.len();
    if at > n || n - at < m {
        return false;
    }
    for i in 0..m
        invariant
            n == s@.len(),
            m == pat@.len(),
            at + m <= n,
            forall|j: int| 0 <= j < i ==> s@[at + j] == pat@[j],
    {
        if s[at + i] != pat[i] {
            assert(s@.subrange(at as int, at + m)[i as int] != pat@[i as int]);
            return false;
        }
    }
    assert(s@.subrange(at as int, at + m) =~= pat@);
    true
}

/// The directory record from `off` on whose name starts with SYSTEM.CNF; a
/// record that runs past the sector ends the walk.
pub open spec fn cnf_record(dir: Seq<u8>, off: int) -> Option<u32>
    decreases dir.len() + 256 - off,
{
    if off < 0 || off + 33 > dir.len() || dir[off] == 0 || off + 33 + dir[off + 32] > dir.len() {
        None
    } else if dir[off + 32] >= 10 && matches_at(dir, off + 33, cnf_name()) {
        Some(get(dir, off + 2, 4) as u32)
    } else {
        cnf_record(dir, off + dir[off])
    }
}

pub fn read_cnf_extent(dir: &[u8]) -> (r: Option<u32>)
    requires
        dir@.len() <= 0x1_0000,
    ensures
        r == cnf_record(dir@, 0),
{
    let n: usize = dir.len();
    let name: Vec<u8> = vec![0x53, 0x59, 0x53, 0x54, 0x45, 0x4D, 0x2E, 0x43, 0x4E, 0x46];
    assert(name@ =~= cnf_name());
    let mut off: usize = 0;
    while off + 33 <= n && dir[off] != 0 && off + 33 + dir[off + 32] as usize <= n
        invariant
            n == dir@.len(),
            n <= 0x1_0000,
            off <= n + 256,
            name@ == cnf_name(),
            cnf_record(dir@, 0) == cnf_record(dir@, off as int),
        decreases n + 256 - off,
    {
        if dir[off + 32] >= 10 && is_match(dir, off + 33, &name) {
            return Some(rd32(dir, off + 2));
        }
        off = off + dir[off] as usize;
    }
    None
}

pub open spec fn is_letter(b: u8) -> bool {
    (0x41 <= b <= 0x5A) || (0x61 <= b <= 0x7A)
}

pub open spec fn is_digit(b: u8) -> bool {
    0x30 <= b <= 0x39
}

/// A backslash, colon or slash.
pub open spec fn is_separator(b: u8) -> bool {
    b == 0x5C || b == 0x3A || b == 0x2F
}

/// Position of the first `c`, the length where there is none.
pub open spec fn find_byte(s: Seq<u8>, c: u8) -> int
    decreases s.len(),
{
    if s.len() == 0 || s[0] == c {
        0
    } else {
        1 + find_byte(s.subrange(1, s.len() as int), c)
    }
}

proof fn lemma_find_byte(s: Seq<u8>, c: u8)
    ensures
        0 <= find_byte(s, c) <= s.len(),
    decreases s.len(),
{
    if s.len() > 0 {
        lemma_find_byte(s.subrange(1, s.len() as int), c);
    }
}

fn position_from(s: &[u8], from: usize, c: u8) -> (r: usize)
    requires
        from <= s@.len(),
    ensures
        r == from + find_byte(s@.subrange(from as int, s@.len() as int), c),
        from <= r <= s@.len(),
{
    let n: usize = s.len();
    let mut i: usize = from;
    while i < n && s[i] != c
        invariant
            n == s@.len(),
            from <= i <= n,
            from + find_byte(s@.subrange(from as int, n as int), c) == i + find_byte(s@.subrange(i as int, n as int), c),
        decreases n - i,
    {
        assert(s@.subrange(i as int, n as int).subrange(1, n - i) =~= s@.subrange(i + 1, n as int));
        i = i + 1;
    }
    i
}

/// Whether `pat` occurs in `s`.
pub open spec fn contains(s: Seq<u8>, pat: Seq<u8>) -> bool {
    exists|i: int| matches_at(s, i, pat)
}

/// The first line that mentions BOOT2.
pub open spec fn boot_line(s: Seq<u8>) -> Option<Seq<u8>>
    decreases s.len(),
{
    let i = find_byte(s, 10);
    if i < 0 || i > s.len() {
        None
    } else if contains(s.subrange(0, i), boot_key()) {
        Some(s.subrange(0, i))
    } else if i >= s.len() {
        None
    } else {
        boot_line(s.subrange(i + 1, s.len() as int))
    }
}

/// What follows the last separator.
pub open spec fn last_component(s: Seq<u8>) -> Seq<u8>
    decreases s.len(),
{
    if s.len() == 0 || is_separator(s.last()) {
        Seq::empty()
    } else {
        last_component(s.drop_last()).push(s.last())
    }
}

/// The boot serial ("SLPS25918"-style: 4 letters + 5 digits) of a
/// SYSTEM.CNF: `BOOT2 = cdrom0:\\SLPS_259.18;1` names the boot file; its
/// first four letters, then the first five digits before the version.
pub open spec fn serial_of(cnf: Seq<u8>) -> Option<Seq<u8>> {
    match boot_line(cnf) {
        None => None,
        Some(line) => {
            let path = last_component(line);
            let letters = path.filter(|b: u8| is_letter(b));
            let digits = path.subrange(0, find_byte(path, 0x3B)).filter(|b: u8| is_digit(b));
            if letters.len() >= 4 && digits.len() >= 5 {
                Some(letters.subrange(0, 4) + digits.subrange(0, 5))
            } else {
                None
            }
        },
    }
}

fn find_boot_line(s: &[u8]) -> (r: Option<(usize, usize)>)
    ensures
        match r {
            Some((lo, hi)) => lo <= hi <= s@.len() && boot_line(s@) == Some(s@.subrange(lo as int, hi as int)),
            None => boot_line(s@) is None,
        },
{
    let n: usize = s.len();
    let key: Vec<u8> = vec![0x42, 0x4F, 0x4F, 0x54, 0x32];
    assert(key@ =~= boot_key());
    let mut lo: usize = 0;
    assert(s@.subrange(0, n as int) =~= s@);
    loop
        invariant
            n == s@.len(),
            lo <= n,
            key@ == boot_key(),
            boot_line(s@) == boot_line(s@.subrange(lo as int, n as int)),
        decreases n - lo,
    {
        let hi: usize = position_from(s, lo, 10);
        let ghost tail = s@.subrange(lo as int, n as int);
        let ghost line = s@.subrange(lo as int, hi as int);
        assert(tail.subrange(0, hi - lo) =~= line);
        let line_bytes = vstd::slice::slice_subrange(s, lo, hi);
        let m: usize = hi - lo;
        let mut i: usize = 0;
        while i < m
            invariant
                line_bytes@ == line,
                m == line.len(),
                i <= m,
                key@ == boot_key(),
                lo <= hi <= n,
                n == s@.len(),
                line == s@.subrange(lo as int, hi as int),
                boot_line(s@) == boot_line(s@.subrange(lo as int, n as int)),
                contains(line, boot_key()) ==> boot_line(s@) == Some(line),
                forall|j: int| 0 <= j < i ==> !matches_at(line, j, boot_key()),
            decreases m - i,
        {
            if is_match(line_bytes, i, &key) {
                assert(matches_at(line, i as int, boot_key()));
                return Some((lo, hi));
            }
            i = i + 1;
        }
        assert(!contains(line, boot_key())) by {
            assert forall|j: int| !matches_at(line, j, boot_key()) by {
                if 0 <= j && j < m {
                    assert(!matches_at(line, j, boot_key()));
                }
            }
        }
        if hi >= n {
            return None;
        }
        assert(tail.subrange(hi - lo + 1, tail.len() as int) =~= s@.subrange(hi + 1, n as int));
        lo = hi + 1;
    }
}

fn component_start(s: &[u8]) -> (at: usize)
    ensures
        at <= s@.len(),
        last_component(s@) == s@.subrange(at as int, s@.len() as int),
{
    let n: usize = s.len();
    let mut at: usize = n;
    assert(s@.subrange(0, n as int) =~= s@);
    assert(last_component(s@) =~= last_component(s@.subrange(0, n as int)) + s@.subrange(n as int, n as int));
    while at > 0 && !(s[at - 1] == 0x5C || s[at - 1] == 0x3A || s[at - 1] == 0x2F)
        invariant
            n == s@.len(),
            at <= n,
            last_component(s@) == last_component(s@.subrange(0, at as int)) + s@.subrange(at as int, n as int),
        decreases at,
    {
        proof {
            let t = s@.subrange(0, at as int);
            assert(t.drop_last() =~= s@.subrange(0, at - 1));
            assert(last_component(t) + s@.subrange(at as int, n as int) =~= last_component(s@.subrange(0, at - 1))
                + s@.subrange(at - 1, n as int));
        }
        at = at - 1;
    }
    proof {
        let t = s@.subrange(0, at as int);
        assert(last_component(t) =~= Seq::empty());
        assert(last_component(s@) =~= s@.subrange(at as int, n as int));
    }
    at
}

/// The bytes of `s` of one class, letters or digits.
fn pick(s: &[u8], digits: bool) -> (r: Vec<u8>)
    ensures
        r@ == (if digits {
            s@.filter(|b: u8| is_digit(b))
        } else {
            s@.filter(|b: u8| is_letter(b))
        }),
{
    let n: usize = s.len();
    let ghost p = if digits {
        |b: u8| is_digit(b)
    } else {
        |b: u8| is_letter(b)
    };
    let mut r: Vec<u8> = Vec::new();
    proof {
        reveal(Seq::filter);
        assert(s@.subrange(0, 0).filter(p) =~= Seq::empty());
    }
    for i in 0..n
        invariant
            n == s@.len(),
            p == (if digits {
                |b: u8| is_digit(b)
            } else {
                |b: u8| is_letter(b)
            }),
            r@ == s@.subrange(0, i as int).filter(p),
    {
        let b: u8 = s[i];
        let keep = if digits {
            b >= 0x30 && b <= 0x39
        } else {
            (b >= 0x41 && b <= 0x5A) || (b >= 0x61 && b <= 0x7A)
        };
        proof {
            reveal(Seq::filter);
            assert(s@.subrange(0, i + 1).drop_last() =~= s@.subrange(0, i as int));
            assert(p(b) == keep);
        }
        if keep {
            r.push(b);
        }
    }
    assert(s@.subrange(0, n as int) =~= s@);
    r
}

/// Extract the boot serial from SYSTEM.CNF.
pub fn disc_serial(cnf: &[u8]) -> (r: Option<Vec<u8>>)
    ensures
        match r {
            Some(s) => serial_of(cnf@) == Some(s@) && s@.len() == 9,
            None => serial_of(cnf@) is None,
        },
{
    let (lo, hi) = match find_boot_line(cnf) {
        Some(r) => r,
        None => return None,
    };
    let line = vstd::slice::slice_subrange(cnf, lo, hi);
    let at: usize = component_start(line);
    let path = vstd::slice::slice_subrange(line, at, line.len());
    assert(path@ == last_component(line@));
    let letters = pick(path, false);
    assert(path@.subrange(0, path@.len() as int) =~= path@);
    let end: usize = position_from(path, 0, 0x3B);
    let digits = pick(vstd::slice::slice_subrange(path, 0, end), true);
    if letters.len() < 4 || digits.len() < 5 {
        return None;
    }
    let out: Vec<u8> = vec![
        letters[0],
        letters[1],
        letters[2],
        letters[3],
        digits[0],
        digits[1],
        digits[2],
        digits[3],
        digits[4],
    ];
    assert(out@ =~= letters@.subrange(0, 4) + digits@.subrange(0, 5));
    Some(out)
}

/// A serial the way it is printed on the disc ("SLPS-25418").
pub open spec fn printed(s: Seq<u8>) -> Seq<char> {
    Seq::new(10, |i: int| if i < 4 {
        s[i] as char
    } else if i == 4 {
        '-'
    } else {
        s[i - 1] as char
    })
}

/// The boot serial of a disc with this SYSTEM.CNF, formatted the way it is
/// printed on the disc.
pub fn boot_serial(cnf: &[u8]) -> (r: Option<String>)
    ensures
        match serial_of(cnf@) {
            Some(s) => r matches Some(text) && text@ == printed(s),
            None => r is None,
        },
{
    let s = match disc_serial(cnf) {
        Some(s) => s,
        None => return None,
    };
    let mut text: String = String::new();
    let mut i: usize = 0;
    while i < 9
        invariant
            i <= 9,
            s@.len() == 9,
            text@ == printed(s@).take(if i <= 4 {
                i as int
            } else {
                i + 1
            }),
        decreases 9 - i,
    {
        if i == 4 {
            text.push('-');
        }
        text.push(s[i] as char);
        i = i + 1;
        assert(text@ =~= printed(s@).take(if i <= 4 {
            i as int
        } else {
            i + 1
        }));
    }
    assert(text@ =~= printed(s@));
    Some(text)
}

// --- the disc key -----------------------------------------------------------------

/// The five digits of a serial as a number.
pub open spec fn serial_number(s: Seq<u8>) -> int {
    10000 * (s[4] - 48) + 1000 * (s[5] - 48) + 100 * (s[6] - 48) + 10 * (s[7] - 48) + (s[8] - 48)
}

/// The four letters of a serial, seven bits each.
pub open spec fn serial_letters(s: Seq<u8>) -> int {
    s[3] as int % 128 + 0x80 * (s[2] as int % 128) + 0x4000 * (s[1] as int % 128) + 0x20_0000 * (s[0] as int % 128)
}

/// A serial as [`disc_serial`] gives it.
pub open spec fn is_serial(s: Seq<u8>) -> bool {
    s.len() == 9 && forall|i: int| 4 <= i < 9 ==> is_digit(#[trigger] s[i])
}

/// Key bytes 0-3, derived from the serial the way the mechacon does.
pub open spec fn key_word(s: Seq<u8>) -> int {
    serial_number(s) / 1024 % 128 + 128 * (serial_letters(s) % 0x200_0000)
}

/// The disc key for a serial and the argument of the key command.
pub open spec fn disc_key(serial: Option<Seq<u8>>, a: int) -> Seq<u8> {
    Seq::new(
        15,
        |i: int|
            if a == 4246 && i < 5 {
                if i == 0 {
                    0x07u8
                } else if i == 1 {
                    0xF7
                } else if i == 2 {
                    0xF2
                } else if i == 3 {
                    0x01
                } else {
                    0x00
                }
            } else {
                match serial {
                    None => 0u8,
                    Some(s) => if i == 0 {
                        (key_word(s) % 256) as u8
                    } else if i == 1 {
                        (key_word(s) / 0x100 % 256) as u8
                    } else if i == 2 {
                        (key_word(s) / 0x1_0000 % 256) as u8
                    } else if i == 3 {
                        (key_word(s) / 0x100_0000 % 256) as u8
                    } else if i == 4 {
                        (8 * (serial_number(s) % 32) + serial_letters(s) / 0x200_0000 % 8) as u8
                    } else if i == 14 && a == 75 {
                        (8 * (serial_number(s) / 32 % 32) + 4) as u8
                    } else {
                        0
                    },
                }
            },
    )
}

fn derive_key(serial: &Option<Vec<u8>>, a: u32) -> (key: Vec<u8>)
    requires
        serial matches Some(s) ==> is_serial(s@),
    ensures
        key@ == disc_key(
            match serial {
                Some(s) => Some(s@),
                None => None,
            },
            a as int,
        ),
        key@.len() == 15,
{
    let mut key: Vec<u8> = vec![0; 15];
    if let Some(s) = serial {
        assert(is_digit(s@[4]) && is_digit(s@[5]) && is_digit(s@[6]) && is_digit(s@[7]) && is_digit(s@[8]));
        let number: u32 = 10000 * (s[4] - 48) as u32 + 1000 * (s[5] - 48) as u32 + 100 * (s[6] - 48) as u32 + 10 * (s[7]
            - 48) as u32 + (s[8] - 48) as u32;
        let letters: u32 = (s[3] % 128) as u32 + 0x80 * (s[2] % 128) as u32 + 0x4000 * (s[1] % 128) as u32 + 0x20_0000 * (
        s[0] % 128) as u32;
        let word: u32 = number / 1024 % 128 + 128 * (letters % 0x200_0000);
        key[0] = (word % 256) as u8;
        key[1] = (word / 0x100 % 256) as u8;
        key[2] = (word / 0x1_0000 % 256) as u8;
        key[3] = (word / 0x100_0000 % 256) as u8;
        key[4] = (8 * (number % 32) + letters / 0x200_0000 % 8) as u8;
        if a == 75 {
            key[14] = (8 * (number / 32 % 32) + 4) as u8;
        }
    }
    if a == 4246 {
        key[0] = 0x07;
        key[1] = 0xF7;
        key[2] = 0xF2;
        key[3] = 0x01;
        key[4] = 0x00;
    }
    proof {
        let m = match serial {
            Some(s) => Some(s@),
            None => None,
        };
        assert(key@ =~= disc_key(m, a as int));
    }
    key
}

// --- sector data ------------------------------------------------------------------

/// Eight bits rotated right by `n`.
pub open spec fn rotated(b: u8, n: u8) -> u8 {
    if n == 0 {
        b
    } else {
        (b >> n) | (b << ((8 - n) as u8))
    }
}

/// Drive-side decryption of DMA'd sector data (DEC-SET). Bit 0 = XOR with
/// key[4], bit 1 = rotate right by bits 4-6.
pub open spec fn decrypted(b: u8, dec: u8, key4: u8) -> u8 {
    let x = if dec & 1 != 0 {
        b ^ key4
    } else {
        b
    };
    if dec & 2 != 0 {
        rotated(x, (dec >> 4) & 7)
    } else {
        x
    }
}

proof fn lemma_shift(dec: u8)
    by (bit_vector)
    ensures
        (dec >> 4) & 7 < 8,
{
}

fn decrypt(b: u8, dec: u8, key4: u8) -> (r: u8)
    ensures
        r == decrypted(b, dec, key4),
{
    let x: u8 = if dec & 1 != 0 { b ^ key4 } else { b };
    if dec & 2 != 0 {
        let n: u8 = (dec >> 4) & 7;
        proof {
            lemma_shift(dec);
        }
        if n == 0 {
            x
        } else {
            (x >> n) | (x << (8 - n))
        }
    } else {
        x
    }
}

/// What DVD reads put before the data: a 12-byte ID/IED/CPR header on layer
/// 0 with the physical sector number (LBA + 0x30000).
pub open spec fn sector_header(lsn: u32) -> Seq<u8> {
    let phys = lsn.wrapping_add(0x3_0000);
    seq![0x20, (phys / 0x1_0000 % 256) as u8, (phys / 0x100 % 256) as u8, (phys % 256) as u8] + zeros(8)
}

/// A sector as the command delivers it: framed for DVD reads.
pub open spec fn framed(lsn: u32, data: Seq<u8>, dvd: bool) -> Seq<u8> {
    if dvd {
        sector_header(lsn) + data + zeros(4)
    } else {
        data
    }
}

/// The first `n` sectors, one after the other.
pub open spec fn framed_all(lsn: u32, sectors: Seq<Vec<u8>>, dvd: bool, n: int) -> Seq<u8>
    decreases n,
{
    if n <= 0 {
        Seq::empty()
    } else {
        framed_all(lsn, sectors, dvd, n - 1) + framed(lsn.wrapping_add((n - 1) as u32), sectors[n - 1]@, dvd)
    }
}

// --- the controller -----------------------------------------------------------------

/// What an N command asks of the host.
#[derive(Clone, Copy, PartialEq, Eq, Structural)]
pub enum NCommand {
    /// Read `count` sectors from `lsn` on and stage them.
    Read { lsn: u32, count: u32 },
    /// Find the disc's serial and install the key for this argument.
    Key { arg: u32 },
    /// Nothing.
    Quick,
}

/// An open config session.
#[derive(Clone, Copy)]
pub struct Config {
    pub write: bool,
    pub area: u8,
    pub blocks: u8,
    pub index: u8,
}

/// The drive's plain state.
#[derive(Clone, Copy)]
pub struct Drive {
    pub n_cmd: u8,
    /// CDVD-internal interrupt flags (reg 0x08, W1C).
    pub istat: u8,
    pub s_cmd: u8,
    /// An N command is in flight: the completion interrupt is deferred by
    /// the drive-latency model.
    pub n_busy: bool,
    /// Head position after the last read, for the seek-time model.
    pub last_lsn: u32,
    /// EE cycle at which the drive has spun up and identified the disc.
    pub ready_at: u64,
    /// EE cycle at which the disc in the drive has been identified. Unlike
    /// `ready_at` an IOP reboot leaves it alone.
    pub identified_at: u64,
    /// The drive is open: nothing is readable until the tray closes again.
    pub tray_open: bool,
    /// A disc is in the drive.
    pub disc: bool,
    pub dec_set: u8,
    pub key_flag: u8,
    pub key_valid: bool,
}

pub struct Cdvd {
    pub drive: Drive,
    pub n_params: Vec<u8>,
    pub s_params: Vec<u8>,
    pub s_results: Vec<u8>,
    pub s_result_pos: usize,
    pub config: Config,
    /// Mechacon NVRAM (1 KiB EEPROM).
    pub nvram: Vec<u8>,
    /// NVRAM changed since the host last persisted it.
    pub nvram_dirty: bool,
    /// Sector data staged for DMA channel 3, and the drain cursor.
    pub read_buf: Vec<u8>,
    pub read_pos: usize,
    /// Disc key, served through the register window 0x20-0x34.
    pub key: Vec<u8>,
}

/// Seek time by distance, in cycles.
pub open spec fn seek_time(dist: int) -> int {
    if dist == 0 {
        CDVD_MS as int / 4
    } else if dist < 16 {
        CDVD_MS as int
    } else if dist < 4096 {
        10 * CDVD_MS
    } else if dist < 65536 {
        30 * CDVD_MS
    } else {
        80 * CDVD_MS
    }
}

pub open spec fn distance(a: u32, b: u32) -> int {
    if a > b {
        a - b
    } else {
        b - a
    }
}

/// Drive latency of a read: a distance-graded seek and ~4x-DVD streaming
/// (0.4 ms/sector).
pub open spec fn read_latency(last: u32, lsn: u32, count: u32) -> int {
    seek_time(distance(lsn, last)) + (if count < READ_MAX {
        count as int
    } else {
        READ_MAX as int
    }) * CDVD_SECTOR
}

/// Little-endian word of parameters from `at` on, missing bytes as zeros.
pub open spec fn param_word(p: Seq<u8>, at: int) -> u32 {
    (arg(p, at) + 0x100 * arg(p, at + 1) + 0x1_0000 * arg(p, at + 2) + 0x100_0000 * arg(p, at + 3)) as u32
}

fn word_param(p: &Vec<u8>, at: usize) -> (r: u32)
    requires
        at <= 16,
    ensures
        r == param_word(p@, at as int),
{
    arg_of(p.as_slice(), at) as u32 + 0x100 * arg_of(p.as_slice(), at + 1) as u32 + 0x1_0000 * arg_of(p.as_slice(), at + 2) as u32
        + 0x100_0000 * arg_of(p.as_slice(), at + 3) as u32
}

/// What an S command does: the result bytes, the config session, NVRAM and
/// whether NVRAM was written.
pub struct Served {
    pub results: Seq<u8>,
    pub config: Config,
    pub nvram: Seq<u8>,
    pub saved: bool,
}

/// NVRAM offset of the config session's current block, if the session's
/// area, budget and per-area block cap all allow it.
pub open spec fn config_block(c: Config) -> Option<int> {
    match config_area(c.area) {
        Some((base, cap)) if c.index < c.blocks && c.index < cap => Some(base + 16 * c.index),
        _ => None,
    }
}

/// "SCPH-50000"
pub open spec fn model_byte(i: int) -> u8 {
    if i == 0 {
        0x53
    } else if i == 1 {
        0x43
    } else if i == 2 {
        0x50
    } else if i == 3 {
        0x48
    } else if i == 4 {
        0x2D
    } else if i == 5 {
        0x35
    } else if 6 <= i <= 9 {
        0x30
    } else {
        0
    }
}

fn model_byte_of(i: usize) -> (b: u8)
    ensures
        b == model_byte(i as int),
{
    match i {
        0 => 0x53,
        1 => 0x43,
        2 => 0x50,
        3 => 0x48,
        4 => 0x2D,
        5 => 0x35,
        6 | 7 | 8 | 9 => 0x30,
        _ => 0,
    }
}

/// Byte address of the 16-bit word that the NVM commands name.
pub open spec fn nvm_addr(p: Seq<u8>) -> int {
    2 * (0x100 * arg(p, 0) + arg(p, 1))
}

/// `s` with 16 bytes of `b` at `at`.
pub open spec fn with_block(s: Seq<u8>, at: int, b: Seq<u8>) -> Seq<u8> {
    Seq::new(
        s.len(),
        |i: int|
            if at <= i < at + 16 {
                b[i - at]
            } else {
                s[i]
            },
    )
}

pub open spec fn served(cmd: u8, p: Seq<u8>, c: Config, nv: Seq<u8>) -> Served {
    let same = |r: Seq<u8>| Served { results: r, config: c, nvram: nv, saved: false };
    let next = Config { index: c.index.wrapping_add(1), ..c };
    if cmd == 0x03 {
        // Mechacon version query: status + version bytes.
        same(seq![0, 3, 6, 2])
    } else if cmd == 0x08 {
        // sceCdReadClock: stat + BCD sec/min/hour/pad/day/month/year.
        same(seq![0, 0, 0, 0, 0, 1, 1, 0x25])
    } else if cmd == 0x15 || cmd == 0x16 {
        // Forbid/permit DVD player: canonical result is 5.
        same(seq![5])
    } else if cmd == 0x17 {
        // sceCdReadModelNumber: the model string from a byte offset on.
        let off = arg(p, 0) as int % 16;
        same(
            seq![0] + Seq::new(
                (if off + 8 < 16 {
                    8
                } else {
                    16 - off
                }) as nat,
                |i: int| model_byte(off + i),
            ),
        )
    } else if cmd == 0x40 {
        // OpenConfig: [read/write, area, block count].
        Served {
            results: seq![0],
            config: Config { write: arg(p, 0) == 1, area: arg(p, 1), blocks: arg(p, 2), index: 0 },
            nvram: nv,
            saved: false,
        }
    } else if cmd == 0x41 {
        // ReadConfig: one 16-byte block per call; out of range reads zeros.
        Served {
            results: match config_block(c) {
                Some(at) => nv.subrange(at, at + 16),
                None => zeros(16),
            },
            config: next,
            nvram: nv,
            saved: false,
        }
    } else if cmd == 0x42 {
        // WriteConfig: store the 16-byte block into NVRAM.
        let lands = c.write && config_block(c) is Some && p.len() >= 16;
        Served {
            results: seq![0],
            config: next,
            nvram: if lands {
                with_block(nv, config_block(c)->Some_0, p)
            } else {
                nv
            },
            saved: lands,
        }
    } else if cmd == 0x43 {
        // CloseConfig: ends the session.
        Served {
            results: seq![0],
            config: Config { write: false, area: 0, blocks: 0, index: 0 },
            nvram: nv,
            saved: false,
        }
    } else if cmd == 0x0A {
        // ReadNVM: [status, data_hi, data_lo].
        let at = nvm_addr(p);
        same(
            if at + 1 < NVRAM_SIZE {
                seq![0, nv[at + 1], nv[at]]
            } else {
                seq![0xFF]
            },
        )
    } else if cmd == 0x0B {
        // WriteNVM: params [addr_hi, addr_lo, data_hi, data_lo].
        let at = nvm_addr(p);
        if at + 1 < NVRAM_SIZE && p.len() >= 4 {
            Served { results: seq![0], config: c, nvram: nv.update(at + 1, p[2]).update(at, p[3]), saved: true }
        } else {
            same(seq![0xFF])
        }
    } else if cmd == 0x1A {
        // BootCertify: accepted.
        same(seq![1])
    } else if cmd == 0x84 || cmd == 0x85 {
        // MagicGate challenges: status and zeroed payloads.
        same(zeros(17))
    } else {
        same(seq![0])
    }
}

impl Drive {
    /// A readable disc.
    pub open spec fn loaded(self) -> bool {
        self.disc && !self.tray_open
    }

    pub open spec fn spinning_up(self, now: u64) -> bool {
        self.loaded() && (now < self.ready_at || now < CDVD_SPINUP)
    }

    /// The drive status: open, spinning up after power-on, reading while an
    /// N command is in flight, paused on the disc when idle (cdvdman waits
    /// for exactly this), stopped without a disc.
    pub open spec fn status(self, now: u64) -> u32 {
        if self.tray_open {
            0x01
        } else if self.spinning_up(now) {
            0x02
        } else if self.n_busy && self.loaded() {
            0x06
        } else if self.loaded() {
            0x0A
        } else {
            0
        }
    }

    /// The disc type: detecting during the initial spin-up only (a reboot
    /// resettle keeps the known type), then PS2 DVD.
    pub open spec fn disc_type(self, now: u64) -> u32 {
        if !self.loaded() {
            0
        } else if now < self.identified_at || now < CDVD_SPINUP {
            0x01
        } else {
            0x14
        }
    }
}

/// Index into the key of register `r` of the key window: three 5-byte banks.
pub open spec fn key_index(r: int) -> Option<int> {
    if 0x20 <= r <= 0x24 {
        Some(r - 0x20)
    } else if 0x28 <= r <= 0x2C {
        Some(r - 0x28 + 5)
    } else if 0x30 <= r <= 0x34 {
        Some(r - 0x30 + 10)
    } else {
        None
    }
}

/// The controller over sequences.
pub struct CdvdModel {
    pub drive: Drive,
    pub n_params: Seq<u8>,
    pub s_params: Seq<u8>,
    pub s_results: Seq<u8>,
    pub s_result_pos: int,
    pub config: Config,
    pub nvram: Seq<u8>,
    pub nvram_dirty: bool,
    pub read_buf: Seq<u8>,
    pub read_pos: int,
    pub key: Seq<u8>,
}

impl CdvdModel {
    /// An empty drive with a factory-fresh NVRAM, the head at the start.
    pub open spec fn fresh() -> CdvdModel {
        CdvdModel {
            drive: Drive {
                n_cmd: 0,
                istat: 0,
                s_cmd: 0,
                n_busy: false,
                last_lsn: 0,
                ready_at: 0,
                identified_at: 0,
                tray_open: false,
                disc: false,
                dec_set: 0,
                key_flag: 0,
                key_valid: false,
            },
            n_params: Seq::empty(),
            s_params: Seq::empty(),
            s_results: Seq::empty(),
            s_result_pos: 0,
            config: Config { write: false, area: 0, blocks: 0, index: 0 },
            nvram: factory_nvram(),
            nvram_dirty: false,
            read_buf: Seq::empty(),
            read_pos: 0,
            key: zeros(15),
        }
    }

    /// After the tray opened: per-disc state goes with the disc.
    pub open spec fn opened(self) -> CdvdModel {
        CdvdModel {
            drive: Drive {
                tray_open: true,
                disc: false,
                key_flag: 0,
                key_valid: false,
                dec_set: 0,
                last_lsn: 0,
                ..self.drive
            },
            key: zeros(15),
            read_buf: Seq::empty(),
            read_pos: 0,
            ..self
        }
    }

    /// After the tray closed, on a disc or empty.
    pub open spec fn closed_on(self, disc: bool, now: u64) -> CdvdModel {
        CdvdModel {
            drive: Drive {
                tray_open: false,
                disc,
                ready_at: (now + CDVD_SPINUP) as u64,
                identified_at: (now + CDVD_SPINUP) as u64,
                ..self.drive
            },
            ..self
        }
    }

    /// After the sectors of a read were staged.
    pub open spec fn with_sectors(self, lsn: u32, sectors: Seq<Vec<u8>>) -> CdvdModel {
        let raw = framed_all(lsn, sectors, self.drive.n_cmd == 0x08, sectors.len() as int);
        CdvdModel {
            read_buf: raw.map(|i: int, b: u8| decrypted(b, self.drive.dec_set, self.key[4])),
            read_pos: 0,
            ..self
        }
    }

    /// After the key of the disc with this serial was installed.
    pub open spec fn with_key(self, serial: Option<Seq<u8>>, a: u32) -> CdvdModel {
        CdvdModel {
            drive: Drive {
                key_flag: if a == 75 {
                    0x05
                } else {
                    0x01
                },
                key_valid: true,
                ..self.drive
            },
            key: disc_key(serial, a as int),
            ..self
        }
    }

    /// What command `cmd` asks for and how long the drive takes. Reads stage
    /// nothing while the drive is open or empty.
    pub open spec fn n_asked(self, cmd: u8) -> (NCommand, int) {
        let lsn = param_word(self.n_params, 0);
        let count = param_word(self.n_params, 4);
        if cmd == 0x06 || cmd == 0x08 {
            (
                if self.drive.loaded() {
                    NCommand::Read {
                        lsn,
                        count: if count < READ_MAX {
                            count
                        } else {
                            READ_MAX
                        },
                    }
                } else {
                    NCommand::Quick
                },
                read_latency(self.drive.last_lsn, lsn, count),
            )
        } else if cmd == 0x0C {
            (
                NCommand::Key { arg: (arg(self.n_params, 3) + 0x100 * arg(self.n_params, 4)) as u32 },
                CDVD_MS as int / 8,
            )
        } else {
            (NCommand::Quick, CDVD_MS as int / 8)
        }
    }

    /// What register `r` reads as.
    pub open spec fn value(self, r: int, now: u64) -> u32 {
        if r == 0x04 {
            self.drive.n_cmd as u32
        } else if r == 0x05 {
            // N status: busy while an N command's latency runs, else ready
            // with no data.
            if self.drive.n_busy {
                0x80
            } else {
                0x40
            }
        } else if r == 0x08 {
            self.drive.istat as u32
        } else if r == 0x0A {
            self.drive.status(now)
        } else if r == 0x0F {
            self.drive.disc_type(now)
        } else if r == 0x16 {
            self.drive.s_cmd as u32
        } else if r == 0x17 {
            // S status: bit 6 set when the result FIFO is empty.
            if self.s_result_pos >= self.s_results.len() {
                0x40
            } else {
                0
            }
        } else if r == 0x18 {
            if self.s_result_pos < self.s_results.len() {
                self.s_results[self.s_result_pos] as u32
            } else {
                0
            }
        } else if key_index(r) is Some {
            self.key[key_index(r)->Some_0] as u32
        } else if r == 0x38 {
            if self.drive.key_valid {
                0x07
            } else {
                0
            }
        } else if r == 0x3A {
            self.drive.key_flag as u32
        } else {
            0
        }
    }

    /// After a register read: the result FIFO moves on.
    pub open spec fn read(self, r: int) -> CdvdModel {
        if r == 0x18 && self.s_result_pos < self.s_results.len() {
            CdvdModel { s_result_pos: self.s_result_pos + 1, ..self }
        } else {
            self
        }
    }

    /// After an N command was asked for.
    pub open spec fn n_started(self, b: u8) -> CdvdModel {
        let reads = b == 0x06 || b == 0x08;
        CdvdModel {
            drive: Drive {
                n_cmd: b,
                n_busy: true,
                last_lsn: if reads {
                    param_word(self.n_params, 0).wrapping_add(param_word(self.n_params, 4))
                } else {
                    self.drive.last_lsn
                },
                ..self.drive
            },
            read_buf: if reads {
                Seq::empty()
            } else {
                self.read_buf
            },
            read_pos: if reads {
                0
            } else {
                self.read_pos
            },
            n_params: Seq::empty(),
            ..self
        }
    }

    /// After an S command.
    pub open spec fn s_served(self, b: u8) -> CdvdModel {
        let s = served(b, self.s_params, self.config, self.nvram);
        CdvdModel {
            drive: Drive { s_cmd: b, ..self.drive },
            s_params: Seq::empty(),
            s_results: s.results,
            s_result_pos: 0,
            config: s.config,
            nvram: s.nvram,
            nvram_dirty: self.nvram_dirty || s.saved,
            ..self
        }
    }

    /// After a register write.
    pub open spec fn written(self, r: int, b: u8) -> CdvdModel {
        let d = self.drive;
        if r == 0x04 {
            self.n_started(b)
        } else if r == 0x05 {
            CdvdModel { n_params: self.n_params.push(b), ..self }
        } else if r == 0x08 {
            CdvdModel { drive: Drive { istat: d.istat & !b, ..d }, ..self }
        } else if r == 0x16 {
            self.s_served(b)
        } else if r == 0x17 {
            CdvdModel { s_params: self.s_params.push(b), ..self }
        } else if r == 0x3A {
            CdvdModel { drive: Drive { dec_set: b, ..d }, ..self }
        } else {
            self
        }
    }

    /// The next `n` staged bytes, zeros past the end.
    pub open spec fn staged(self, n: int) -> Seq<u8> {
        Seq::new(
            n as nat,
            |i: int|
                if self.read_pos + i < self.read_buf.len() {
                    self.read_buf[self.read_pos + i]
                } else {
                    0u8
                },
        )
    }

    /// After `n` staged bytes were drained.
    pub open spec fn drained(self, n: int) -> CdvdModel {
        CdvdModel {
            read_pos: if self.read_pos + n < self.read_buf.len() {
                self.read_pos + n
            } else {
                self.read_buf.len() as int
            },
            ..self
        }
    }

    /// After the in-flight N command completed.
    pub open spec fn finished(self) -> CdvdModel {
        CdvdModel { drive: Drive { n_busy: false, istat: self.drive.istat | 3, ..self.drive }, ..self }
    }
}

impl Cdvd {
    pub open spec fn model(&self) -> CdvdModel {
        CdvdModel {
            drive: self.drive,
            n_params: self.n_params@,
            s_params: self.s_params@,
            s_results: self.s_results@,
            s_result_pos: self.s_result_pos as int,
            config: self.config,
            nvram: self.nvram@,
            nvram_dirty: self.nvram_dirty,
            read_buf: self.read_buf@,
            read_pos: self.read_pos as int,
            key: self.key@,
        }
    }

    pub open spec fn wf(&self) -> bool {
        &&& self.nvram@.len() == NVRAM_SIZE
        &&& self.key@.len() == 15
        &&& self.s_result_pos <= self.s_results@.len()
        &&& self.read_pos <= self.read_buf@.len()
    }

    /// A drive with a factory-fresh NVRAM and no disc.
    pub fn new() -> (c: Self)
        ensures
            c.wf(),
            c.model() == CdvdModel::fresh(),
    {
        let c = Cdvd {
            drive: Drive {
                n_cmd: 0,
                istat: 0,
                s_cmd: 0,
                n_busy: false,
                last_lsn: 0,
                ready_at: 0,
                identified_at: 0,
                tray_open: false,
                disc: false,
                dec_set: 0,
                key_flag: 0,
                key_valid: false,
            },
            n_params: Vec::new(),
            s_params: Vec::new(),
            s_results: Vec::new(),
            s_result_pos: 0,
            config: Config { write: false, area: 0, blocks: 0, index: 0 },
            nvram: nvram_defaults(),
            nvram_dirty: false,
            read_buf: Vec::new(),
            read_pos: 0,
            key: vec![0; 15],
        };
        assert(c.key@ =~= zeros(15));
        assert(c.model() == CdvdModel::fresh());
        c
    }

    /// Open the drive. Per-disc state (the key, the DEC-SET mode, the head
    /// position, staged data) goes with the disc. Whether there was one.
    pub fn open_tray(&mut self) -> (had: bool)
        requires
            old(self).wf(),
        ensures
            final(self).wf(),
            had == old(self).drive.disc,
            final(self).model() == old(self).model().opened(),
    {
        let had = self.drive.disc;
        self.drive.tray_open = true;
        self.drive.disc = false;
        self.drive.key_flag = 0;
        self.drive.key_valid = false;
        self.drive.dec_set = 0;
        self.drive.last_lsn = 0;
        self.key = vec![0; 15];
        assert(self.key@ =~= zeros(15));
        self.read_buf = Vec::new();
        self.read_pos = 0;
        had
    }

    /// Close the drive, on a disc or empty, and re-run the spin-up and
    /// identification the hardware does on a fresh disc.
    pub fn close_tray(&mut self, disc: bool, now: u64)
        requires
            old(self).wf(),
            now + CDVD_SPINUP <= u64::MAX,
        ensures
            final(self).wf(),
            final(self).model() == old(self).model().closed_on(disc, now),
    {
        self.drive.tray_open = false;
        self.drive.disc = disc;
        self.drive.ready_at = now + CDVD_SPINUP;
        self.drive.identified_at = now + CDVD_SPINUP;
    }

    /// Whether the drive is open.
    pub fn tray_open(&self) -> (r: bool)
        ensures
            r == self.drive.tray_open,
    {
        self.drive.tray_open
    }

    /// Take the NVRAM that an image on the host gives. Whether the host has
    /// to write one.
    pub fn load_nvram(&mut self, image: Option<Vec<u8>>) -> (fresh: bool)
        requires
            old(self).wf(),
        ensures
            final(self).wf(),
            final(self).model() == (CdvdModel {
                nvram: nvram_loaded(
                    match image {
                        Some(d) => Some(d@),
                        None => None,
                    },
                ),
                ..old(self).model()
            }),
            fresh == !(image matches Some(d) && d@.len() == NVRAM_SIZE),
    {
        let defaults = nvram_defaults();
        match image {
            Some(d) if d.len() == NVRAM_SIZE => {
                let ghost was = d@;
                let mut nv: Vec<u8> = d;
                if is_wiped(&nv, NVRAM_LANGUAGE, 16) || is_wiped(&nv, NVRAM_REGPARAMS, 12) {
                    refill(&mut nv, &defaults, NVRAM_REGPARAMS, 12);
                    refill(&mut nv, &defaults, NVRAM_ILINK_ID, 10);
                    refill(&mut nv, &defaults, NVRAM_LANGUAGE, 16);
                    assert(nv@ =~= nvram_loaded(Some(was)));
                }
                self.nvram = nv;
                false
            },
            _ => {
                self.nvram = defaults;
                true
            },
        }
    }

    // --- N commands ---------------------------------------------------------

    /// Execute an N command: what the host has to do, and the drive latency
    /// (EE cycles) until the completion interrupt: real drives seek and
    /// stream slowly, and boot-time audio/visuals depend on those delays.
    fn n_execute(&mut self) -> (r: (NCommand, u64))
        requires
            old(self).wf(),
        ensures
            final(self).wf(),
            r.0 == old(self).model().n_asked(old(self).drive.n_cmd).0,
            r.1 == old(self).model().n_asked(old(self).drive.n_cmd).1,
            r.1 <= 0x4000_0000,
            ({
                let m = old(self).model().n_started(old(self).drive.n_cmd);
                final(self).model() == (CdvdModel {
                    drive: Drive { n_busy: old(self).drive.n_busy, ..m.drive },
                    n_params: old(self).n_params@,
                    ..m
                })
            }),
    {
        let cmd: u8 = self.drive.n_cmd;
        if cmd == 0x06 || cmd == 0x08 {
            let lsn: u32 = word_param(&self.n_params, 0);
            let count: u32 = word_param(&self.n_params, 4);
            let n: u32 = if count < READ_MAX { count } else { READ_MAX };
            self.read_buf = Vec::new();
            self.read_pos = 0;
            let dist: u32 = if lsn > self.drive.last_lsn {
                lsn - self.drive.last_lsn
            } else {
                self.drive.last_lsn - lsn
            };
            let seek: u64 = if dist == 0 {
                CDVD_MS / 4
            } else if dist < 16 {
                CDVD_MS
            } else if dist < 4096 {
                10 * CDVD_MS
            } else if dist < 65536 {
                30 * CDVD_MS
            } else {
                80 * CDVD_MS
            };
            self.drive.last_lsn = lsn.wrapping_add(count);
            let latency: u64 = seek + n as u64 * CDVD_SECTOR;
            if self.drive.disc && !self.drive.tray_open {
                (NCommand::Read { lsn, count: n }, latency)
            } else {
                (NCommand::Quick, latency)
            }
        } else if cmd == 0x0C {
            let a: u32 = arg_of(self.n_params.as_slice(), 3) as u32 + 0x100 * arg_of(self.n_params.as_slice(), 4) as u32;
            (NCommand::Key { arg: a }, CDVD_MS / 8)
        } else {
            (NCommand::Quick, CDVD_MS / 8)
        }
    }

    /// Stage the sectors that a read asked for, framed and decrypted, for
    /// DMA channel 3. A sector that the image does not have is staged as
    /// zeros.
    pub fn stage(&mut self, lsn: u32, sectors: &Vec<Vec<u8>>)
        requires
            old(self).wf(),
            sectors@.len() <= READ_MAX,
            forall|i: int| 0 <= i < sectors@.len() ==> (#[trigger] sectors@[i])@.len() == ISO_SECTOR,
        ensures
            final(self).wf(),
            final(self).model() == old(self).model().with_sectors(lsn, sectors@),
    {
        let dvd = self.drive.n_cmd == 0x08;
        let n: usize = sectors.len();
        let mut raw: Vec<u8> = Vec::new();
        for i in 0..n
            invariant
                n == sectors@.len(),
                n <= READ_MAX,
                raw@ == framed_all(lsn, sectors@, dvd, i as int),
        {
            if dvd {
                let phys: u32 = lsn.wrapping_add(i as u32).wrapping_add(0x3_0000);
                let mut head: Vec<u8> = vec![
                    0x20,
                    (phys / 0x1_0000 % 256) as u8,
                    (phys / 0x100 % 256) as u8,
                    (phys % 256) as u8,
                    0,
                    0,
                    0,
                    0,
                    0,
                    0,
                    0,
                    0,
                ];
                assert(head@ =~= sector_header(lsn.wrapping_add(i as u32)));
                append(&mut raw, head.as_slice());
                append(&mut raw, sectors[i].as_slice());
                let tail: Vec<u8> = vec![0, 0, 0, 0];
                assert(tail@ =~= zeros(4));
                append(&mut raw, tail.as_slice());
                assert(raw@ =~= framed_all(lsn, sectors@, dvd, i + 1));
            } else {
                append(&mut raw, sectors[i].as_slice());
            }
        }
        let dec: u8 = self.drive.dec_set;
        let key4: u8 = self.key[4];
        let ghost plain = raw@;
        let ghost want = plain.map(|i: int, b: u8| decrypted(b, dec, key4));
        let m: usize = raw.len();
        for i in 0..m
            invariant
                m == raw@.len(),
                m == plain.len(),
                want == plain.map(|i: int, b: u8| decrypted(b, dec, key4)),
                forall|j: int| 0 <= j < i ==> raw@[j] == want[j],
                forall|j: int| i <= j < m ==> raw@[j] == plain[j],
        {
            let b: u8 = raw[i];
            raw[i] = decrypt(b, dec, key4);
        }
        assert(raw@ =~= want);
        self.read_buf = raw;
        self.read_pos = 0;
        assert(self.read_buf@ =~= old(self).model().with_sectors(lsn, sectors@).read_buf);
    }

    /// sceCdReadKey: install the key of the disc with this serial; the OSD
    /// recomputes it and compares before accepting the disc.
    pub fn install_key(&mut self, serial: Option<Vec<u8>>, a: u32)
        requires
            old(self).wf(),
            serial matches Some(s) ==> is_serial(s@),
        ensures
            final(self).wf(),
            final(self).model() == old(self).model().with_key(
                match serial {
                    Some(s) => Some(s@),
                    None => None,
                },
                a,
            ),
    {
        self.key = derive_key(&serial, a);
        self.drive.key_flag = if a == 75 { 0x05 } else { 0x01 };
        self.drive.key_valid = true;
    }

    /// Staged sector bytes not yet drained by DMA channel 3.
    pub fn read_remaining(&self) -> (n: usize)
        requires
            self.wf(),
        ensures
            n == self.read_buf@.len() - self.read_pos,
    {
        self.read_buf.len() - self.read_pos
    }

    /// Drain `n` bytes of staged sector data for DMA channel 3; zeros past
    /// the end.
    pub fn dma_read(&mut self, n: usize) -> (out: Vec<u8>)
        requires
            old(self).wf(),
        ensures
            final(self).wf(),
            out@ == old(self).model().staged(n as int),
            final(self).model() == old(self).model().drained(n as int),
    {
        let mut out: Vec<u8> = Vec::new();
        let ghost m = self.model();
        for i in 0..n
            invariant
                self.wf(),
                self.model() == m.drained(i as int),
                0 <= m.read_pos <= m.read_buf.len(),
                out@ == m.staged(i as int),
        {
            let b = self.next_byte();
            out.push(b);
            assert(out@ =~= m.staged(i + 1));
        }
        out
    }

    /// Drain one staged byte; zero past the end.
    pub fn next_byte(&mut self) -> (b: u8)
        requires
            old(self).wf(),
        ensures
            final(self).wf(),
            b == (if old(self).read_pos < old(self).read_buf@.len() {
                old(self).read_buf@[old(self).read_pos as int]
            } else {
                0
            }),
            final(self).model() == old(self).model().drained(1),
    {
        if self.read_pos < self.read_buf.len() {
            let b: u8 = self.read_buf[self.read_pos];
            self.read_pos = self.read_pos + 1;
            b
        } else {
            0
        }
    }

    /// The in-flight N command's drive latency elapsed: raise the internal
    /// completion flags, command complete and data ready.
    pub fn finish_n(&mut self)
        requires
            old(self).wf(),
        ensures
            final(self).wf(),
            final(self).model() == old(self).model().finished(),
    {
        self.drive.n_busy = false;
        self.drive.istat = self.drive.istat | 3;
    }

    // --- S commands ---------------------------------------------------------

    fn current_block(&self) -> (r: Option<usize>)
        ensures
            match r {
                Some(at) => config_block(self.config) == Some(at as int) && at + 16 <= NVRAM_SIZE,
                None => config_block(self.config) is None,
            },
    {
        let (base, cap): (usize, u8) = match self.config.area {
            0 => (0x270, 4),
            1 => (0x2B0, 2),
            2 => (0x200, 7),
            _ => return None,
        };
        if self.config.index < self.config.blocks && self.config.index < cap {
            Some(base + 16 * self.config.index as usize)
        } else {
            None
        }
    }

    /// Execute an S command; fills the result FIFO.
    fn s_execute(&mut self)
        requires
            old(self).wf(),
        ensures
            final(self).wf(),
            ({
                let s = served(old(self).drive.s_cmd, old(self).s_params@, old(self).config, old(self).nvram@);
                &&& final(self).s_results@ == s.results
                &&& final(self).config == s.config
                &&& final(self).nvram@ == s.nvram
                &&& final(self).nvram_dirty == (old(self).nvram_dirty || s.saved)
            }),
            final(self).s_result_pos == 0,
            final(self).drive == old(self).drive,
            final(self).n_params == old(self).n_params,
            final(self).s_params == old(self).s_params,
            final(self).read_buf == old(self).read_buf,
            final(self).read_pos == old(self).read_pos,
            final(self).key == old(self).key,
    {
        let cmd: u8 = self.drive.s_cmd;
        let ghost want = served(cmd, self.s_params@, self.config, self.nvram@);
        self.s_result_pos = 0;
        let p0: u8 = arg_of(self.s_params.as_slice(), 0);
        let p1: u8 = arg_of(self.s_params.as_slice(), 1);
        let p2: u8 = arg_of(self.s_params.as_slice(), 2);
        let index: u8 = self.config.index.wrapping_add(1);
        let nvm: usize = 2 * (0x100 * p0 as usize + p1 as usize);
        self.s_results = match cmd {
            0x03 => vec![0, 3, 6, 2],
            0x08 => vec![0, 0, 0, 0, 0, 1, 1, 0x25],
            0x15 | 0x16 => vec![5],
            0x17 => {
                let off: usize = p0 as usize % 16;
                let n: usize = if off + 8 < 16 { 8 } else { 16 - off };
                let mut r: Vec<u8> = vec![0];
                let ghost tail = Seq::new(n as nat, |i: int| model_byte(off + i));
                assert(r@ =~= seq![0u8] + tail.subrange(0, 0));
                for i in 0..n
                    invariant
                        off + n <= 16,
                        tail == Seq::new(n as nat, |i: int| model_byte(off + i)),
                        r@ == seq![0u8] + tail.subrange(0, i as int),
                {
                    r.push(model_byte_of(off + i));
                    assert(r@ =~= seq![0u8] + tail.subrange(0, i + 1));
                }
                assert(tail.subrange(0, n as int) =~= tail);
                r
            },
            0x40 => {
                self.config = Config { write: p0 == 1, area: p1, blocks: p2, index: 0 };
                vec![0]
            },
            0x41 => {
                let at = self.current_block();
                self.config.index = index;
                match at {
                    Some(at) => {
                        let mut r: Vec<u8> = Vec::new();
                        for i in 0..16usize
                            invariant
                                at + 16 <= NVRAM_SIZE,
                                self.nvram@.len() == NVRAM_SIZE,
                                r@ == self.nvram@.subrange(at as int, at + i),
                        {
                            r.push(self.nvram[at + i]);
                            assert(r@ =~= self.nvram@.subrange(at as int, at + i + 1));
                        }
                        r
                    },
                    None => vec![0; 16],
                }
            },
            0x42 => {
                if self.config.write && self.s_params.len() >= 16 {
                    if let Some(at) = self.current_block() {
                        let ghost nv = self.nvram@;
                        for i in 0..16usize
                            invariant
                                self.nvram@.len() == NVRAM_SIZE,
                                nv.len() == NVRAM_SIZE,
                                at + 16 <= NVRAM_SIZE,
                                self.s_params@.len() >= 16,
                                self.s_params == old(self).s_params,
                                self.config == old(self).config,
                                self.drive == old(self).drive,
                                self.n_params == old(self).n_params,
                                self.read_buf == old(self).read_buf,
                                self.read_pos == old(self).read_pos,
                                self.key == old(self).key,
                                self.s_result_pos == 0,
                                self.nvram_dirty == old(self).nvram_dirty,
                                forall|k: int|
                                    0 <= k < NVRAM_SIZE ==> self.nvram@[k] == (if at <= k < at + i {
                                        self.s_params@[k - at]
                                    } else {
                                        nv[k]
                                    }),
                        {
                            let b: u8 = self.s_params[i];
                            self.nvram[at + i] = b;
                        }
                        assert(self.nvram@ =~= with_block(nv, at as int, self.s_params@));
                        self.nvram_dirty = true;
                    }
                }
                self.config.index = index;
                vec![0]
            },
            0x43 => {
                self.config = Config { write: false, area: 0, blocks: 0, index: 0 };
                vec![0]
            },
            0x0A => {
                if nvm + 1 < NVRAM_SIZE {
                    vec![0, self.nvram[nvm + 1], self.nvram[nvm]]
                } else {
                    vec![0xFF]
                }
            },
            0x0B => {
                if nvm + 1 < NVRAM_SIZE && self.s_params.len() >= 4 {
                    let hi: u8 = self.s_params[2];
                    let lo: u8 = self.s_params[3];
                    self.nvram[nvm + 1] = hi;
                    self.nvram[nvm] = lo;
                    self.nvram_dirty = true;
                    vec![0]
                } else {
                    vec![0xFF]
                }
            },
            0x1A => vec![1],
            0x84 | 0x85 => vec![0; 17],
            _ => vec![0],
        };
        assert(self.s_results@ =~= want.results);
    }

    // --- registers ------------------------------------------------------------

    /// A register read; the result FIFO moves on.
    pub fn read(&mut self, addr: u32, now: u64) -> (v: u32)
        requires
            old(self).wf(),
        ensures
            final(self).wf(),
            v == old(self).model().value(addr as int % 64, now),
            final(self).model() == old(self).model().read(addr as int % 64),
    {
        let r: u32 = addr % 64;
        let loaded = self.drive.disc && !self.drive.tray_open;
        let spinning = loaded && (now < self.drive.ready_at || now < CDVD_SPINUP);
        if r >= 0x20 && r <= 0x34 && r % 8 <= 4 {
            let i: u32 = (r - 0x20) / 8 * 5 + r % 8;
            assert(key_index(r as int) == Some(i as int));
            return self.key[i as usize] as u32;
        }
        match r {
            0x04 => self.drive.n_cmd as u32,
            0x05 => if self.drive.n_busy {
                0x80
            } else {
                0x40
            },
            0x08 => self.drive.istat as u32,
            0x0A => {
                if self.drive.tray_open {
                    0x01
                } else if spinning {
                    0x02
                } else if self.drive.n_busy && loaded {
                    0x06
                } else if loaded {
                    0x0A
                } else {
                    0
                }
            },
            0x0F => {
                if !loaded {
                    0
                } else if now < self.drive.identified_at || now < CDVD_SPINUP {
                    0x01
                } else {
                    0x14
                }
            },
            0x16 => self.drive.s_cmd as u32,
            0x17 => if self.s_result_pos >= self.s_results.len() {
                0x40
            } else {
                0
            },
            0x18 => {
                if self.s_result_pos < self.s_results.len() {
                    let v: u8 = self.s_results[self.s_result_pos];
                    self.s_result_pos = self.s_result_pos + 1;
                    v as u32
                } else {
                    0
                }
            },
            0x38 => if self.drive.key_valid {
                0x07
            } else {
                0
            },
            0x3A => self.drive.key_flag as u32,
            _ => 0,
        }
    }

    /// A register write. An N command gives what the host has to do and the
    /// latency after which the completion ([`Cdvd::finish_n`]) is due.
    pub fn write(&mut self, addr: u32, v: u32) -> (r: Option<(NCommand, u64)>)
        requires
            old(self).wf(),
        ensures
            final(self).wf(),
            final(self).model() == old(self).model().written(addr as int % 64, (v % 256) as u8),
            r is Some == (addr % 64 == 0x04),
            r matches Some((n, latency)) ==> n == old(self).model().n_asked((v % 256) as u8).0
                && latency == old(self).model().n_asked((v % 256) as u8).1 && latency <= 0x4000_0000,
    {
        let reg: u32 = addr % 64;
        let b: u8 = (v % 256) as u8;
        match reg {
            0x04 => {
                self.drive.n_cmd = b;
                let r = self.n_execute();
                self.n_params = Vec::new();
                self.drive.n_busy = true;
                return Some(r);
            },
            0x05 => self.n_params.push(b),
            0x08 => self.drive.istat = self.drive.istat & !b,
            0x16 => {
                self.drive.s_cmd = b;
                self.s_execute();
                self.s_params = Vec::new();
            },
            0x17 => self.s_params.push(b),
            0x3A => self.drive.dec_set = b,
            _ => {},
        }
        None
    }
}

/// What an opened config session writes, a later session on the same area
/// reads back block by block.
pub proof fn law_config_reads_back_what_was_written(nv: Seq<u8>, c: Config, p: Seq<u8>)
    requires
        nv.len() == NVRAM_SIZE,
        c.write,
        config_block(c) is Some,
        p.len() >= 16,
    ensures
        ({
            let w = served(0x42, p, c, nv);
            let r = served(0x41, Seq::empty(), c, w.nvram);
            w.saved && r.results == p.subrange(0, 16)
        }),
{
    let w = served(0x42, p, c, nv);
    let at = config_block(c)->Some_0;
    assert(w.nvram.subrange(at, at + 16) =~= p.subrange(0, 16));
}

/// A word of NVRAM reads back as it was written, and nothing but the NVM
/// and config writes changes NVRAM.
pub proof fn law_nvm_reads_back_what_was_written(nv: Seq<u8>, c: Config, p: Seq<u8>)
    requires
        nv.len() == NVRAM_SIZE,
        p.len() >= 4,
        nvm_addr(p) + 1 < NVRAM_SIZE,
    ensures
        served(0x0A, p, c, served(0x0B, p, c, nv).nvram).results == seq![0u8, p[2], p[3]],
        forall|cmd: u8| cmd != 0x0B && cmd != 0x42 ==> #[trigger] served(cmd, p, c, nv).nvram == nv,
{
    assert(served(0x0A, p, c, served(0x0B, p, c, nv).nvram).results =~= seq![0u8, p[2], p[3]]);
}

impl Default for Cdvd {
    fn default() -> (c: Self)
        ensures
            c.wf(),
            c.model() == CdvdModel::fresh(),
    {
        Cdvd::new()
    }
}

} // verus!
