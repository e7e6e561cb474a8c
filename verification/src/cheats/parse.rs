//! The pnach reader.

use vstd::prelude::*;
use crate::bytes::le_bytes;
use crate::text::{
    before_comment, chars_of, cut, decimal, decimal_of, digit_char, digit_char_of, find, find_comment, from, hex_digit,
    hex_digit_of, hex_of, hex_value, join, lower, lowered, pieces, position, spells, split, string_of, strip_chars, strip_pairs,
    trim, trimmed, upper, uppered, views, without_chars, without_pairs,
};
use super::{cheat_models, cheats_ok, group_models, groups_ok, models_ok, op_ok, Bitwise, Cheat, CheatModel, Compare, Group, GroupModel, Op, OpModel, Target};

verus! {

// --- messages -----------------------------------------------------------------

fn message(a: &str, b: &Vec<char>, c: &str) -> (m: Vec<char>)
    ensures
        m@ == a@ + b@ + c@,
{
    let mut m = chars_of(a);
    join(&mut m, b);
    let tail = chars_of(c);
    join(&mut m, &tail);
    m
}

fn digits(n: u64) -> (v: Vec<char>)
    requires
        n < 16,
    ensures
        v@ == decimal(n as nat),
{
    decimal_of(n)
}

/// A rejected number, in quotes.
pub open spec fn not_hex(s: Seq<char>) -> Seq<char> {
    "'"@ + s + "' is not hex"@
}

/// A number without its `0x` prefixes.
pub open spec fn bare(s: Seq<char>) -> Seq<char> {
    strip_pairs(strip_pairs(s, '0', 'x'), '0', 'X')
}

pub open spec fn hex(s: Seq<char>) -> Result<u64, Seq<char>> {
    match hex_value(bare(s)) {
        Some(v) => Ok(v),
        None => Err(not_hex(bare(s))),
    }
}

/// Executable results and the models they stand for.
pub open spec fn reads_as<T>(r: Result<T, Vec<char>>, m: Result<T, Seq<char>>) -> bool {
    match r {
        Ok(v) => m == Ok::<T, Seq<char>>(v),
        Err(e) => m == Err::<T, Seq<char>>(e@),
    }
}

fn read_hex(s: &Vec<char>) -> (r: Result<u64, Vec<char>>)
    ensures
        reads_as(r, hex(s@)),
{
    let t = without_pairs(&without_pairs(s, '0', 'x'), '0', 'X');
    match hex_of(&t) {
        Some(v) => Ok(v),
        None => Err(message("'", &t, "' is not hex")),
    }
}

// --- lines ----------------------------------------------------------------------

/// A `patch=` line's fields, before the type is interpreted.
pub struct Line {
    pub once: bool,
    pub target: Target,
    pub addr: u64,
    pub kind: Vec<char>,
    pub data: Vec<char>,
    pub number: usize,
}

pub struct LineModel {
    pub once: bool,
    pub target: Target,
    pub addr: u64,
    pub kind: Seq<char>,
    pub data: Seq<char>,
    pub number: nat,
}

impl View for Line {
    type V = LineModel;

    open spec fn view(&self) -> LineModel {
        LineModel {
            once: self.once,
            target: self.target,
            addr: self.addr,
            kind: self.kind@,
            data: self.data@,
            number: self.number as nat,
        }
    }
}

pub open spec fn line_models(s: Seq<Line>) -> Seq<LineModel> {
    s.map(|i: int, l: Line| l@)
}

/// `place,cpu,address,type,data`. Note that `place` 0 is "once at
/// start", not "off": a pnach has no way to switch a line off.
pub open spec fn fields(rest: Seq<char>, number: nat) -> Result<LineModel, Seq<char>> {
    let f = split(rest, ',').map(|i: int, s: Seq<char>| trimmed(s));
    let cpu = uppered(f[1]);
    if f.len() != 5 {
        Err("expected 5 comma-separated fields, got "@ + decimal(f.len()) + ""@)
    } else if f[0] != "0"@ && f[0] != "3"@ && f[0] != "1"@ && f[0] != "2"@ {
        Err("unknown place '"@ + f[0] + "'"@)
    } else if cpu != "EE"@ && cpu != "IOP"@ {
        Err("unknown cpu '"@ + cpu + "'"@)
    } else {
        match hex(f[2]) {
            Err(e) => Err("address: "@ + e + ""@),
            Ok(addr) => Ok(
                LineModel {
                    once: f[0] == "0"@ || f[0] == "3"@,
                    target: if cpu == "EE"@ {
                        Target::Ee
                    } else {
                        Target::Iop
                    },
                    addr,
                    kind: lowered(f[3]),
                    data: f[4],
                    number,
                },
            ),
        }
    }
}

fn parse_fields(rest: &Vec<char>, number: usize) -> (r: Result<Line, Vec<char>>)
    ensures
        match r {
            Ok(l) => fields(rest@, number as nat) == Ok::<LineModel, Seq<char>>(l@),
            Err(e) => fields(rest@, number as nat) == Err::<LineModel, Seq<char>>(e@),
        },
{
    let f = pieces(rest, ',');
    let ghost g = split(rest@, ',').map(|i: int, s: Seq<char>| trimmed(s));
    assert(g.len() == f@.len());
    if f.len() != 5 {
        return Err(message("expected 5 comma-separated fields, got ", &decimal_of(f.len() as u64), ""));
    }
    assert(forall|i: int| 0 <= i < 5 ==> g[i] == trimmed(#[trigger] views(f@)[i]));
    let place = trim(&f[0]);
    assert(views(f@)[0] == f@[0]@);
    let once = spells(&place, "0") || spells(&place, "3");
    if !once && !spells(&place, "1") && !spells(&place, "2") {
        return Err(message("unknown place '", &place, "'"));
    }
    assert(views(f@)[1] == f@[1]@);
    let cpu = upper(&trim(&f[1]));
    let target = if spells(&cpu, "EE") {
        Target::Ee
    } else if spells(&cpu, "IOP") {
        Target::Iop
    } else {
        return Err(message("unknown cpu '", &cpu, "'"));
    };
    assert(views(f@)[2] == f@[2]@);
    let addr: u64 = match read_hex(&trim(&f[2])) {
        Ok(v) => v,
        Err(e) => return Err(message("address: ", &e, "")),
    };
    assert(views(f@)[3] == f@[3]@);
    assert(views(f@)[4] == f@[4]@);
    Ok(Line { once, target, addr, kind: lower(&trim(&f[3])), data: trim(&f[4]), number })
}

// --- commands -------------------------------------------------------------------

/// Bytes of a plain write of this type, zero for the other types.
pub open spec fn plain_width(kind: Seq<char>) -> int {
    if kind == "byte"@ {
        1
    } else if kind == "short"@ || kind == "beshort"@ {
        2
    } else if kind == "word"@ || kind == "beword"@ {
        4
    } else if kind == "double"@ || kind == "bedouble"@ {
        8
    } else {
        0
    }
}

/// The big-endian types.
pub open spec fn is_big(kind: Seq<char>) -> bool {
    kind == "beshort"@ || kind == "beword"@ || kind == "bedouble"@
}

pub open spec fn plain_bytes(kind: Seq<char>, v: u64) -> Seq<u8> {
    let b = le_bytes(v as nat, plain_width(kind) as nat);
    if is_big(kind) {
        b.reverse()
    } else {
        b
    }
}

/// Length in UTF-8.
pub open spec fn utf8_len(s: Seq<char>) -> nat
    decreases s.len(),
{
    if s.len() == 0 {
        0
    } else {
        utf8_len(s.drop_last()) + char_len(s.last())
    }
}

pub open spec fn char_len(c: char) -> nat {
    let n = c as u32;
    if n < 0x80 {
        1
    } else if n < 0x800 {
        2
    } else if n < 0x1_0000 {
        3
    } else {
        4
    }
}

/// A byte from two characters: two hexadecimal digits, or a plus sign and
/// one.
pub open spec fn pair_byte(a: char, b: char) -> Option<u8> {
    if hex_digit(b) >= 16 {
        None
    } else if a == '+' {
        Some(hex_digit(b) as u8)
    } else if hex_digit(a) < 16 {
        Some((16 * hex_digit(a) + hex_digit(b)) as u8)
    } else {
        None
    }
}

/// Bytes from pairs of characters; `None` where one is no byte.
pub open spec fn pair_bytes(s: Seq<char>) -> Option<Seq<u8>>
    decreases s.len(),
{
    if s.len() == 0 {
        Some(Seq::empty())
    } else if s.len() == 1 {
        None
    } else {
        match (pair_byte(s[s.len() - 2], s[s.len() - 1]), pair_bytes(s.subrange(0, s.len() - 2))) {
            (Some(b), Some(rest)) => Some(rest.push(b)),
            _ => None,
        }
    }
}

/// The data of a `bytes` line.
pub open spec fn byte_string(data: Seq<char>) -> Result<Seq<u8>, Seq<char>> {
    let s = strip_pairs(data, '0', 'x');
    if s.len() == 0 || utf8_len(s) % 2 != 0 {
        Err("bytes: need an even number of hex digits"@)
    } else {
        match pair_bytes(s) {
            Some(b) => Ok(b),
            None => Err("bytes: not hex"@),
        }
    }
}

fn pair_byte_of(a: char, b: char) -> (r: Option<u8>)
    ensures
        r == pair_byte(a, b),
{
    let lo: u64 = hex_digit_of(b);
    if lo >= 16 {
        return None;
    }
    if a == '+' {
        return Some(lo as u8);
    }
    let hi: u64 = hex_digit_of(a);
    if hi < 16 {
        Some((16 * hi + lo) as u8)
    } else {
        None
    }
}

proof fn lemma_pairs_fail(s: Seq<char>, n: int)
    requires
        0 <= n <= s.len(),
        s.len() % 2 == n % 2,
        pair_bytes(s.subrange(0, n)) is None,
    ensures
        pair_bytes(s) is None,
    decreases s.len(),
{
    if n < s.len() {
        let t = s.subrange(0, s.len() - 2);
        assert(t.subrange(0, n) =~= s.subrange(0, n));
        lemma_pairs_fail(t, n);
    } else {
        assert(s.subrange(0, n) =~= s);
    }
}

proof fn lemma_odd_fails(s: Seq<char>)
    requires
        s.len() % 2 == 1,
    ensures
        pair_bytes(s) is None,
    decreases s.len(),
{
    if s.len() > 1 {
        lemma_odd_fails(s.subrange(0, s.len() - 2));
    }
}

fn read_bytes(data: &Vec<char>) -> (r: Result<Vec<u8>, Vec<char>>)
    ensures
        match r {
            Ok(b) => byte_string(data@) == Ok::<Seq<u8>, Seq<char>>(b@),
            Err(e) => byte_string(data@) == Err::<Seq<u8>, Seq<char>>(e@),
        },
{
    let s = without_pairs(data, '0', 'x');
    let n: usize = s.len();
    let mut odd = false;
    for i in 0..n
        invariant
            n == s@.len(),
            odd == (utf8_len(s@.subrange(0, i as int)) % 2 == 1),
    {
        let c: u32 = s[i] as u32;
        assert(s@.subrange(0, i + 1).drop_last() =~= s@.subrange(0, i as int));
        if c < 0x80 || (c >= 0x800 && c < 0x1_0000) {
            odd = !odd;
        }
    }
    assert(s@.subrange(0, n as int) =~= s@);
    if n == 0 || odd {
        return Err(chars_of("bytes: need an even number of hex digits"));
    }
    if n % 2 == 1 {
        proof {
            lemma_odd_fails(s@);
        }
        return Err(chars_of("bytes: not hex"));
    }
    let mut out: Vec<u8> = Vec::new();
    let mut i: usize = 0;
    assert(s@.subrange(0, 0) =~= Seq::empty());
    while i < n
        invariant
            n == s@.len(),
            n % 2 == 0,
            i % 2 == 0,
            i <= n,
            s@ == strip_pairs(data@, '0', 'x'),
            s@.len() > 0,
            utf8_len(s@) % 2 == 0,
            pair_bytes(s@.subrange(0, i as int)) == Some(out@),
        decreases n - i,
    {
        let ghost next = s@.subrange(0, i + 2);
        assert(next.subrange(0, next.len() - 2) =~= s@.subrange(0, i as int));
        match pair_byte_of(s[i], s[i + 1]) {
            Some(b) => out.push(b),
            None => {
                proof {
                    lemma_pairs_fail(s@, i + 2);
                }
                return Err(chars_of("bytes: not hex"));
            },
        }
        i = i + 2;
    }
    assert(s@.subrange(0, n as int) =~= s@);
    Ok(out)
}

/// The words of a continuation line, and the line after it.
pub open spec fn next_words(lines: Seq<LineModel>, i: int) -> (Result<(u32, u32), Seq<char>>, int) {
    if i >= lines.len() {
        (Err("the code needs another line and the file ended"@), i)
    } else {
        (
            match hex(lines[i].data) {
                Ok(v) => Ok((lines[i].addr as u32, v as u32)),
                Err(e) => Err("continuation data: "@ + e + ""@),
            },
            i + 1,
        )
    }
}

#[verifier::truncate]
fn low_word(v: u64) -> (r: u32)
    ensures
        r == v as u32,
{
    v as u32
}

fn read_next(lines: &Vec<Line>, i: usize) -> (r: (Result<(u32, u32), Vec<char>>, usize))
    requires
        i <= lines@.len(),
    ensures
        reads_as(r.0, next_words(line_models(lines@), i as int).0),
        r.1 == next_words(line_models(lines@), i as int).1,
        i <= r.1 <= lines@.len(),
{
    if i >= lines.len() {
        return (Err(chars_of("the code needs another line and the file ended")), i);
    }
    assert(line_models(lines@)[i as int] == lines@[i as int]@);
    match read_hex(&lines[i].data) {
        Ok(v) => (Ok((low_word(lines[i].addr), low_word(v))), i + 1),
        Err(e) => (Err(message("continuation data: ", &e, "")), i + 1),
    }
}

/// Words of a pointer code: `words`, then pairs from the following lines
/// until there are `n`.
pub open spec fn pointer_words(lines: Seq<LineModel>, i: int, words: Seq<u32>, n: int) -> (Result<Seq<u32>, Seq<char>>, int)
    decreases n + 1 - words.len(),
{
    if words.len() >= n {
        (Ok(words.subrange(0, n)), i)
    } else {
        match next_words(lines, i) {
            (Err(e), j) => (Err(e), j),
            (Ok(p), j) => pointer_words(lines, j, words.push(p.0).push(p.1), n),
        }
    }
}

fn read_pointer_words(lines: &Vec<Line>, start: usize, first: u32, n: usize) -> (r: (Result<Vec<u32>, Vec<char>>, usize))
    requires
        start <= lines@.len(),
        1 <= n <= 0xFFFF,
    ensures
        match r.0 {
            Ok(w) => pointer_words(line_models(lines@), start as int, seq![first], n as int).0 == Ok::<
                Seq<u32>,
                Seq<char>,
            >(w@) && w@.len() == n,
            Err(e) => pointer_words(line_models(lines@), start as int, seq![first], n as int).0 == Err::<
                Seq<u32>,
                Seq<char>,
            >(e@),
        },
        r.1 == pointer_words(line_models(lines@), start as int, seq![first], n as int).1,
        start <= r.1 <= lines@.len(),
{
    let mut words: Vec<u32> = Vec::new();
    words.push(first);
    let mut i: usize = start;
    assert(words@ =~= seq![first]);
    while words.len() < n
        invariant
            start <= i <= lines@.len(),
            n <= 0xFFFF,
            1 <= words@.len() <= n + 1,
            pointer_words(line_models(lines@), start as int, seq![first], n as int) == pointer_words(
                line_models(lines@),
                i as int,
                words@,
                n as int,
            ),
        decreases n + 1 - words@.len(),
    {
        let (r, j) = read_next(lines, i);
        i = j;
        match r {
            Ok(p) => {
                words.push(p.0);
                words.push(p.1);
            },
            Err(e) => return (Err(e), i),
        }
    }
    words.truncate(n);
    (Ok(words), i)
}

/// The address part of a code's first word.
pub open spec fn code_addr(a: u32) -> u32 {
    (a % 0x1000_0000) as u32
}

/// One RAW code from its first line's two words; following lines supply
/// the words of the types that take more. Gives the line after the code.
pub open spec fn extended(a: u32, d: u32, lines: Seq<LineModel>, i: int) -> (Result<OpModel, Seq<char>>, int) {
    let addr = code_addr(a);
    let t = a as int / 0x1000_0000;
    if t == 0 {
        (Ok(OpModel::Write { addr, data: le_bytes(d as nat, 1) }), i)
    } else if t == 1 {
        (Ok(OpModel::Write { addr, data: le_bytes(d as nat, 2) }), i)
    } else if t == 2 {
        (Ok(OpModel::Write { addr, data: le_bytes(d as nat, 4) }), i)
    } else if t == 3 {
        increment(a, d, lines, i)
    } else if t == 4 {
        // 4aaaaaaa nnnnssss / vvvvvvvv iiiiiiii
        match next_words(lines, i) {
            (Err(e), j) => (Err(e), j),
            (Ok(w), j) => (
                Ok(
                    OpModel::Multi {
                        addr,
                        count: (d / 0x1_0000) as u32,
                        stride: (d % 0x1_0000) as u32,
                        value: w.0,
                        step: w.1,
                    },
                ),
                j,
            ),
        }
    } else if t == 5 {
        // 5sssssss nnnnnnnn / 0ddddddd 00000000
        match next_words(lines, i) {
            (Err(e), j) => (Err(e), j),
            (Ok(w), j) => (Ok(OpModel::Copy { src: addr, dst: code_addr(w.0), len: d }), j),
        }
    } else if t == 6 {
        pointer(addr, d, lines, i)
    } else if t == 7 {
        (bitwise(addr, d), i)
    } else if t == 0xD {
        (conditional(addr, d), i)
    } else {
        (Err("extended code type "@ + seq![digit_char(t)] + " is not supported"@), i)
    }
}

/// 30s0vvvv 0aaaaaaa: the address is in the data word; a 32-bit amount does
/// not fit and comes on a second line. An odd `s` decrements.
pub open spec fn increment(a: u32, d: u32, lines: Seq<LineModel>, i: int) -> (Result<OpModel, Seq<char>>, int) {
    let s = a as int / 0x10_0000 % 16;
    let signed = |v: int| if s % 2 == 1 {
        -v
    } else {
        v
    };
    let addr = code_addr(d);
    if s <= 1 {
        (Ok(OpModel::Add { addr, width: 1, amount: signed(a as int % 0x100) as i64 }), i)
    } else if s <= 3 {
        (Ok(OpModel::Add { addr, width: 2, amount: signed(a as int % 0x1_0000) as i64 }), i)
    } else if s <= 5 {
        match next_words(lines, i) {
            (Err(e), j) => (Err(e), j),
            (Ok(w), j) => (Ok(OpModel::Add { addr, width: 4, amount: signed(w.0 as int) as i64 }), j),
        }
    } else {
        (Err("increment code with unknown operation "@ + decimal(s as nat) + ""@), i)
    }
}

/// 6aaaaaaa vvvvvvvv / 000snnnn t0 / t1 t2 / ... / t(n-2) iiiiiiii: n
/// pointer reads, so n-1 offsets between them and one after.
pub open spec fn pointer(addr: u32, d: u32, lines: Seq<LineModel>, i: int) -> (Result<OpModel, Seq<char>>, int) {
    match next_words(lines, i) {
        (Err(e), j) => (Err(e), j),
        (Ok(w), j) => {
            let s = w.0 as int / 0x1_0000 % 16;
            let n = if w.0 as int % 0x1_0000 == 0 {
                1
            } else {
                w.0 as int % 0x1_0000
            };
            if s > 2 {
                (Err("pointer code with unknown width "@ + decimal(s as nat) + ""@), j)
            } else {
                match pointer_words(lines, j, seq![w.1], n) {
                    (Err(e), k) => (Err(e), k),
                    (Ok(words), k) => (
                        Ok(
                            OpModel::Pointer {
                                addr,
                                hops: words.drop_last(),
                                offset: words.last(),
                                width: if s == 0 {
                                    1
                                } else if s == 1 {
                                    2
                                } else {
                                    4
                                },
                                value: d,
                            },
                        ),
                        k,
                    ),
                }
            }
        },
    }
}

/// 7aaaaaaa 00x0vvvv
pub open spec fn bitwise(addr: u32, d: u32) -> Result<OpModel, Seq<char>> {
    let x = d as int / 0x10_0000 % 16;
    if x > 5 {
        Err("bitwise code with unknown operation "@ + decimal(x as nat) + ""@)
    } else {
        Ok(
            OpModel::Bitwise {
                addr,
                width: if x % 2 == 0 {
                    1
                } else {
                    2
                },
                op: if x <= 1 {
                    Bitwise::Or
                } else if x <= 3 {
                    Bitwise::And
                } else {
                    Bitwise::Xor
                },
                value: (if x % 2 == 0 {
                    d % 0x100
                } else {
                    d % 0x1_0000
                }) as u32,
            },
        )
    }
}

/// The comparison that a conditional names.
pub open spec fn comparison(t: int) -> Compare {
    if t == 0 {
        Compare::Equal
    } else if t == 1 {
        Compare::NotEqual
    } else if t == 2 {
        Compare::Less
    } else if t == 3 {
        Compare::Greater
    } else if t == 4 {
        Compare::Nand
    } else if t == 5 {
        Compare::And
    } else if t == 6 {
        Compare::Nor
    } else {
        Compare::Or
    }
}

/// Commands that a failed conditional skips: the top byte, at least one.
pub open spec fn skip_count(d: u32) -> usize {
    if d < 0x100_0000 {
        1
    } else {
        (d / 0x100_0000) as usize
    }
}

/// Field `d / at % 16`.
pub open spec fn nibble_at(d: u32, at: int) -> int {
    d as int / at % 16
}

/// The value that a conditional compares with.
pub open spec fn cond_value(d: u32) -> u32 {
    (if nibble_at(d, 0x1_0000) == 1 {
        d as int % 0x100
    } else {
        d as int % 0x1_0000
    }) as u32
}

pub open spec fn small(s: int) -> nat {
    s as nat
}

/// Daaaaaaa nntsvvvv
pub open spec fn conditional(addr: u32, d: u32) -> Result<OpModel, Seq<char>> {
    let t = nibble_at(d, 0x10_0000);
    let s = nibble_at(d, 0x1_0000);
    if t > 7 {
        Err("conditional code with unknown comparison "@ + decimal(small(t)) + ""@)
    } else if s > 1 {
        Err("conditional code with unknown width "@ + decimal(small(s)) + ""@)
    } else {
        Ok(
            OpModel::Cond {
                addr,
                width: if s == 0 {
                    2
                } else {
                    1
                },
                cmp: comparison(t),
                value: cond_value(d),
                skip: skip_count(d),
            },
        )
    }
}

/// What an executable result stands for.
pub open spec fn op_reads_as(r: Result<Op, Vec<char>>, m: Result<OpModel, Seq<char>>) -> bool {
    match r {
        Ok(v) => m == Ok::<OpModel, Seq<char>>(v@),
        Err(e) => m == Err::<OpModel, Seq<char>>(e@),
    }
}

fn low_bytes(v: u64, n: usize) -> (r: Vec<u8>)
    requires
        n <= 8,
    ensures
        r@ == le_bytes(v as nat, n as nat),
{
    let mut out: Vec<u8> = Vec::new();
    let mut rest: u64 = v;
    assert(out@ + le_bytes(v as nat, n as nat) =~= le_bytes(v as nat, n as nat));
    for i in 0..n
        invariant
            out@ + le_bytes(rest as nat, (n - i) as nat) == le_bytes(v as nat, n as nat),
    {
        let ghost before = out@;
        out.push((rest % 256) as u8);
        assert(out@ + le_bytes((rest / 256) as nat, (n - i - 1) as nat) =~= before + le_bytes(rest as nat, (n - i) as nat));
        rest = rest / 256;
    }
    assert(out@ + le_bytes(rest as nat, 0) =~= out@);
    out
}

fn read_increment(a: u32, d: u32, lines: &Vec<Line>, i: usize) -> (r: (Result<Op, Vec<char>>, usize))
    requires
        i <= lines@.len(),
    ensures
        op_reads_as(r.0, increment(a, d, line_models(lines@), i as int).0),
        r.1 == increment(a, d, line_models(lines@), i as int).1,
        i <= r.1 <= lines@.len(),
{
    let s: u32 = a / 0x10_0000 % 16;
    let addr: u32 = d % 0x1000_0000;
    let mut at: usize = i;
    let (width, amount): (u8, i64) = match s {
        0 | 1 => (1, (a % 0x100) as i64),
        2 | 3 => (2, (a % 0x1_0000) as i64),
        4 | 5 => {
            let (w, j) = read_next(lines, i);
            at = j;
            match w {
                Ok(w) => (4, w.0 as i64),
                Err(e) => return (Err(e), j),
            }
        },
        _ => return (Err(message("increment code with unknown operation ", &digits(s as u64), "")), i),
    };
    (Ok(Op::Add { addr, width, amount: if s % 2 == 1 { -amount } else { amount } }), at)
}

fn read_pointer(addr: u32, d: u32, lines: &Vec<Line>, i: usize) -> (r: (Result<Op, Vec<char>>, usize))
    requires
        i <= lines@.len(),
    ensures
        op_reads_as(r.0, pointer(addr, d, line_models(lines@), i as int).0),
        r.1 == pointer(addr, d, line_models(lines@), i as int).1,
        i <= r.1 <= lines@.len(),
{
    let (w, j) = read_next(lines, i);
    let (head, first) = match w {
        Ok(w) => w,
        Err(e) => return (Err(e), j),
    };
    let s: u32 = head / 0x1_0000 % 16;
    let width: u8 = match s {
        0 => 1,
        1 => 2,
        2 => 4,
        _ => return (Err(message("pointer code with unknown width ", &digits(s as u64), "")), j),
    };
    let low: u32 = head % 0x1_0000;
    let n: usize = if low == 0 { 1 } else { low as usize };
    let (words, k) = read_pointer_words(lines, j, first, n);
    match words {
        Err(e) => (Err(e), k),
        Ok(mut words) => {
            let ghost all = words@;
            let offset: u32 = words[n - 1];
            words.truncate(n - 1);
            assert(words@ =~= all.drop_last());
            (Ok(Op::Pointer { addr, hops: words, offset, width, value: d }), k)
        },
    }
}

fn read_bitwise(addr: u32, d: u32) -> (r: Result<Op, Vec<char>>)
    ensures
        op_reads_as(r, bitwise(addr, d)),
{
    let x: u32 = d / 0x10_0000 % 16;
    let op = match x {
        0 | 1 => Bitwise::Or,
        2 | 3 => Bitwise::And,
        4 | 5 => Bitwise::Xor,
        _ => return Err(message("bitwise code with unknown operation ", &digits(x as u64), "")),
    };
    if x % 2 == 0 {
        Ok(Op::Bitwise { addr, width: 1, op, value: d % 0x100 })
    } else {
        Ok(Op::Bitwise { addr, width: 2, op, value: d % 0x1_0000 })
    }
}

fn skip_of(d: u32) -> (n: usize)
    ensures
        n == skip_count(d),
{
    if d < 0x100_0000 {
        1
    } else {
        (d / 0x100_0000) as usize
    }
}

fn nibble_of(d: u32, at: u32) -> (n: u64)
    requires
        at > 0,
    ensures
        n == nibble_at(d, at as int),
        n < 16,
{
    (d / at % 16) as u64
}

fn value_of(d: u32) -> (v: u32)
    ensures
        v == cond_value(d),
{
    if d / 0x1_0000 % 16 == 1 {
        d % 0x100
    } else {
        d % 0x1_0000
    }
}

fn read_conditional(addr: u32, d: u32) -> (r: Result<Op, Vec<char>>)
    ensures
        op_reads_as(r, conditional(addr, d)),
{
    let t: u64 = nibble_of(d, 0x10_0000);
    let cmp = match t {
        0 => Compare::Equal,
        1 => Compare::NotEqual,
        2 => Compare::Less,
        3 => Compare::Greater,
        4 => Compare::Nand,
        5 => Compare::And,
        6 => Compare::Nor,
        7 => Compare::Or,
        _ => return Err(message("conditional code with unknown comparison ", &digits(t), "")),
    };
    let s: u64 = nibble_of(d, 0x1_0000);
    let width: u8 = match s {
        0 => 2,
        1 => 1,
        _ => return Err(message("conditional code with unknown width ", &digits(s), "")),
    };
    Ok(Op::Cond { addr, width, cmp, value: value_of(d), skip: skip_of(d) })
}

fn read_extended(a: u32, d: u32, lines: &Vec<Line>, i: usize) -> (r: (Result<Op, Vec<char>>, usize))
    requires
        i <= lines@.len(),
    ensures
        op_reads_as(r.0, extended(a, d, line_models(lines@), i as int).0),
        r.1 == extended(a, d, line_models(lines@), i as int).1,
        i <= r.1 <= lines@.len(),
{
    let addr: u32 = a % 0x1000_0000;
    let t: u32 = a / 0x1000_0000;
    match t {
        0 => (Ok(Op::Write { addr, data: low_bytes(d as u64, 1) }), i),
        1 => (Ok(Op::Write { addr, data: low_bytes(d as u64, 2) }), i),
        2 => (Ok(Op::Write { addr, data: low_bytes(d as u64, 4) }), i),
        3 => read_increment(a, d, lines, i),
        4 => {
            let (w, j) = read_next(lines, i);
            match w {
                Err(e) => (Err(e), j),
                Ok(w) => (
                    Ok(Op::Multi { addr, count: d / 0x1_0000, stride: d % 0x1_0000, value: w.0, step: w.1 }),
                    j,
                ),
            }
        },
        5 => {
            let (w, j) = read_next(lines, i);
            match w {
                Err(e) => (Err(e), j),
                Ok(w) => (Ok(Op::Copy { src: addr, dst: w.0 % 0x1000_0000, len: d }), j),
            }
        },
        6 => read_pointer(addr, d, lines, i),
        7 => (read_bitwise(addr, d), i),
        0xD => (read_conditional(addr, d), i),
        _ => {
            let mut digit: Vec<char> = Vec::new();
            digit.push(digit_char_of(t as u64));
            assert(digit@ =~= seq![digit_char(t as int)]);
            (Err(message("extended code type ", &digit, " is not supported")), i)
        },
    }
}

/// The command that starts on line `i`, and the line after it.
pub open spec fn command(lines: Seq<LineModel>, i: int) -> (Result<CheatModel, Seq<char>>, int) {
    let l = lines[i];
    let (op, j) = if plain_width(l.kind) > 0 {
        (
            match hex(l.data) {
                Ok(v) => Ok(OpModel::Write { addr: l.addr as u32, data: plain_bytes(l.kind, v) }),
                Err(e) => Err("data: "@ + e + ""@),
            },
            i + 1,
        )
    } else if l.kind == "bytes"@ {
        (
            match byte_string(l.data) {
                Ok(b) => Ok(OpModel::Write { addr: l.addr as u32, data: b }),
                Err(e) => Err(e),
            },
            i + 1,
        )
    } else if l.kind == "extended"@ {
        match hex(l.data) {
            Ok(d) => extended(l.addr as u32, d as u32, lines, i + 1),
            Err(e) => (Err("data: "@ + e + ""@), i + 1),
        }
    } else {
        (Err("unknown type '"@ + l.kind + "'"@), i + 1)
    };
    (
        match op {
            Ok(op) => Ok(CheatModel { target: l.target, once: l.once, op }),
            Err(e) => Err(e),
        },
        j,
    )
}

fn read_op(lines: &Vec<Line>, i: usize) -> (r: (Result<Op, Vec<char>>, usize))
    requires
        i < lines.len(),
    ensures
        match r.0 {
            Ok(op) => command(line_models(lines@), i as int).0 == Ok::<CheatModel, Seq<char>>(
                (CheatModel { target: lines@[i as int].target, once: lines@[i as int].once, op: op@ }),
            ),
            Err(e) => command(line_models(lines@), i as int).0 == Err::<CheatModel, Seq<char>>(e@),
        },
        r.1 == command(line_models(lines@), i as int).1,
        i < r.1 <= lines@.len(),
{
    let l = &lines[i];
    assert(line_models(lines@)[i as int] == l@);
    let width: usize = if spells(&l.kind, "byte") {
        1
    } else if spells(&l.kind, "short") || spells(&l.kind, "beshort") {
        2
    } else if spells(&l.kind, "word") || spells(&l.kind, "beword") {
        4
    } else if spells(&l.kind, "double") || spells(&l.kind, "bedouble") {
        8
    } else {
        0
    };
    if width > 0 {
        match read_hex(&l.data) {
            Ok(v) => {
                let mut data = low_bytes(v, width);
                if spells(&l.kind, "beshort") || spells(&l.kind, "beword") || spells(&l.kind, "bedouble") {
                    data = reversed(&data);
                }
                (Ok(Op::Write { addr: low_word(l.addr), data }), i + 1)
            },
            Err(e) => (Err(message("data: ", &e, "")), i + 1),
        }
    } else if spells(&l.kind, "bytes") {
        match read_bytes(&l.data) {
            Ok(data) => (Ok(Op::Write { addr: low_word(l.addr), data }), i + 1),
            Err(e) => (Err(e), i + 1),
        }
    } else if spells(&l.kind, "extended") {
        match read_hex(&l.data) {
            Ok(d) => read_extended(low_word(l.addr), low_word(d), lines, i + 1),
            Err(e) => (Err(message("data: ", &e, "")), i + 1),
        }
    } else {
        (Err(message("unknown type '", &l.kind, "'")), i + 1)
    }
}

fn reversed(v: &Vec<u8>) -> (r: Vec<u8>)
    ensures
        r@ == v@.reverse(),
{
    let n: usize = v.len();
    let mut out: Vec<u8> = Vec::new();
    for i in 0..n
        invariant
            n == v@.len(),
            out@ == v@.reverse().subrange(0, i as int),
    {
        out.push(v[n - 1 - i]);
        assert(out@ =~= v@.reverse().subrange(0, i + 1));
    }
    assert(out@ =~= v@.reverse());
    out
}

// --- sections -------------------------------------------------------------------

/// The commands from line `i` on, after `cheats`, and the rejects, after
/// `bad`. Extended codes may continue onto following lines, so commands are
/// assembled over the section's line list rather than line by line.
pub open spec fn commands(lines: Seq<LineModel>, i: int, cheats: Seq<CheatModel>, bad: Seq<(nat, Seq<char>)>) -> (
    Seq<CheatModel>,
    Seq<(nat, Seq<char>)>,
)
    decreases lines.len() - i,
{
    if i >= lines.len() {
        (cheats, bad)
    } else {
        let (c, j) = command(lines, i);
        if j <= i || j > lines.len() {
            (cheats, bad)
        } else {
            match c {
                Ok(c) => commands(lines, j, cheats.push(c), bad),
                Err(e) => commands(lines, j, cheats, bad.push((lines[i].number, e))),
            }
        }
    }
}

/// `w` put into a list ordered by line, behind its equals.
pub open spec fn inserted(s: Seq<(nat, Seq<char>)>, w: (nat, Seq<char>)) -> Seq<(nat, Seq<char>)>
    decreases s.len(),
{
    if s.len() == 0 || s.last().0 <= w.0 {
        s.push(w)
    } else {
        inserted(s.drop_last(), w).push(s.last())
    }
}

pub open spec fn inserted_all(s: Seq<(nat, Seq<char>)>, t: Seq<(nat, Seq<char>)>) -> Seq<(nat, Seq<char>)>
    decreases t.len(),
{
    if t.len() == 0 {
        s
    } else {
        inserted(inserted_all(s, t.drop_last()), t.last())
    }
}

/// One section being read: its `patch=` lines and its rejects, held until
/// the section ends.
pub struct PendingModel {
    pub name: Seq<char>,
    pub span: (nat, nat),
    pub lines: Seq<LineModel>,
    pub warn: Seq<(nat, Seq<char>)>,
}

pub open spec fn opened(name: Seq<char>, line: nat) -> PendingModel {
    PendingModel { name, span: (line, line), lines: Seq::empty(), warn: Seq::empty() }
}

/// A reject as it is reported.
pub open spec fn warning(w: (nat, Seq<char>)) -> Seq<char> {
    "line "@ + decimal(w.0) + ": "@ + w.1
}

/// The groups after a finished section. An empty leading run is not a
/// group; an empty named section is, so a header with nothing usable under
/// it still shows up.
pub open spec fn finished(groups: Seq<GroupModel>, open: PendingModel) -> Seq<GroupModel> {
    let (cheats, bad) = commands(open.lines, 0, Seq::empty(), Seq::empty());
    let warn = inserted_all(open.warn, bad);
    if open.name.len() == 0 && cheats.len() == 0 && warn.len() == 0 {
        groups
    } else {
        groups.push(
            GroupModel {
                name: open.name,
                cheats,
                warnings: warn.map(|i: int, w: (nat, Seq<char>)| warning(w)),
                enabled: true,
                span: open.span,
            },
        )
    }
}

/// A section's header name, if this is a header line. A `[` with no
/// closing bracket still opens a section.
pub open spec fn section(line: Seq<char>) -> Option<Seq<char>> {
    if line.len() > 0 && line[0] == '[' {
        let rest = from(line, 1);
        Some(trimmed(rest.subrange(0, find(rest, ']'))))
    } else {
        None
    }
}

/// The section being read after a line that is no header. A comment line
/// inside a section still belongs to it: the span is what a rewrite
/// replaces, and it should not orphan them.
pub open spec fn read_line(open: PendingModel, line: Seq<char>, number: nat) -> PendingModel {
    let open = PendingModel { span: (open.span.0, number), ..open };
    let i = find(line, '=');
    if line.len() == 0 {
        open
    } else if i >= line.len() {
        PendingModel { warn: open.warn.push((number, "not a key=value line"@)), ..open }
    } else if lowered(trimmed(line.subrange(0, i))) != "patch"@ {
        // gametitle=, author=, comment=, description=, gs*=: metadata.
        open
    } else {
        match fields(from(line, i + 1), number) {
            Ok(l) => PendingModel { lines: open.lines.push(l), ..open },
            Err(e) => PendingModel { warn: open.warn.push((number, e)), ..open },
        }
    }
}

/// One line of the file.
pub open spec fn stepped(groups: Seq<GroupModel>, open: PendingModel, raw: Seq<char>, number: nat) -> (
    Seq<GroupModel>,
    PendingModel,
) {
    let t = trimmed(raw);
    let line = trimmed(t.subrange(0, find_comment(t)));
    if t.len() == 0 {
        (groups, open)
    } else {
        match section(line) {
            Some(name) => (finished(groups, open), opened(name, number)),
            None => (groups, read_line(open, line, number)),
        }
    }
}

/// The lines `raws[i..]`.
pub open spec fn stepped_all(groups: Seq<GroupModel>, open: PendingModel, raws: Seq<Seq<char>>, i: int) -> (
    Seq<GroupModel>,
    PendingModel,
)
    decreases raws.len() - i,
{
    if i >= raws.len() || i < 0 {
        (groups, open)
    } else {
        let (g, o) = stepped(groups, open, raws[i], (i + 1) as nat);
        stepped_all(g, o, raws, i + 1)
    }
}

/// The sections of a pnach file. Lines are what newlines separate; a byte
/// order mark at the start is no part of the text.
pub open spec fn parsed(text: Seq<char>) -> Seq<GroupModel> {
    let raws = split(strip_chars(text, '\u{FEFF}'), '\n');
    let (groups, open) = stepped_all(Seq::empty(), opened(Seq::empty(), 1), raws, 0);
    finished(groups, open)
}

struct Pending {
    name: Vec<char>,
    span: (usize, usize),
    lines: Vec<Line>,
    warn: Vec<(usize, Vec<char>)>,
}

spec fn warn_models(s: Seq<(usize, Vec<char>)>) -> Seq<(nat, Seq<char>)> {
    s.map(|i: int, w: (usize, Vec<char>)| (w.0 as nat, w.1@))
}

impl Pending {
    spec fn model(&self) -> PendingModel {
        PendingModel {
            name: self.name@,
            span: (self.span.0 as nat, self.span.1 as nat),
            lines: line_models(self.lines@),
            warn: warn_models(self.warn@),
        }
    }

    fn new(name: Vec<char>, line: usize) -> (p: Pending)
        ensures
            p.model() == opened(name@, line as nat),
    {
        let p = Pending { name, span: (line, line), lines: Vec::new(), warn: Vec::new() };
        assert(line_models(p.lines@) =~= Seq::empty());
        assert(warn_models(p.warn@) =~= Seq::empty());
        p
    }

    fn read(&mut self, line: &Vec<char>, number: usize)
        ensures
            final(self).model() == read_line(old(self).model(), line@, number as nat),
    {
        self.span.1 = number;
        if line.len() == 0 {
            return;
        }
        let i: usize = position(line, '=');
        if i >= line.len() {
            let ghost before = self.warn@;
            self.warn.push((number, chars_of("not a key=value line")));
            assert(warn_models(self.warn@) =~= warn_models(before).push((number as nat, "not a key=value line"@)));
            return;
        }
        let key = lower(&trim(&cut(line, 0, i)));
        if !spells(&key, "patch") {
            return;
        }
        match parse_fields(&cut(line, i + 1, line.len()), number) {
            Ok(l) => {
                let ghost before = self.lines@;
                let ghost m = l@;
                self.lines.push(l);
                assert(line_models(self.lines@) =~= line_models(before).push(m));
            },
            Err(e) => {
                let ghost before = self.warn@;
                let ghost m = e@;
                self.warn.push((number, e));
                assert(warn_models(self.warn@) =~= warn_models(before).push((number as nat, m)));
            },
        }
    }
}

proof fn lemma_inserted_at(s: Seq<(nat, Seq<char>)>, w: (nat, Seq<char>), at: int)
    requires
        0 <= at <= s.len(),
        at > 0 ==> s[at - 1].0 <= w.0,
        forall|i: int| at <= i < s.len() ==> (#[trigger] s[i]).0 > w.0,
    ensures
        inserted(s, w) == s.insert(at, w),
    decreases s.len(),
{
    if at == s.len() {
        assert(s.insert(at, w) =~= s.push(w));
    } else {
        assert(s[s.len() - 1].0 > w.0);
        let t = s.drop_last();
        assert forall|i: int| at <= i < t.len() implies (#[trigger] t[i]).0 > w.0 by {
            assert(s[i].0 > w.0);
        }
        lemma_inserted_at(t, w, at);
        assert(s.insert(at, w) =~= t.insert(at, w).push(s.last()));
    }
}

fn insert_warning(warn: &mut Vec<(usize, Vec<char>)>, number: usize, e: Vec<char>)
    ensures
        warn_models(final(warn)@) == inserted(warn_models(old(warn)@), (number as nat, e@)),
{
    let mut at: usize = warn.len();
    while at > 0 && warn[at - 1].0 > number
        invariant
            at <= warn@.len(),
            warn@ == old(warn)@,
            forall|i: int| at <= i < warn@.len() ==> (#[trigger] warn_models(warn@)[i]).0 > number,
        decreases at,
    {
        assert(warn_models(warn@)[at - 1].0 == warn@[at - 1].0);
        at = at - 1;
    }
    proof {
        let m = warn_models(warn@);
        if at > 0 {
            assert(m[at - 1].0 == warn@[at - 1].0);
        }
        lemma_inserted_at(m, (number as nat, e@), at as int);
    }
    let ghost m = (number as nat, e@);
    warn.insert(at, (number, e));
    assert(warn_models(warn@) =~= warn_models(old(warn)@).insert(at as int, m));
}

fn finish(groups: &mut Vec<Group>, open: Pending)
    ensures
        group_models(final(groups)@) == finished(group_models(old(groups)@), open.model()),
{
    let Pending { name, span, lines, mut warn } = open;
    let ghost models = line_models(lines@);
    let ghost first = warn_models(warn@);
    let mut cheats: Vec<Cheat> = Vec::new();
    let ghost mut bad: Seq<(nat, Seq<char>)> = Seq::empty();
    let n: usize = lines.len();
    let mut i: usize = 0;
    assert(cheat_models(cheats@) =~= Seq::empty());
    while i < n
        invariant
            n == lines@.len(),
            i <= n,
            models == line_models(lines@),
            commands(models, 0, Seq::empty(), Seq::empty()) == commands(models, i as int, cheat_models(cheats@), bad),
            warn_models(warn@) == inserted_all(first, bad),
        decreases n - i,
    {
        let (r, j) = read_op(&lines, i);
        assert(models[i as int] == lines@[i as int]@);
        match r {
            Ok(op) => {
                let ghost before = cheats@;
                let c = Cheat { target: lines[i].target, once: lines[i].once, op };
                let ghost m = c@;
                cheats.push(c);
                assert(cheat_models(cheats@) =~= cheat_models(before).push(m));
            },
            Err(e) => {
                let ghost w = (lines@[i as int].number as nat, e@);
                insert_warning(&mut warn, lines[i].number, e);
                proof {
                    assert(bad.push(w).drop_last() =~= bad);
                    bad = bad.push(w);
                }
            },
        }
        i = j;
    }
    if name.len() == 0 && cheats.len() == 0 && warn.len() == 0 {
        assert(cheat_models(cheats@).len() == 0);
        assert(warn_models(warn@).len() == 0);
        return;
    }
    let ghost wm = warn_models(warn@);
    let ghost texts = wm.map(|i: int, w: (nat, Seq<char>)| warning(w));
    let mut warnings: Vec<String> = Vec::new();
    let k: usize = warn.len();
    for i in 0..k
        invariant
            k == warn@.len(),
            wm == warn_models(warn@),
            texts == wm.map(|i: int, w: (nat, Seq<char>)| warning(w)),
            warnings@.map(|i: int, w: String| w@) == texts.subrange(0, i as int),
    {
        let mut m = chars_of("line ");
        let num = decimal_of(warn[i].0 as u64);
        join(&mut m, &num);
        let sep = chars_of(": ");
        join(&mut m, &sep);
        join(&mut m, &warn[i].1);
        assert(wm[i as int] == (warn@[i as int].0 as nat, warn@[i as int].1@));
        let s = string_of(&m);
        let ghost before = warnings@;
        warnings.push(s);
        assert(warnings@.map(|i: int, w: String| w@) =~= before.map(|i: int, w: String| w@).push(s@));
        assert(texts.subrange(0, i + 1) =~= texts.subrange(0, i as int).push(texts[i as int]));
    }
    assert(texts.subrange(0, k as int) =~= texts);
    let ghost cm = cheat_models(cheats@);
    assert(cm.len() == cheats@.len() && wm.len() == warn@.len());
    let ghost before = groups@;
    let g = Group { name: string_of(&name), cheats, warnings, enabled: true, span };
    let ghost gm = g@;
    groups.push(g);
    assert(group_models(groups@) =~= group_models(before).push(gm));
}

fn section_name(line: &Vec<char>) -> (r: Option<Vec<char>>)
    ensures
        match r {
            Some(n) => section(line@) == Some(n@),
            None => section(line@) is None,
        },
{
    if line.len() > 0 && line[0] == '[' {
        let rest = cut(line, 1, line.len());
        let i: usize = position(&rest, ']');
        Some(trim(&cut(&rest, 0, i)))
    } else {
        None
    }
}

/// Parse a pnach file into its `[Name]` sections. Every line the parser
/// rejects becomes a warning on the section it sits in, naming its line
/// number; the rest of the file is still used.
pub fn parse(text: &str) -> (groups: Vec<Group>)
    ensures
        group_models(groups@) == parsed(text@),
        groups_ok(groups@),
{
    proof {
        law_parsed_commands_can_be_run(text@);
    }
    let all = without_chars(&chars_of(text), '\u{FEFF}');
    let raws = pieces(&all, '\n');
    let ghost lines = views(raws@);
    let mut groups: Vec<Group> = Vec::new();
    let unnamed: Vec<char> = Vec::new();
    assert(unnamed@ =~= Seq::<char>::empty());
    let mut open = Pending::new(unnamed, 1);
    let n: usize = raws.len();
    assert(group_models(groups@) =~= Seq::empty());
    for i in 0..n
        invariant
            n == raws.len(),
            lines == views(raws@),
            stepped_all(Seq::empty(), opened(Seq::empty(), 1), lines, 0) == stepped_all(
                group_models(groups@),
                open.model(),
                lines,
                i as int,
            ),
    {
        assert(lines[i as int] == raws@[i as int]@);
        let number: usize = i + 1;
        let t = trim(&raws[i]);
        if t.len() > 0 {
            let line = trim(&before_comment(&t));
            match section_name(&line) {
                Some(name) => {
                    let mut done = Pending::new(name, number);
                    std::mem::swap(&mut open, &mut done);
                    finish(&mut groups, done);
                },
                None => open.read(&line, number),
            }
        }
    }
    finish(&mut groups, open);
    groups
}

/// Rejects in the order of their lines.
pub open spec fn in_order(s: Seq<(nat, Seq<char>)>) -> bool {
    forall|i: int, j: int| 0 <= i < j < s.len() ==> (#[trigger] s[i]).0 <= (#[trigger] s[j]).0
}

proof fn lemma_inserted_keeps_order(s: Seq<(nat, Seq<char>)>, w: (nat, Seq<char>))
    requires
        in_order(s),
    ensures
        in_order(inserted(s, w)),
        inserted(s, w).len() == s.len() + 1,
        forall|i: int| 0 <= i < inserted(s, w).len() ==> (#[trigger] inserted(s, w)[i]) == w || s.contains(inserted(s, w)[i]),
    decreases s.len(),
{
    let r = inserted(s, w);
    if s.len() == 0 || s.last().0 <= w.0 {
        assert forall|i: int, j: int| 0 <= i < j < r.len() implies (#[trigger] r[i]).0 <= (#[trigger] r[j]).0 by {
            if j == s.len() {
                assert(s[i].0 <= s[s.len() - 1].0 || i == s.len() - 1);
            }
        }
        assert forall|i: int| 0 <= i < r.len() implies (#[trigger] r[i]) == w || s.contains(r[i]) by {
            if i < s.len() {
                assert(s[i] == r[i]);
            }
        }
    } else {
        let t = s.drop_last();
        lemma_inserted_keeps_order(t, w);
        let q = inserted(t, w);
        assert forall|i: int| 0 <= i < q.len() implies (#[trigger] q[i]).0 <= s.last().0 by {
            if q[i] != w {
                let k = choose|k: int| 0 <= k < t.len() && t[k] == q[i];
                assert(s[k].0 <= s[s.len() - 1].0);
            }
        }
        assert forall|i: int, j: int| 0 <= i < j < r.len() implies (#[trigger] r[i]).0 <= (#[trigger] r[j]).0 by {
            if j < q.len() {
                assert(q[i].0 <= q[j].0);
            } else {
                assert(q[i].0 <= s.last().0);
            }
        }
        assert forall|i: int| 0 <= i < r.len() implies (#[trigger] r[i]) == w || s.contains(r[i]) by {
            if i < q.len() {
                if q[i] != w {
                    let k = choose|k: int| 0 <= k < t.len() && t[k] == q[i];
                    assert(s[k] == r[i]);
                }
            } else {
                assert(s[s.len() - 1] == r[i]);
            }
        }
    }
}

/// A section's rejects are reported in the order of their lines, none lost.
pub proof fn law_warnings_are_in_line_order(warn: Seq<(nat, Seq<char>)>, bad: Seq<(nat, Seq<char>)>)
    requires
        in_order(warn),
    ensures
        in_order(inserted_all(warn, bad)),
        inserted_all(warn, bad).len() == warn.len() + bad.len(),
    decreases bad.len(),
{
    if bad.len() > 0 {
        law_warnings_are_in_line_order(warn, bad.drop_last());
        lemma_inserted_keeps_order(inserted_all(warn, bad.drop_last()), bad.last());
    }
}

proof fn lemma_command_ok(lines: Seq<LineModel>, i: int)
    ensures
        command(lines, i).0 matches Ok(c) ==> op_ok(c.op),
{
}

proof fn lemma_commands_ok(lines: Seq<LineModel>, i: int, cheats: Seq<CheatModel>, bad: Seq<(nat, Seq<char>)>)
    requires
        cheats_ok(cheats),
    ensures
        cheats_ok(commands(lines, i, cheats, bad).0),
    decreases lines.len() - i,
{
    if i < lines.len() {
        let (c, j) = command(lines, i);
        lemma_command_ok(lines, i);
        if j > i && j <= lines.len() {
            match c {
                Ok(c) => lemma_commands_ok(lines, j, cheats.push(c), bad),
                Err(e) => lemma_commands_ok(lines, j, cheats, bad.push((lines[i].number, e))),
            }
        }
    }
}

proof fn lemma_sections_ok(groups: Seq<GroupModel>, open: PendingModel, raws: Seq<Seq<char>>, i: int)
    requires
        models_ok(groups),
    ensures
        models_ok(stepped_all(groups, open, raws, i).0),
    decreases raws.len() - i,
{
    if 0 <= i < raws.len() {
        let (g, o) = stepped(groups, open, raws[i], (i + 1) as nat);
        lemma_commands_ok(open.lines, 0, Seq::empty(), Seq::empty());
        lemma_sections_ok(g, o, raws, i + 1);
    }
}

/// Whatever the text, every command that comes out of it can be run.
pub proof fn law_parsed_commands_can_be_run(text: Seq<char>)
    ensures
        models_ok(parsed(text)),
{
    let raws = split(strip_chars(text, '\u{FEFF}'), '\n');
    let start = opened(Seq::empty(), 1);
    lemma_sections_ok(Seq::empty(), start, raws, 0);
    let (groups, open) = stepped_all(Seq::empty(), start, raws, 0);
    lemma_commands_ok(open.lines, 0, Seq::empty(), Seq::empty());
}

} // verus!
