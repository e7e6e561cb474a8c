//! Text as sequences of characters: trimming, splitting and numbers.

use vstd::prelude::*;

verus! {

/// `String::push` of the standard library: appends the character to the
/// end of the string.
pub assume_specification[ String::push ](s: &mut String, c: char)
    ensures
        final(s)@ == old(s)@.push(c),
;

/// The Unicode White_Space property.
pub open spec fn is_space(c: char) -> bool {
    let n = c as u32;
    (9 <= n <= 13) || n == 0x20 || n == 0x85 || n == 0xA0 || n == 0x1680 || (0x2000 <= n <= 0x200A) || n == 0x2028 || n
        == 0x2029 || n == 0x202F || n == 0x205F || n == 0x3000
}

pub fn space(c: char) -> (r: bool)
    ensures
        r == is_space(c),
{
    let n: u32 = c as u32;
    (9 <= n && n <= 13) || n == 0x20 || n == 0x85 || n == 0xA0 || n == 0x1680 || (0x2000 <= n && n <= 0x200A) || n == 0x2028
        || n == 0x2029 || n == 0x202F || n == 0x205F || n == 0x3000
}

// --- cutting ----------------------------------------------------------------

/// Everything from `i` on.
pub open spec fn from(s: Seq<char>, i: int) -> Seq<char> {
    s.subrange(i, s.len() as int)
}

pub open spec fn trim_start(s: Seq<char>) -> Seq<char>
    decreases s.len(),
{
    if s.len() > 0 && is_space(s[0]) {
        trim_start(from(s, 1))
    } else {
        s
    }
}

pub open spec fn trim_end(s: Seq<char>) -> Seq<char>
    decreases s.len(),
{
    if s.len() > 0 && is_space(s.last()) {
        trim_end(s.drop_last())
    } else {
        s
    }
}

/// Without white space at either end.
pub open spec fn trimmed(s: Seq<char>) -> Seq<char> {
    trim_end(trim_start(s))
}

/// Position of the first `c`, the length where there is none.
pub open spec fn find(s: Seq<char>, c: char) -> int
    decreases s.len(),
{
    if s.len() == 0 || s[0] == c {
        0
    } else {
        1 + find(from(s, 1), c)
    }
}

/// Position of the first `//`, the length where there is none.
pub open spec fn find_comment(s: Seq<char>) -> int
    decreases s.len(),
{
    if s.len() == 0 || (s.len() >= 2 && s[0] == '/' && s[1] == '/') {
        0
    } else {
        1 + find_comment(from(s, 1))
    }
}

pub proof fn lemma_find_bound(s: Seq<char>, c: char)
    ensures
        0 <= find(s, c) <= s.len(),
        find(s, c) < s.len() ==> s[find(s, c)] == c,
        forall|i: int| 0 <= i < find(s, c) ==> s[i] != c,
    decreases s.len(),
{
    if s.len() > 0 && s[0] != c {
        let t = from(s, 1);
        lemma_find_bound(t, c);
        assert forall|i: int| 0 <= i < find(s, c) implies s[i] != c by {
            if i > 0 {
                assert(t[i - 1] == s[i]);
            }
        }
    }
}

pub proof fn lemma_find_comment_bound(s: Seq<char>)
    ensures
        0 <= find_comment(s) <= s.len(),
    decreases s.len(),
{
    if s.len() > 0 {
        lemma_find_comment_bound(from(s, 1));
    }
}

/// The pieces between occurrences of `c`.
pub open spec fn split(s: Seq<char>, c: char) -> Seq<Seq<char>>
    decreases s.len(),
{
    let i = find(s, c);
    if i < 0 || i >= s.len() {
        seq![s]
    } else {
        seq![s.subrange(0, i)] + split(from(s, i + 1), c)
    }
}

/// Without any number of leading `ab`.
pub open spec fn strip_pairs(s: Seq<char>, a: char, b: char) -> Seq<char>
    decreases s.len(),
{
    if s.len() >= 2 && s[0] == a && s[1] == b {
        strip_pairs(from(s, 2), a, b)
    } else {
        s
    }
}

/// Without any number of leading `c`.
pub open spec fn strip_chars(s: Seq<char>, c: char) -> Seq<char>
    decreases s.len(),
{
    if s.len() >= 1 && s[0] == c {
        strip_chars(from(s, 1), c)
    } else {
        s
    }
}

/// ASCII letters in lower case, the rest as it is.
pub open spec fn lower_char(c: char) -> char {
    if 'A' <= c <= 'Z' {
        ((c as u8) + 32) as char
    } else {
        c
    }
}

/// ASCII letters in upper case, the rest as it is.
pub open spec fn upper_char(c: char) -> char {
    if 'a' <= c <= 'z' {
        ((c as u8) - 32) as char
    } else {
        c
    }
}

pub open spec fn lowered(s: Seq<char>) -> Seq<char> {
    s.map(|i: int, c: char| lower_char(c))
}

pub open spec fn uppered(s: Seq<char>) -> Seq<char> {
    s.map(|i: int, c: char| upper_char(c))
}

fn to_lower_char(c: char) -> (r: char)
    ensures
        r == lower_char(c),
{
    if 'A' <= c && c <= 'Z' {
        ((c as u8) + 32) as char
    } else {
        c
    }
}

fn to_upper_char(c: char) -> (r: char)
    ensures
        r == upper_char(c),
{
    if 'a' <= c && c <= 'z' {
        ((c as u8) - 32) as char
    } else {
        c
    }
}

// --- the same on vectors ------------------------------------------------------

pub fn chars_of(text: &str) -> (v: Vec<char>)
    ensures
        v@ == text@,
{
    let mut v: Vec<char> = Vec::new();
    for c in it: text.chars()
        invariant
            v@ == it.seq().subrange(0, it.index()),
            it.seq() == text@,
    {
        v.push(c);
        assert(v@ =~= it.seq().subrange(0, it.index() + 1));
    }
    assert(v@ =~= text@);
    v
}

pub fn string_of(v: &Vec<char>) -> (s: String)
    ensures
        s@ == v@,
{
    let mut s: String = String::new();
    for i in 0..v.len()
        invariant
            s@ == v@.subrange(0, i as int),
    {
        s.push(v[i]);
        assert(s@ =~= v@.subrange(0, i + 1));
    }
    assert(s@ =~= v@);
    s
}

/// Whether the characters spell `s`.
pub fn spells(v: &Vec<char>, s: &str) -> (r: bool)
    ensures
        r == (v@ == s@),
{
    let w: Vec<char> = chars_of(s);
    same(v, &w)
}

pub fn same(v: &Vec<char>, w: &Vec<char>) -> (r: bool)
    ensures
        r == (v@ == w@),
{
    if v.len() != w.len() {
        return false;
    }
    for i in 0..v.len()
        invariant
            v@.len() == w@.len(),
            v@.subrange(0, i as int) == w@.subrange(0, i as int),
    {
        if v[i] != w[i] {
            return false;
        }
        assert(v@.subrange(0, i + 1) =~= v@.subrange(0, i as int).push(v@[i as int]));
        assert(w@.subrange(0, i + 1) =~= w@.subrange(0, i as int).push(w@[i as int]));
    }
    assert(v@.subrange(0, v@.len() as int) =~= v@);
    assert(w@.subrange(0, w@.len() as int) =~= w@);
    true
}

pub fn cut(v: &Vec<char>, lo: usize, hi: usize) -> (r: Vec<char>)
    requires
        lo <= hi <= v@.len(),
    ensures
        r@ == v@.subrange(lo as int, hi as int),
{
    let mut r: Vec<char> = Vec::new();
    for i in lo..hi
        invariant
            hi <= v@.len(),
            r@ == v@.subrange(lo as int, i as int),
    {
        r.push(v[i]);
        assert(r@ =~= v@.subrange(lo as int, i + 1));
    }
    r
}

pub fn trim(v: &Vec<char>) -> (r: Vec<char>)
    ensures
        r@ == trimmed(v@),
{
    let n: usize = v.len();
    let mut lo: usize = 0;
    assert(from(v@, 0) =~= v@);
    while lo < n && space(v[lo])
        invariant
            n == v@.len(),
            lo <= n,
            trim_start(v@) == trim_start(from(v@, lo as int)),
        decreases n - lo,
    {
        assert(from(from(v@, lo as int), 1) =~= from(v@, lo + 1));
        lo = lo + 1;
    }
    let ghost mid = from(v@, lo as int);
    assert(trim_start(v@) == mid);
    let mut hi: usize = n;
    assert(v@.subrange(lo as int, hi as int) =~= mid);
    while hi > lo && space(v[hi - 1])
        invariant
            lo <= hi <= v@.len(),
            trim_end(mid) == trim_end(v@.subrange(lo as int, hi as int)),
        decreases hi,
    {
        assert(v@.subrange(lo as int, hi as int).drop_last() =~= v@.subrange(lo as int, hi - 1));
        hi = hi - 1;
    }
    cut(v, lo, hi)
}

pub fn position(v: &Vec<char>, c: char) -> (r: usize)
    ensures
        r == find(v@, c),
        r <= v@.len(),
{
    let n: usize = v.len();
    let mut i: usize = 0;
    assert(from(v@, 0) =~= v@);
    while i < n && v[i] != c
        invariant
            n == v@.len(),
            i <= n,
            find(v@, c) == i + find(from(v@, i as int), c),
        decreases n - i,
    {
        assert(from(from(v@, i as int), 1) =~= from(v@, i + 1));
        i = i + 1;
    }
    i
}

/// What stands before the first `//`.
pub fn before_comment(v: &Vec<char>) -> (r: Vec<char>)
    ensures
        r@ == v@.subrange(0, find_comment(v@)),
        0 <= find_comment(v@) <= v@.len(),
{
    let n: usize = v.len();
    let mut i: usize = 0;
    assert(from(v@, 0) =~= v@);
    while i < n && !(i + 1 < n && v[i] == '/' && v[i + 1] == '/')
        invariant
            n == v@.len(),
            i <= n,
            find_comment(v@) == i + find_comment(from(v@, i as int)),
        decreases n - i,
    {
        assert(from(from(v@, i as int), 1) =~= from(v@, i + 1));
        i = i + 1;
    }
    cut(v, 0, i)
}

pub open spec fn views(v: Seq<Vec<char>>) -> Seq<Seq<char>> {
    v.map(|i: int, x: Vec<char>| x@)
}

pub fn pieces(v: &Vec<char>, c: char) -> (r: Vec<Vec<char>>)
    ensures
        views(r@) == split(v@, c),
        r@.len() >= 1,
{
    let n: usize = v.len();
    let mut r: Vec<Vec<char>> = Vec::new();
    let mut at: usize = 0;
    let mut i: usize = 0;
    assert(from(v@, 0) =~= v@);
    assert(views(r@) + split(v@, c) =~= split(v@, c));
    while i < n
        invariant
            n == v@.len(),
            at <= i <= n,
            forall|j: int| at <= j < i ==> v@[j] != c,
            views(r@) + split(from(v@, at as int), c) == split(v@, c),
        decreases n - i,
    {
        if v[i] == c {
            let ghost tail = from(v@, at as int);
            let ghost before = r@;
            let piece = cut(v, at, i);
            proof {
                lemma_find_bound(tail, c);
                assert(tail[i - at] == c);
                assert forall|j: int| 0 <= j < i - at implies tail[j] != c by {
                    assert(tail[j] == v@[at + j]);
                }
                lemma_find_at(tail, c, i - at);
                assert(tail.subrange(0, i - at) =~= piece@);
                assert(from(tail, i - at + 1) =~= from(v@, i + 1));
                assert(split(tail, c) == seq![piece@] + split(from(v@, i + 1), c));
            }
            r.push(piece);
            proof {
                assert(views(r@) =~= views(before).push(piece@));
                assert(views(r@) + split(from(v@, i + 1), c) =~= views(before) + (seq![piece@] + split(from(v@, i + 1), c)));
            }
            at = i + 1;
        }
        i = i + 1;
    }
    let piece = cut(v, at, n);
    proof {
        let tail = from(v@, at as int);
        assert(tail =~= piece@);
        assert forall|j: int| 0 <= j < tail.len() implies tail[j] != c by {
            assert(tail[j] == v@[at + j]);
        }
        lemma_find_at(tail, c, tail.len() as int);
        assert(split(tail, c) == seq![tail]);
    }
    let ghost before = r@;
    r.push(piece);
    assert(views(r@) =~= views(before) + seq![piece@]);
    r
}

/// The first `c` is where nothing before it is one.
pub proof fn lemma_find_at(s: Seq<char>, c: char, i: int)
    requires
        0 <= i <= s.len(),
        i < s.len() ==> s[i] == c,
        forall|j: int| 0 <= j < i ==> s[j] != c,
    ensures
        find(s, c) == i,
{
    lemma_find_bound(s, c);
    if find(s, c) < i {
        assert(s[find(s, c)] != c);
    }
}

pub fn without_pairs(v: &Vec<char>, a: char, b: char) -> (r: Vec<char>)
    ensures
        r@ == strip_pairs(v@, a, b),
{
    let n: usize = v.len();
    let mut i: usize = 0;
    assert(from(v@, 0) =~= v@);
    while n - i >= 2 && v[i] == a && v[i + 1] == b
        invariant
            n == v@.len(),
            i <= n,
            strip_pairs(v@, a, b) == strip_pairs(from(v@, i as int), a, b),
        decreases n - i,
    {
        assert(from(from(v@, i as int), 2) =~= from(v@, i + 2));
        i = i + 2;
    }
    cut(v, i, n)
}

pub fn without_chars(v: &Vec<char>, c: char) -> (r: Vec<char>)
    ensures
        r@ == strip_chars(v@, c),
{
    let n: usize = v.len();
    let mut i: usize = 0;
    assert(from(v@, 0) =~= v@);
    while i < n && v[i] == c
        invariant
            n == v@.len(),
            i <= n,
            strip_chars(v@, c) == strip_chars(from(v@, i as int), c),
        decreases n - i,
    {
        assert(from(from(v@, i as int), 1) =~= from(v@, i + 1));
        i = i + 1;
    }
    cut(v, i, n)
}

pub fn lower(v: &Vec<char>) -> (r: Vec<char>)
    ensures
        r@ == lowered(v@),
{
    let mut r: Vec<char> = Vec::new();
    for i in 0..v.len()
        invariant
            r@ == lowered(v@).subrange(0, i as int),
    {
        r.push(to_lower_char(v[i]));
        assert(r@ =~= lowered(v@).subrange(0, i + 1));
    }
    assert(r@ =~= lowered(v@));
    r
}

pub fn upper(v: &Vec<char>) -> (r: Vec<char>)
    ensures
        r@ == uppered(v@),
{
    let mut r: Vec<char> = Vec::new();
    for i in 0..v.len()
        invariant
            r@ == uppered(v@).subrange(0, i as int),
    {
        r.push(to_upper_char(v[i]));
        assert(r@ =~= uppered(v@).subrange(0, i + 1));
    }
    assert(r@ =~= uppered(v@));
    r
}

pub fn join(v: &mut Vec<char>, w: &Vec<char>)
    ensures
        final(v)@ == old(v)@ + w@,
{
    let n: usize = w.len();
    for i in 0..n
        invariant
            n == w@.len(),
            v@ == old(v)@ + w@.subrange(0, i as int),
    {
        v.push(w[i]);
        assert(v@ =~= old(v)@ + w@.subrange(0, i + 1));
    }
    assert(v@ =~= old(v)@ + w@);
}

// --- numbers --------------------------------------------------------------------

/// The value of a hexadecimal digit, 16 for any other character.
pub open spec fn hex_digit(c: char) -> int {
    if '0' <= c <= '9' {
        c as int - 48
    } else if 'a' <= c <= 'f' {
        c as int - 87
    } else if 'A' <= c <= 'F' {
        c as int - 55
    } else {
        16
    }
}

pub fn hex_digit_of(c: char) -> (d: u64)
    ensures
        d == hex_digit(c),
        d <= 16,
{
    if '0' <= c && c <= '9' {
        c as u64 - 48
    } else if 'a' <= c && c <= 'f' {
        c as u64 - 87
    } else if 'A' <= c && c <= 'F' {
        c as u64 - 55
    } else {
        16
    }
}

/// Nothing but hexadecimal digits.
pub open spec fn all_hex(s: Seq<char>) -> bool {
    forall|i: int| 0 <= i < s.len() ==> hex_digit(#[trigger] s[i]) < 16
}

/// The number that hexadecimal digits spell.
pub open spec fn hex_sum(s: Seq<char>) -> nat
    decreases s.len(),
{
    if s.len() == 0 {
        0
    } else {
        16 * hex_sum(s.drop_last()) + hex_digit(s.last()) as nat
    }
}

/// A 64-bit hexadecimal number: an optional plus sign, then at least one
/// digit and nothing else, below 2^64.
pub open spec fn hex_value(s: Seq<char>) -> Option<u64> {
    let body = if s.len() > 1 && s[0] == '+' {
        from(s, 1)
    } else {
        s
    };
    if body.len() > 0 && all_hex(body) && hex_sum(body) <= u64::MAX {
        Some(hex_sum(body) as u64)
    } else {
        None
    }
}

proof fn lemma_hex_grows(s: Seq<char>, i: int)
    requires
        0 <= i <= s.len(),
    ensures
        hex_sum(s.subrange(0, i)) <= hex_sum(s),
    decreases s.len(),
{
    if i < s.len() {
        assert(s.drop_last().subrange(0, i) =~= s.subrange(0, i));
        lemma_hex_grows(s.drop_last(), i);
    } else {
        assert(s.subrange(0, i) =~= s);
    }
}

pub fn hex_of(v: &Vec<char>) -> (r: Option<u64>)
    ensures
        r == hex_value(v@),
{
    let n: usize = v.len();
    let start: usize = if n > 1 && v[0] == '+' { 1 } else { 0 };
    let ghost body = from(v@, start as int);
    assert(start == 0 ==> body =~= v@);
    if start == n {
        return None;
    }
    let mut sum: u64 = 0;
    let mut i: usize = start;
    while i < n
        invariant
            n == v@.len(),
            start <= i <= n,
            body == from(v@, start as int),
            body.len() == n - start,
            forall|j: int| 0 <= j < i - start ==> hex_digit(#[trigger] body[j]) < 16,
            sum == hex_sum(body.subrange(0, i - start)),
            hex_value(v@) == (if body.len() > 0 && all_hex(body) && hex_sum(body) <= u64::MAX {
                Some(hex_sum(body) as u64)
            } else {
                None
            }),
        decreases n - i,
    {
        let d: u64 = hex_digit_of(v[i]);
        assert(body[i - start] == v@[i as int]);
        if d >= 16 {
            return None;
        }
        proof {
            let next = body.subrange(0, i - start + 1);
            assert(next.drop_last() =~= body.subrange(0, i - start));
            lemma_hex_grows(body, i - start + 1);
        }
        if sum > (u64::MAX - d) / 16 {
            return None;
        }
        sum = sum * 16 + d;
        i = i + 1;
    }
    assert(body.subrange(0, n - start) =~= body);
    Some(sum)
}

/// A decimal or upper-case hexadecimal digit.
pub open spec fn digit_char(d: int) -> char {
    if d < 10 {
        (48 + d) as u8 as char
    } else {
        (55 + d) as u8 as char
    }
}

pub fn digit_char_of(d: u64) -> (c: char)
    requires
        d < 16,
    ensures
        c == digit_char(d as int),
{
    if d < 10 {
        (48 + d) as u8 as char
    } else {
        (55 + d) as u8 as char
    }
}

/// A number in decimal.
pub open spec fn decimal(n: nat) -> Seq<char>
    decreases n,
{
    if n < 10 {
        seq![digit_char(n as int)]
    } else {
        decimal(n / 10).push(digit_char((n % 10) as int))
    }
}

pub fn decimal_of(n: u64) -> (v: Vec<char>)
    ensures
        v@ == decimal(n as nat),
    decreases n,
{
    if n < 10 {
        let mut v: Vec<char> = Vec::new();
        v.push(digit_char_of(n));
        assert(v@ =~= decimal(n as nat));
        v
    } else {
        let mut v = decimal_of(n / 10);
        v.push(digit_char_of(n % 10));
        v
    }
}

} // verus!
