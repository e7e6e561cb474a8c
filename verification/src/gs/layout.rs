//! GS local memory addressing.
//!
//! VRAM is kept the way the hardware organizes it: 8 KiB pages of 32
//! 256-byte blocks, blocks of 64-byte columns, so that formats overlaying
//! one region see each other's data. Inside a page the position of a pixel
//! is a permutation of the bits of its coordinates (PSMT8 and PSMT4 also
//! swap the 4-texel halves of every other column pair), which is what the
//! block and column tables of the GS User's Manual spell out. Buffers are
//! addressed by block pointer `bp`, width `bw` in 64-pixel units and pixel
//! `(x, y)`; results wrap in 4 MiB.

use vstd::prelude::*;

verus! {

/// Word of a 64x32 page that holds the 32-bit pixel `(x, y)`: from bit 0
/// up, `x0 y0 x1 x2 y1 y2` inside the block, then `x3 y3 x4 y4 x5`. The Z
/// formats flip the block's bits 3 and 4.
pub open spec fn word32(x: u32, y: u32, z: bool) -> u32 {
    ((x & 1) | ((y & 1) << 1) | ((x & 6) << 1) | ((y & 6) << 3) | (((x >> 3) & 1) << 6) | (((y >> 3) & 1) << 7) | (((x
        >> 4) & 1) << 8) | (((y >> 4) & 1) << 9) | (((x >> 5) & 1) << 10)) ^ (if z {
        0x600u32
    } else {
        0u32
    })
}

/// Halfword of a 64x64 page that holds the 16-bit pixel `(x, y)`: `x3 x0 y0
/// x1 x2 y1 y2`, then the block, `y3 x4 y4 x5 y5` or, for the S formats,
/// `y3 x4 y5 y4 x5`.
pub open spec fn half16(x: u32, y: u32, s: bool, z: bool) -> u32 {
    (((x >> 3) & 1) | ((x & 1) << 1) | ((y & 1) << 2) | ((x & 6) << 2) | ((y & 6) << 4) | (((y >> 3) & 1) << 7) | (((x
        >> 4) & 1) << 8) | (if s {
        (((y >> 5) & 1) << 9) | (((y >> 4) & 1) << 10) | (((x >> 5) & 1) << 11)
    } else {
        (((y >> 4) & 1) << 9) | (((x >> 5) & 1) << 10) | (((y >> 5) & 1) << 11)
    })) ^ (if z {
        0xC00u32
    } else {
        0u32
    })
}

/// Byte of a 128x64 page that holds the 8-bit texel `(x, y)`: `y1 x3 x0 y0
/// x1 x2' y2 y3`, with `x2' = x2 ^ y1 ^ y2` the half swap, then the block,
/// `x4 y4 x5 y5 x6`.
pub open spec fn byte8(x: u32, y: u32) -> u32 {
    ((y >> 1) & 1) | (((x >> 3) & 1) << 1) | ((x & 1) << 2) | ((y & 1) << 3) | (((x >> 1) & 1) << 4) | ((((x >> 2) ^ (y
        >> 1) ^ (y >> 2)) & 1) << 5) | (((y >> 2) & 3) << 6) | (((x >> 4) & 1) << 8) | (((y >> 4) & 1) << 9) | (((x
        >> 5) & 1) << 10) | (((y >> 5) & 1) << 11) | (((x >> 6) & 1) << 12)
}

/// Nibble of a 128x128 page that holds the 4-bit texel `(x, y)`: `y1 x3 x4
/// x0 y0 x1 x2' y2 y3`, then the block, `y4 x5 y5 x6 y6`.
pub open spec fn nibble4(x: u32, y: u32) -> u32 {
    ((y >> 1) & 1) | (((x >> 3) & 3) << 1) | ((x & 1) << 3) | ((y & 1) << 4) | (((x >> 1) & 1) << 5) | ((((x >> 2) ^ (y
        >> 1) ^ (y >> 2)) & 1) << 6) | (((y >> 2) & 3) << 7) | (((y >> 4) & 1) << 9) | (((x >> 5) & 1) << 10) | (((y
        >> 5) & 1) << 11) | (((x >> 6) & 1) << 12) | (((y >> 6) & 1) << 13)
}

/// Number of the page in row `row` and column `col` of a buffer that is
/// `stride` pages wide.
pub open spec fn page(col: int, row: int, stride: int) -> int {
    row * stride + col
}

/// A buffer width as the address arithmetic takes it: zero counts as one.
pub open spec fn width(bw: u32) -> int {
    if bw == 0 {
        1
    } else {
        bw as int
    }
}

/// Byte address of a 32-bit pixel.
pub open spec fn at32(bp: u32, bw: u32, x: u32, y: u32, z: bool) -> int {
    (256 * bp + 8192 * page(x as int / 64, y as int / 32, width(bw)) + 4 * word32(x, y, z)) % 0x40_0000
}

/// Byte address of a 16-bit pixel.
pub open spec fn at16(bp: u32, bw: u32, x: u32, y: u32, s: bool, z: bool) -> int {
    (256 * bp + 8192 * page(x as int / 64, y as int / 64, width(bw)) + 2 * half16(x, y, s, z)) % 0x40_0000
}

/// Byte address of an 8-bit texel.
pub open spec fn at8(bp: u32, bw: u32, x: u32, y: u32) -> int {
    (256 * bp + 8192 * page(x as int / 128, y as int / 64, width(bw) / 2) + byte8(x, y)) % 0x40_0000
}

/// Nibble address of a 4-bit texel.
pub open spec fn at4(bp: u32, bw: u32, x: u32, y: u32) -> int {
    (512 * bp + 16384 * page(x as int / 128, y as int / 128, width(bw) / 2) + nibble4(x, y)) % 0x80_0000
}

/// The pixel of a page that lands on 32-bit word `w`.
pub open spec fn pixel32(w: u32, z: bool) -> (u32, u32) {
    let v = w ^ (if z {
        0x600u32
    } else {
        0u32
    });
    (
        (v & 1) | ((v >> 1) & 6) | (((v >> 6) & 1) << 3) | (((v >> 8) & 1) << 4) | (((v >> 10) & 1) << 5),
        ((v >> 1) & 1) | ((v >> 3) & 6) | (((v >> 7) & 1) << 3) | (((v >> 9) & 1) << 4),
    )
}

/// The pixel of a page that lands on halfword `h`.
pub open spec fn pixel16(h: u32, s: bool, z: bool) -> (u32, u32) {
    let v = h ^ (if z {
        0xC00u32
    } else {
        0u32
    });
    let y4 = if s {
        v >> 10
    } else {
        v >> 9
    };
    let x5 = if s {
        v >> 11
    } else {
        v >> 10
    };
    let y5 = if s {
        v >> 9
    } else {
        v >> 11
    };
    (
        ((v >> 1) & 1) | ((v >> 2) & 6) | ((v & 1) << 3) | (((v >> 8) & 1) << 4) | ((x5 & 1) << 5),
        ((v >> 2) & 1) | ((v >> 4) & 6) | (((v >> 7) & 1) << 3) | ((y4 & 1) << 4) | ((y5 & 1) << 5),
    )
}

/// The texel of a page that lands on byte `b`.
pub open spec fn pixel8(b: u32) -> (u32, u32) {
    (
        ((b >> 2) & 1) | (((b >> 4) & 1) << 1) | ((((b >> 5) ^ b ^ (b >> 6)) & 1) << 2) | (((b >> 1) & 1) << 3) | (((b
            >> 8) & 1) << 4) | (((b >> 10) & 1) << 5) | (((b >> 12) & 1) << 6),
        ((b >> 3) & 1) | ((b & 1) << 1) | (((b >> 6) & 3) << 2) | (((b >> 9) & 1) << 4) | (((b >> 11) & 1) << 5),
    )
}

/// The texel of a page that lands on nibble `n`.
pub open spec fn pixel4(n: u32) -> (u32, u32) {
    (
        ((n >> 3) & 1) | (((n >> 5) & 1) << 1) | ((((n >> 6) ^ n ^ (n >> 7)) & 1) << 2) | (((n >> 1) & 3) << 3) | (((n
            >> 10) & 1) << 5) | (((n >> 12) & 1) << 6),
        ((n >> 4) & 1) | ((n & 1) << 1) | (((n >> 7) & 3) << 2) | (((n >> 9) & 1) << 4) | (((n >> 11) & 1) << 5) | (((n
            >> 13) & 1) << 6),
    )
}

/// The 32-bit page map is a bijection: two pixels share a word only if they
/// agree inside the page, and every one of the 2048 words holds a pixel.
pub proof fn law_page32_bijective(x1: u32, y1: u32, x2: u32, y2: u32, z: bool, w: u32)
    by (bit_vector)
    ensures
        word32(x1, y1, z) < 2048,
        word32(x1, y1, z) == word32(x2, y2, z) ==> x1 % 64 == x2 % 64 && y1 % 32 == y2 % 32,
        w < 2048 ==> pixel32(w, z).0 < 64 && pixel32(w, z).1 < 32 && word32(pixel32(w, z).0, pixel32(w, z).1, z) == w,
{
}

/// The 16-bit page maps are bijections of the 64x64 pixels and the 4096
/// halfwords.
pub proof fn law_page16_bijective(x1: u32, y1: u32, x2: u32, y2: u32, s: bool, z: bool, h: u32)
    by (bit_vector)
    ensures
        half16(x1, y1, s, z) < 4096,
        half16(x1, y1, s, z) == half16(x2, y2, s, z) ==> x1 % 64 == x2 % 64 && y1 % 64 == y2 % 64,
        h < 4096 ==> pixel16(h, s, z).0 < 64 && pixel16(h, s, z).1 < 64 && half16(
            pixel16(h, s, z).0,
            pixel16(h, s, z).1,
            s,
            z,
        ) == h,
{
}

/// The 8-bit page map is a bijection of the 128x64 texels and the 8192
/// bytes.
pub proof fn law_page8_bijective(x1: u32, y1: u32, x2: u32, y2: u32, b: u32)
    by (bit_vector)
    ensures
        byte8(x1, y1) < 8192,
        byte8(x1, y1) == byte8(x2, y2) ==> x1 % 128 == x2 % 128 && y1 % 64 == y2 % 64,
        b < 8192 ==> pixel8(b).0 < 128 && pixel8(b).1 < 64 && byte8(pixel8(b).0, pixel8(b).1) == b,
{
}

/// The 4-bit page map is a bijection of the 128x128 texels and the 16384
/// nibbles.
pub proof fn law_page4_bijective(x1: u32, y1: u32, x2: u32, y2: u32, n: u32)
    by (bit_vector)
    ensures
        nibble4(x1, y1) < 16384,
        nibble4(x1, y1) == nibble4(x2, y2) ==> x1 % 128 == x2 % 128 && y1 % 128 == y2 % 128,
        n < 16384 ==> pixel4(n).0 < 128 && pixel4(n).1 < 128 && nibble4(pixel4(n).0, pixel4(n).1) == n,
{
}

/// Pages of a buffer are told apart by their number.
proof fn lemma_page_unique(c1: int, r1: int, c2: int, r2: int, stride: int)
    requires
        0 <= c1 < stride,
        0 <= c2 < stride,
        page(c1, r1, stride) == page(c2, r2, stride),
    ensures
        c1 == c2,
        r1 == r2,
{
    assert(r1 == r2) by (nonlinear_arith)
        requires
            0 <= c1 < stride,
            0 <= c2 < stride,
            r1 * stride + c1 == r2 * stride + c2,
    ;
}

/// Offsets below the modulus are told apart wherever they start.
proof fn lemma_offset_unique(a: int, b1: int, b2: int, m: int)
    requires
        0 <= b1 < m,
        0 <= b2 < m,
        (a + b1) % m == (a + b2) % m,
    ensures
        b1 == b2,
{
    let q1 = (a + b1) / m;
    let q2 = (a + b2) / m;
    vstd::arithmetic::div_mod::lemma_fundamental_div_mod(a + b1, m);
    vstd::arithmetic::div_mod::lemma_fundamental_div_mod(a + b2, m);
    assert(b1 == b2) by (nonlinear_arith)
        requires
            0 <= b1 < m,
            0 <= b2 < m,
            a + b1 - m * q1 == a + b2 - m * q2,
    ;
}

/// Whether pixel `(x, y)` belongs to a buffer whose pages are `pw` by `ph`
/// pixels, `stride` of them in a row, and that fits local memory.
pub open spec fn in_buffer(x: u32, y: u32, pw: int, ph: int, stride: int) -> bool {
    &&& x as int / pw < stride
    &&& page(x as int / pw, y as int / ph, stride) < 512
}

/// Distinct 32-bit pixels of a buffer that fits local memory have distinct
/// words, wherever the buffer starts.
pub proof fn law_at32_distinct(bp: u32, bw: u32, x1: u32, y1: u32, x2: u32, y2: u32, z: bool)
    requires
        in_buffer(x1, y1, 64, 32, width(bw)),
        in_buffer(x2, y2, 64, 32, width(bw)),
        at32(bp, bw, x1, y1, z) == at32(bp, bw, x2, y2, z),
    ensures
        x1 == x2,
        y1 == y2,
{
    law_page32_bijective(x1, y1, x2, y2, z, 0);
    law_page32_bijective(x2, y2, x1, y1, z, 0);
    lemma_page_nonneg(x1 as int / 64, y1 as int / 32, width(bw));
    lemma_page_nonneg(x2 as int / 64, y2 as int / 32, width(bw));
    let p1 = page(x1 as int / 64, y1 as int / 32, width(bw));
    let p2 = page(x2 as int / 64, y2 as int / 32, width(bw));
    lemma_offset_unique(256 * bp, 8192 * p1 + 4 * word32(x1, y1, z), 8192 * p2 + 4 * word32(x2, y2, z), 0x40_0000);
    lemma_page_unique(x1 as int / 64, y1 as int / 32, x2 as int / 64, y2 as int / 32, width(bw));
}

/// Distinct 16-bit pixels of a buffer that fits local memory have distinct
/// halfwords.
pub proof fn law_at16_distinct(bp: u32, bw: u32, x1: u32, y1: u32, x2: u32, y2: u32, s: bool, z: bool)
    requires
        in_buffer(x1, y1, 64, 64, width(bw)),
        in_buffer(x2, y2, 64, 64, width(bw)),
        at16(bp, bw, x1, y1, s, z) == at16(bp, bw, x2, y2, s, z),
    ensures
        x1 == x2,
        y1 == y2,
{
    law_page16_bijective(x1, y1, x2, y2, s, z, 0);
    law_page16_bijective(x2, y2, x1, y1, s, z, 0);
    lemma_page_nonneg(x1 as int / 64, y1 as int / 64, width(bw));
    lemma_page_nonneg(x2 as int / 64, y2 as int / 64, width(bw));
    let p1 = page(x1 as int / 64, y1 as int / 64, width(bw));
    let p2 = page(x2 as int / 64, y2 as int / 64, width(bw));
    lemma_offset_unique(256 * bp, 8192 * p1 + 2 * half16(x1, y1, s, z), 8192 * p2 + 2 * half16(x2, y2, s, z), 0x40_0000);
    lemma_page_unique(x1 as int / 64, y1 as int / 64, x2 as int / 64, y2 as int / 64, width(bw));
}

/// Distinct 8-bit texels of a buffer that fits local memory have distinct
/// bytes.
pub proof fn law_at8_distinct(bp: u32, bw: u32, x1: u32, y1: u32, x2: u32, y2: u32)
    requires
        in_buffer(x1, y1, 128, 64, width(bw) / 2),
        in_buffer(x2, y2, 128, 64, width(bw) / 2),
        at8(bp, bw, x1, y1) == at8(bp, bw, x2, y2),
    ensures
        x1 == x2,
        y1 == y2,
{
    law_page8_bijective(x1, y1, x2, y2, 0);
    law_page8_bijective(x2, y2, x1, y1, 0);
    lemma_page_nonneg(x1 as int / 128, y1 as int / 64, width(bw) / 2);
    lemma_page_nonneg(x2 as int / 128, y2 as int / 64, width(bw) / 2);
    let p1 = page(x1 as int / 128, y1 as int / 64, width(bw) / 2);
    let p2 = page(x2 as int / 128, y2 as int / 64, width(bw) / 2);
    lemma_offset_unique(256 * bp, 8192 * p1 + byte8(x1, y1), 8192 * p2 + byte8(x2, y2), 0x40_0000);
    lemma_page_unique(x1 as int / 128, y1 as int / 64, x2 as int / 128, y2 as int / 64, width(bw) / 2);
}

/// Distinct 4-bit texels of a buffer that fits local memory have distinct
/// nibbles.
pub proof fn law_at4_distinct(bp: u32, bw: u32, x1: u32, y1: u32, x2: u32, y2: u32)
    requires
        in_buffer(x1, y1, 128, 128, width(bw) / 2),
        in_buffer(x2, y2, 128, 128, width(bw) / 2),
        at4(bp, bw, x1, y1) == at4(bp, bw, x2, y2),
    ensures
        x1 == x2,
        y1 == y2,
{
    law_page4_bijective(x1, y1, x2, y2, 0);
    law_page4_bijective(x2, y2, x1, y1, 0);
    lemma_page_nonneg(x1 as int / 128, y1 as int / 128, width(bw) / 2);
    lemma_page_nonneg(x2 as int / 128, y2 as int / 128, width(bw) / 2);
    let p1 = page(x1 as int / 128, y1 as int / 128, width(bw) / 2);
    let p2 = page(x2 as int / 128, y2 as int / 128, width(bw) / 2);
    lemma_offset_unique(512 * bp, 16384 * p1 + nibble4(x1, y1), 16384 * p2 + nibble4(x2, y2), 0x80_0000);
    lemma_page_unique(x1 as int / 128, y1 as int / 128, x2 as int / 128, y2 as int / 128, width(bw) / 2);
}

proof fn lemma_page_nonneg(col: int, row: int, stride: int)
    requires
        0 <= col,
        0 <= row,
        0 <= stride,
    ensures
        0 <= page(col, row, stride),
{
    assert(0 <= row * stride) by (nonlinear_arith)
        requires
            0 <= row,
            0 <= stride,
    ;
}

/// Addresses fall on multiples of their pixel's size.
pub proof fn lemma_at_aligned(bp: u32, bw: u32, x: u32, y: u32, s: bool, z: bool)
    ensures
        at32(bp, bw, x, y, z) % 4 == 0,
        0 <= at32(bp, bw, x, y, z) < 0x40_0000,
        at16(bp, bw, x, y, s, z) % 2 == 0,
        0 <= at16(bp, bw, x, y, s, z) < 0x40_0000,
        0 <= at8(bp, bw, x, y) < 0x40_0000,
        0 <= at4(bp, bw, x, y) < 0x80_0000,
{
}

/// Page number, reduced to the 512 pages that local memory has.
fn page_number(col: u32, row: u32, stride: u32) -> (p: u64)
    requires
        row < 0x800_0000,
        col < 0x800_0000,
    ensures
        p < 512,
        p == page(col as int, row as int, stride as int) % 512,
{
    assert(0 <= row as int * stride as int <= 0x7FF_FFFF * 0xFFFF_FFFF) by (nonlinear_arith)
        requires
            0 <= row < 0x800_0000,
            0 <= stride <= 0xFFFF_FFFF,
    ;
    (row as u64 * stride as u64 + col as u64) % 512
}

/// Whole turns of local memory do not move an address.
proof fn lemma_page_wraps(a: int, p: int, size: int)
    requires
        size == 8192 || size == 16384,
    ensures
        (a + size * (p % 512)) % (512 * size) == (a + size * p) % (512 * size),
{
    let q = p / 512;
    assert(a + size * p == (512 * size) * q + (a + size * (p % 512))) by (nonlinear_arith)
        requires
            p == 512 * q + p % 512,
    ;
    vstd::arithmetic::div_mod::lemma_mod_multiples_vanish(q, a + size * (p % 512), 512 * size);
}

/// Byte address of a 32-bit pixel (PSMCT32/24, PSMT8H/4HL/4HH; `z` for
/// PSMZ32/24).
pub fn addr32(bp: u32, bw: u32, x: u32, y: u32, z: bool) -> (a: usize)
    ensures
        a == at32(bp, bw, x, y, z),
{
    let stride: u32 = if bw == 0 { 1 } else { bw };
    let p: u64 = page_number(x / 64, y / 32, stride);
    let word: u32 = ((x & 1) | ((y & 1) << 1) | ((x & 6) << 1) | ((y & 6) << 3) | (((x >> 3) & 1) << 6) | (((y >> 3)
        & 1) << 7) | (((x >> 4) & 1) << 8) | (((y >> 4) & 1) << 9) | (((x >> 5) & 1) << 10)) ^ (if z {
        0x600u32
    } else {
        0u32
    });
    let at: u64 = 256 * bp as u64 + 4 * word as u64;
    proof {
        lemma_page_wraps(at as int, page(x as int / 64, y as int / 32, width(bw)), 8192);
    }
    ((at + 8192 * p) % 0x40_0000) as usize
}

/// Byte address of a 16-bit pixel (`s` for PSMCT16S/PSMZ16S, `z` for the Z
/// formats).
pub fn addr16(bp: u32, bw: u32, x: u32, y: u32, s: bool, z: bool) -> (a: usize)
    ensures
        a == at16(bp, bw, x, y, s, z),
{
    let stride: u32 = if bw == 0 { 1 } else { bw };
    let p: u64 = page_number(x / 64, y / 64, stride);
    let high: u32 = if s {
        (((y >> 5) & 1) << 9) | (((y >> 4) & 1) << 10) | (((x >> 5) & 1) << 11)
    } else {
        (((y >> 4) & 1) << 9) | (((x >> 5) & 1) << 10) | (((y >> 5) & 1) << 11)
    };
    let half: u32 = (((x >> 3) & 1) | ((x & 1) << 1) | ((y & 1) << 2) | ((x & 6) << 2) | ((y & 6) << 4) | (((y >> 3)
        & 1) << 7) | (((x >> 4) & 1) << 8) | high) ^ (if z {
        0xC00u32
    } else {
        0u32
    });
    let at: u64 = 256 * bp as u64 + 2 * half as u64;
    proof {
        lemma_page_wraps(at as int, page(x as int / 64, y as int / 64, width(bw)), 8192);
    }
    ((at + 8192 * p) % 0x40_0000) as usize
}

/// Byte address of an 8-bit texel (PSMT8).
pub fn addr8(bp: u32, bw: u32, x: u32, y: u32) -> (a: usize)
    ensures
        a == at8(bp, bw, x, y),
{
    let stride: u32 = if bw == 0 { 1 } else { bw };
    let p: u64 = page_number(x / 128, y / 64, stride / 2);
    let byte: u32 = ((y >> 1) & 1) | (((x >> 3) & 1) << 1) | ((x & 1) << 2) | ((y & 1) << 3) | (((x >> 1) & 1) << 4)
        | ((((x >> 2) ^ (y >> 1) ^ (y >> 2)) & 1) << 5) | (((y >> 2) & 3) << 6) | (((x >> 4) & 1) << 8) | (((y >> 4) & 1)
        << 9) | (((x >> 5) & 1) << 10) | (((y >> 5) & 1) << 11) | (((x >> 6) & 1) << 12);
    let at: u64 = 256 * bp as u64 + byte as u64;
    proof {
        lemma_page_wraps(at as int, page(x as int / 128, y as int / 64, width(bw) / 2), 8192);
    }
    ((at + 8192 * p) % 0x40_0000) as usize
}

fn nibble_of(x: u32, y: u32) -> (n: u32)
    ensures
        n == nibble4(x, y),
{
    ((y >> 1) & 1) | (((x >> 3) & 3) << 1) | ((x & 1) << 3) | ((y & 1) << 4) | (((x >> 1) & 1) << 5)
        | ((((x >> 2) ^ (y >> 1) ^ (y >> 2)) & 1) << 6) | (((y >> 2) & 3) << 7) | (((y >> 4) & 1) << 9) | (((x >> 5) & 1)
        << 10) | (((y >> 5) & 1) << 11) | (((x >> 6) & 1) << 12) | (((y >> 6) & 1) << 13)
}

/// Nibble address of a 4-bit texel (PSMT4): byte `/ 2`, low nibble when
/// even.
pub fn addr4(bp: u32, bw: u32, x: u32, y: u32) -> (a: usize)
    ensures
        a == at4(bp, bw, x, y),
{
    let stride: u32 = if bw == 0 { 1 } else { bw };
    let p: u64 = page_number(x / 128, y / 128, stride / 2);
    let nibble: u32 = nibble_of(x, y);
    let at: u64 = 512 * bp as u64 + nibble as u64;
    proof {
        lemma_page_wraps(at as int, page(x as int / 128, y as int / 128, width(bw) / 2), 16384);
    }
    ((at + 16384 * p) % 0x80_0000) as usize
}

} // verus!
