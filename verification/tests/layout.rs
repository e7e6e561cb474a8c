//! GS local memory addressing.

use ps2_core::gs::layout::{addr16, addr32, addr4, addr8};
use std::collections::HashSet;

/// Every pixel of a page maps to a distinct address inside that page.
fn bijective(pw: u32, ph: u32, bytes_per_page: usize, f: impl Fn(u32, u32) -> usize) {
    let mut seen = HashSet::new();
    for y in 0..ph {
        for x in 0..pw {
            let a = f(x, y);
            assert!(a < bytes_per_page, "({x},{y}) -> {a}");
            assert!(seen.insert(a), "({x},{y}) collides at {a}");
        }
    }
    assert_eq!(seen.len(), (pw * ph) as usize);
}

#[test]
fn page_layouts_are_bijective() {
    bijective(64, 32, 8192, |x, y| addr32(0, 1, x, y, false));
    bijective(64, 32, 8192, |x, y| addr32(0, 1, x, y, true));
    bijective(64, 64, 8192, |x, y| addr16(0, 1, x, y, false, false));
    bijective(64, 64, 8192, |x, y| addr16(0, 1, x, y, true, false));
    bijective(64, 64, 8192, |x, y| addr16(0, 1, x, y, false, true));
    bijective(128, 64, 8192, |x, y| addr8(0, 2, x, y));
    bijective(128, 128, 16384, |x, y| addr4(0, 2, x, y));
}

/// Spot checks against the GS column tables (word/short/byte/nibble
/// indices inside a block).
#[test]
fn column_tables() {
    let col32 = |x, y| addr32(0, 1, x, y, false) / 4;
    assert_eq!((0..8).map(|x| col32(x, 0)).collect::<Vec<_>>(), [0, 1, 4, 5, 8, 9, 12, 13]);
    assert_eq!((0..8).map(|x| col32(x, 1)).collect::<Vec<_>>(), [2, 3, 6, 7, 10, 11, 14, 15]);
    assert_eq!((0..8).map(|x| col32(x, 5)).collect::<Vec<_>>(), [34, 35, 38, 39, 42, 43, 46, 47]);

    let col16 = |x, y| addr16(0, 1, x, y, false, false) / 2;
    assert_eq!(
        (0..16).map(|x| col16(x, 0)).collect::<Vec<_>>(),
        [0, 2, 8, 10, 16, 18, 24, 26, 1, 3, 9, 11, 17, 19, 25, 27]
    );
    assert_eq!(
        (0..16).map(|x| col16(x, 3)).collect::<Vec<_>>(),
        [36, 38, 44, 46, 52, 54, 60, 62, 37, 39, 45, 47, 53, 55, 61, 63]
    );

    let col8 = |x, y| addr8(0, 2, x, y);
    assert_eq!(
        (0..16).map(|x| col8(x, 0)).collect::<Vec<_>>(),
        [0, 4, 16, 20, 32, 36, 48, 52, 2, 6, 18, 22, 34, 38, 50, 54]
    );
    assert_eq!(
        (0..16).map(|x| col8(x, 2)).collect::<Vec<_>>(),
        [33, 37, 49, 53, 1, 5, 17, 21, 35, 39, 51, 55, 3, 7, 19, 23]
    );
    assert_eq!(
        (0..16).map(|x| col8(x, 6)).collect::<Vec<_>>(),
        [65, 69, 81, 85, 97, 101, 113, 117, 67, 71, 83, 87, 99, 103, 115, 119]
    );
    assert_eq!(
        (0..16).map(|x| col8(x, 12)).collect::<Vec<_>>(),
        [224, 228, 240, 244, 192, 196, 208, 212, 226, 230, 242, 246, 194, 198, 210, 214]
    );

    let col4 = |x, y| addr4(0, 2, x, y);
    assert_eq!(
        (0..32).map(|x| col4(x, 0)).collect::<Vec<_>>(),
        [
            0, 8, 32, 40, 64, 72, 96, 104, 2, 10, 34, 42, 66, 74, 98, 106, 4, 12, 36, 44, 68,
            76, 100, 108, 6, 14, 38, 46, 70, 78, 102, 110
        ]
    );
    assert_eq!(
        (0..32).map(|x| col4(x, 3)).collect::<Vec<_>>(),
        [
            81, 89, 113, 121, 17, 25, 49, 57, 83, 91, 115, 123, 19, 27, 51, 59, 85, 93, 117,
            125, 21, 29, 53, 61, 87, 95, 119, 127, 23, 31, 55, 63
        ]
    );
    assert_eq!(
        (0..32).map(|x| col4(x, 5)).collect::<Vec<_>>(),
        [
            208, 216, 240, 248, 144, 152, 176, 184, 210, 218, 242, 250, 146, 154, 178, 186,
            212, 220, 244, 252, 148, 156, 180, 188, 214, 222, 246, 254, 150, 158, 182, 190
        ]
    );
}

/// Block placement: a 16x16 32-bit image (a CLUT) occupies exactly four
/// consecutive blocks, and buffer width scales the page stride.
#[test]
fn block_placement() {
    let blocks: HashSet<usize> =
        (0..16).flat_map(|y| (0..16).map(move |x| addr32(10108, 1, x, y, false) / 256)).collect();
    assert_eq!(blocks, (10108..10112).collect());
    assert_eq!(addr32(0, 10, 64, 0, false) / 256, 32);
    assert_eq!(addr32(0, 10, 0, 32, false) / 256, 320);
    assert_eq!(addr32(0, 10, 0, 0, true) / 256, 24);
    assert_eq!(addr16(0, 10, 0, 64, false, false) / 256, 320);
    assert_eq!(addr8(0, 10, 0, 64) / 256, 160);
    assert_eq!(addr4(0, 10, 0, 128) / 512, 160);
}
