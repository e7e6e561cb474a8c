//! The CLUT buffer.

use ps2_core::gs::clut::{Load, Request, Source, Unit, View};


fn tex0(psm: u64, cbp: u64, cpsm: u64, csa: u64, cld: u64) -> u64 {
    (psm << 20) | (cbp << 37) | (cpsm << 51) | (csa << 56) | (cld << 61)
}

fn load(u: &mut Unit, t: u64) -> Option<Load> {
    match u.request(t) {
        Request::Load(l) => {
            u.record(l);
            Some(l)
        }
        Request::Nothing => None,
    }
}

#[test]
fn cld_decides_whether_a_write_loads() {
    let mut u = Unit::default();
    assert!(load(&mut u, tex0(0x13, 100, 0, 0, 0)).is_none(), "CLD=0 leaves the buffer alone");
    assert!(load(&mut u, tex0(0x00, 100, 0, 0, 1)).is_none(), "a direct-colour texture has no palette");
    assert!(load(&mut u, tex0(0x13, 100, 0, 0, 1)).is_some());
    // 4: load only when CBP differs from CBP0, which starts unmatchable.
    assert!(load(&mut u, tex0(0x13, 200, 0, 0, 4)).is_some());
    assert!(load(&mut u, tex0(0x13, 200, 0, 0, 4)).is_none());
    assert!(load(&mut u, tex0(0x13, 201, 0, 0, 4)).is_some());
    // 2 loads and sets CBP0, so a following 4 with that CBP is quiet.
    assert!(load(&mut u, tex0(0x13, 300, 0, 0, 2)).is_some());
    assert!(load(&mut u, tex0(0x13, 300, 0, 0, 4)).is_none());
    // 5 and 3 pair the same way on CBP1, independent of CBP0.
    assert!(load(&mut u, tex0(0x13, 300, 0, 0, 5)).is_some());
    assert!(load(&mut u, tex0(0x13, 300, 0, 0, 5)).is_none());
    assert!(load(&mut u, tex0(0x13, 400, 0, 0, 3)).is_some());
    assert!(load(&mut u, tex0(0x13, 400, 0, 0, 5)).is_none());
    assert!(load(&mut u, tex0(0x13, 400, 0, 0, 4)).is_some());
    // Reserved values change nothing.
    assert!(load(&mut u, tex0(0x13, 500, 0, 0, 6)).is_none());
    assert!(load(&mut u, tex0(0x13, 500, 0, 0, 7)).is_none());
}

#[test]
fn a_load_names_the_entries_it_fills() {
    let mut u = Unit::default();
    let l = load(&mut u, tex0(0x14, 100, 0, 3, 1)).unwrap();
    assert_eq!((l.first, l.count, l.width()), (48, 16, 4));
    assert_eq!(l.bytes(), 192..256);
    let l = load(&mut u, tex0(0x13, 100, 0x2, 5, 1)).unwrap();
    assert_eq!((l.first, l.count, l.width()), (0, 256, 2), "8-bit ignores CSA");
    assert_eq!(l.bytes(), 0..512);
    // A 4-bit window past the buffer's end is clipped, not wrapped.
    let l = load(&mut u, tex0(0x14, 100, 0, 31, 1)).unwrap();
    assert!(l.entries().is_empty());
}

#[test]
fn repeated_and_overwritten_loads_do_not_accumulate() {
    let mut u = Unit::default();
    let a = tex0(0x13, 100, 0, 0, 1);
    let b = tex0(0x13, 200, 0, 0, 1);
    for _ in 0..40 {
        load(&mut u, a);
        load(&mut u, b);
    }
    assert_eq!(u.loads.len(), 1, "a full-buffer load erases what came before");
    let mut u = Unit::default();
    let c = tex0(0x14, 300, 0, 2, 1);
    let d = tex0(0x14, 300, 0, 3, 1);
    for _ in 0..40 {
        load(&mut u, c);
        load(&mut u, d);
    }
    assert_eq!(u.loads.len(), 2, "two windows alternate without growing");
    assert!(!u.full());
}

#[test]
fn a_lookup_names_its_source() {
    let mut u = Unit::default();
    let v8 = View { cpsm: 0, first: 0, count: 256 };
    let v4 = |csa: u16| View { cpsm: 0, first: csa * 16, count: 16 };
    assert_eq!(u.source(&v8), Source::Buffer);
    let a = load(&mut u, tex0(0x13, 100, 0, 0, 1)).unwrap();
    assert_eq!(u.source(&v8), Source::Load(a));
    assert_eq!(u.source(&v4(3)), Source::Load(a), "a window inside the load reads it");
    let w = load(&mut u, tex0(0x14, 200, 0, 3, 1)).unwrap();
    assert_eq!(u.source(&v4(3)), Source::Load(w));
    assert_eq!(u.source(&v4(2)), Source::Load(a));
    assert_eq!(u.source(&v8), Source::Mixed, "the whole palette now straddles two loads");
    // A 16-bit view over a 32-bit load reads bytes, not entries.
    assert_eq!(u.source(&View { cpsm: 2, first: 0, count: 16 }), Source::Mixed);
    u.materialise(|_, _| 0);
    assert_eq!(u.source(&v8), Source::Buffer);
    assert!(!u.pending());
}

#[test]
fn materialising_applies_loads_in_order_and_bumps_the_epoch() {
    let mut u = Unit::default();
    load(&mut u, tex0(0x13, 100, 0, 0, 1)); // 32-bit, whole buffer
    load(&mut u, tex0(0x14, 200, 2, 1, 1)); // 16-bit, entries 16..32
    let e0 = u.epoch();
    u.materialise(|l, e| if l.cbp == 100 { 0x1000_0000 + e } else { 0x8000 + e });
    assert_eq!(u.epoch(), e0 + 1);
    assert_eq!(u.entry(0, 5), 0x1000_0005);
    // The 16-bit window overwrote bytes 32..64 = words 8..16.
    assert_eq!(u.entry(2, 16), 0x8010);
    assert_eq!(u.entry(2, 31), 0x801F);
    assert_eq!(u.entry(0, 8), 0x8011_8010);
    assert_eq!(u.entry(0, 16), 0x1000_0010);
    assert_eq!(u.entry(0, 999), 0, "past the end reads zero");
    u.materialise(|_, _| 7);
    assert_eq!(u.epoch(), e0 + 1, "nothing recorded, nothing changes");
}

#[test]
fn pending_loads_are_found_by_their_memory() {
    let mut u = Unit::default();
    load(&mut u, tex0(0x13, 100, 0, 0, 1));
    assert!(u.pending_in(&(102..110)));
    assert!(!u.pending_in(&(104..110)));
    assert!(!u.pending_in(&(90..100)));
}
