use embassy_imxrt::protocol::{
    fresh, resolve_reads, store_empty_writes, store_writes, Cells, SliceParts, Write,
};
use embassy_imxrt::util::{slice_parts, slice_parts_mut, AtomicSlice, Immutable, Mutable};

fn apply(c: Cells, w: Write) -> Cells {
    match w {
        Write::Ptr(v) => Cells { ptr: v, ..c },
        Write::Len(v) => Cells { len: v, ..c },
    }
}

fn apply_prefix(c: Cells, ws: &[Write], n: usize) -> Cells {
    let mut c = c;
    for w in &ws[..n] {
        c = apply(c, *w);
    }
    c
}

fn torn_load(c: Cells, ws: &[Write], i: usize, j: usize, k: usize) -> Option<SliceParts> {
    resolve_reads(
        apply_prefix(c, ws, i).ptr,
        apply_prefix(c, ws, j).len,
        apply_prefix(c, ws, k).ptr,
    )
}

fn load(c: Cells) -> Option<SliceParts> {
    resolve_reads(c.ptr, c.len, c.ptr)
}

#[test]
fn resolve_null_address_is_no_slice() {
    assert_eq!(resolve_reads(0, 0, 0), None);
    assert_eq!(resolve_reads(0, 17, 0), None);
}

#[test]
fn resolve_non_null_address_is_the_slice() {
    assert_eq!(resolve_reads(0x2000, 8, 0x2000), Some(SliceParts { addr: 0x2000, len: 8 }));
    assert_eq!(resolve_reads(1, 0, 1), Some(SliceParts { addr: 1, len: 0 }));
}

#[test]
fn resolve_changed_address_is_no_slice() {
    assert_eq!(resolve_reads(0x1000, 8, 0x2000), None);
    assert_eq!(resolve_reads(0x1000, 8, 0), None);
    assert_eq!(resolve_reads(0, 8, 0x1000), None);
}

#[test]
fn store_writes_zero_length_then_address_then_length() {
    let ws = store_writes(SliceParts { addr: 0x2000, len: 8 });
    assert_eq!(ws, [Write::Len(0), Write::Ptr(0x2000), Write::Len(8)]);
}

#[test]
fn store_empty_writes_only_the_address() {
    assert_eq!(store_empty_writes(), [Write::Ptr(0)]);
}

#[test]
fn fresh_holder_holds_nothing() {
    let a: AtomicSlice<u8, Immutable> = AtomicSlice::new();
    assert_eq!(a.load_parts(), None);
    let m: AtomicSlice<u32, Mutable> = AtomicSlice::new();
    assert_eq!(m.load_parts(), None);
}

#[test]
fn load_after_store_returns_the_slice() {
    let data = [1u16, 2, 3, 4, 5];
    let a: AtomicSlice<u16, Immutable> = AtomicSlice::new();
    a.store(&data);
    let p = a.load_parts().unwrap();
    assert_eq!(p.addr, data.as_ptr() as usize);
    assert_eq!(p.len, 5);
}

#[test]
fn load_after_mutable_store_returns_the_slice() {
    let mut data = [0u8; 12];
    let expected = data.as_mut_ptr() as usize;
    let a: AtomicSlice<u8, Mutable> = AtomicSlice::new();
    a.store(&mut data);
    assert_eq!(a.load_parts(), Some(SliceParts { addr: expected, len: 12 }));
}

#[test]
fn second_store_replaces_the_first() {
    let first = [7u32; 3];
    let second = [9u32; 6];
    let a: AtomicSlice<u32, Immutable> = AtomicSlice::new();
    a.store(&first);
    a.store(&second);
    assert_eq!(
        a.load_parts(),
        Some(SliceParts { addr: second.as_ptr() as usize, len: 6 })
    );
}

#[test]
fn load_after_store_empty_returns_nothing() {
    let data = [1u8, 2, 3];
    let a: AtomicSlice<u8, Immutable> = AtomicSlice::new();
    a.store(&data);
    a.store_empty();
    assert_eq!(a.load_parts(), None);
}

#[test]
fn store_after_store_empty_sets_the_slice_again() {
    let data = [1u8, 2, 3];
    let a: AtomicSlice<u8, Immutable> = AtomicSlice::new();
    a.store_empty();
    a.store(&data);
    assert_eq!(
        a.load_parts(),
        Some(SliceParts { addr: data.as_ptr() as usize, len: 3 })
    );
}

#[test]
fn empty_slice_store_has_length_zero() {
    let data: [u8; 0] = [];
    let a: AtomicSlice<u8, Immutable> = AtomicSlice::new();
    a.store(&data);
    assert_eq!(
        a.load_parts(),
        Some(SliceParts { addr: data.as_ptr() as usize, len: 0 })
    );
}

#[test]
fn mutable_store_leaves_the_slice_unchanged() {
    let mut data = [3u8, 1, 4, 1, 5];
    let a: AtomicSlice<u8, Mutable> = AtomicSlice::new();
    a.store(&mut data);
    assert_eq!(data, [3u8, 1, 4, 1, 5]);
}

#[test]
fn load_after_calls_follows_the_last_call() {
    let x = [1u8, 2];
    let y = [3u8, 4, 5];
    let a: AtomicSlice<u8, Immutable> = AtomicSlice::new();
    a.store(&x);
    a.store_empty();
    a.store(&y);
    assert_eq!(a.load_parts(), Some(SliceParts { addr: y.as_ptr() as usize, len: 3 }));
    a.store(&x);
    assert_eq!(a.load_parts(), Some(SliceParts { addr: x.as_ptr() as usize, len: 2 }));
    a.store_empty();
    assert_eq!(a.load_parts(), None);
}

#[test]
fn model_load_after_store() {
    let c = Cells { ptr: 0x1000, len: 4 };
    let ws = store_writes(SliceParts { addr: 0x2000, len: 8 });
    let after = apply_prefix(c, &ws, 3);
    assert_eq!(load(after), Some(SliceParts { addr: 0x2000, len: 8 }));
}

#[test]
fn model_load_after_store_empty() {
    let c = Cells { ptr: 0x1000, len: 4 };
    let ws = store_empty_writes();
    let after = apply_prefix(c, &ws, 1);
    assert_eq!(load(after), None);
    assert_eq!(after.len, 4);
}

#[test]
fn model_load_during_store() {
    let c = Cells { ptr: 0x1000, len: 4 };
    let new = SliceParts { addr: 0x2000, len: 8 };
    let ws = store_writes(new);
    let before = load(c);
    for i in 0..=3usize {
        for j in i..=3usize {
            for k in j..=3usize {
                let r = torn_load(c, &ws, i, j, k);
                if i >= 2 {
                    assert!(r == Some(new) || r == Some(SliceParts { addr: 0x2000, len: 0 }));
                }
                assert!(
                    r == before
                        || r == Some(new)
                        || r == Some(SliceParts { addr: 0x1000, len: 0 })
                        || r == Some(SliceParts { addr: 0x2000, len: 0 })
                        || r == None
                );
            }
        }
    }
}

#[test]
fn model_load_across_whole_store_gives_nothing() {
    let c = Cells { ptr: 0x1000, len: 4 };
    let ws = store_writes(SliceParts { addr: 0x2000, len: 8 });
    assert_eq!(torn_load(c, &ws, 0, 3, 3), None);
    assert_eq!(torn_load(c, &ws, 1, 3, 3), None);
}

#[test]
fn model_load_across_store_of_same_address_gives_a_whole_slice() {
    let c = Cells { ptr: 0x2000, len: 4 };
    let ws = store_writes(SliceParts { addr: 0x2000, len: 8 });
    assert_eq!(torn_load(c, &ws, 0, 0, 3), Some(SliceParts { addr: 0x2000, len: 4 }));
    assert_eq!(torn_load(c, &ws, 0, 3, 3), Some(SliceParts { addr: 0x2000, len: 8 }));
    assert_eq!(torn_load(c, &ws, 0, 1, 3), Some(SliceParts { addr: 0x2000, len: 0 }));
}

#[test]
fn model_load_during_store_empty() {
    let c = Cells { ptr: 0x1000, len: 4 };
    let ws = store_empty_writes();
    assert_eq!(torn_load(c, &ws, 0, 0, 0), Some(SliceParts { addr: 0x1000, len: 4 }));
    assert_eq!(torn_load(c, &ws, 0, 1, 1), None);
    assert_eq!(torn_load(c, &ws, 0, 0, 1), None);
    assert_eq!(torn_load(c, &ws, 1, 1, 1), None);
}

#[test]
fn fresh_cells_are_zero() {
    assert_eq!(fresh(), Cells { ptr: 0, len: 0 });
    assert_eq!(load(fresh()), None);
}

#[test]
fn slice_parts_gives_address_and_length() {
    let data = [5u64, 6, 7, 8];
    let p = slice_parts(&data);
    assert_eq!(p, SliceParts { addr: data.as_ptr() as usize, len: 4 });
    let empty: [u64; 0] = [];
    let q = slice_parts(&empty);
    assert_ne!(q.addr, 0);
    assert_eq!(q.len, 0);
}

#[test]
fn slice_parts_mut_gives_address_and_length_and_keeps_the_slice() {
    let mut data = [9i32, -1, 4];
    let expected = data.as_mut_ptr() as usize;
    let p = slice_parts_mut(&mut data);
    assert_eq!(p, SliceParts { addr: expected, len: 3 });
    assert_eq!(data, [9i32, -1, 4]);
}
