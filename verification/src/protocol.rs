//! The write and read protocol behind an atomic slice holder.
//!
//! A holder keeps two cells: the address of the first element (0 when no
//! slice is set) and the number of elements. A store writes the length cell,
//! then the address cell, then the length cell again. A load reads the
//! address cell, then the length cell, then the address cell once more, and
//! gives back no slice when the two address reads differ. This module states
//! those orders as data and proves what a load can observe, before, after and
//! in the middle of a store.
//!
//! One context writes, each write a release store, and each read of a load is
//! an acquire load. A read therefore sees no write older than one that an
//! earlier read of the same load saw, nor older than one made before that
//! earlier write: the reads of one load see prefixes of the writer's sequence
//! that grow in the order the reads are made, which is how `torn_load` takes
//! them.

use vstd::prelude::*;

verus! {

/// Address and length of a stored slice, as a load hands them out.
#[derive(Clone, Copy, Debug, PartialEq, Eq, Structural)]
pub struct SliceParts {
    pub addr: usize,
    pub len: usize,
}

/// One atomic write to one of the two cells.
#[derive(Clone, Copy, Debug, PartialEq, Eq, Structural)]
pub enum Write {
    /// Write the address cell.
    Ptr(usize),
    /// Write the length cell.
    Len(usize),
}

/// One whole call on a holder, as the protocol sees it.
#[derive(Clone, Copy, Debug, PartialEq, Eq, Structural)]
pub enum Call {
    /// A store of the slice with these parts.
    Store(SliceParts),
    /// A clearing (`store_empty`).
    Clear,
    /// A load.
    Load,
}

/// The values held by the two cells at one instant.
#[derive(Clone, Copy, Debug, PartialEq, Eq, Structural)]
pub struct Cells {
    pub ptr: usize,
    pub len: usize,
}

/// The slice that an address and a length describe: none when the address
/// is 0 (the null pointer).
pub open spec fn resolve_spec(ptr: usize, len: usize) -> Option<SliceParts> {
    if ptr == 0 {
        None
    } else {
        Some(SliceParts { addr: ptr, len })
    }
}

/// What a load makes of its three reads: the address `ptr`, the length `len`
/// and the address once more, `ptr_again`. When the address changed between
/// the two reads, the length may belong to another slice, and no slice is
/// given back.
pub open spec fn resolve_reads_spec(ptr: usize, len: usize, ptr_again: usize) -> Option<SliceParts> {
    if ptr != ptr_again {
        None
    } else {
        resolve_spec(ptr, len)
    }
}

/// The cells of a freshly made holder.
pub open spec fn fresh_cells() -> Cells {
    Cells { ptr: 0, len: 0 }
}

/// The writes of a store, in the order they are made: length to 0, then the
/// address, then the length.
pub open spec fn store_writes_spec(parts: SliceParts) -> Seq<Write> {
    seq![Write::Len(0), Write::Ptr(parts.addr), Write::Len(parts.len)]
}

/// The writes that clear a holder: the address to 0, the length untouched.
pub open spec fn store_empty_writes_spec() -> Seq<Write> {
    seq![Write::Ptr(0)]
}

/// The cells after one write.
pub open spec fn apply(c: Cells, w: Write) -> Cells {
    match w {
        Write::Ptr(v) => Cells { ptr: v, ..c },
        Write::Len(v) => Cells { len: v, ..c },
    }
}

/// The cells after a sequence of writes, made in order.
pub open spec fn apply_all(c: Cells, ws: Seq<Write>) -> Cells
    decreases ws.len(),
{
    if ws.len() == 0 {
        c
    } else {
        apply(apply_all(c, ws.drop_last()), ws.last())
    }
}

/// The writes of one call: `Some(parts)` for a store of `parts`, `None` for a
/// clearing.
pub open spec fn op_writes(op: Option<SliceParts>) -> Seq<Write> {
    match op {
        Some(parts) => store_writes_spec(parts),
        None => store_empty_writes_spec(),
    }
}

/// The cells after a sequence of whole calls, each a store (`Some`) or a
/// clearing (`None`), made one after the other.
pub open spec fn apply_ops(c: Cells, ops: Seq<Option<SliceParts>>) -> Cells
    decreases ops.len(),
{
    if ops.len() == 0 {
        c
    } else {
        apply_all(apply_ops(c, ops.drop_last()), op_writes(ops.last()))
    }
}

/// What a load returns when all its reads see the cells `c`.
pub open spec fn load_spec(c: Cells) -> Option<SliceParts> {
    resolve_reads_spec(c.ptr, c.len, c.ptr)
}

/// What a load returns when, starting from `c`, its first read of the address
/// cell comes after the first `i` writes of `ws`, its read of the length cell
/// after the first `j`, and its second read of the address cell after the
/// first `k`.
pub open spec fn torn_load(c: Cells, ws: Seq<Write>, i: int, j: int, k: int) -> Option<SliceParts> {
    resolve_reads_spec(
        apply_all(c, ws.take(i)).ptr,
        apply_all(c, ws.take(j)).len,
        apply_all(c, ws.take(k)).ptr,
    )
}

/// The values a freshly made holder starts its cells with.
pub fn fresh() -> (c: Cells)
    ensures
        c == fresh_cells(),
{
    Cells { ptr: 0, len: 0 }
}

/// What a load makes of its three reads.
pub fn resolve_reads(ptr: usize, len: usize, ptr_again: usize) -> (r: Option<SliceParts>)
    ensures
        r == resolve_reads_spec(ptr, len, ptr_again),
{
    if ptr != ptr_again || ptr == 0 {
        None
    } else {
        Some(SliceParts { addr: ptr, len })
    }
}

/// The writes that store the slice `parts`, in the order they must be made.
pub fn store_writes(parts: SliceParts) -> (ws: [Write; 3])
    ensures
        ws@ == store_writes_spec(parts),
{
    let ws = [Write::Len(0), Write::Ptr(parts.addr), Write::Len(parts.len)];
    assert(ws@ =~= store_writes_spec(parts));
    ws
}

/// The writes that clear a holder.
pub fn store_empty_writes() -> (ws: [Write; 1])
    ensures
        ws@ == store_empty_writes_spec(),
{
    let ws = [Write::Ptr(0)];
    assert(ws@ =~= store_empty_writes_spec());
    ws
}

proof fn lemma_store_prefixes(c: Cells, parts: SliceParts)
    ensures
        apply_all(c, store_writes_spec(parts).take(0)) == c,
        apply_all(c, store_writes_spec(parts).take(1)) == (Cells { len: 0, ..c }),
        apply_all(c, store_writes_spec(parts).take(2)) == (Cells { ptr: parts.addr, len: 0 }),
        apply_all(c, store_writes_spec(parts).take(3)) == (Cells { ptr: parts.addr, len: parts.len }),
        store_writes_spec(parts).take(3) == store_writes_spec(parts),
{
    let ws = store_writes_spec(parts);
    assert(ws.take(0).len() == 0);
    assert(ws.take(1).drop_last() =~= ws.take(0));
    assert(ws.take(2).drop_last() =~= ws.take(1));
    assert(ws.take(3).drop_last() =~= ws.take(2));
    assert(ws.take(3) =~= ws);
    reveal_with_fuel(apply_all, 2);
}

proof fn lemma_store_empty_prefixes(c: Cells)
    ensures
        apply_all(c, store_empty_writes_spec().take(0)) == c,
        apply_all(c, store_empty_writes_spec().take(1)) == (Cells { ptr: 0, ..c }),
        store_empty_writes_spec().take(1) == store_empty_writes_spec(),
{
    let ws = store_empty_writes_spec();
    assert(ws.take(0).len() == 0);
    assert(ws.take(1).drop_last() =~= ws.take(0));
    assert(ws.take(1) =~= ws);
    assert(apply_all(c, ws.take(1)) == apply(apply_all(c, ws.take(0)), ws.take(1).last()));
}

/// A freshly made holder holds no slice.
pub proof fn lemma_fresh_holds_nothing()
    ensures
        load_spec(fresh_cells()) == None::<SliceParts>,
{
}

/// A load that follows a whole store returns the slice stored (or nothing,
/// where its address is 0), whatever the cells held before.
pub proof fn lemma_load_after_store(c: Cells, parts: SliceParts)
    ensures
        load_spec(apply_all(c, store_writes_spec(parts))) == resolve_spec(parts.addr, parts.len),
        parts.addr != 0 ==> load_spec(apply_all(c, store_writes_spec(parts))) == Some(parts),
{
    lemma_store_prefixes(c, parts);
}

/// A load that follows a clearing returns no slice, and the clearing leaves
/// the length cell as it was.
pub proof fn lemma_load_after_store_empty(c: Cells)
    ensures
        load_spec(apply_all(c, store_empty_writes_spec())) == None::<SliceParts>,
        apply_all(c, store_empty_writes_spec()).len == c.len,
{
    lemma_store_empty_prefixes(c);
}

/// Over any sequence of whole stores and clearings made on a fresh holder,
/// each store of a slice at a non-zero address, a load returns the slice of
/// the last store when the last call was a store, and no slice when there was
/// no call or the last call was a clearing.
pub proof fn lemma_load_after_calls(ops: Seq<Option<SliceParts>>)
    requires
        forall|n: int| 0 <= n < ops.len() ==> (#[trigger] ops[n] matches Some(p) ==> p.addr != 0),
    ensures
        load_spec(apply_ops(fresh_cells(), ops)) == (if ops.len() == 0 { None } else { ops.last() }),
{
    if ops.len() > 0 {
        let before = apply_ops(fresh_cells(), ops.drop_last());
        match ops.last() {
            Some(parts) => {
                assert(ops[ops.len() - 1] matches Some(p) ==> p.addr != 0);
                lemma_load_after_store(before, parts);
            },
            None => {
                lemma_load_after_store_empty(before);
            },
        }
    }
}

/// The writes that one whole call makes: a load reads the cells and writes
/// nothing.
pub open spec fn call_writes(call: Call) -> Seq<Write> {
    match call {
        Call::Store(parts) => store_writes_spec(parts),
        Call::Clear => store_empty_writes_spec(),
        Call::Load => Seq::empty(),
    }
}

/// The cells after a sequence of whole calls, made one after the other.
pub open spec fn run(c: Cells, calls: Seq<Call>) -> Cells
    decreases calls.len(),
{
    if calls.len() == 0 {
        c
    } else {
        apply_all(run(c, calls.drop_last()), call_writes(calls.last()))
    }
}

/// The slice that the last store of `calls` set, if no clearing came after
/// it; loads are passed over.
pub open spec fn last_set(calls: Seq<Call>) -> Option<SliceParts>
    decreases calls.len(),
{
    if calls.len() == 0 {
        None
    } else {
        match calls.last() {
            Call::Store(parts) => Some(parts),
            Call::Clear => None,
            Call::Load => last_set(calls.drop_last()),
        }
    }
}

/// Every store in `calls` stores a slice at a non-zero address, as every
/// slice reference has.
pub open spec fn stores_at_real_addresses(calls: Seq<Call>) -> bool {
    forall|n: int| 0 <= n < calls.len() ==> (#[trigger] calls[n] matches Call::Store(p) ==> p.addr != 0)
}

proof fn lemma_run_loads_to_last_set(calls: Seq<Call>)
    requires
        stores_at_real_addresses(calls),
    ensures
        load_spec(run(fresh_cells(), calls)) == last_set(calls),
    decreases calls.len(),
{
    if calls.len() > 0 {
        let rest = calls.drop_last();
        assert forall|n: int| 0 <= n < rest.len() implies (#[trigger] rest[n] matches Call::Store(p) ==> p.addr != 0) by {
            assert(rest[n] == calls[n]);
        }
        lemma_run_loads_to_last_set(rest);
        let before = run(fresh_cells(), rest);
        match calls.last() {
            Call::Store(parts) => {
                assert(calls[calls.len() - 1] matches Call::Store(p) ==> p.addr != 0);
                lemma_load_after_store(before, parts);
            },
            Call::Clear => {
                lemma_load_after_store_empty(before);
            },
            Call::Load => {
                assert(apply_all(before, Seq::<Write>::empty()) == before);
            },
        }
    }
}

/// On a fresh holder, over any sequence of whole calls (stores of slices at
/// non-zero addresses, clearings and loads), every load returns the slice of
/// the last store before it when no clearing came after that store, and no
/// slice otherwise. Loads change nothing, so two loads with no store or
/// clearing between them return the same.
pub proof fn lemma_every_load_sees_last_store(calls: Seq<Call>, n: int)
    requires
        stores_at_real_addresses(calls),
        0 <= n < calls.len(),
        calls[n] == Call::Load,
    ensures
        load_spec(run(fresh_cells(), calls.take(n))) == last_set(calls.take(n)),
        load_spec(run(fresh_cells(), calls.take(n + 1))) == load_spec(run(fresh_cells(), calls.take(n))),
{
    let pre = calls.take(n);
    assert forall|m: int| 0 <= m < pre.len() implies (#[trigger] pre[m] matches Call::Store(p) ==> p.addr != 0) by {
        assert(pre[m] == calls[m]);
    }
    lemma_run_loads_to_last_set(pre);
    let post = calls.take(n + 1);
    assert(post.drop_last() =~= pre);
    assert(post.last() == Call::Load);
    assert(apply_all(run(fresh_cells(), pre), Seq::<Write>::empty()) == run(fresh_cells(), pre));
}

/// A store of `parts` followed by any number of loads leaves a load
/// returning `parts` each time, whatever the cells held before the store.
pub proof fn lemma_loads_after_store_repeat(c: Cells, parts: SliceParts, loads: nat)
    requires
        parts.addr != 0,
    ensures
        load_spec(run(c, seq![Call::Store(parts)] + Seq::new(loads, |_i: int| Call::Load))) == Some(parts),
    decreases loads,
{
    let calls = seq![Call::Store(parts)] + Seq::new(loads, |_i: int| Call::Load);
    if loads == 0 {
        assert(calls.drop_last() =~= Seq::<Call>::empty());
        assert(calls.last() == Call::Store(parts));
        assert(run(c, calls.drop_last()) == c);
        assert(run(c, calls) == apply_all(c, store_writes_spec(parts)));
        lemma_load_after_store(c, parts);
    } else {
        let shorter = seq![Call::Store(parts)] + Seq::new((loads - 1) as nat, |_i: int| Call::Load);
        assert(calls.drop_last() =~= shorter);
        assert(calls.last() == Call::Load);
        lemma_loads_after_store_repeat(c, parts, (loads - 1) as nat);
        assert(apply_all(run(c, shorter), Seq::<Write>::empty()) == run(c, shorter));
        assert(run(c, calls) == run(c, shorter));
    }
}

/// A load whose first read of the address cell sees the new address of a
/// store in progress gives back the new slice, a slice of length 0 at the new
/// address, or nothing: never the new address with a stale length.
pub proof fn lemma_new_address_never_with_stale_length(
    c: Cells,
    parts: SliceParts,
    i: int,
    j: int,
    k: int,
)
    requires
        2 <= i <= j <= k <= 3,
    ensures
        ({
            let r = torn_load(c, store_writes_spec(parts), i, j, k);
            ||| r == resolve_spec(parts.addr, parts.len)
            ||| r == resolve_spec(parts.addr, 0)
        }),
{
    lemma_store_prefixes(c, parts);
}

/// A load that overlaps a store, its reads falling anywhere in it, returns
/// what a load before the store would, what a load after it would, a slice of
/// length 0 (to be tried again), or nothing.
pub proof fn lemma_load_during_store(c: Cells, parts: SliceParts, i: int, j: int, k: int)
    requires
        0 <= i <= j <= k <= 3,
    ensures
        ({
            let r = torn_load(c, store_writes_spec(parts), i, j, k);
            ||| r == load_spec(c)
            ||| r == resolve_spec(parts.addr, parts.len)
            ||| r == resolve_spec(c.ptr, 0)
            ||| r == resolve_spec(parts.addr, 0)
            ||| r == None::<SliceParts>
        }),
{
    lemma_store_prefixes(c, parts);
}

/// A load that overlaps a clearing returns what a load before it would, or
/// no slice.
pub proof fn lemma_load_during_store_empty(c: Cells, i: int, j: int, k: int)
    requires
        0 <= i <= j <= k <= 1,
    ensures
        ({
            let r = torn_load(c, store_empty_writes_spec(), i, j, k);
            r == load_spec(c) || r == None::<SliceParts>
        }),
{
    lemma_store_empty_prefixes(c);
}

} // verus!
