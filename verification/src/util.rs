//! A slice holder whose ownership is erased, for reaching the application's
//! slices from interrupt handlers.
//!
//! The holder keeps the slice as two atomic cells, an address (0 when no slice
//! is set) and a length. It starts them at `protocol::fresh`; its store makes
//! the writes that `protocol::store_writes` returns for the parts that
//! `slice_parts` gives, in order; its load reads the address, the length and
//! the address again, and hands the reads to `protocol::resolve_reads`. What an
//! atomic cell holds can change at any time from another context, so no
//! contract here speaks of the cells: what a load can observe is proved on the
//! model in `protocol`, and that the code below makes the model's writes and
//! reads is seen by reading it.

use core::marker::PhantomData;
use core::sync::atomic::{AtomicUsize, Ordering};
use vstd::prelude::*;
use crate::protocol::{fresh, resolve_reads, store_empty_writes, store_writes, SliceParts, Write};

verus! {

/// Marker that an `AtomicSlice` holds mutable slices.
pub struct Mutable;

/// Marker that an `AtomicSlice` holds immutable slices.
pub struct Immutable;

/// A slice for which the ownership is erased, stored semi-atomically.
pub struct AtomicSlice<T, M> {
    /// Address of the first element in the slice; 0 when no slice is set.
    ptr: AtomicUsize,
    /// Number of elements in the slice.
    len: AtomicUsize,
    /// Type of the elements.
    _elem: PhantomData<T>,
    /// Marker to denote the mutability requirement of the slice.
    _mode: PhantomData<M>,
}

/// Address of the first element of `slice`.
///
/// Calls `<[T]>::as_ptr` and takes the pointer's address. The data pointer of
/// a slice reference is never null, even for an empty slice (std documents
/// this under `core::slice::from_raw_parts`), so the address is not 0; where
/// the slice lies in memory is otherwise up to the machine and is not stated.
#[verifier::external_body]
fn slice_address<T>(slice: &[T]) -> (addr: usize)
    ensures
        addr != 0,
{
    slice.as_ptr() as usize
}

/// Address of the first element of `slice`, taken through a mutable borrow so
/// that the slice may later be written through it.
///
/// Calls `<[T]>::as_mut_ptr` and takes the pointer's address. As for
/// `slice_address`, the address is not 0 and is otherwise not stated. The call
/// reads no element and writes none.
#[verifier::external_body]
fn slice_address_mut<T>(slice: &mut [T]) -> (addr: usize)
    ensures
        addr != 0,
        final(slice)@ == old(slice)@,
{
    slice.as_mut_ptr() as usize
}

/// Address and length under which `slice` is stored.
pub fn slice_parts<T>(slice: &[T]) -> (p: SliceParts)
    ensures
        p.len == slice@.len(),
        p.addr != 0,
{
    SliceParts { addr: slice_address(slice), len: slice.len() }
}

/// Address and length under which the mutable `slice` is stored, the address
/// taken through the mutable borrow. The slice is left as it is.
pub fn slice_parts_mut<T>(slice: &mut [T]) -> (p: SliceParts)
    ensures
        p.len == old(slice)@.len(),
        p.addr != 0,
        final(slice)@ == old(slice)@,
{
    let len = slice.len();
    let addr = slice_address_mut(slice);
    SliceParts { addr, len }
}

impl<T, M> AtomicSlice<T, M> {
    /// A holder with no slice set: address 0 and length 0.
    pub fn new() -> Self {
        let cells = fresh();
        AtomicSlice {
            ptr: AtomicUsize::new(cells.ptr),
            len: AtomicUsize::new(cells.len),
            _elem: PhantomData,
            _mode: PhantomData,
        }
    }

    /// Make one write of the protocol, with release ordering.
    fn perform(&self, w: Write) {
        match w {
            Write::Ptr(v) => self.ptr.store(v, Ordering::Release),
            Write::Len(v) => self.len.store(v, Ordering::Release),
        }
    }

    /// Make the writes `ws` of a store or a clearing, in order.
    fn inner_store(&self, ws: &[Write]) {
        let mut k: usize = 0;
        while k < ws.len()
            decreases ws.len() - k,
        {
            self.perform(ws[k]);
            k = k + 1;
        }
    }

    /// Read the address cell, the length cell and the address cell again, with
    /// acquire ordering, and hand out the slice they describe, if any.
    ///
    /// A load that overlaps a store may see a length of 0, or nothing; see
    /// `protocol::lemma_load_during_store` for what it can see.
    pub fn load_parts(&self) -> (r: Option<SliceParts>)
        ensures
            r matches Some(p) ==> p.addr != 0,
    {
        let ptr = self.ptr.load(Ordering::Acquire);
        let len = self.len.load(Ordering::Acquire);
        let ptr_again = self.ptr.load(Ordering::Acquire);
        resolve_reads(ptr, len, ptr_again)
    }

    /// Store a slice that is empty.
    pub fn store_empty(&self) {
        let ws = store_empty_writes();
        self.inner_store(&ws);
    }
}

impl<T> AtomicSlice<T, Immutable> {
    /// Store the slice semi-atomically.
    pub fn store(&self, slice: &[T]) {
        // The length goes to zero first, in case the slice is loaded after the
        // address is set but before the length is.
        let ws = store_writes(slice_parts(slice));
        self.inner_store(&ws);
    }
}

impl<T> AtomicSlice<T, Mutable> {
    /// Store the slice semi-atomically. The slice itself is left as it is.
    pub fn store(&self, slice: &mut [T])
        ensures
            final(slice)@ == old(slice)@,
    {
        let ws = store_writes(slice_parts_mut(slice));
        self.inner_store(&ws);
    }
}

} // verus!
