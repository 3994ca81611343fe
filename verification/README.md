# embassy_imxrt utilities

`AtomicSlice` keeps a slice as two atomic cells (address and length) so that
interrupt handlers can read what the application stored.

- `src/protocol.rs`: the order of the writes of a store (length 0, address,
  length) and of the reads of a load (address, length, address again), as
  data, with proofs of what a load observes: after a store, the stored slice;
  after a clearing, nothing; during a store, the old slice, the new one, a
  slice of length 0 to be loaded again, or nothing.
- `src/util.rs`: the holder. It starts its cells from `protocol::fresh` and
  stores the parts that `slice_parts` and `slice_parts_mut` give. That it
  makes the model's writes and reads, on atomic cells whose contents no
  contract can describe, is seen by reading its code.
- `app/lib.rs`: turning a loaded address and length back into a slice.
