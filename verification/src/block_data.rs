//! The buffer capability used by the optimized write path.

use vstd::prelude::*;

use crate::data::Data;

verus! {

/// Capability of a backend-specific block buffer with reserved prefix
/// capacity.
///
/// A value of an implementing type wraps a [`Data`] buffer and guarantees
/// that exactly [`IBlockData::prefix_bytes`] hidden bytes precede the
/// visible payload, so the owning backend can grow the region and write a
/// fixed-size header in place without copying the payload. The guarantee is
/// machine-checked: [`IBlockData::new`] demands a buffer that genuinely has
/// the reserved prefix, every operation preserves it, and
/// [`IBlockData::extract`] hands back a buffer that still has it. No caller
/// can fabricate an instance that claims the invariant without the reserved
/// capacity actually being there.
pub trait IBlockData: View<V = Seq<u8>> + Sized {
    /// Hidden bytes guaranteed to precede the visible payload.
    spec fn prefix_bytes() -> nat;

    /// The reserved-prefix invariant.
    spec fn wf(&self) -> bool;

    /// Wraps a raw buffer whose hidden prefix is exactly the reserved
    /// capacity. The visible payload carries over unchanged.
    fn new(data: Data) -> (r: Self)
        requires
            data.wf(),
            data.prefix_len() == Self::prefix_bytes(),
        ensures
            r.wf(),
            r@ == data@,
    ;

    /// Unwraps into the raw buffer, consuming the instance and surrendering
    /// the hidden prefix to the backend's own store logic.
    fn extract(self) -> (r: Data)
        requires
            self.wf(),
        ensures
            r.wf(),
            r.prefix_len() == Self::prefix_bytes(),
            r@ == self@,
    ;

    /// Length of the visible payload.
    fn len(&self) -> (r: usize)
        requires
            self.wf(),
        ensures
            r == self@.len(),
    ;

    /// Reads the visible payload byte at `i`.
    fn read(&self, i: usize) -> (r: u8)
        requires
            self.wf(),
            i < self@.len(),
        ensures
            r == self@[i as int],
    ;

    /// Writes the visible payload byte at `i`.
    fn write(&mut self, i: usize, b: u8)
        requires
            old(self).wf(),
            i < old(self)@.len(),
        ensures
            final(self).wf(),
            final(self)@ == old(self)@.update(i as int, b),
    ;

    /// Overwrites the whole visible payload with `src`, byte for byte.
    fn fill_from_slice(&mut self, src: &[u8])
        requires
            old(self).wf(),
            src@.len() == old(self)@.len(),
        ensures
            final(self).wf(),
            final(self)@ == src@,
    ;
}

/// Shared construction helper: one buffer-wrapper type per reserved prefix
/// size, so a backend does not hand-write its own view-accessor logic.
pub struct BlockDataWrapper<const PREFIX: usize> {
    data: Data,
}

impl<const PREFIX: usize> View for BlockDataWrapper<PREFIX> {
    type V = Seq<u8>;

    closed spec fn view(&self) -> Seq<u8> {
        self.data@
    }
}

impl<const PREFIX: usize> IBlockData for BlockDataWrapper<PREFIX> {
    open spec fn prefix_bytes() -> nat {
        PREFIX as nat
    }

    closed spec fn wf(&self) -> bool {
        self.data.wf() && self.data.prefix_len() == PREFIX as nat
    }

    fn new(data: Data) -> (r: Self) {
        BlockDataWrapper { data }
    }

    fn extract(self) -> (r: Data) {
        self.data
    }

    fn len(&self) -> (r: usize) {
        self.data.len()
    }

    fn read(&self, i: usize) -> (r: u8) {
        self.data.read(i)
    }

    fn write(&mut self, i: usize, b: u8) {
        self.data.write(i, b);
    }

    fn fill_from_slice(&mut self, src: &[u8]) {
        self.data.fill_from_slice(src);
    }
}

} // verus!
