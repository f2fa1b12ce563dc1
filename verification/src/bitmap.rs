//! Offset bitmaps over the code section, backed by `bitvec`'s `BitVec`.
//!
//! The reachability walker and the verifier index these bitmaps by
//! code-section offset.  The bit-vector itself is outside code, so it is
//! held in an opaque struct; its contents are named by [`bits_of`], and
//! each operation the walker needs is wrapped with a contract over that
//! name.

use vstd::prelude::*;
use bitvec::vec::BitVec;

verus! {

/// A growable bitmap indexed by code-section offset.
#[verifier::external_body]
pub struct OffsetBits {
    bits: BitVec,
}

/// The sequence of bits held by `m`, lowest index first.
pub uninterp spec fn bits_of(m: &OffsetBits) -> Seq<bool>;

impl OffsetBits {
    /// Relies on `BitVec::new`: the fresh bit-vector is empty.
    #[verifier::external_body]
    pub fn new() -> (r: OffsetBits)
        ensures
            bits_of(&r) == Seq::<bool>::empty(),
    {
        OffsetBits { bits: BitVec::new() }
    }

    /// Relies on `BitVec::resize`: kept bits stay, new bits equal `value`.
    #[verifier::external_body]
    pub fn resize(&mut self, new_len: usize, value: bool)
        ensures
            bits_of(final(self)) == Seq::new(
                new_len as nat,
                |i: int|
                    if i < bits_of(old(self)).len() {
                        bits_of(old(self))[i]
                    } else {
                        value
                    },
            ),
    {
        self.bits.resize(new_len, value)
    }

    /// Relies on `BitSlice::len` (through deref): the number of bits held.
    #[verifier::external_body]
    pub fn len(&self) -> (r: usize)
        ensures
            r == bits_of(self).len(),
    {
        self.bits.len()
    }

    /// Relies on the `Index` impl of `BitSlice` (through deref): the bit
    /// at `index`.
    #[verifier::external_body]
    pub fn get(&self, index: usize) -> (r: bool)
        requires
            index < bits_of(self).len(),
        ensures
            r == bits_of(self)[index as int],
    {
        self.bits[index]
    }

    /// Relies on `BitSlice::set` (through deref): writes one bit in place.
    #[verifier::external_body]
    pub fn set(&mut self, index: usize, value: bool)
        requires
            index < bits_of(old(self)).len(),
        ensures
            bits_of(final(self)) == bits_of(old(self)).update(index as int, value),
    {
        self.bits.set(index, value)
    }

    /// Relies on `BitSlice::iter_ones` (through deref): yields the indices
    /// of the set bits in strictly ascending order, each exactly once.
    #[verifier::external_body]
    pub fn ones(&self) -> (r: Vec<usize>)
        ensures
            forall|a: int, b: int| 0 <= a < b < r@.len() ==> r@[a] < r@[b],
            forall|k: int|
                0 <= k < r@.len() ==> #[trigger] r@[k] < bits_of(self).len() && bits_of(self)[r@[k] as int],
            forall|j: int| 0 <= j < bits_of(self).len() && bits_of(self)[j] ==> r@.contains(j as usize),
    {
        self.bits.iter_ones().collect()
    }
}

} // verus!
