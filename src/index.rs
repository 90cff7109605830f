use vstd::prelude::*;

verus! {

/// A value that stands for a position in a dense range of integers.
///
/// The position decides membership: two values with one position count as the
/// same entry of the queue.
pub trait DenseIndex: Copy {
    /// The position that the value maps to.
    spec fn dense_index(&self) -> nat;

    /// Computes the position of the value.
    fn to_index(&self) -> (r: usize)
        ensures
            r == self.dense_index(),
    ;
}

impl DenseIndex for u8 {
    open spec fn dense_index(&self) -> nat {
        *self as nat
    }

    fn to_index(&self) -> (r: usize) {
        *self as usize
    }
}

impl DenseIndex for u16 {
    open spec fn dense_index(&self) -> nat {
        *self as nat
    }

    fn to_index(&self) -> (r: usize) {
        *self as usize
    }
}

impl DenseIndex for usize {
    open spec fn dense_index(&self) -> nat {
        *self as nat
    }

    fn to_index(&self) -> (r: usize) {
        *self
    }
}

} // verus!
