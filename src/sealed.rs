use vstd::prelude::*;

verus! {

/// Closes `SetBacking` to the storage shapes that this crate provides.
pub trait Sealed {
}

impl Sealed for [bool] {
}

impl Sealed for [u64] {
}

impl<const N: usize> Sealed for [bool; N] {
}

impl<const N: usize> Sealed for [u64; N] {
}

} // verus!
