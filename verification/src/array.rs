//! One-dimensional arrays of the `ndarray` crate as carriers of a chunk.
//!
//! The array type is opaque to the verifier. What this module states of it is
//! believed, not proved: a name for its elements, and what the two calls that
//! the engine makes do to them.

use ndarray::Array1;
use vstd::prelude::*;

verus! {

/// A chunk held in a one-dimensional `ndarray` array, `Array1<u64>`. The
/// verifier sees nothing inside it.
#[verifier::external_body]
pub struct ChunkArray {
    inner: Array1<u64>,
}

/// The elements of a one-dimensional array, in index order.
pub uninterp spec fn array_elements(array: ChunkArray) -> Seq<u64>;

/// `Array1::from_vec`: the array takes the vector over as it is, so its
/// elements are the vector's, in the same order. (The call checks the length
/// only for element types of size zero.)
#[verifier::external_body]
pub(crate) fn array_from_vec(values: Vec<u64>) -> (array: ChunkArray)
    ensures
        array_elements(array) == values@,
{
    ChunkArray { inner: Array1::from_vec(values) }
}

/// `ArrayBase::to_vec` on a one-dimensional array: a vector with a copy of
/// each element, in index order.
#[verifier::external_body]
pub(crate) fn array_to_vec(array: &ChunkArray) -> (values: Vec<u64>)
    ensures
        values@ == array_elements(*array),
{
    array.inner.to_vec()
}

impl ChunkArray {
    /// An array with the given samples.
    pub fn from_samples(values: Vec<u64>) -> (array: ChunkArray)
        ensures
            array_elements(array) == values@,
    {
        array_from_vec(values)
    }

    /// The samples of the array, in order.
    pub fn to_samples(&self) -> (values: Vec<u64>)
        ensures
            values@ == array_elements(*self),
    {
        array_to_vec(self)
    }
}

} // verus!
