//! A value paired with the byte size it occupies when handed to the GPU.

use vstd::prelude::*;

verus! {

/// A value and the byte size recorded for it.
#[derive(Debug)]
pub struct NSize<T> {
    value: T,
    size: usize,
}

impl<T> NSize<T> {
    /// The value held.
    pub closed spec fn spec_value(self) -> T {
        self.value
    }

    /// The byte size recorded.
    pub closed spec fn spec_size(self) -> usize {
        self.size
    }

    /// Pair a value with the byte size recorded for it.
    pub fn new(value: T, size: usize) -> (r: Self)
        ensures
            r.spec_value() == value,
            r.spec_size() == size,
    {
        NSize { value, size }
    }

    /// The byte size recorded.
    pub fn size(&self) -> (r: usize)
        ensures
            r == self.spec_size(),
    {
        self.size
    }

    /// Borrow the value held.
    pub fn value(&self) -> (r: &T)
        ensures
            r == self.spec_value(),
    {
        &self.value
    }
}

} // verus!
