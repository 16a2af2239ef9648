//! A named piece of text.

use vstd::prelude::*;

verus! {

/// A value that wraps one string.
#[derive(Debug)]
pub struct Vector {
    pub data: String,
}

impl Vector {
    /// Wraps `data`.
    pub fn new(data: String) -> (vector: Vector)
        ensures
            vector.data == data,
    {
        Vector { data }
    }
}

} // verus!
