use vstd::prelude::*;

verus! {

/// Failures of buffer and tensor operations.
#[derive(Debug)]
pub enum Error {
    /// Two buffers or slices in one operation have different lengths: the
    /// length of the destination, then that of the source.
    LengthMismatch(usize, usize),
    /// A shape whose element count differs from the length of the buffer
    /// it should describe.
    ShapeMismatch(String),
    /// Mutable access is not exclusive: a shared resource has more than one
    /// owner.
    NotExclusive(String),
    /// The compute context reported a failure; its own message is kept.
    Backend(String),
}

} // verus!
