use vstd::prelude::*;

verus! {

/// The ways an operation of this library can fail.
#[derive(Clone, Copy, Debug, PartialEq, Eq, Structural)]
pub enum Error {
    /// The source shape, the axis and the index shape of an indexed operation
    /// do not fit together.
    ShapeMismatch,
    /// An index value lies outside the extent of the axis it addresses.
    IndexOutOfRange,
    /// No buffer can be provided for an output or a gradient.
    AllocationFailure,
    /// One identity was named both as the written and as the read gradient.
    AliasingViolation,
}

} // verus!
