use vstd::prelude::*;

verus! {

/// The ways in which a request for powers, a download plan or the decoding of
/// a block of powers can fail.
#[derive(Debug, Clone, Copy, PartialEq, Eq, Structural)]
pub enum PowersError {
    /// The requested range is not held among the shifted powers.
    NotInShiftedPowers,
    /// The requested range is not held among the normal powers.
    NotInNormalPowers,
    /// The upper bound of the request lies beyond the maximum number of powers.
    UpperBoundTooLarge,
    /// The next power of two of the request does not fit in a `usize`.
    TooManyPowers,
    /// The request asks for more powers than the SRS holds.
    MoreThanExist,
    /// No block of powers of this size exists.
    InvalidDegree(usize),
    /// A recovered vector of powers does not have the expected length.
    IncorrectNumberOfPowers,
    /// The bytes of a block could not be decoded.
    Deserialization,
}

} // verus!
