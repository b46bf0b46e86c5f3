//! The ways in which opening a stream or decoding a packet can fail.

use vstd::prelude::*;

verus! {

/// Why a stream could not be opened or a packet could not be decoded.
#[derive(Clone, Copy, Debug, PartialEq, Eq)]
pub enum Error {
    /// The data is malformed.
    DecodeError(&'static str),
    /// The stream needs a feature that is not there.
    Unsupported(&'static str),
    /// The data ends before it should.
    IoError,
    /// The stream is reported with an object type number that has no name.
    UnknownObjectType,
    /// A decoded frame does not fit the planes that were laid out for the stream.
    FrameMismatch,
}

} // verus!
