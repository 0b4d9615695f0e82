//! The failure taxonomy of the decoder.
use vstd::prelude::*;

verus! {

/// Every failure the decoder can surface. None of these is recovered from
/// internally: each is reported to the caller at the point of detection.
#[derive(Debug, Clone, Copy, PartialEq, Eq, Structural)]
pub enum FatError {
    /// The backing store could not be opened.
    OpenError,
    /// Fewer bytes than a required fixed-size region needs were available.
    ReadError,
    /// The boot sector describes a geometry with a zero-sized cluster.
    DegenerateLayout,
    /// A cluster number below 2 was requested; data-region numbering starts at 2.
    InvalidClusterNumber,
    /// A cluster read returned fewer bytes than one cluster holds.
    ShortRead,
    /// The computed byte offset of a cluster cannot be addressed.
    SeekFailure,
    /// A directory record index beyond the cluster's bounds was reached:
    /// the buffer holds no end-of-directory record, so decoding would run
    /// past its end instead of terminating.
    IndexOutOfRange,
}

} // verus!
