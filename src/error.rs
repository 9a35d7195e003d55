//! Failures of the codec.

use vstd::prelude::*;

verus! {

/// Why a container or an intermediate text could not be processed.
#[derive(Debug, Clone, Copy, PartialEq, Eq, Structural)]
pub enum CodecError {
    /// The container is shorter than the fixed header.
    TruncatedInput,
    /// The payload is not a valid zlib stream.
    CorruptStream,
    /// The intermediate text holds no header marker.
    MissingHeaderMarker,
    /// The header marker is not closed.
    MalformedHeaderMarker,
    /// The embedded header is not valid hex.
    MalformedHeader,
}

} // verus!
