//! Failures of the tag extractor.

use vstd::prelude::*;

verus! {

/// Why a part of the tag extraction gave nothing. None of these stops the
/// extraction as a whole.
#[derive(Clone, Copy, Debug, PartialEq, Eq, Structural)]
pub enum ExtractError {
    /// The title holds a marker block, and one of its groups is not `key=value`.
    MalformedMarkerBlock,
    /// The command line is not a program followed by one path.
    UnsupportedCommandLineShape,
}

} // verus!
