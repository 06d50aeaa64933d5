use vstd::prelude::*;

verus! {

/// Why an operation on a mapped file did not succeed.
#[derive(Clone, Copy, Debug, PartialEq, Eq, Structural)]
pub enum MmapError {
    /// The file could not be opened or created.
    OpenFailed,
    /// The length of the file could not be queried.
    MetadataFailed,
    /// The file could not be brought to the requested length.
    TruncateFailed,
    /// No mapping of the file is in place.
    MapFailed,
    /// The addressed bytes do not lie inside the file.
    BoundsViolation,
}

} // verus!
