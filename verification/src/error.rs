use vstd::prelude::*;

verus! {

/// A collection of all possible errors.
///
/// Errors could be divided into write and read
/// errors, but this makes error handling a bit less
/// comfortable, so they are united here.
#[derive(Debug, Clone, Copy, PartialEq, Eq, Structural)]
#[non_exhaustive]
pub enum SwapVecError {
    /// The program is missing permissions to create or write the backing store
    MissingPermissions,
    /// A batch could not be written due to a full disk
    OutOfDisk,
    /// A read back batch had a wrong checksum
    WrongChecksum,
    /// A batch could not be decompressed correctly.
    /// This also happens only if the file has been corrupted.
    Decompression,
    /// The batch was read back successfully,
    /// but decoding it into elements failed.
    SerializationFailed,
    /// Every other possibility
    Other,
}

/// The error kinds that a failing store operation can surface: a permission
/// failure, a full disk, or the unclassified rest.
pub open spec fn is_io_failure(e: SwapVecError) -> bool {
    ||| e == SwapVecError::MissingPermissions
    ||| e == SwapVecError::OutOfDisk
    ||| e == SwapVecError::Other
}

} // verus!
