use vstd::prelude::*;

verus! {

/// What a storage lookup may report instead of a value.
#[derive(Debug, Clone, Copy, PartialEq, Eq, Structural)]
pub enum StorageError {
    /// the index was discarded by an earlier snapshot
    Compacted,
    /// the index is not stored yet
    Unavailable,
    /// any other failure of the storage engine; the log cannot be trusted
    Other,
}

/// Failures of the log operations.
#[derive(Debug, Clone, Copy, PartialEq, Eq, Structural)]
pub enum Error {
    /// a condition reported by storage
    Storage(StorageError),
    /// entries would overwrite committed history
    AppendBeforeCommitted,
    /// entries would leave a hole after the last known index
    AppendGap,
    /// the applied index would move backward or past the committed one
    AppliedOutOfRange,
    /// a slice whose low end is above its high end
    InvalidSlice,
    /// a slice that ends past the last index plus one
    SliceOutOfBound,
}

impl StorageError {
    /// Whether the caller is expected to recover (through a snapshot),
    /// rather than stop.
    pub fn is_recoverable(&self) -> (r: bool)
        ensures
            r == (*self == StorageError::Compacted || *self == StorageError::Unavailable),
    {
        match self {
            StorageError::Compacted => true,
            StorageError::Unavailable => true,
            StorageError::Other => false,
        }
    }
}

} // verus!
