//! Error kinds surfaced by the storage engine.

use vstd::prelude::*;

verus! {

/// Outcome kinds a storage operation can report to the handler.
///
/// These are expected business outcomes, returned as values and mapped by the
/// handler to wire status codes; none of them is a fatal fault.
#[derive(Clone, Copy, Debug, PartialEq, Eq, Structural)]
pub enum StorageError {
    /// No live record exists under the requested key.
    NotFound,
    /// A live record already exists where the operation demands absence.
    KeyExists,
    /// The compare-and-swap token supplied does not match the stored one.
    CasMismatch,
    /// The record under the key has passed its expiration time.
    ItemExpired,
    /// The record under the key is of the wrong kind for the operation.
    TypeMismatch,
    /// The key is longer than the 250-byte limit on key bytes.
    KeyTooLarge,
}

pub type StorageResult<T> = Result<T, StorageError>;

} // verus!
