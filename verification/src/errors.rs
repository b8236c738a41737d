//! The error kinds that cross the storage interface.

use vstd::prelude::*;

verus! {

/// Why a storage operation failed.
#[derive(Clone, Copy, Debug, PartialEq, Eq, Structural)]
pub enum DbError {
    /// The table or one of its indexes could not be created.
    SchemaError,
    /// An insert met a short id that is already stored.
    UniqueViolation,
    /// A point lookup matched no row.
    NotFound,
    /// The backend or the connection to it failed.
    StoreError,
}

} // verus!
