use vstd::prelude::*;

verus! {

/// The closed error taxonomy shared by every repository backend.
///
/// Every repository operation either succeeds with a value or fails with
/// exactly one of these kinds; raw storage errors never cross the repository
/// boundary.
#[derive(Debug, PartialEq, Eq)]
pub enum RepositoryError {
    /// No entity with the carried id exists for a lookup, update or delete.
    NotFound(i32),
    /// A create violated a uniqueness rule; the carried id identifies the
    /// pre-existing conflicting entity.
    Duplicate(i32),
    /// Any other storage-layer failure, carrying a diagnostic string and
    /// nothing else of the storage implementation.
    Unexpected(String),
}

} // verus!
