//! Shared pieces of the repository layer: the error taxonomy that every
//! backend reports, and the classification of raw store failures into it.

use vstd::prelude::*;

pub mod label;
pub mod todo;

verus! {

/// The closed set of failures a repository operation can report.
///
/// `NotFound` and `Duplicate` carry the id of the record concerned;
/// `UnexpectedError` carries the underlying store's message, opaque to callers.
#[derive(Debug, PartialEq, Eq)]
pub enum RepositoryError {
    Duplicate(i32),
    UnexpectedError(String),
    NotFound(i32),
}

impl Clone for RepositoryError {
    fn clone(&self) -> (res: Self)
        ensures
            res == *self,
    {
        match self {
            RepositoryError::Duplicate(id) => RepositoryError::Duplicate(*id),
            RepositoryError::UnexpectedError(message) => RepositoryError::UnexpectedError(
                message.clone(),
            ),
            RepositoryError::NotFound(id) => RepositoryError::NotFound(*id),
        }
    }
}

/// The boundary rule on free text handed to a create operation: non-empty
/// and at most 100 characters.
pub open spec fn within_length_bounds(s: Seq<char>) -> bool {
    1 <= s.len() <= 100
}

/// How a failed single-row lookup is classified: a missing row means the
/// referenced record does not exist, anything else is an unexpected failure.
pub open spec fn classified_error(row_not_found: bool, message: String, id: i32) -> RepositoryError {
    if row_not_found {
        RepositoryError::NotFound(id)
    } else {
        RepositoryError::UnexpectedError(message)
    }
}

/// Turns the outcome of a failed single-row query against the durable store
/// into the domain error for the record with the given id.
pub fn classify_query_error(row_not_found: bool, message: String, id: i32) -> (e: RepositoryError)
    ensures
        e == classified_error(row_not_found, message, id),
{
    if row_not_found {
        RepositoryError::NotFound(id)
    } else {
        RepositoryError::UnexpectedError(message)
    }
}

/// How the result of a deletion against the durable store is read: removing
/// zero rows means the record was never there, so the delete reports `NotFound`.
pub open spec fn delete_outcome(rows_affected: u64, id: i32) -> Result<(), RepositoryError> {
    if rows_affected == 0 {
        Err(RepositoryError::NotFound(id))
    } else {
        Ok(())
    }
}

/// Decides whether a deletion that affected `rows_affected` rows removed the
/// record with the given id.
pub fn decide_delete(rows_affected: u64, id: i32) -> (r: Result<(), RepositoryError>)
    ensures
        r == delete_outcome(rows_affected, id),
{
    if rows_affected == 0 {
        Err(RepositoryError::NotFound(id))
    } else {
        Ok(())
    }
}

} // verus!
