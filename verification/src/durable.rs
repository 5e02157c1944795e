//! The decision logic of the durable (relational) backend.
//!
//! That backend issues its statements through a SQL driver outside the
//! verified core; every decision it takes between two statements is a
//! function from plain values to plain values and lives here, verified.
//! The driver loop hands in what a statement returned and performs what
//! these functions decide.

use crate::errors::RepositoryError;
use crate::label::{Label, UpdateLabel};
use crate::todo::{Todo, UpdateTodo};
use vstd::prelude::*;

verus! {

/// Whether a label create proceeds, given what the uniqueness probe
/// (`select id, name from labels where name = $1`) returned: an existing
/// row rejects the create as `Duplicate` of that row's id and nothing is
/// inserted; no row lets the insert proceed.
pub fn label_create_verdict(probe: Option<Label>) -> (r: Result<(), RepositoryError>)
    ensures
        match probe {
            Some(l) => r == Err::<(), RepositoryError>(RepositoryError::Duplicate(l@.id as i32)),
            None => r == Ok::<(), RepositoryError>(()),
        },
{
    match probe {
        Some(l) => Err(RepositoryError::Duplicate(l.id)),
        None => Ok(()),
    }
}

/// Maps a driver failure on a row operation for `id` onto the taxonomy:
/// a missing row is `NotFound(id)`; any other failure is `Unexpected`,
/// carrying the driver's message and nothing else.
pub fn map_row_error(row_not_found: bool, message: String, id: i32) -> (r: RepositoryError)
    ensures
        row_not_found ==> r == RepositoryError::NotFound(id),
        !row_not_found ==> match r {
            RepositoryError::Unexpected(m) => m@ == message@,
            _ => false,
        },
{
    if row_not_found {
        RepositoryError::NotFound(id)
    } else {
        RepositoryError::Unexpected(message)
    }
}

/// Whether a delete found its row: a statement that affected no row means
/// no entity carried `id`, which is `NotFound(id)`; affecting a row means
/// the delete fully applied.
pub fn delete_verdict(rows_affected: u64, id: i32) -> (r: Result<(), RepositoryError>)
    ensures
        rows_affected == 0 ==> r == Err::<(), RepositoryError>(RepositoryError::NotFound(id)),
        rows_affected != 0 ==> r == Ok::<(), RepositoryError>(()),
{
    if rows_affected == 0 {
        Err(RepositoryError::NotFound(id))
    } else {
        Ok(())
    }
}

/// The row the durable backend writes for a label partial update: the
/// stored row, with the name replaced when the command supplies one and
/// retained when it does not.
pub fn coalesce_label_update(current: Label, payload: UpdateLabel) -> (r: Label)
    ensures
        r@.id == current@.id,
        r@.name == match payload.name {
            Some(n) => n@,
            None => current@.name,
        },
        payload.name is None ==> r@ == current@,
{
    match payload.name {
        Some(n) => Label { id: current.id, name: n },
        None => current,
    }
}

/// The row the durable backend writes for an item partial update: the
/// stored row, with each field replaced when the command supplies it and
/// retained when it does not.
pub fn coalesce_todo_update(current: Todo, payload: UpdateTodo) -> (r: Todo)
    ensures
        r@.id == current@.id,
        r@.text == match payload.text {
            Some(x) => x@,
            None => current@.text,
        },
        r@.completed == match payload.completed {
            Some(c) => c,
            None => current@.completed,
        },
        (payload.text is None && payload.completed is None) ==> r@ == current@,
{
    let text = match payload.text {
        Some(x) => x,
        None => current.text,
    };
    let completed = match payload.completed {
        Some(c) => c,
        None => current.completed,
    };
    Todo { id: current.id, text, completed }
}

} // verus!
