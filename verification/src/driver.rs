//! What the database driver hands back, told apart as far as the store
//! needs it.

use vstd::prelude::*;

verus! {

/// The driver's error type, `sqlx::Error`. A value of it is carried through
/// and asked what it is; what it holds is not looked into.
#[verifier::external_type_specification]
#[verifier::external_body]
pub struct ExDriverError(sqlx::Error);

/// How a request failed, as far as the store tells failures apart.
#[derive(Clone, Copy, Debug, PartialEq, Eq, Structural)]
pub enum Failure {
    /// The database refused a row for a unique index.
    UniqueViolation,
    /// A query that asks for one row found none.
    RowNotFound,
    /// Anything else: the connection, the protocol, the driver.
    Other,
}

/// Whether the database reported `error` as a violation of a unique or
/// primary key: the answer of `DatabaseError::is_unique_violation` where
/// `error` is `sqlx::Error::Database`, and `false` for every other variant.
pub uninterp spec fn reports_unique_violation(error: sqlx::Error) -> bool;

/// Whether `error` is the variant `sqlx::Error::RowNotFound`, which the
/// driver returns where a query that asks for one row found none.
pub uninterp spec fn reports_row_not_found(error: sqlx::Error) -> bool;

/// The kind of failure, from what the driver says of its error: a refused
/// duplicate first, then a missing row, and all the rest is an other
/// failure.
pub open spec fn failure_kind(unique_violation: bool, row_not_found: bool) -> Failure {
    if unique_violation {
        Failure::UniqueViolation
    } else if row_not_found {
        Failure::RowNotFound
    } else {
        Failure::Other
    }
}

/// Asks the database's own error, where `error` is `sqlx::Error::Database`,
/// through `DatabaseError::is_unique_violation`; any other variant gives
/// `false`. The answer is a matter of the error alone and goes by the name
/// `reports_unique_violation`; what it is for a given error is the
/// driver's to say.
#[verifier::external_body]
fn is_unique_violation(error: &sqlx::Error) -> (unique: bool)
    ensures
        unique == reports_unique_violation(*error),
{
    match error {
        sqlx::Error::Database(e) => e.is_unique_violation(),
        _ => false,
    }
}

/// Whether `error` is the variant `sqlx::Error::RowNotFound`, which
/// `fetch_one` returns where the query gave no row. The answer is a matter
/// of the error alone and goes by the name `reports_row_not_found`.
#[verifier::external_body]
fn is_row_not_found(error: &sqlx::Error) -> (missing: bool)
    ensures
        missing == reports_row_not_found(*error),
{
    matches!(error, sqlx::Error::RowNotFound)
}

/// The kind of failure that `error` is to the store.
fn failure_of(error: &sqlx::Error) -> (failure: Failure)
    ensures
        failure == failure_kind(reports_unique_violation(*error), reports_row_not_found(*error)),
{
    let unique_violation: bool = is_unique_violation(error);
    let row_not_found: bool = is_row_not_found(error);
    failure_from(unique_violation, row_not_found)
}

/// The driver's result with its error told apart: a value passes through,
/// and an error becomes the kind of failure that the driver reports it as.
pub fn outcome_of<T>(result: Result<T, sqlx::Error>) -> (outcome: Result<T, Failure>)
    ensures
        match result {
            Ok(value) => outcome == Ok::<T, Failure>(value),
            Err(error) => outcome == Err::<T, Failure>(
                failure_kind(reports_unique_violation(error), reports_row_not_found(error)),
            ),
        },
{
    match result {
        Ok(value) => Ok(value),
        Err(error) => Err(failure_of(&error)),
    }
}

/// The kind of failure for a given pair of answers of the driver.
pub fn failure_from(unique_violation: bool, row_not_found: bool) -> (failure: Failure)
    ensures
        failure == Failure::UniqueViolation <==> unique_violation,
        failure == Failure::RowNotFound <==> !unique_violation && row_not_found,
        failure == Failure::Other <==> !unique_violation && !row_not_found,
{
    if unique_violation {
        Failure::UniqueViolation
    } else if row_not_found {
        Failure::RowNotFound
    } else {
        Failure::Other
    }
}

} // verus!
