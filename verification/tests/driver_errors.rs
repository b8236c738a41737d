use std::error::Error as StdError;
use std::fmt;

use short_url::driver::{failure_from, outcome_of, Failure};
use short_url::errors::DbError;
use short_url::mysql::MysqlShortUrl;
use sqlx::error::{DatabaseError, ErrorKind};

/// An error as a database would report it, of a chosen kind.
#[derive(Debug)]
struct Reported {
    unique: bool,
}

impl fmt::Display for Reported {
    fn fmt(&self, f: &mut fmt::Formatter<'_>) -> fmt::Result {
        f.write_str(self.message())
    }
}

impl StdError for Reported {}

impl DatabaseError for Reported {
    fn message(&self) -> &str {
        "reported by the database"
    }

    fn kind(&self) -> ErrorKind {
        if self.unique {
            ErrorKind::UniqueViolation
        } else {
            ErrorKind::ForeignKeyViolation
        }
    }

    fn as_error(&self) -> &(dyn StdError + Send + Sync + 'static) {
        self
    }

    fn as_error_mut(&mut self) -> &mut (dyn StdError + Send + Sync + 'static) {
        self
    }

    fn into_error(self: Box<Self>) -> Box<dyn StdError + Send + Sync + 'static> {
        self
    }
}

fn reported(unique: bool) -> sqlx::Error {
    sqlx::Error::Database(Box::new(Reported { unique }))
}

#[test]
fn a_value_passes_through() {
    assert_eq!(outcome_of(Ok(5u8)), Ok(5u8));
    assert_eq!(outcome_of(Ok("row".to_string())), Ok("row".to_string()));
}

#[test]
fn a_missing_row_is_told_apart() {
    assert_eq!(outcome_of::<()>(Err(sqlx::Error::RowNotFound)), Err(Failure::RowNotFound));
}

#[test]
fn a_unique_violation_is_told_apart() {
    assert_eq!(outcome_of::<()>(Err(reported(true))), Err(Failure::UniqueViolation));
}

#[test]
fn another_database_error_is_not_a_unique_violation() {
    assert_eq!(outcome_of::<()>(Err(reported(false))), Err(Failure::Other));
}

#[test]
fn driver_errors_are_other_failures() {
    assert_eq!(outcome_of::<()>(Err(sqlx::Error::PoolTimedOut)), Err(Failure::Other));
    assert_eq!(outcome_of::<()>(Err(sqlx::Error::Protocol("broken".to_string()))), Err(Failure::Other));
    assert_eq!(outcome_of::<()>(Err(sqlx::Error::WorkerCrashed)), Err(Failure::Other));
}

#[test]
fn a_refused_duplicate_reaches_the_caller_as_unique_violation() {
    let store = MysqlShortUrl::new();
    assert_eq!(store.add_reply(outcome_of(Err(reported(true)))), Err(DbError::UniqueViolation));
    assert_eq!(store.add_reply(outcome_of(Err(reported(false)))), Err(DbError::StoreError));
    assert_eq!(store.add_reply(outcome_of(Err(sqlx::Error::PoolClosed))), Err(DbError::StoreError));
    assert_eq!(store.add_reply(outcome_of(Ok(()))), Ok(()));
}

#[test]
fn a_lookup_without_a_row_reaches_the_caller_as_not_found() {
    let store = MysqlShortUrl::new();
    assert_eq!(store.get_reply(outcome_of(Err(sqlx::Error::RowNotFound))), Err(DbError::NotFound));
    assert_eq!(store.get_reply(outcome_of(Err(sqlx::Error::PoolTimedOut))), Err(DbError::StoreError));
}

#[test]
fn failure_kind_for_each_pair_of_answers() {
    assert_eq!(failure_from(true, false), Failure::UniqueViolation);
    assert_eq!(failure_from(true, true), Failure::UniqueViolation);
    assert_eq!(failure_from(false, true), Failure::RowNotFound);
    assert_eq!(failure_from(false, false), Failure::Other);
}
