//! Storage of short-URL records.
//!
//! `model` is the table as mathematics and `laws` what holds of it;
//! `memory` is a store that keeps the table in memory; `mysql` says which
//! statement the MySQL backend sends for each operation and what the reply
//! means, with `driver` telling the driver's errors apart and `clock`
//! reading the time.

pub mod clock;
pub mod driver;
pub mod errors;
pub mod laws;
pub mod memory;
pub mod model;
pub mod mysql;
pub mod record;
pub mod statement;
