//! The MySQL backend: which statement each operation sends, and what the
//! database's reply means to the caller. Sending is left to the caller.

use vstd::prelude::*;
use crate::clock::now_micros;
use crate::driver::Failure;
use crate::errors::DbError;
use crate::record::{ids_of, ShortUrlRecord};
use crate::statement::{
    joined, name_list, placeholder_list, placeholders, text_args, Arg, ArgModel, Statement,
    StatementModel,
};

verus! {

/// An index of the table.
#[derive(Clone, Debug, PartialEq, Eq)]
pub struct IndexDefinition {
    pub name: String,
    pub table: String,
    pub unique: bool,
    pub columns: Vec<String>,
}

pub open spec fn create_table_sql() -> Seq<char> {
    "CREATE TABLE IF NOT EXISTS short_urls (id BIGINT AUTO_INCREMENT PRIMARY KEY, short_id VARCHAR(32) NOT NULL, original_url TEXT NOT NULL, created_ts BIGINT NOT NULL);"@
}

pub open spec fn index_exists_sql() -> Seq<char> {
    "SELECT 1 FROM information_schema.statistics WHERE table_schema = DATABASE() AND table_name = ? AND index_name = ?;"@
}

/// The text that creates an index named `name` on `columns` of `table`.
pub open spec fn create_index_sql(
    name: Seq<char>,
    table: Seq<char>,
    unique: bool,
    columns: Seq<Seq<char>>,
) -> Seq<char> {
    (if unique {
        "CREATE UNIQUE INDEX "@
    } else {
        "CREATE INDEX "@
    }) + name + " ON "@ + table + " ("@ + joined(columns) + ");"@
}

pub open spec fn add_sql() -> Seq<char> {
    "INSERT INTO short_urls (short_id, original_url, created_ts) VALUES (?, ?, ?);"@
}

pub open spec fn remove_sql() -> Seq<char> {
    "DELETE FROM short_urls WHERE short_id = ?;"@
}

pub open spec fn get_sql() -> Seq<char> {
    "SELECT short_id, original_url FROM short_urls WHERE short_id = ?;"@
}

pub open spec fn list_sql() -> Seq<char> {
    "SELECT short_id, original_url FROM short_urls ORDER BY created_ts DESC"@
}

pub open spec fn contains_sql() -> Seq<char> {
    "SELECT 1 FROM short_urls WHERE short_id = ?;"@
}

pub open spec fn len_sql() -> Seq<char> {
    "SELECT COUNT(*) AS num FROM short_urls;"@
}

pub open spec fn clear_sql() -> Seq<char> {
    "DELETE FROM short_urls;"@
}

pub open spec fn get_expired_sql() -> Seq<char> {
    "SELECT short_id FROM short_urls WHERE created_ts < ?"@
}

pub open spec fn limit_sql() -> Seq<char> {
    " LIMIT ?"@
}

/// The text that deletes the rows of `n` short ids, `n` at least one.
pub open spec fn batch_remove_sql(n: nat) -> Seq<char> {
    "DELETE FROM short_urls WHERE short_id IN ("@ + placeholders(n) + ")"@
}

/// The text `sql`, followed by the limit clause where a limit is given.
pub open spec fn with_limit_sql(sql: Seq<char>, limit: Option<i64>) -> Seq<char> {
    match limit {
        Some(_) => sql + limit_sql(),
        None => sql,
    }
}

/// The arguments `args`, followed by the limit where one is given.
pub open spec fn with_limit_args(args: Seq<ArgModel>, limit: Option<i64>) -> Seq<ArgModel> {
    match limit {
        Some(n) => args.push(ArgModel::Int(n as int)),
        None => args,
    }
}

/// A statement without arguments.
fn plain(sql: &str) -> (stmt: Statement)
    ensures
        stmt@ == (StatementModel { sql: sql@, args: Seq::empty() }),
{
    let stmt = Statement { sql: sql.to_owned(), args: Vec::new() };
    assert(stmt@.args =~= Seq::<ArgModel>::empty());
    stmt
}

/// A statement that binds one short id.
fn keyed(sql: &str, short_id: &str) -> (stmt: Statement)
    ensures
        stmt@ == (StatementModel { sql: sql@, args: seq![ArgModel::Text(short_id@)] }),
{
    let mut args: Vec<Arg> = Vec::new();
    args.push(Arg::Text(short_id.to_owned()));
    let stmt = Statement { sql: sql.to_owned(), args };
    assert(stmt@.args =~= seq![ArgModel::Text(short_id@)]);
    stmt
}

/// Appends the limit clause and its argument where a limit is given.
fn limited(stmt: Statement, limit: Option<i64>) -> (out: Statement)
    ensures
        out@.sql == with_limit_sql(stmt@.sql, limit),
        out@.args == with_limit_args(stmt@.args, limit),
{
    match limit {
        Some(n) => {
            let mut out = stmt;
            let ghost before = out@.args;
            out.sql.append(" LIMIT ?");
            out.args.push(Arg::Int(n));
            assert(out@.args =~= before.push(ArgModel::Int(n as int)));
            out
        },
        None => stmt,
    }
}

/// The short-URL store on MySQL.
pub struct MysqlShortUrl {}

impl MysqlShortUrl {
    pub fn new() -> (store: MysqlShortUrl) {
        MysqlShortUrl {  }
    }

    /// The statement that creates the table where it is missing.
    pub fn create_table_statement(&self) -> (stmt: Statement)
        ensures
            stmt@ == (StatementModel { sql: create_table_sql(), args: Seq::empty() }),
    {
        plain(
            "CREATE TABLE IF NOT EXISTS short_urls (id BIGINT AUTO_INCREMENT PRIMARY KEY, short_id VARCHAR(32) NOT NULL, original_url TEXT NOT NULL, created_ts BIGINT NOT NULL);",
        )
    }

    /// The table's two indexes: a unique one on the short id, and one on the
    /// creation time.
    pub fn index_definitions(&self) -> (indexes: Vec<IndexDefinition>)
        ensures
            indexes@.len() == 2,
            indexes@[0].name@ == "short_urls_short_id_idx"@,
            indexes@[0].table@ == "short_urls"@,
            indexes@[0].unique,
            indexes@[0].columns@.len() == 1,
            indexes@[0].columns@[0]@ == "short_id"@,
            indexes@[1].name@ == "short_urls_created_ts_idx"@,
            indexes@[1].table@ == "short_urls"@,
            !indexes@[1].unique,
            indexes@[1].columns@.len() == 1,
            indexes@[1].columns@[0]@ == "created_ts"@,
    {
        let mut key_columns: Vec<String> = Vec::new();
        key_columns.push("short_id".to_owned());
        let mut time_columns: Vec<String> = Vec::new();
        time_columns.push("created_ts".to_owned());
        let mut indexes: Vec<IndexDefinition> = Vec::new();
        indexes.push(
            IndexDefinition {
                name: "short_urls_short_id_idx".to_owned(),
                table: "short_urls".to_owned(),
                unique: true,
                columns: key_columns,
            },
        );
        indexes.push(
            IndexDefinition {
                name: "short_urls_created_ts_idx".to_owned(),
                table: "short_urls".to_owned(),
                unique: false,
                columns: time_columns,
            },
        );
        indexes
    }

    /// The statement that reads one marker row for each column of `index`
    /// where the index exists.
    pub fn index_exists_statement(&self, index: &IndexDefinition) -> (stmt: Statement)
        ensures
            stmt@ == (StatementModel {
                sql: index_exists_sql(),
                args: seq![ArgModel::Text(index.table@), ArgModel::Text(index.name@)],
            }),
    {
        let mut args: Vec<Arg> = Vec::new();
        args.push(Arg::Text(index.table.clone()));
        args.push(Arg::Text(index.name.clone()));
        let stmt = Statement {
            sql: "SELECT 1 FROM information_schema.statistics WHERE table_schema = DATABASE() AND table_name = ? AND index_name = ?;".to_owned(),
            args,
        };
        assert(stmt@.args =~= seq![ArgModel::Text(index.table@), ArgModel::Text(index.name@)]);
        stmt
    }

    /// What the reply to the query for an index means: the index is missing
    /// where no row came back; a failure is a schema error.
    pub fn index_missing(&self, outcome: Result<usize, Failure>) -> (res: Result<bool, DbError>)
        ensures
            res == match outcome {
                Ok(rows) => Ok::<bool, DbError>(rows == 0),
                Err(_) => Err(DbError::SchemaError),
            },
    {
        match outcome {
            Ok(rows) => Ok(rows == 0),
            Err(_) => Err(DbError::SchemaError),
        }
    }

    /// The statement that creates `index`.
    pub fn create_index_statement(&self, index: &IndexDefinition) -> (stmt: Statement)
        ensures
            stmt@ == (StatementModel {
                sql: create_index_sql(
                    index.name@,
                    index.table@,
                    index.unique,
                    ids_of(index.columns@),
                ),
                args: Seq::empty(),
            }),
    {
        let mut sql = if index.unique {
            "CREATE UNIQUE INDEX ".to_owned()
        } else {
            "CREATE INDEX ".to_owned()
        };
        sql.append(index.name.as_str());
        sql.append(" ON ");
        sql.append(index.table.as_str());
        sql.append(" (");
        let columns = name_list(&index.columns);
        sql.append(columns.as_str());
        sql.append(");");
        let stmt = Statement { sql, args: Vec::new() };
        assert(stmt@.args =~= Seq::<ArgModel>::empty());
        stmt
    }

    /// What a reply to a schema statement means: any failure is a schema
    /// error.
    pub fn schema_reply(&self, outcome: Result<(), Failure>) -> (res: Result<(), DbError>)
        ensures
            res is Ok <==> outcome is Ok,
            outcome is Err ==> res == Err::<(), DbError>(DbError::SchemaError),
    {
        match outcome {
            Ok(()) => Ok(()),
            Err(_) => Err(DbError::SchemaError),
        }
    }

    /// The statement that inserts a row created at the clock's present
    /// reading.
    pub fn add_statement(&self, short_id: &str, original_url: &str) -> (stmt: Statement)
        ensures
            exists|created_ts: i64|
                stmt@ == (StatementModel {
                    sql: add_sql(),
                    args: seq![
                        ArgModel::Text(short_id@),
                        ArgModel::Text(original_url@),
                        ArgModel::Int(created_ts as int),
                    ],
                }),
    {
        let created_ts: i64 = now_micros();
        self.add_statement_at(short_id, original_url, created_ts)
    }

    /// The statement that inserts a row created at `created_ts`.
    pub fn add_statement_at(&self, short_id: &str, original_url: &str, created_ts: i64) -> (stmt:
        Statement)
        ensures
            stmt@ == (StatementModel {
                sql: add_sql(),
                args: seq![
                    ArgModel::Text(short_id@),
                    ArgModel::Text(original_url@),
                    ArgModel::Int(created_ts as int),
                ],
            }),
    {
        let mut args: Vec<Arg> = Vec::new();
        args.push(Arg::Text(short_id.to_owned()));
        args.push(Arg::Text(original_url.to_owned()));
        args.push(Arg::Int(created_ts));
        let stmt = Statement {
            sql: "INSERT INTO short_urls (short_id, original_url, created_ts) VALUES (?, ?, ?);".to_owned(),
            args,
        };
        assert(stmt@.args =~= seq![
            ArgModel::Text(short_id@),
            ArgModel::Text(original_url@),
            ArgModel::Int(created_ts as int),
        ]);
        stmt
    }

    /// What the reply to an insert means: a refused duplicate is a unique
    /// violation, any other failure a store error.
    pub fn add_reply(&self, outcome: Result<(), Failure>) -> (res: Result<(), DbError>)
        ensures
            res == match outcome {
                Ok(()) => Ok::<(), DbError>(()),
                Err(Failure::UniqueViolation) => Err(DbError::UniqueViolation),
                Err(_) => Err(DbError::StoreError),
            },
    {
        match outcome {
            Ok(()) => Ok(()),
            Err(Failure::UniqueViolation) => Err(DbError::UniqueViolation),
            Err(_) => Err(DbError::StoreError),
        }
    }

    /// What the reply to a point lookup means: the record where one came
    /// back; not found where no row matched; else a store error.
    pub fn get_reply(&self, outcome: Result<ShortUrlRecord, Failure>) -> (res: Result<
        ShortUrlRecord,
        DbError,
    >)
        ensures
            res == match outcome {
                Ok(record) => Ok::<ShortUrlRecord, DbError>(record),
                Err(Failure::RowNotFound) => Err(DbError::NotFound),
                Err(_) => Err(DbError::StoreError),
            },
    {
        match outcome {
            Ok(record) => Ok(record),
            Err(Failure::RowNotFound) => Err(DbError::NotFound),
            Err(_) => Err(DbError::StoreError),
        }
    }

    /// What the reply to a deletion, a listing or a query for expired short
    /// ids means: the value on success, a store error on any failure.
    pub fn data_reply<T>(&self, outcome: Result<T, Failure>) -> (res: Result<T, DbError>)
        ensures
            res == match outcome {
                Ok(value) => Ok::<T, DbError>(value),
                Err(_) => Err(DbError::StoreError),
            },
    {
        match outcome {
            Ok(value) => Ok(value),
            Err(_) => Err(DbError::StoreError),
        }
    }

    /// The statement that deletes the row of `short_id`.
    pub fn remove_statement(&self, short_id: &str) -> (stmt: Statement)
        ensures
            stmt@ == (StatementModel { sql: remove_sql(), args: seq![ArgModel::Text(short_id@)] }),
    {
        keyed("DELETE FROM short_urls WHERE short_id = ?;", short_id)
    }

    /// The statement that reads the record of `short_id`.
    pub fn get_statement(&self, short_id: &str) -> (stmt: Statement)
        ensures
            stmt@ == (StatementModel { sql: get_sql(), args: seq![ArgModel::Text(short_id@)] }),
    {
        keyed("SELECT short_id, original_url FROM short_urls WHERE short_id = ?;", short_id)
    }

    /// The statement that reads the records, newest first, under an optional
    /// limit.
    pub fn list_statement(&self, limit: Option<i64>) -> (stmt: Statement)
        ensures
            stmt@ == (StatementModel {
                sql: with_limit_sql(list_sql(), limit),
                args: with_limit_args(Seq::empty(), limit),
            }),
    {
        limited(
            plain("SELECT short_id, original_url FROM short_urls ORDER BY created_ts DESC"),
            limit,
        )
    }

    /// The statement that reads one marker row for each row of `short_id`.
    pub fn contains_statement(&self, short_id: &str) -> (stmt: Statement)
        ensures
            stmt@ == (StatementModel { sql: contains_sql(), args: seq![ArgModel::Text(short_id@)] }),
    {
        keyed("SELECT 1 FROM short_urls WHERE short_id = ?;", short_id)
    }

    /// What the reply to the marker query means: the short id is stored where at
    /// least one row came back.
    pub fn contains_reply(&self, outcome: Result<usize, Failure>) -> (res: Result<bool, DbError>)
        ensures
            res == match outcome {
                Ok(rows) => Ok::<bool, DbError>(rows > 0),
                Err(_) => Err(DbError::StoreError),
            },
    {
        match outcome {
            Ok(rows) => Ok(rows > 0),
            Err(_) => Err(DbError::StoreError),
        }
    }

    /// The statement that counts the rows, in a column named `num`.
    pub fn len_statement(&self) -> (stmt: Statement)
        ensures
            stmt@ == (StatementModel { sql: len_sql(), args: Seq::empty() }),
    {
        plain("SELECT COUNT(*) AS num FROM short_urls;")
    }

    /// What the reply to the count means. A failed request, a row without a
    /// readable `num` (`None`) and a number that is no `usize` all count as
    /// zero rows.
    pub fn len_reply(&self, outcome: Result<Option<i64>, Failure>) -> (n: usize)
        ensures
            n == match outcome {
                Ok(Some(num)) if 0 <= num <= usize::MAX => num as usize,
                _ => 0usize,
            },
    {
        match outcome {
            Ok(Some(num)) => {
                if num >= 0 && num as u64 <= usize::MAX as u64 {
                    num as usize
                } else {
                    0
                }
            },
            _ => 0,
        }
    }

    /// What the reply to the count means for `is_empty`.
    pub fn is_empty_reply(&self, outcome: Result<Option<i64>, Failure>) -> (b: bool)
        ensures
            b == !(outcome matches Ok(Some(num)) && 0 < num <= usize::MAX),
    {
        self.len_reply(outcome) == 0
    }

    /// The statement that deletes every row.
    pub fn clear_statement(&self) -> (stmt: Statement)
        ensures
            stmt@ == (StatementModel { sql: clear_sql(), args: Seq::empty() }),
    {
        plain("DELETE FROM short_urls;")
    }

    /// What the reply to the deletion of every row means: success, whatever came back.
    pub fn clear_reply(&self, outcome: Result<(), Failure>) -> (res: Result<(), DbError>)
        ensures
            res is Ok,
    {
        Ok(())
    }

    /// The statement that reads the short ids of the rows created strictly
    /// before `expired_before`, under an optional limit.
    pub fn get_expired_statement(&self, expired_before: i64, limit: Option<i64>) -> (stmt: Statement)
        ensures
            stmt@ == (StatementModel {
                sql: with_limit_sql(get_expired_sql(), limit),
                args: with_limit_args(seq![ArgModel::Int(expired_before as int)], limit),
            }),
    {
        let mut args: Vec<Arg> = Vec::new();
        args.push(Arg::Int(expired_before));
        let stmt = Statement {
            sql: "SELECT short_id FROM short_urls WHERE created_ts < ?".to_owned(),
            args,
        };
        assert(stmt@.args =~= seq![ArgModel::Int(expired_before as int)]);
        limited(stmt, limit)
    }

    /// The statement that deletes the rows of `short_ids`, with one
    /// placeholder for each; none where the list is empty, for then there
    /// is nothing to send.
    pub fn batch_remove_statement(&self, short_ids: &Vec<String>) -> (stmt: Option<Statement>)
        ensures
            stmt is None <==> short_ids@.len() == 0,
            stmt matches Some(s) ==> s@ == (StatementModel {
                sql: batch_remove_sql(short_ids@.len()),
                args: short_ids@.map_values(|id: String| ArgModel::Text(id@)),
            }),
    {
        if short_ids.is_empty() {
            return None;
        }
        let mut sql = "DELETE FROM short_urls WHERE short_id IN (".to_owned();
        let list = placeholder_list(short_ids.len());
        sql.append(list.as_str());
        sql.append(")");
        let stmt = Statement { sql, args: text_args(short_ids) };
        assert(stmt@.args =~= short_ids@.map_values(|id: String| ArgModel::Text(id@)));
        Some(stmt)
    }
}

impl Default for MysqlShortUrl {
    fn default() -> (store: MysqlShortUrl) {
        MysqlShortUrl::new()
    }
}

} // verus!
