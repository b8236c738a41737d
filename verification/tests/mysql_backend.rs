use short_url::errors::DbError;
use short_url::mysql::{IndexDefinition, MysqlShortUrl};
use short_url::record::ShortUrlRecord;
use short_url::driver::Failure;
use short_url::statement::{name_list, placeholder_list, text_args, Arg, Statement};

fn text(s: &str) -> Arg {
    Arg::Text(s.to_string())
}

#[test]
fn create_table_statement_text() {
    let stmt = MysqlShortUrl::new().create_table_statement();
    assert_eq!(
        stmt.sql,
        "CREATE TABLE IF NOT EXISTS short_urls (id BIGINT AUTO_INCREMENT PRIMARY KEY, short_id VARCHAR(32) NOT NULL, original_url TEXT NOT NULL, created_ts BIGINT NOT NULL);"
    );
    assert!(stmt.args.is_empty());
}

#[test]
fn index_definitions_name_both_indexes() {
    let indexes = MysqlShortUrl::default().index_definitions();
    assert_eq!(indexes.len(), 2);
    assert_eq!(indexes[0].name, "short_urls_short_id_idx");
    assert_eq!(indexes[0].table, "short_urls");
    assert!(indexes[0].unique);
    assert_eq!(indexes[0].columns, vec!["short_id".to_string()]);
    assert_eq!(indexes[1].name, "short_urls_created_ts_idx");
    assert_eq!(indexes[1].table, "short_urls");
    assert!(!indexes[1].unique);
    assert_eq!(indexes[1].columns, vec!["created_ts".to_string()]);
}

#[test]
fn schema_reply_turns_any_failure_into_a_schema_error() {
    let store = MysqlShortUrl::new();
    assert_eq!(store.schema_reply(Ok(())), Ok(()));
    assert_eq!(store.schema_reply(Err(Failure::Other)), Err(DbError::SchemaError));
    assert_eq!(store.schema_reply(Err(Failure::UniqueViolation)), Err(DbError::SchemaError));
    assert_eq!(store.schema_reply(Err(Failure::RowNotFound)), Err(DbError::SchemaError));
}

#[test]
fn add_statement_binds_key_url_and_time() {
    let stmt = MysqlShortUrl::new().add_statement_at("abc123", "https://example.com/a", 1_700_000_000_000_000);
    assert_eq!(
        stmt,
        Statement {
            sql: "INSERT INTO short_urls (short_id, original_url, created_ts) VALUES (?, ?, ?);".to_string(),
            args: vec![text("abc123"), text("https://example.com/a"), Arg::Int(1_700_000_000_000_000)],
        }
    );
}

#[test]
fn add_reply_names_the_unique_violation() {
    let store = MysqlShortUrl::new();
    assert_eq!(store.add_reply(Ok(())), Ok(()));
    assert_eq!(store.add_reply(Err(Failure::UniqueViolation)), Err(DbError::UniqueViolation));
    assert_eq!(store.add_reply(Err(Failure::Other)), Err(DbError::StoreError));
    assert_eq!(store.add_reply(Err(Failure::RowNotFound)), Err(DbError::StoreError));
}

#[test]
fn remove_get_and_contains_statements_bind_the_key() {
    let store = MysqlShortUrl::new();
    assert_eq!(
        store.remove_statement("abc123"),
        Statement { sql: "DELETE FROM short_urls WHERE short_id = ?;".to_string(), args: vec![text("abc123")] }
    );
    assert_eq!(
        store.get_statement("abc123"),
        Statement {
            sql: "SELECT short_id, original_url FROM short_urls WHERE short_id = ?;".to_string(),
            args: vec![text("abc123")],
        }
    );
    assert_eq!(
        store.contains_statement("abc123"),
        Statement { sql: "SELECT 1 FROM short_urls WHERE short_id = ?;".to_string(), args: vec![text("abc123")] }
    );
}

#[test]
fn get_reply_names_the_missing_row() {
    let store = MysqlShortUrl::new();
    let record = ShortUrlRecord::new("abc123", "https://example.com/a");
    assert_eq!(store.get_reply(Ok(record.clone())), Ok(record));
    assert_eq!(store.get_reply(Err(Failure::RowNotFound)), Err(DbError::NotFound));
    assert_eq!(store.get_reply(Err(Failure::Other)), Err(DbError::StoreError));
    assert_eq!(store.get_reply(Err(Failure::UniqueViolation)), Err(DbError::StoreError));
}

#[test]
fn data_reply_turns_any_failure_into_a_store_error() {
    let store = MysqlShortUrl::new();
    assert_eq!(store.data_reply(Ok(vec![1u8, 2])), Ok(vec![1u8, 2]));
    assert_eq!(store.data_reply::<()>(Err(Failure::Other)), Err(DbError::StoreError));
    assert_eq!(store.data_reply::<()>(Err(Failure::RowNotFound)), Err(DbError::StoreError));
    assert_eq!(store.data_reply::<()>(Err(Failure::UniqueViolation)), Err(DbError::StoreError));
}

#[test]
fn list_statement_with_and_without_limit() {
    let store = MysqlShortUrl::new();
    assert_eq!(
        store.list_statement(None),
        Statement {
            sql: "SELECT short_id, original_url FROM short_urls ORDER BY created_ts DESC".to_string(),
            args: vec![],
        }
    );
    assert_eq!(
        store.list_statement(Some(2)),
        Statement {
            sql: "SELECT short_id, original_url FROM short_urls ORDER BY created_ts DESC LIMIT ?".to_string(),
            args: vec![Arg::Int(2)],
        }
    );
}

#[test]
fn contains_reply_is_true_where_a_row_came_back() {
    let store = MysqlShortUrl::new();
    assert_eq!(store.contains_reply(Ok(0)), Ok(false));
    assert_eq!(store.contains_reply(Ok(1)), Ok(true));
    assert_eq!(store.contains_reply(Ok(3)), Ok(true));
    assert_eq!(store.contains_reply(Err(Failure::Other)), Err(DbError::StoreError));
}

#[test]
fn len_statement_and_reply() {
    let store = MysqlShortUrl::new();
    assert_eq!(
        store.len_statement(),
        Statement { sql: "SELECT COUNT(*) AS num FROM short_urls;".to_string(), args: vec![] }
    );
    assert_eq!(store.len_reply(Ok(Some(0))), 0);
    assert_eq!(store.len_reply(Ok(Some(42))), 42);
    assert_eq!(store.len_reply(Ok(Some(-1))), 0);
    assert_eq!(store.len_reply(Ok(None)), 0);
    assert_eq!(store.len_reply(Err(Failure::Other)), 0);
}

#[test]
fn is_empty_reply_follows_the_count() {
    let store = MysqlShortUrl::new();
    assert!(store.is_empty_reply(Ok(Some(0))));
    assert!(!store.is_empty_reply(Ok(Some(5))));
    assert!(store.is_empty_reply(Ok(None)));
    assert!(store.is_empty_reply(Err(Failure::Other)));
}

#[test]
fn clear_statement_and_reply() {
    let store = MysqlShortUrl::new();
    assert_eq!(
        store.clear_statement(),
        Statement { sql: "DELETE FROM short_urls;".to_string(), args: vec![] }
    );
    assert_eq!(store.clear_reply(Ok(())), Ok(()));
    assert_eq!(store.clear_reply(Err(Failure::Other)), Ok(()));
    assert_eq!(store.clear_reply(Err(Failure::UniqueViolation)), Ok(()));
}

#[test]
fn get_expired_statement_with_and_without_limit() {
    let store = MysqlShortUrl::new();
    assert_eq!(
        store.get_expired_statement(1_000, None),
        Statement {
            sql: "SELECT short_id FROM short_urls WHERE created_ts < ?".to_string(),
            args: vec![Arg::Int(1_000)],
        }
    );
    assert_eq!(
        store.get_expired_statement(1_000, Some(50)),
        Statement {
            sql: "SELECT short_id FROM short_urls WHERE created_ts < ? LIMIT ?".to_string(),
            args: vec![Arg::Int(1_000), Arg::Int(50)],
        }
    );
}

#[test]
fn batch_remove_statement_has_one_placeholder_for_each_key() {
    let store = MysqlShortUrl::new();
    assert_eq!(store.batch_remove_statement(&vec![]), None);
    assert_eq!(
        store.batch_remove_statement(&vec!["a".to_string()]),
        Some(Statement {
            sql: "DELETE FROM short_urls WHERE short_id IN (?)".to_string(),
            args: vec![text("a")],
        })
    );
    assert_eq!(
        store.batch_remove_statement(&vec!["a".to_string(), "b".to_string(), "c".to_string()]),
        Some(Statement {
            sql: "DELETE FROM short_urls WHERE short_id IN (?, ?, ?)".to_string(),
            args: vec![text("a"), text("b"), text("c")],
        })
    );
}

#[test]
fn placeholder_list_joins_with_comma_and_space() {
    assert_eq!(placeholder_list(0), "");
    assert_eq!(placeholder_list(1), "?");
    assert_eq!(placeholder_list(2), "?, ?");
    assert_eq!(placeholder_list(4), "?, ?, ?, ?");
}

#[test]
fn text_args_keep_the_order() {
    assert_eq!(text_args(&vec![]), vec![]);
    assert_eq!(text_args(&vec!["x".to_string(), "y".to_string()]), vec![text("x"), text("y")]);
}

#[test]
fn index_statements_for_both_indexes() {
    let store = MysqlShortUrl::new();
    let indexes = store.index_definitions();
    assert_eq!(
        store.create_index_statement(&indexes[0]),
        Statement {
            sql: "CREATE UNIQUE INDEX short_urls_short_id_idx ON short_urls (short_id);".to_string(),
            args: vec![],
        }
    );
    assert_eq!(
        store.create_index_statement(&indexes[1]),
        Statement {
            sql: "CREATE INDEX short_urls_created_ts_idx ON short_urls (created_ts);".to_string(),
            args: vec![],
        }
    );
    assert_eq!(
        store.index_exists_statement(&indexes[1]),
        Statement {
            sql: "SELECT 1 FROM information_schema.statistics WHERE table_schema = DATABASE() AND table_name = ? AND index_name = ?;".to_string(),
            args: vec![text("short_urls"), text("short_urls_created_ts_idx")],
        }
    );
}

#[test]
fn name_list_joins_with_comma_and_space() {
    assert_eq!(name_list(&vec![]), "");
    assert_eq!(name_list(&vec!["a".to_string()]), "a");
    assert_eq!(name_list(&vec!["a".to_string(), "b".to_string(), "c".to_string()]), "a, b, c");
}

#[test]
fn create_index_statement_lists_every_column() {
    let index = IndexDefinition {
        name: "idx".to_string(),
        table: "t".to_string(),
        unique: false,
        columns: vec!["x".to_string(), "y".to_string()],
    };
    assert_eq!(MysqlShortUrl::new().create_index_statement(&index).sql, "CREATE INDEX idx ON t (x, y);");
}

#[test]
fn add_statement_binds_the_present_time() {
    let stmt = MysqlShortUrl::new().add_statement("abc123", "https://example.com/a");
    assert_eq!(stmt.sql, "INSERT INTO short_urls (short_id, original_url, created_ts) VALUES (?, ?, ?);");
    assert_eq!(stmt.args.len(), 3);
    assert_eq!(stmt.args[0], text("abc123"));
    assert_eq!(stmt.args[1], text("https://example.com/a"));
    // 2020-01-01 in microseconds: the present lies after it.
    assert!(matches!(stmt.args[2], Arg::Int(ts) if ts > 1_577_836_800_000_000));
}

#[test]
fn index_is_missing_where_no_row_came_back() {
    let store = MysqlShortUrl::new();
    assert_eq!(store.index_missing(Ok(0)), Ok(true));
    assert_eq!(store.index_missing(Ok(1)), Ok(false));
    assert_eq!(store.index_missing(Ok(2)), Ok(false));
    assert_eq!(store.index_missing(Err(Failure::Other)), Err(DbError::SchemaError));
}
