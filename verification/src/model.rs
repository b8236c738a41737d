//! The mathematical model of the `short_urls` table: a sequence of rows in
//! insertion order, and what each storage operation does to it.

use vstd::prelude::*;
use crate::errors::DbError;

verus! {

/// The longest short id the table's key column holds, in characters.
pub const MAX_SHORT_ID_LEN: usize = 32;

/// A short id is between one and thirty-two characters long.
pub open spec fn valid_short_id(s: Seq<char>) -> bool {
    1 <= s.len() <= MAX_SHORT_ID_LEN
}

/// What callers see of a row.
pub struct RecordModel {
    pub short_id: Seq<char>,
    pub original_url: Seq<char>,
}

/// One persisted row.
pub struct RowModel {
    pub id: nat,
    pub short_id: Seq<char>,
    pub original_url: Seq<char>,
    pub created_ts: int,
}

impl RowModel {
    pub open spec fn record(self) -> RecordModel {
        RecordModel { short_id: self.short_id, original_url: self.original_url }
    }

    /// `self` was inserted before `later`: its surrogate key is smaller, its
    /// short id differs, and its creation time is not later.
    pub open spec fn before(self, later: RowModel) -> bool {
        &&& self.id < later.id
        &&& self.short_id != later.short_id
        &&& self.created_ts <= later.created_ts
    }
}

/// The number of items handed out of `available` under an optional cap.
pub open spec fn capped(limit: Option<i64>, available: nat) -> nat {
    match limit {
        Some(n) if n <= 0 => 0,
        Some(n) if n < available => n as nat,
        _ => available,
    }
}

/// The rows of `rows` whose short id is not in `gone`, in their old order.
pub open spec fn retained(rows: Seq<RowModel>, gone: Set<Seq<char>>) -> Seq<RowModel>
    decreases rows.len(),
{
    if rows.len() == 0 {
        rows
    } else {
        let earlier = retained(rows.drop_last(), gone);
        if gone.contains(rows.last().short_id) {
            earlier
        } else {
            earlier.push(rows.last())
        }
    }
}

/// The rows of `rows` created strictly before `cutoff`, in their old order.
pub open spec fn expired_rows(rows: Seq<RowModel>, cutoff: int) -> Seq<RowModel>
    decreases rows.len(),
{
    if rows.len() == 0 {
        rows
    } else {
        let earlier = expired_rows(rows.drop_last(), cutoff);
        if rows.last().created_ts < cutoff {
            earlier.push(rows.last())
        } else {
            earlier
        }
    }
}

/// The table: its live rows, oldest first, and the next surrogate key.
pub struct TableModel {
    pub rows: Seq<RowModel>,
    pub next_id: nat,
}

impl TableModel {
    /// Rows stand in insertion order with distinct short ids, every short id
    /// is valid, and no surrogate key has reached `next_id`.
    pub open spec fn wf(self) -> bool {
        &&& forall|i: int, j: int|
            0 <= i < j < self.rows.len() ==> (#[trigger] self.rows[i]).before(
                #[trigger] self.rows[j],
            )
        &&& forall|i: int|
            0 <= i < self.rows.len() ==> {
                &&& (#[trigger] self.rows[i]).id < self.next_id
                &&& valid_short_id(self.rows[i].short_id)
            }
    }

    pub open spec fn empty() -> TableModel {
        TableModel { rows: Seq::empty(), next_id: 1 }
    }

    pub open spec fn contains(self, key: Seq<char>) -> bool {
        exists|i: int| 0 <= i < self.rows.len() && (#[trigger] self.rows[i]).short_id == key
    }

    /// Where the row of `key` stands, if there is one.
    pub open spec fn position(self, key: Seq<char>) -> int {
        choose|i: int| 0 <= i < self.rows.len() && (#[trigger] self.rows[i]).short_id == key
    }

    /// The URL stored under `key`, if there is one.
    pub open spec fn url_of(self, key: Seq<char>) -> Seq<char> {
        self.rows[self.position(key)].original_url
    }

    pub open spec fn count(self) -> nat {
        self.rows.len()
    }

    /// The creation time a row inserted at clock reading `now` gets: the
    /// reading itself, unless the newest row is younger than that.
    pub open spec fn stamp(self, now: int) -> int {
        if self.rows.len() > 0 && self.rows.last().created_ts > now {
            self.rows.last().created_ts
        } else {
            now
        }
    }

    /// Whether an insert of `key` succeeds, and with which error it fails.
    pub open spec fn add_result(self, key: Seq<char>) -> Result<(), DbError> {
        if self.contains(key) {
            Err(DbError::UniqueViolation)
        } else if self.next_id >= u64::MAX {
            Err(DbError::StoreError)
        } else {
            Ok(())
        }
    }

    /// The table after an insert of `key` at clock reading `now`; a failed
    /// insert leaves it as it was.
    pub open spec fn after_add(self, key: Seq<char>, url: Seq<char>, now: int) -> TableModel {
        if self.add_result(key) is Ok {
            TableModel {
                rows: self.rows.push(
                    RowModel {
                        id: self.next_id,
                        short_id: key,
                        original_url: url,
                        created_ts: self.stamp(now),
                    },
                ),
                next_id: self.next_id + 1,
            }
        } else {
            self
        }
    }

    pub open spec fn get_result(self, key: Seq<char>) -> Result<RecordModel, DbError> {
        if self.contains(key) {
            Ok(RecordModel { short_id: key, original_url: self.url_of(key) })
        } else {
            Err(DbError::NotFound)
        }
    }

    pub open spec fn after_remove(self, key: Seq<char>) -> TableModel {
        TableModel { rows: retained(self.rows, set![key]), next_id: self.next_id }
    }

    pub open spec fn after_batch_remove(self, keys: Seq<Seq<char>>) -> TableModel {
        TableModel { rows: retained(self.rows, keys.to_set()), next_id: self.next_id }
    }

    pub open spec fn after_clear(self) -> TableModel {
        TableModel { rows: Seq::empty(), next_id: self.next_id }
    }

    /// The newest rows first, at most `limit` of them.
    pub open spec fn newest_rows(self, limit: Option<i64>) -> Seq<RowModel> {
        Seq::new(capped(limit, self.rows.len()), |i: int| self.rows[self.rows.len() - 1 - i])
    }

    /// What `list` returns: the records of `newest_rows`.
    pub open spec fn listing(self, limit: Option<i64>) -> Seq<RecordModel> {
        Seq::new(
            capped(limit, self.rows.len()),
            |i: int| self.rows[self.rows.len() - 1 - i].record(),
        )
    }

    /// The short ids of the rows created strictly before `cutoff`, oldest
    /// first, at most `limit` of them.
    pub open spec fn expired_ids(self, cutoff: int, limit: Option<i64>) -> Seq<Seq<char>> {
        let rows = expired_rows(self.rows, cutoff);
        Seq::new(capped(limit, rows.len()), |i: int| rows[i].short_id)
    }
}

} // verus!
