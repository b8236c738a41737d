//! A store that keeps the table in memory.

use vstd::prelude::*;
use crate::clock::now_micros;
use crate::errors::DbError;
use crate::laws::{lemma_add_wf, lemma_position, lemma_retained_untouched, lemma_retained_wf};
use crate::model::{
    capped, expired_rows, retained, valid_short_id, RecordModel, RowModel, TableModel,
    MAX_SHORT_ID_LEN,
};
use crate::record::{ids_of, records_of, ShortUrlRecord};

verus! {

struct Row {
    id: u64,
    short_id: String,
    original_url: String,
    created_ts: i64,
}

impl View for Row {
    type V = RowModel;

    closed spec fn view(&self) -> RowModel {
        RowModel {
            id: self.id as nat,
            short_id: self.short_id@,
            original_url: self.original_url@,
            created_ts: self.created_ts as int,
        }
    }
}

impl Row {
    fn duplicate(&self) -> (r: Row)
        ensures
            r@ == self@,
    {
        Row {
            id: self.id,
            short_id: self.short_id.clone(),
            original_url: self.original_url.clone(),
            created_ts: self.created_ts,
        }
    }
}

spec fn rows_of(rows: Seq<Row>) -> Seq<RowModel> {
    rows.map_values(|r: Row| r@)
}

/// Whether `s` can be a short id.
pub fn is_valid_short_id(s: &str) -> (b: bool)
    ensures
        b == valid_short_id(s@),
{
    let n: usize = s.unicode_len();
    1 <= n && n <= MAX_SHORT_ID_LEN
}

/// Whether `key` stands in `keys`.
fn key_listed(keys: &Vec<String>, key: &String) -> (b: bool)
    ensures
        b == ids_of(keys@).contains(key@),
{
    let n: usize = keys.len();
    for i in 0..n
        invariant
            n == keys.len(),
            forall|j: int| 0 <= j < i ==> ids_of(keys@)[j] != key@,
    {
        if keys[i] == *key {
            assert(ids_of(keys@)[i as int] == key@);
            return true;
        }
    }
    false
}

/// The rows of `rows` whose short id is not listed in `gone`.
fn rows_outside(rows: &Vec<Row>, gone: &Vec<String>) -> (kept: Vec<Row>)
    ensures
        rows_of(kept@) == retained(rows_of(rows@), ids_of(gone@).to_set()),
{
    let mut kept: Vec<Row> = Vec::new();
    let n: usize = rows.len();
    let ghost all = rows_of(rows@);
    let ghost keys = ids_of(gone@).to_set();
    assert(rows_of(kept@) =~= retained(all.take(0), keys));
    for i in 0..n
        invariant
            n == rows.len(),
            all == rows_of(rows@),
            keys == ids_of(gone@).to_set(),
            rows_of(kept@) == retained(all.take(i as int), keys),
    {
        assert(all.take(i + 1).drop_last() =~= all.take(i as int));
        assert(all.take(i + 1).last() == rows[i as int]@);
        if !key_listed(gone, &rows[i].short_id) {
            let ghost before = rows_of(kept@);
            kept.push(rows[i].duplicate());
            assert(rows_of(kept@) =~= before.push(rows[i as int]@));
        }
    }
    assert(all.take(n as int) =~= all);
    kept
}

/// The short ids of the rows of `rows` created strictly before `cutoff`.
fn ids_before(rows: &Vec<Row>, cutoff: i64) -> (ids: Vec<String>)
    ensures
        ids@.len() == expired_rows(rows_of(rows@), cutoff as int).len(),
        forall|i: int|
            0 <= i < ids@.len() ==> (#[trigger] ids@[i])@ == expired_rows(
                rows_of(rows@),
                cutoff as int,
            )[i].short_id,
{
    let mut ids: Vec<String> = Vec::new();
    let n: usize = rows.len();
    let ghost all = rows_of(rows@);
    assert(all.take(0) =~= Seq::<RowModel>::empty());
    for i in 0..n
        invariant
            n == rows.len(),
            all == rows_of(rows@),
            ids@.len() == expired_rows(all.take(i as int), cutoff as int).len(),
            forall|j: int|
                0 <= j < ids@.len() ==> (#[trigger] ids@[j])@ == expired_rows(
                    all.take(i as int),
                    cutoff as int,
                )[j].short_id,
    {
        assert(all.take(i + 1).drop_last() =~= all.take(i as int));
        assert(all.take(i + 1).last() == rows[i as int]@);
        if rows[i].created_ts < cutoff {
            ids.push(rows[i].short_id.clone());
        }
    }
    assert(all.take(n as int) =~= all);
    ids
}

/// How many of `available` items an optional cap lets through.
fn cap(limit: Option<i64>, available: usize) -> (n: usize)
    ensures
        n == capped(limit, available as nat),
{
    match limit {
        Some(l) => {
            if l <= 0 {
                0
            } else if (l as u64) < (available as u64) {
                l as usize
            } else {
                available
            }
        },
        None => available,
    }
}

/// The table of short URLs, held in memory.
pub struct MemoryShortUrl {
    rows: Vec<Row>,
    next_id: u64,
}

impl View for MemoryShortUrl {
    type V = TableModel;

    closed spec fn view(&self) -> TableModel {
        TableModel { rows: rows_of(self.rows@), next_id: self.next_id as nat }
    }
}

impl MemoryShortUrl {
    /// The table's invariant holds.
    pub open spec fn wf(&self) -> bool {
        self@.wf()
    }

    /// An empty table.
    pub fn new() -> (store: MemoryShortUrl)
        ensures
            store.wf(),
            store@ == TableModel::empty(),
    {
        let store = MemoryShortUrl { rows: Vec::new(), next_id: 1 };
        assert(store@.rows =~= Seq::<RowModel>::empty());
        store
    }

    /// Where the row of `key` stands.
    fn find(&self, key: &String) -> (at: Option<usize>)
        requires
            self.wf(),
        ensures
            match at {
                Some(i) => i < self@.rows.len() && self@.rows[i as int].short_id == key@
                    && self@.position(key@) == i,
                None => !self@.contains(key@),
            },
    {
        let n: usize = self.rows.len();
        for i in 0..n
            invariant
                n == self.rows.len(),
                self.wf(),
                forall|j: int| 0 <= j < i ==> (#[trigger] self@.rows[j]).short_id != key@,
        {
            if self.rows[i].short_id == *key {
                proof {
                    lemma_position(self@, i as int);
                }
                return Some(i);
            }
        }
        None
    }

    /// Inserts a row for `short_id` with the creation time that the clock
    /// reading `now` gives it.
    pub fn add_at(&mut self, short_id: &str, original_url: &str, now: i64) -> (res: Result<
        (),
        DbError,
    >)
        requires
            old(self).wf(),
            valid_short_id(short_id@),
        ensures
            final(self).wf(),
            res == old(self)@.add_result(short_id@),
            final(self)@ == old(self)@.after_add(short_id@, original_url@, now as int),
    {
        let key = short_id.to_owned();
        if self.find(&key).is_some() {
            return Err(DbError::UniqueViolation);
        }
        if self.next_id == u64::MAX {
            return Err(DbError::StoreError);
        }
        let n: usize = self.rows.len();
        let created_ts: i64 = if n > 0 && self.rows[n - 1].created_ts > now {
            self.rows[n - 1].created_ts
        } else {
            now
        };
        let row = Row { id: self.next_id, short_id: key, original_url: original_url.to_owned(), created_ts };
        self.rows.push(row);
        self.next_id = self.next_id + 1;
        proof {
            let after = old(self)@.after_add(short_id@, original_url@, now as int);
            assert(self@.rows =~= after.rows);
            lemma_add_wf(old(self)@, short_id@, original_url@, now as int);
        }
        Ok(())
    }

    /// Inserts a row for `short_id`, created at the clock's present reading.
    pub fn add(&mut self, short_id: &str, original_url: &str) -> (res: Result<(), DbError>)
        requires
            old(self).wf(),
            valid_short_id(short_id@),
        ensures
            final(self).wf(),
            res == old(self)@.add_result(short_id@),
            exists|now: i64|
                final(self)@ == old(self)@.after_add(short_id@, original_url@, now as int),
    {
        let now: i64 = now_micros();
        self.add_at(short_id, original_url, now)
    }

    /// Deletes the row of `short_id`, if there is one.
    pub fn remove(&mut self, short_id: &str) -> (res: Result<(), DbError>)
        requires
            old(self).wf(),
        ensures
            final(self).wf(),
            res is Ok,
            final(self)@ == old(self)@.after_remove(short_id@),
    {
        let mut keys: Vec<String> = Vec::new();
        keys.push(short_id.to_owned());
        proof {
            assert(ids_of(keys@)[0] == short_id@);
            assert(ids_of(keys@).to_set() =~= set![short_id@]);
        }
        self.batch_remove(keys)
    }

    /// The record stored under `short_id`.
    pub fn get(&self, short_id: &str) -> (res: Result<ShortUrlRecord, DbError>)
        requires
            self.wf(),
        ensures
            match res {
                Ok(record) => self@.get_result(short_id@) == Ok::<RecordModel, DbError>(record@),
                Err(e) => self@.get_result(short_id@) == Err::<RecordModel, DbError>(e),
            },
    {
        let key = short_id.to_owned();
        match self.find(&key) {
            Some(i) => Ok(
                ShortUrlRecord {
                    short_id: key,
                    original_url: self.rows[i].original_url.clone(),
                },
            ),
            None => Err(DbError::NotFound),
        }
    }

    /// The records, newest first, at most `limit` of them where one is given.
    pub fn list(&self, limit: Option<i64>) -> (res: Result<Vec<ShortUrlRecord>, DbError>)
        requires
            self.wf(),
        ensures
            res is Ok,
            res->Ok_0@.len() == capped(limit, self@.count()),
            records_of(res->Ok_0@) == self@.listing(limit),
    {
        let n: usize = self.rows.len();
        let take: usize = cap(limit, n);
        let mut records: Vec<ShortUrlRecord> = Vec::new();
        for i in 0..take
            invariant
                n == self.rows.len(),
                take <= n,
                records@.len() == i,
                forall|j: int|
                    0 <= j < i ==> (#[trigger] records@[j])@ == self@.rows[n - 1 - j].record(),
        {
            let row = &self.rows[n - 1 - i];
            records.push(
                ShortUrlRecord {
                    short_id: row.short_id.clone(),
                    original_url: row.original_url.clone(),
                },
            );
        }
        assert(records_of(records@) =~= self@.listing(limit));
        Ok(records)
    }

    /// Whether a row is stored under `short_id`.
    pub fn contains(&self, short_id: &str) -> (res: Result<bool, DbError>)
        requires
            self.wf(),
        ensures
            res == Ok::<bool, DbError>(self@.contains(short_id@)),
    {
        let key = short_id.to_owned();
        Ok(self.find(&key).is_some())
    }

    /// The number of rows.
    pub fn count(&self) -> (n: usize)
        ensures
            n == self@.count(),
    {
        self.rows.len()
    }

    /// The number of rows, under the name that collections use.
    pub fn len(&self) -> (n: usize)
        ensures
            n == self@.count(),
    {
        self.count()
    }

    /// Whether the table holds no row.
    pub fn is_empty(&self) -> (b: bool)
        ensures
            b == (self@.count() == 0),
    {
        self.len() == 0
    }

    /// Deletes every row.
    pub fn clear(&mut self) -> (res: Result<(), DbError>)
        requires
            old(self).wf(),
        ensures
            final(self).wf(),
            res is Ok,
            final(self)@ == old(self)@.after_clear(),
    {
        self.rows.clear();
        assert(self@.rows =~= Seq::<RowModel>::empty());
        Ok(())
    }

    /// The short ids of the rows created strictly before `expired_before`,
    /// oldest first, at most `limit` of them where one is given.
    pub fn get_expired(&self, expired_before: i64, limit: Option<i64>) -> (res: Result<
        Vec<String>,
        DbError,
    >)
        requires
            self.wf(),
        ensures
            res is Ok,
            res->Ok_0@.len() == self@.expired_ids(expired_before as int, limit).len(),
            ids_of(res->Ok_0@) == self@.expired_ids(expired_before as int, limit),
    {
        let mut ids = ids_before(&self.rows, expired_before);
        let take: usize = cap(limit, ids.len());
        ids.truncate(take);
        assert(ids_of(ids@) =~= self@.expired_ids(expired_before as int, limit));
        Ok(ids)
    }

    /// Deletes every row whose short id stands in `short_ids`.
    pub fn batch_remove(&mut self, short_ids: Vec<String>) -> (res: Result<(), DbError>)
        requires
            old(self).wf(),
        ensures
            final(self).wf(),
            res is Ok,
            final(self)@ == old(self)@.after_batch_remove(ids_of(short_ids@)),
    {
        if short_ids.is_empty() {
            proof {
                assert(forall|key: Seq<char>| !ids_of(short_ids@).contains(key));
                lemma_retained_untouched(self@.rows, ids_of(short_ids@).to_set());
            }
            return Ok(());
        }
        let kept = rows_outside(&self.rows, &short_ids);
        self.rows = kept;
        proof {
            lemma_retained_wf(old(self)@, ids_of(short_ids@).to_set());
        }
        Ok(())
    }
}

impl Default for MemoryShortUrl {
    fn default() -> (store: MemoryShortUrl)
        ensures
            store.wf(),
            store@ == TableModel::empty(),
    {
        MemoryShortUrl::new()
    }
}

} // verus!
