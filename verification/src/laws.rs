//! What holds of the table model under its operations.

use vstd::prelude::*;
use crate::errors::DbError;
use crate::model::{expired_rows, retained, valid_short_id, RecordModel, RowModel, TableModel};

verus! {

/// What is left after a deletion is made of rows that were there, and holds
/// every row whose key was not named.
pub proof fn lemma_retained_rows(rows: Seq<RowModel>, gone: Set<Seq<char>>)
    ensures
        retained(rows, gone).len() <= rows.len(),
        forall|r: RowModel| #[trigger]
            retained(rows, gone).contains(r) <==> rows.contains(r) && !gone.contains(r.short_id),
    decreases rows.len(),
{
    if rows.len() > 0 {
        let init = rows.drop_last();
        let last = rows.last();
        lemma_retained_rows(init, gone);
        let kept = retained(rows, gone);
        let earlier = retained(init, gone);
        assert forall|r: RowModel| #[trigger]
            kept.contains(r) <==> rows.contains(r) && !gone.contains(r.short_id) by {
            if kept.contains(r) {
                let k = choose|k: int| 0 <= k < kept.len() && kept[k] == r;
                if k < earlier.len() {
                    assert(earlier[k] == r);
                    assert(earlier.contains(r));
                    let i = choose|i: int| 0 <= i < init.len() && init[i] == r;
                    assert(rows[i] == r);
                } else {
                    assert(r == last);
                    assert(rows[rows.len() - 1] == r);
                }
            }
            if rows.contains(r) && !gone.contains(r.short_id) {
                let i = choose|i: int| 0 <= i < rows.len() && rows[i] == r;
                if i < init.len() {
                    assert(init[i] == r);
                    assert(init.contains(r));
                    assert(earlier.contains(r));
                    let k = choose|k: int| 0 <= k < earlier.len() && earlier[k] == r;
                    assert(kept[k] == r);
                } else {
                    assert(kept[kept.len() - 1] == r);
                }
            }
        }
    }
}

/// Without its newest row a well-formed table is well-formed.
pub proof fn lemma_prefix_wf(table: TableModel)
    requires
        table.wf(),
        table.rows.len() > 0,
    ensures
        (TableModel { rows: table.rows.drop_last(), next_id: table.next_id }).wf(),
{
    let rows = table.rows;
    let init = rows.drop_last();
    assert forall|i: int, j: int| 0 <= i < j < init.len() implies (#[trigger] init[i]).before(
        #[trigger] init[j],
    ) by {
        assert(rows[i].before(rows[j]));
    }
    assert forall|i: int| 0 <= i < init.len() implies (#[trigger] init[i]).id < table.next_id
        && valid_short_id(init[i].short_id) by {
        assert(rows[i].id < table.next_id);
    }
}

/// A deletion keeps the table's invariant.
pub proof fn lemma_retained_wf(table: TableModel, gone: Set<Seq<char>>)
    requires
        table.wf(),
    ensures
        (TableModel { rows: retained(table.rows, gone), next_id: table.next_id }).wf(),
    decreases table.rows.len(),
{
    let rows = table.rows;
    if rows.len() > 0 {
        let init = rows.drop_last();
        let last = rows.last();
        let shorter = TableModel { rows: init, next_id: table.next_id };
        lemma_prefix_wf(table);
        lemma_retained_wf(shorter, gone);
        lemma_retained_rows(init, gone);
        let earlier = retained(init, gone);
        let kept = retained(rows, gone);
        let fewer = TableModel { rows: earlier, next_id: table.next_id };
        assert(fewer.wf());
        assert forall|k: int| 0 <= k < earlier.len() implies (#[trigger] earlier[k]).before(last)
            && earlier[k].id < table.next_id by {
            assert(earlier.contains(earlier[k]));
            let i = choose|i: int| 0 <= i < init.len() && init[i] == earlier[k];
            assert(rows[i].before(rows[rows.len() - 1]));
        }
        assert(rows[rows.len() - 1].id < table.next_id);
        assert forall|i: int| 0 <= i < kept.len() implies (#[trigger] kept[i]).id < table.next_id
            && valid_short_id(kept[i].short_id) by {
            if i < earlier.len() {
                assert(fewer.rows[i].id < fewer.next_id);
            }
        }
        assert forall|i: int, j: int| 0 <= i < j < kept.len() implies (#[trigger] kept[i]).before(
            #[trigger] kept[j],
        ) by {
            if j < earlier.len() {
                assert(fewer.rows[i].before(fewer.rows[j]));
            } else {
                assert(earlier[i].before(last));
            }
        }
    }
}

/// In a well-formed table a row is found under its own short id, and nowhere
/// else.
pub proof fn lemma_position(table: TableModel, i: int)
    requires
        table.wf(),
        0 <= i < table.rows.len(),
    ensures
        table.contains(table.rows[i].short_id),
        table.position(table.rows[i].short_id) == i,
        table.url_of(table.rows[i].short_id) == table.rows[i].original_url,
{
    let key = table.rows[i].short_id;
    assert(table.contains(key));
    let p = table.position(key);
    if p < i {
        assert(table.rows[p].before(table.rows[i]));
    } else if p > i {
        assert(table.rows[i].before(table.rows[p]));
    }
}

/// An insert keeps the table's invariant, whether it succeeds or not.
pub proof fn lemma_add_wf(table: TableModel, key: Seq<char>, url: Seq<char>, now: int)
    requires
        table.wf(),
        valid_short_id(key),
    ensures
        table.after_add(key, url, now).wf(),
{
    let after = table.after_add(key, url, now);
    if table.add_result(key) is Ok {
        let n = table.rows.len() as int;
        assert forall|i: int, j: int| 0 <= i < j < after.rows.len() implies (
        #[trigger] after.rows[i]).before(#[trigger] after.rows[j]) by {
            if j < n {
                assert(table.rows[i].before(table.rows[j]));
            } else {
                assert(table.rows[i].short_id != key);
                assert(table.rows[i].id < table.next_id);
                if i < n - 1 {
                    assert(table.rows[i].before(table.rows[n - 1]));
                }
            }
        }
        assert forall|i: int| 0 <= i < after.rows.len() implies (#[trigger] after.rows[i]).id
            < after.next_id && valid_short_id(after.rows[i].short_id) by {
            if i < n {
                assert(table.rows[i].id < table.next_id);
            }
        }
    }
}

/// A record that was inserted is read back as it was inserted.
pub proof fn lemma_add_then_get(table: TableModel, key: Seq<char>, url: Seq<char>, now: int)
    requires
        table.wf(),
        valid_short_id(key),
        table.add_result(key) is Ok,
    ensures
        table.after_add(key, url, now).contains(key),
        table.after_add(key, url, now).get_result(key) == Ok::<RecordModel, DbError>(
            RecordModel { short_id: key, original_url: url },
        ),
{
    let after = table.after_add(key, url, now);
    lemma_add_wf(table, key, url, now);
    lemma_position(after, table.rows.len() as int);
}

/// An insert of one short id changes nothing of what is stored under another.
pub proof fn lemma_add_keeps_others(
    table: TableModel,
    key: Seq<char>,
    url: Seq<char>,
    now: int,
    other: Seq<char>,
)
    requires
        table.wf(),
        valid_short_id(key),
        other != key,
    ensures
        table.after_add(key, url, now).get_result(other) == table.get_result(other),
{
    let after = table.after_add(key, url, now);
    lemma_add_wf(table, key, url, now);
    if table.add_result(key) is Ok {
        if table.contains(other) {
            let p = table.position(other);
            assert(after.rows[p] == table.rows[p]);
            lemma_position(after, p);
        }
        if after.contains(other) {
            let q = after.position(other);
            assert(table.rows[q] == after.rows[q]);
            lemma_position(table, q);
        }
    }
}

/// A second insert of a short id fails as a unique violation and changes
/// nothing: the first URL is still the one stored.
pub proof fn lemma_second_add_fails(
    table: TableModel,
    key: Seq<char>,
    first_url: Seq<char>,
    first_now: int,
    second_url: Seq<char>,
    second_now: int,
)
    requires
        table.wf(),
        valid_short_id(key),
        table.add_result(key) is Ok,
    ensures
        ({
            let once = table.after_add(key, first_url, first_now);
            &&& once.add_result(key) == Err::<(), DbError>(DbError::UniqueViolation)
            &&& once.after_add(key, second_url, second_now) == once
            &&& once.get_result(key) == Ok::<RecordModel, DbError>(
                RecordModel { short_id: key, original_url: first_url },
            )
        }),
{
    lemma_add_then_get(table, key, first_url, first_now);
}

/// A deletion that names no stored short id keeps every row.
pub proof fn lemma_retained_untouched(rows: Seq<RowModel>, gone: Set<Seq<char>>)
    requires
        forall|i: int| 0 <= i < rows.len() ==> !gone.contains((#[trigger] rows[i]).short_id),
    ensures
        retained(rows, gone) == rows,
    decreases rows.len(),
{
    if rows.len() > 0 {
        let init = rows.drop_last();
        assert forall|i: int| 0 <= i < init.len() implies !gone.contains(
            (#[trigger] init[i]).short_id,
        ) by {
            assert(init[i] == rows[i]);
        }
        lemma_retained_untouched(init, gone);
        assert(!gone.contains(rows[rows.len() - 1].short_id));
        assert(init.push(rows.last()) =~= rows);
    }
}

/// After a deletion exactly those short ids are stored that were stored
/// before and were not named, each with the URL it had.
pub proof fn lemma_batch_remove_contains(table: TableModel, keys: Seq<Seq<char>>, key: Seq<char>)
    requires
        table.wf(),
    ensures
        table.after_batch_remove(keys).wf(),
        table.after_batch_remove(keys).contains(key) <==> table.contains(key) && !keys.contains(
            key,
        ),
        table.after_batch_remove(keys).contains(key) ==> table.after_batch_remove(keys).url_of(key)
            == table.url_of(key),
{
    let gone = keys.to_set();
    let after = table.after_batch_remove(keys);
    lemma_retained_wf(table, gone);
    lemma_retained_rows(table.rows, gone);
    if after.contains(key) {
        let k = after.position(key);
        assert(after.rows.contains(after.rows[k]));
        assert(table.rows.contains(after.rows[k]));
        let i = choose|i: int| 0 <= i < table.rows.len() && table.rows[i] == after.rows[k];
        lemma_position(table, i);
        lemma_position(after, k);
    }
    if table.contains(key) && !keys.contains(key) {
        let i = table.position(key);
        assert(table.rows.contains(table.rows[i]));
        assert(after.rows.contains(table.rows[i]));
        let k = choose|k: int| 0 <= k < after.rows.len() && after.rows[k] == table.rows[i];
        assert(after.rows[k].short_id == key);
    }
}

/// Deleting one short id is deleting the list that holds it alone.
pub proof fn lemma_remove_is_batch_of_one(table: TableModel, key: Seq<char>)
    ensures
        table.after_remove(key) == table.after_batch_remove(seq![key]),
{
    let keys = seq![key];
    assert(keys[0] == key);
    assert(keys.to_set() =~= set![key]);
}

/// Deleting a short id that is not stored changes nothing, so doing it twice
/// changes nothing either.
pub proof fn lemma_remove_absent(table: TableModel, key: Seq<char>)
    requires
        !table.contains(key),
    ensures
        table.after_remove(key) == table,
        table.after_remove(key).after_remove(key) == table,
{
    lemma_retained_untouched(table.rows, set![key]);
}

/// Deleting a short id a second time changes nothing, and after a deletion
/// the short id is not stored.
pub proof fn lemma_remove_twice(table: TableModel, key: Seq<char>)
    requires
        table.wf(),
    ensures
        table.after_remove(key).wf(),
        !table.after_remove(key).contains(key),
        table.after_remove(key).after_remove(key) == table.after_remove(key),
{
    lemma_remove_is_batch_of_one(table, key);
    lemma_batch_remove_contains(table, seq![key], key);
    assert(seq![key][0] == key);
    lemma_remove_absent(table.after_remove(key), key);
}

/// A listing holds no more rows than its cap and than the table, and stands
/// newest first: of two listed rows the earlier one was inserted later and
/// is not older. The records listed are those of these rows.
pub proof fn lemma_listing_newest_first(table: TableModel, limit: Option<i64>)
    requires
        table.wf(),
    ensures
        table.newest_rows(limit).len() <= table.count(),
        limit is None ==> table.newest_rows(limit).len() == table.count(),
        limit matches Some(n) ==> n >= 0 ==> table.newest_rows(limit).len() <= n,
        limit matches Some(n) ==> n < 0 ==> table.newest_rows(limit).len() == 0,
        table.listing(limit) == table.newest_rows(limit).map_values(|r: RowModel| r.record()),
        forall|i: int, j: int|
            0 <= i < j < table.newest_rows(limit).len() ==> {
                &&& (#[trigger] table.newest_rows(limit)[j]).before(
                    #[trigger] table.newest_rows(limit)[i],
                )
                &&& table.newest_rows(limit)[i].created_ts >= table.newest_rows(limit)[j].created_ts
            },
        forall|i: int|
            0 <= i < table.newest_rows(limit).len() ==> table.contains(
                (#[trigger] table.newest_rows(limit)[i]).short_id,
            ),
{
    let listed = table.newest_rows(limit);
    let n = table.rows.len() as int;
    assert(table.listing(limit) =~= listed.map_values(|r: RowModel| r.record()));
    assert forall|i: int, j: int| 0 <= i < j < listed.len() implies (#[trigger] listed[j]).before(
        #[trigger] listed[i],
    ) by {
        assert(table.rows[n - 1 - j].before(table.rows[n - 1 - i]));
    }
    assert forall|i: int| 0 <= i < listed.len() implies table.contains(
        (#[trigger] listed[i]).short_id,
    ) by {
        lemma_position(table, n - 1 - i);
    }
}

/// The rows picked as expired are the rows created strictly before the
/// cutoff.
pub proof fn lemma_expired_rows(rows: Seq<RowModel>, cutoff: int)
    ensures
        expired_rows(rows, cutoff).len() <= rows.len(),
        forall|r: RowModel| #[trigger]
            expired_rows(rows, cutoff).contains(r) <==> rows.contains(r) && r.created_ts < cutoff,
    decreases rows.len(),
{
    if rows.len() > 0 {
        let init = rows.drop_last();
        let last = rows.last();
        lemma_expired_rows(init, cutoff);
        let picked = expired_rows(rows, cutoff);
        let earlier = expired_rows(init, cutoff);
        assert forall|r: RowModel| #[trigger]
            picked.contains(r) <==> rows.contains(r) && r.created_ts < cutoff by {
            if picked.contains(r) {
                let k = choose|k: int| 0 <= k < picked.len() && picked[k] == r;
                if k < earlier.len() {
                    assert(earlier[k] == r);
                    assert(earlier.contains(r));
                    let i = choose|i: int| 0 <= i < init.len() && init[i] == r;
                    assert(rows[i] == r);
                } else {
                    assert(r == last);
                    assert(rows[rows.len() - 1] == r);
                }
            }
            if rows.contains(r) && r.created_ts < cutoff {
                let i = choose|i: int| 0 <= i < rows.len() && rows[i] == r;
                if i < init.len() {
                    assert(init[i] == r);
                    assert(init.contains(r));
                    assert(earlier.contains(r));
                    let k = choose|k: int| 0 <= k < earlier.len() && earlier[k] == r;
                    assert(picked[k] == r);
                } else {
                    assert(picked[picked.len() - 1] == r);
                }
            }
        }
    }
}

/// Without a cap, the expired short ids are exactly those of the rows
/// created strictly before the cutoff: a row created at the cutoff or later
/// is never among them.
pub proof fn lemma_expired_exact(table: TableModel, cutoff: int, key: Seq<char>)
    requires
        table.wf(),
    ensures
        table.expired_ids(cutoff, None).contains(key) <==> table.contains(key)
            && table.rows[table.position(key)].created_ts < cutoff,
{
    let picked = expired_rows(table.rows, cutoff);
    let ids = table.expired_ids(cutoff, None);
    lemma_expired_rows(table.rows, cutoff);
    if ids.contains(key) {
        let k = choose|k: int| 0 <= k < ids.len() && ids[k] == key;
        assert(picked.contains(picked[k]));
        let i = choose|i: int| 0 <= i < table.rows.len() && table.rows[i] == picked[k];
        lemma_position(table, i);
    }
    if table.contains(key) && table.rows[table.position(key)].created_ts < cutoff {
        let i = table.position(key);
        assert(table.rows.contains(table.rows[i]));
        assert(picked.contains(table.rows[i]));
        let k = choose|k: int| 0 <= k < picked.len() && picked[k] == table.rows[i];
        assert(ids[k] == key);
    }
}

/// With a cap, every short id handed out is an expired one, and no more are
/// handed out than the cap allows.
pub proof fn lemma_expired_capped(table: TableModel, cutoff: int, limit: Option<i64>)
    ensures
        table.expired_ids(cutoff, limit).len() <= table.expired_ids(cutoff, None).len(),
        limit matches Some(n) ==> n >= 0 ==> table.expired_ids(cutoff, limit).len() <= n,
        forall|i: int|
            0 <= i < table.expired_ids(cutoff, limit).len() ==> #[trigger] table.expired_ids(
                cutoff,
                limit,
            )[i] == table.expired_ids(cutoff, None)[i],
{
}

/// A sweep drains what has expired: once the expired short ids are deleted,
/// none of them is stored, every other short id that was stored still is
/// with its URL, and nothing is left that has expired.
pub proof fn lemma_sweep_drains(table: TableModel, cutoff: int, key: Seq<char>)
    requires
        table.wf(),
    ensures
        ({
            let expired = table.expired_ids(cutoff, None);
            let swept = table.after_batch_remove(expired);
            &&& swept.wf()
            &&& expired.contains(key) ==> !swept.contains(key)
            &&& table.contains(key) && !expired.contains(key) ==> swept.contains(key)
                && swept.url_of(key) == table.url_of(key)
            &&& swept.expired_ids(cutoff, None).len() == 0
        }),
{
    let expired = table.expired_ids(cutoff, None);
    let swept = table.after_batch_remove(expired);
    lemma_batch_remove_contains(table, expired, key);
    let left = swept.expired_ids(cutoff, None);
    if left.len() > 0 {
        let k0 = left[0];
        assert(left.contains(k0));
        lemma_expired_exact(swept, cutoff, k0);
        let r = swept.rows[swept.position(k0)];
        lemma_retained_rows(table.rows, expired.to_set());
        assert(swept.rows.contains(r));
        assert(table.rows.contains(r));
        let i = choose|i: int| 0 <= i < table.rows.len() && table.rows[i] == r;
        lemma_position(table, i);
        lemma_expired_exact(table, cutoff, k0);
        assert(expired.contains(k0));
        assert(expired.to_set().contains(k0));
    }
}

/// Deleting one set of short ids and then another is deleting their union.
pub proof fn lemma_retained_twice(rows: Seq<RowModel>, first: Set<Seq<char>>, second: Set<Seq<char>>)
    ensures
        retained(retained(rows, first), second) == retained(rows, first.union(second)),
    decreases rows.len(),
{
    if rows.len() > 0 {
        let init = rows.drop_last();
        let last = rows.last();
        lemma_retained_twice(init, first, second);
        let earlier = retained(init, first);
        if !first.contains(last.short_id) {
            assert(earlier.push(last).drop_last() =~= earlier);
            assert(earlier.push(last).last() == last);
        }
    }
}

/// Deleting a list of short ids is deleting all but the last of them and
/// then the last: a batch is its single deletions, one after another.
pub proof fn lemma_batch_remove_step(table: TableModel, keys: Seq<Seq<char>>, key: Seq<char>)
    ensures
        table.after_batch_remove(keys.push(key)) == table.after_batch_remove(keys).after_remove(key),
{
    let longer = keys.push(key);
    lemma_retained_twice(table.rows, keys.to_set(), set![key]);
    assert forall|k: Seq<char>| longer.to_set().contains(k) <==> keys.to_set().union(
        set![key],
    ).contains(k) by {
        if longer.contains(k) {
            let i = choose|i: int| 0 <= i < longer.len() && longer[i] == k;
            if i < keys.len() {
                assert(keys[i] == k);
            }
        }
        if keys.contains(k) {
            let i = choose|i: int| 0 <= i < keys.len() && keys[i] == k;
            assert(longer[i] == k);
        }
        assert(longer[keys.len() as int] == key);
    }
    assert(longer.to_set() =~= keys.to_set().union(set![key]));
}

/// Two deletions give the same table in either order.
pub proof fn lemma_remove_commutes(table: TableModel, one: Seq<char>, other: Seq<char>)
    ensures
        table.after_remove(one).after_remove(other) == table.after_remove(other).after_remove(one),
{
    lemma_retained_twice(table.rows, set![one], set![other]);
    lemma_retained_twice(table.rows, set![other], set![one]);
    assert(set![one].union(set![other]) =~= set![other].union(set![one]));
}

/// A deletion of a stored short id takes exactly one row, and a deletion of
/// any other takes none.
pub proof fn lemma_remove_count(table: TableModel, key: Seq<char>)
    requires
        table.wf(),
    ensures
        table.after_remove(key).count() == if table.contains(key) {
            table.count() - 1
        } else {
            table.count() as int
        },
    decreases table.rows.len(),
{
    if !table.contains(key) {
        lemma_remove_absent(table, key);
    } else {
        let rows = table.rows;
        let last = rows.last();
        let shorter = TableModel { rows: rows.drop_last(), next_id: table.next_id };
        let p = table.position(key);
        lemma_prefix_wf(table);
        if last.short_id == key {
            assert forall|i: int| 0 <= i < shorter.rows.len() implies (
            #[trigger] shorter.rows[i]).short_id != key by {
                assert(rows[i].before(rows[rows.len() - 1]));
            }
            lemma_remove_absent(shorter, key);
        } else {
            assert(shorter.rows[p].short_id == key);
            lemma_remove_count(shorter, key);
        }
    }
}

/// Where a set of short ids names exactly the rows created before the
/// cutoff, the rows that a deletion of it leaves and the expired rows make
/// up the table.
pub proof fn lemma_split_len(rows: Seq<RowModel>, cutoff: int, gone: Set<Seq<char>>)
    requires
        forall|i: int|
            0 <= i < rows.len() ==> (gone.contains((#[trigger] rows[i]).short_id)
                <==> rows[i].created_ts < cutoff),
    ensures
        retained(rows, gone).len() + expired_rows(rows, cutoff).len() == rows.len(),
    decreases rows.len(),
{
    if rows.len() > 0 {
        let init = rows.drop_last();
        assert forall|i: int| 0 <= i < init.len() implies (gone.contains(
            (#[trigger] init[i]).short_id,
        ) <==> init[i].created_ts < cutoff) by {
            assert(init[i] == rows[i]);
        }
        lemma_split_len(init, cutoff, gone);
        assert(gone.contains(rows[rows.len() - 1].short_id) <==> rows[rows.len() - 1].created_ts
            < cutoff);
    }
}

/// A sweep takes as many rows as there are expired short ids.
pub proof fn lemma_sweep_count(table: TableModel, cutoff: int)
    requires
        table.wf(),
    ensures
        table.after_batch_remove(table.expired_ids(cutoff, None)).count() + table.expired_ids(
            cutoff,
            None,
        ).len() == table.count(),
{
    let expired = table.expired_ids(cutoff, None);
    let gone = expired.to_set();
    assert forall|i: int| 0 <= i < table.rows.len() implies (gone.contains(
        (#[trigger] table.rows[i]).short_id,
    ) <==> table.rows[i].created_ts < cutoff) by {
        lemma_position(table, i);
        lemma_expired_exact(table, cutoff, table.rows[i].short_id);
    }
    lemma_split_len(table.rows, cutoff, gone);
}

/// Where a set of short ids names exactly the rows created at the cutoff or
/// later, picking the expired rows is deleting that set.
pub proof fn lemma_expired_is_retained(rows: Seq<RowModel>, cutoff: int, gone: Set<Seq<char>>)
    requires
        forall|i: int|
            0 <= i < rows.len() ==> (gone.contains((#[trigger] rows[i]).short_id)
                <==> rows[i].created_ts >= cutoff),
    ensures
        expired_rows(rows, cutoff) == retained(rows, gone),
    decreases rows.len(),
{
    if rows.len() > 0 {
        let init = rows.drop_last();
        assert forall|i: int| 0 <= i < init.len() implies (gone.contains(
            (#[trigger] init[i]).short_id,
        ) <==> init[i].created_ts >= cutoff) by {
            assert(init[i] == rows[i]);
        }
        lemma_expired_is_retained(init, cutoff, gone);
        assert(gone.contains(rows[rows.len() - 1].short_id) <==> rows[rows.len() - 1].created_ts
            >= cutoff);
    }
}

/// No expired short id is handed out twice.
pub proof fn lemma_expired_distinct(table: TableModel, cutoff: int, limit: Option<i64>)
    requires
        table.wf(),
    ensures
        forall|i: int, j: int|
            0 <= i < j < table.expired_ids(cutoff, limit).len() ==> table.expired_ids(
                cutoff,
                limit,
            )[i] != table.expired_ids(cutoff, limit)[j],
{
    let gone = Set::new(
        |k: Seq<char>| table.contains(k) && table.rows[table.position(k)].created_ts >= cutoff,
    );
    assert forall|i: int| 0 <= i < table.rows.len() implies (gone.contains(
        (#[trigger] table.rows[i]).short_id,
    ) <==> table.rows[i].created_ts >= cutoff) by {
        lemma_position(table, i);
    }
    lemma_expired_is_retained(table.rows, cutoff, gone);
    lemma_retained_wf(table, gone);
    let picked = TableModel { rows: expired_rows(table.rows, cutoff), next_id: table.next_id };
    assert(picked.wf());
    let ids = table.expired_ids(cutoff, limit);
    assert forall|i: int, j: int| 0 <= i < j < ids.len() implies ids[i] != ids[j] by {
        assert(picked.rows[i].before(picked.rows[j]));
    }
}

/// A deletion takes as many rows as are stored under the short ids it
/// names, however often one is named: the rows it leaves, and the rows that
/// a deletion of all other short ids would leave, make up the table.
pub proof fn lemma_retained_len(rows: Seq<RowModel>, gone: Set<Seq<char>>)
    ensures
        retained(rows, gone).len() + retained(rows, gone.complement()).len() == rows.len(),
    decreases rows.len(),
{
    if rows.len() > 0 {
        lemma_retained_len(rows.drop_last(), gone);
    }
}

/// A row that is inserted gets a surrogate key above those of all rows
/// stored, and the key that comes next moves on by one; a failed insert
/// uses no key. Deletions never hand a key back.
pub proof fn lemma_ids_never_reused(table: TableModel, key: Seq<char>, url: Seq<char>, now: int)
    requires
        table.wf(),
    ensures
        table.add_result(key) is Ok ==> {
            &&& table.after_add(key, url, now).rows.last().id == table.next_id
            &&& table.after_add(key, url, now).next_id == table.next_id + 1
            &&& forall|i: int|
                0 <= i < table.rows.len() ==> (#[trigger] table.rows[i]).id < table.after_add(
                    key,
                    url,
                    now,
                ).rows.last().id
        },
        table.add_result(key) is Err ==> table.after_add(key, url, now).next_id == table.next_id,
        table.after_remove(key).next_id == table.next_id,
        table.after_clear().next_id == table.next_id,
{
}

} // verus!
