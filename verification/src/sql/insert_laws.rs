//! What inserts promise: where each value of a row goes.

use vstd::prelude::*;

use super::double;
use super::error::{FaultView, SqlError};
use super::expr;
use super::expr::{Cell, Expr, Valued};
use super::kv;
use super::kv::{KvEntry, KvInsertIntent, Read};
use super::plan::SqlPlan;
use super::value::{SqlValue, ValueView};
use super::vector;
use super::vector::{Parts, VectorPrimaryRow, VectorRowView, VectorRows};
use crate::lists;

verus! {

/// Whether `k` is the first place of a column called `name`.
pub open spec fn first_called(columns: Seq<String>, name: Seq<char>, k: int) -> bool {
    &&& 0 <= k < columns.len()
    &&& columns[k]@ == name
    &&& forall|j: int| 0 <= j < k ==> (#[trigger] columns[j])@ != name
}

/// Whether no column is called `name`.
pub open spec fn none_called(columns: Seq<String>, name: Seq<char>) -> bool {
    forall|j: int| 0 <= j < columns.len() ==> (#[trigger] columns[j])@ != name
}

/// The name of the column that holds the key: that of the primary key, or `key` without one.
pub open spec fn key_name(pk_col: Option<&str>) -> Seq<char> {
    if pk_col is Some {
        pk_col->0@
    } else {
        "key"@
    }
}

/// Whether the column at `j` is stored with an entry: not the time to live, and not a raw key, which
/// is a key column that is called `key`.
pub open spec fn is_stored(columns: Seq<String>, key: Seq<char>, j: int) -> bool {
    &&& !first_called(columns, "ttl"@, j)
    &&& !(key == "key"@ && first_called(columns, "key"@, j))
}

/// Which columns are stored with an entry.
pub open spec fn stored(columns: Seq<String>, key: Seq<char>) -> spec_fn(int) -> bool {
    |j: int| is_stored(columns, key, j)
}

/// Whether a row has a value at `j`.
pub open spec fn holds(row: Seq<Expr>, j: int) -> bool {
    j < row.len() && expr::value_of(row[j]) is Value
}

/// Whether a row can be read: it has a value for the key and for each stored column, and something
/// for the time to live.
pub open spec fn readable(columns: Seq<String>, key: Seq<char>, row: Seq<Expr>) -> bool {
    &&& forall|k: int| #[trigger] first_called(columns, key, k) ==> holds(row, k)
    &&& forall|k: int| #[trigger] first_called(columns, "ttl"@, k) ==> k < row.len()
    &&& forall|j: int| 0 <= j < columns.len() && #[trigger] is_stored(columns, key, j) ==> holds(row, j)
}

/// Whether a row cannot be read because of the value at `j`, the first that counts of those that
/// there are none of: the key counts before the stored columns, and those in their order.
pub open spec fn fails_at(columns: Seq<String>, key: Seq<char>, row: Seq<Expr>, j: int) -> bool {
    &&& 0 <= j < columns.len()
    &&& !holds(row, j)
    &&& first_called(columns, key, j) || {
        &&& is_stored(columns, key, j)
        &&& forall|k: int| #[trigger] first_called(columns, key, k) ==> holds(row, k)
        &&& forall|k: int| #[trigger] first_called(columns, "ttl"@, k) ==> k < row.len()
        &&& forall|i: int| 0 <= i < j && #[trigger] is_stored(columns, key, i) ==> holds(row, i)
    }
}

/// A row that is too short for its time to live, though its key can be read.
pub open spec fn lacks_ttl(columns: Seq<String>, key: Seq<char>, row: Seq<Expr>) -> bool {
    &&& forall|k: int| #[trigger] first_called(columns, key, k) ==> holds(row, k)
    &&& exists|k: int| #[trigger] first_called(columns, "ttl"@, k) && k >= row.len()
}

proof fn lemma_column_place(columns: Seq<String>, name: Seq<char>, from: int)
    requires
        0 <= from <= columns.len(),
        forall|j: int| 0 <= j < from ==> (#[trigger] columns[j])@ != name,
    ensures
        match kv::column_place(columns, name, from) {
            Some(k) => first_called(columns, name, k) && forall|i: int|
                #[trigger] first_called(columns, name, i) ==> i == k,
            None => none_called(columns, name) && forall|i: int|
                !(#[trigger] first_called(columns, name, i)),
        },
    decreases columns.len() - from,
{
    if from < columns.len() {
        if columns[from]@ != name {
            lemma_column_place(columns, name, from + 1);
        }
    }
}

/// What a layout says of the columns.
proof fn lemma_layout(columns: Seq<String>, key: Seq<char>)
    ensures
        ({
            let l = kv::layout_of(columns, key);
            &&& l.columns == columns
            &&& forall|j: int|
                0 <= j < columns.len() ==> (#[trigger] l.stores(j) <==> is_stored(columns, key, j))
            &&& match l.key {
                Some(k) => first_called(columns, key, k) && forall|i: int|
                    #[trigger] first_called(columns, key, i) ==> i == k,
                None => forall|i: int| !(#[trigger] first_called(columns, key, i)),
            }
            &&& match l.ttl {
                Some(k) => first_called(columns, "ttl"@, k) && forall|i: int|
                    #[trigger] first_called(columns, "ttl"@, i) ==> i == k,
                None => forall|i: int| !(#[trigger] first_called(columns, "ttl"@, i)),
            }
        }),
{
    lemma_column_place(columns, key, 0);
    lemma_column_place(columns, "ttl"@, 0);
}

/// What the columns of an entry are, when those of the first `n` columns have been read.
pub open spec fn columns_are(
    columns: Seq<String>,
    key: Seq<char>,
    row: Seq<Expr>,
    cells: Seq<(Seq<char>, ValueView)>,
    n: nat,
) -> bool {
    &&& cells.len() == lists::count(stored(columns, key), n)
    &&& forall|j: int|
        0 <= j < n && #[trigger] is_stored(columns, key, j) ==> {
            let at = lists::count(stored(columns, key), j as nat) as int;
            &&& at < cells.len()
            &&& cells[at].0 == columns[j]@
            &&& j < row.len()
            &&& expr::value_of(row[j]) == Valued::Value(cells[at].1)
        }
}

proof fn lemma_stored_columns(columns: Seq<String>, key: Seq<char>, row: Seq<Expr>, n: nat)
    requires
        n <= columns.len(),
    ensures
        match kv::stored_columns(kv::layout_of(columns, key), row, n) {
            Read::Got(cells) => columns_are(columns, key, row, cells, n),
            Read::Error(error) => exists|j: int|
                0 <= j < n && #[trigger] is_stored(columns, key, j) && j < row.len()
                    && expr::value_of(row[j]) == Valued::Error(error) && forall|i: int|
                    0 <= i < j && #[trigger] is_stored(columns, key, i) ==> holds(row, i),
            Read::TooShort => exists|j: int|
                0 <= j < n && #[trigger] is_stored(columns, key, j) && j >= row.len() && forall|i: int|
                    0 <= i < j && #[trigger] is_stored(columns, key, i) ==> holds(row, i),
        },
    decreases n,
{
    let l = kv::layout_of(columns, key);
    lemma_layout(columns, key);
    if n > 0 {
        lemma_stored_columns(columns, key, row, (n - 1) as nat);
        let p = stored(columns, key);
        assert(p(n - 1) == is_stored(columns, key, n - 1));
        assert(l.stores(n - 1) == is_stored(columns, key, n - 1));
        match kv::stored_columns(l, row, (n - 1) as nat) {
            Read::Got(before) => {
                assert forall|i: int| 0 <= i < n - 1 && #[trigger] is_stored(columns, key, i) implies holds(
                    row,
                    i,
                ) by {}
                match kv::stored_columns(l, row, n) {
                    Read::Got(cells) => {
                        assert forall|j: int| 0 <= j < n && #[trigger] is_stored(columns, key, j) implies {
                            let at = lists::count(p, j as nat) as int;
                            &&& at < cells.len()
                            &&& cells[at].0 == columns[j]@
                            &&& j < row.len()
                            &&& expr::value_of(row[j]) == Valued::Value(cells[at].1)
                        } by {
                            let at = lists::count(p, j as nat) as int;
                            if j < n - 1 {
                                assert(at < before.len());
                                assert(cells[at] == before[at]);
                            }
                        }
                    },
                    _ => {
                        assert(is_stored(columns, key, n - 1));
                    },
                }
            },
            _ => {},
        }
    }
}

/// What the entry of a row is.
pub open spec fn entry_is(
    columns: Seq<String>,
    key: Seq<char>,
    row: Seq<Expr>,
    entry: kv::EntryView,
) -> bool {
    &&& forall|k: int| #[trigger]
        first_called(columns, key, k) ==> k < row.len() && expr::value_of(row[k]) == Valued::Value(
            entry.key,
        )
    &&& none_called(columns, key) ==> entry.key == ValueView::String(Seq::empty())
    &&& columns_are(columns, key, row, entry.columns, columns.len())
}

proof fn lemma_entry(columns: Seq<String>, key: Seq<char>, row: Seq<Expr>, ttl: u64)
    ensures
        match kv::entry_of(kv::layout_of(columns, key), row, ttl) {
            Read::Got(got) => {
                &&& readable(columns, key, row)
                &&& entry_is(columns, key, row, got.0)
                &&& kv::ttl_after(kv::layout_of(columns, key), row, ttl) == Read::Got(got.1)
            },
            Read::Error(error) => !readable(columns, key, row) && exists|j: int|
                #[trigger] fails_at(columns, key, row, j) && j < row.len() && expr::value_of(row[j])
                    == Valued::Error(error),
            Read::TooShort => !readable(columns, key, row) && (lacks_ttl(columns, key, row)
                || exists|j: int| #[trigger] fails_at(columns, key, row, j) && j >= row.len()),
        },
{
    let l = kv::layout_of(columns, key);
    lemma_layout(columns, key);
    lemma_stored_columns(columns, key, row, columns.len());
    match l.key {
        Some(k) => {
            if !holds(row, k) {
                assert(fails_at(columns, key, row, k));
            }
        },
        None => {},
    }
    match l.ttl {
        Some(k) => {
            assert(first_called(columns, "ttl"@, k));
        },
        None => {},
    }
    match kv::entry_of(l, row, ttl) {
        Read::Got(got) => {
            if none_called(columns, key) && l.key is Some {
                assert(first_called(columns, key, l.key->0));
            }
        },
        Read::Error(error) => {
            if kv::key_of(l, row) is Got {
                let j = choose|j: int|
                    0 <= j < columns.len() && #[trigger] is_stored(columns, key, j) && j < row.len()
                        && expr::value_of(row[j]) == Valued::Error(error) && forall|i: int|
                        0 <= i < j && #[trigger] is_stored(columns, key, i) ==> holds(row, i);
                assert(fails_at(columns, key, row, j));
            }
        },
        Read::TooShort => {
            if kv::key_of(l, row) is Got && kv::ttl_after(l, row, ttl) is Got {
                let j = choose|j: int|
                    0 <= j < columns.len() && #[trigger] is_stored(columns, key, j) && j >= row.len()
                        && forall|i: int|
                        0 <= i < j && #[trigger] is_stored(columns, key, i) ==> holds(row, i);
                assert(fails_at(columns, key, row, j));
            }
        },
    }
}

/// Whether an expression is a whole number or a double.
pub open spec fn is_number(e: Expr) -> bool {
    expr::value_of(e) matches Valued::Value(v) && (v is Int || v is Float)
}

/// The seconds that a number stands for: none where it is below zero, and without what is behind the
/// point.
pub open spec fn seconds(e: Expr) -> u64 {
    match expr::value_of(e)->Value_0 {
        ValueView::Int(n) => if n < 0 {
            0
        } else {
            n as u64
        },
        ValueView::Float(bits) => double::as_unsigned(bits),
        _ => 0,
    }
}

/// Whether `ttl` is the time to live that the first `n` rows give: that of the last whose column for
/// it holds a number, or none.
pub open spec fn ttl_is(columns: Seq<String>, rows: Seq<Vec<Expr>>, n: nat, ttl: u64) -> bool {
    &&& none_called(columns, "ttl"@) ==> ttl == 0
    &&& forall|k: int| #[trigger]
        first_called(columns, "ttl"@, k) ==> {
            &&& forall|i: int|
                0 <= i < n && is_number(#[trigger] rows[i]@[k]) && (forall|j: int|
                    i < j < n ==> !is_number(#[trigger] rows[j]@[k])) ==> ttl == seconds(rows[i]@[k])
            &&& (forall|i: int| 0 <= i < n ==> !is_number(#[trigger] rows[i]@[k])) ==> ttl == 0
        }
}

/// Whether the row at `r` is the first that cannot be read.
pub open spec fn unreadable_first(
    columns: Seq<String>,
    key: Seq<char>,
    rows: Seq<Vec<Expr>>,
    r: int,
) -> bool {
    &&& 0 <= r < rows.len()
    &&& !readable(columns, key, rows[r]@)
    &&& forall|q: int| 0 <= q < r ==> readable(columns, key, (#[trigger] rows[q])@)
}

proof fn lemma_ttl(
    columns: Seq<String>,
    key: Seq<char>,
    rows: Seq<Vec<Expr>>,
    n: nat,
    before: u64,
    after: u64,
)
    requires
        0 < n <= rows.len(),
        ttl_is(columns, rows, (n - 1) as nat, before),
        kv::ttl_after(kv::layout_of(columns, key), rows[n - 1]@, before) == Read::Got(after),
    ensures
        ttl_is(columns, rows, n, after),
{
    lemma_layout(columns, key);
    let l = kv::layout_of(columns, key);
    match l.ttl {
        Some(k) => {
            let row = rows[n - 1]@;
            assert(first_called(columns, "ttl"@, k));
            assert(columns[k]@ == "ttl"@);
            if is_number(row[k]) {
                assert(after == seconds(row[k]));
                assert(is_number(rows[n - 1]@[k]));
                assert forall|i: int|
                    0 <= i < n && is_number(#[trigger] rows[i]@[k]) && (forall|j: int|
                        i < j < n ==> !is_number(#[trigger] rows[j]@[k])) implies after == seconds(
                    rows[i]@[k],
                ) by {
                    if i < n - 1 {
                        assert(!is_number(rows[n - 1]@[k]));
                    }
                }
            } else {
                assert(after == before);
                assert forall|i: int|
                    0 <= i < n && is_number(#[trigger] rows[i]@[k]) && (forall|j: int|
                        i < j < n ==> !is_number(#[trigger] rows[j]@[k])) implies after == seconds(
                    rows[i]@[k],
                ) by {
                    assert(i < n - 1);
                }
                if forall|i: int| 0 <= i < n ==> !is_number(#[trigger] rows[i]@[k]) {
                    assert(after == 0);
                }
            }
        },
        None => {},
    }
}

proof fn lemma_entries(columns: Seq<String>, key: Seq<char>, rows: Seq<Vec<Expr>>, n: nat)
    requires
        n <= rows.len(),
    ensures
        match kv::entries_of(kv::layout_of(columns, key), rows, n) {
            Read::Got(got) => {
                &&& got.0.len() == n
                &&& forall|r: int|
                    0 <= r < n ==> readable(columns, key, (#[trigger] rows[r])@) && entry_is(
                        columns,
                        key,
                        rows[r]@,
                        got.0[r],
                    )
                &&& ttl_is(columns, rows, n, got.1)
            },
            Read::Error(error) => exists|r: int, j: int|
                r < n && #[trigger] unreadable_first(columns, key, rows, r) && #[trigger] fails_at(
                    columns,
                    key,
                    rows[r]@,
                    j,
                ) && j < rows[r]@.len() && expr::value_of(rows[r]@[j]) == Valued::Error(error),
            Read::TooShort => exists|r: int|
                r < n && #[trigger] unreadable_first(columns, key, rows, r) && (lacks_ttl(
                    columns,
                    key,
                    rows[r]@,
                ) || exists|j: int| #[trigger]
                    fails_at(columns, key, rows[r]@, j) && j >= rows[r]@.len()),
        },
    decreases n,
{
    let l = kv::layout_of(columns, key);
    if n == 0 {
        assert(ttl_is(columns, rows, 0, 0));
    } else {
        lemma_entries(columns, key, rows, (n - 1) as nat);
        match kv::entries_of(l, rows, (n - 1) as nat) {
            Read::Got(before) => {
                lemma_entry(columns, key, rows[n - 1]@, before.1);
                match kv::entry_of(l, rows[n - 1]@, before.1) {
                    Read::Got(entry) => {
                        lemma_ttl(columns, key, rows, n, before.1, entry.1);
                        let got = kv::entries_of(l, rows, n)->Got_0;
                        assert forall|r: int| 0 <= r < n implies readable(
                            columns,
                            key,
                            (#[trigger] rows[r])@,
                        ) && entry_is(columns, key, rows[r]@, got.0[r]) by {
                            if r < n - 1 {
                                assert(got.0[r] == before.0[r]);
                            } else {
                                assert(got.0[r] == entry.0);
                            }
                        }
                    },
                    Read::Error(error) => {
                        assert(unreadable_first(columns, key, rows, n - 1));
                        let j = choose|j: int|
                            #[trigger] fails_at(columns, key, rows[n - 1]@, j) && j
                                < rows[n - 1]@.len() && expr::value_of(rows[n - 1]@[j])
                                == Valued::Error(error);
                        assert(fails_at(columns, key, rows[n - 1]@, j));
                    },
                    Read::TooShort => {
                        assert(unreadable_first(columns, key, rows, n - 1));
                    },
                }
            },
            _ => {},
        }
    }
}

/// Whether `entry` holds what `row` says: under the value of the key column, or an empty text where
/// there is no such column, each stored column in the order of the columns, with its own value.
pub open spec fn entry_holds(
    columns: Seq<String>,
    key: Seq<char>,
    row: Seq<Expr>,
    entry: KvEntry,
) -> bool {
    &&& forall|k: int| #[trigger]
        first_called(columns, key, k) ==> k < row.len() && expr::value_of(row[k]) == Valued::Value(
            entry.key@,
        )
    &&& none_called(columns, key) ==> entry.key@ == ValueView::String(Seq::empty())
    &&& entry.columns@.len() == lists::count(stored(columns, key), columns.len())
    &&& forall|j: int|
        0 <= j < columns.len() && #[trigger] is_stored(columns, key, j) ==> {
            let at = lists::count(stored(columns, key), j as nat) as int;
            &&& at < entry.columns@.len()
            &&& entry.columns@[at].0@ == columns[j]@
            &&& j < row.len()
            &&& expr::value_of(row[j]) == Valued::Value(entry.columns@[at].1@)
        }
}

/// Whether every row can be read.
pub open spec fn all_readable(
    columns: Seq<String>,
    pk_col: Option<&str>,
    rows: Seq<Vec<Expr>>,
) -> bool {
    forall|r: int|
        0 <= r < rows.len() ==> readable(columns, key_name(pk_col), (#[trigger] rows[r])@)
}

/// Each entry of an insert into a key-value collection depends on its own row alone: its key is what
/// that row holds in the key column, and its columns are what that row holds in the stored ones. The
/// time to live is that of the last row which has one.
pub proof fn law_entries_hold_their_own_rows(
    columns: Seq<String>,
    pk_col: Option<&str>,
    rows: Seq<Vec<Expr>>,
    table_name: String,
    intent: KvInsertIntent,
    updates: Vec<(String, Expr)>,
    plans: Vec<SqlPlan>,
)
    requires
        kv::planned(
            kv::rows_read(columns, pk_col, rows),
            table_name,
            intent,
            updates,
            Ok::<Vec<SqlPlan>, SqlError>(plans),
        ),
    ensures
        plans@.len() == 1,
        plans@[0] matches SqlPlan::KvInsert(plan) && {
            &&& plan.collection == table_name
            &&& plan.intent == intent
            &&& plan.on_conflict_updates == updates
            &&& plan.entries@.len() == rows.len()
            &&& forall|r: int|
                0 <= r < rows.len() ==> entry_holds(
                    columns,
                    key_name(pk_col),
                    (#[trigger] rows[r])@,
                    plan.entries@[r],
                )
            &&& ttl_is(columns, rows, rows.len(), plan.ttl_secs)
        },
{
    let key = key_name(pk_col);
    assert(key == kv::key_column(pk_col));
    lemma_entries(columns, key, rows, rows.len());
    let plan = plans@[0]->KvInsert_0;
    let got = kv::rows_read(columns, pk_col, rows)->Got_0;
    assert(got.0 == kv::entry_views(plan.entries@));
    assert forall|r: int| 0 <= r < rows.len() implies entry_holds(
        columns,
        key,
        (#[trigger] rows[r])@,
        plan.entries@[r],
    ) by {
        let entry = plan.entries@[r];
        assert(got.0[r] == entry@);
        assert(entry_is(columns, key, rows[r]@, entry@));
        assert forall|j: int| 0 <= j < columns.len() && #[trigger] is_stored(columns, key, j) implies {
            let at = lists::count(stored(columns, key), j as nat) as int;
            &&& at < entry.columns@.len()
            &&& entry.columns@[at].0@ == columns[j]@
            &&& j < rows[r]@.len()
            &&& expr::value_of(rows[r]@[j]) == Valued::Value(entry.columns@[at].1@)
        } by {
            let at = lists::count(stored(columns, key), j as nat) as int;
            assert(entry@.columns[at] == expr::cell_view(entry.columns@[at]));
        }
    }
}

/// The key of each entry is what its own row holds in the first column that has the name of the key,
/// whatever the other rows hold.
pub proof fn law_each_key_comes_from_its_own_row(
    columns: Seq<String>,
    pk_col: Option<&str>,
    rows: Seq<Vec<Expr>>,
    table_name: String,
    intent: KvInsertIntent,
    updates: Vec<(String, Expr)>,
    plans: Vec<SqlPlan>,
    r: int,
    k: int,
)
    requires
        kv::planned(
            kv::rows_read(columns, pk_col, rows),
            table_name,
            intent,
            updates,
            Ok::<Vec<SqlPlan>, SqlError>(plans),
        ),
        0 <= r < rows.len(),
        0 <= k < columns.len(),
        pk_col is Some ==> columns[k]@ == pk_col->0@,
        pk_col is None ==> columns[k]@ == "key"@,
        forall|j: int| 0 <= j < k ==> (#[trigger] columns[j])@ != columns[k]@,
    ensures
        expr::value_of(rows[r]@[k]) == Valued::Value(plans@[0]->KvInsert_0.entries@[r].key@),
{
    law_entries_hold_their_own_rows(columns, pk_col, rows, table_name, intent, updates, plans);
    assert(first_called(columns, key_name(pk_col), k));
    assert(entry_holds(
        columns,
        key_name(pk_col),
        rows[r]@,
        plans@[0]->KvInsert_0.entries@[r],
    ));
}

/// Each column of a row other than the time to live and a raw key is stored in the entry of that row,
/// under its own name and with the value that this row holds.
pub proof fn law_each_column_is_stored_with_its_own_row(
    columns: Seq<String>,
    pk_col: Option<&str>,
    rows: Seq<Vec<Expr>>,
    table_name: String,
    intent: KvInsertIntent,
    updates: Vec<(String, Expr)>,
    plans: Vec<SqlPlan>,
    r: int,
    j: int,
)
    requires
        kv::planned(
            kv::rows_read(columns, pk_col, rows),
            table_name,
            intent,
            updates,
            Ok::<Vec<SqlPlan>, SqlError>(plans),
        ),
        0 <= r < rows.len(),
        0 <= j < columns.len(),
        columns[j]@ != "ttl"@,
        columns[j]@ != "key"@ || pk_col is Some && pk_col->0@ != "key"@,
    ensures
        exists|at: int|
            0 <= at < plans@[0]->KvInsert_0.entries@[r].columns@.len() && (
            #[trigger] plans@[0]->KvInsert_0.entries@[r].columns@[at]).0@ == columns[j]@
                && expr::value_of(rows[r]@[j]) == Valued::Value(
                plans@[0]->KvInsert_0.entries@[r].columns@[at].1@,
            ),
{
    let key = key_name(pk_col);
    law_entries_hold_their_own_rows(columns, pk_col, rows, table_name, intent, updates, plans);
    let entry = plans@[0]->KvInsert_0.entries@[r];
    assert(entry_holds(columns, key, rows[r]@, entry));
    assert(is_stored(columns, key, j));
    let at = lists::count(stored(columns, key), j as nat) as int;
    assert(entry.columns@[at].0@ == columns[j]@);
}

/// An insert into a key-value collection is planned exactly if every row can be read. Otherwise the
/// first row that cannot decides: by why the first of its values that counts cannot be had, the key
/// before the stored columns, or by being too short for it.
pub proof fn law_which_inserts_are_planned(
    columns: Seq<String>,
    pk_col: Option<&str>,
    rows: Seq<Vec<Expr>>,
)
    ensures
        kv::rows_read(columns, pk_col, rows) is Got <==> all_readable(columns, pk_col, rows),
        kv::rows_read(columns, pk_col, rows) matches Read::Error(error) ==> exists|r: int, j: int|
            #[trigger] unreadable_first(columns, key_name(pk_col), rows, r) && #[trigger] fails_at(
                columns,
                key_name(pk_col),
                rows[r]@,
                j,
            ) && j < rows[r]@.len() && expr::value_of(rows[r]@[j]) == Valued::Error(error),
        kv::rows_read(columns, pk_col, rows) is TooShort ==> exists|r: int| #[trigger]
            unreadable_first(columns, key_name(pk_col), rows, r) && (lacks_ttl(
                columns,
                key_name(pk_col),
                rows[r]@,
            ) || exists|j: int| #[trigger]
                fails_at(columns, key_name(pk_col), rows[r]@, j) && j >= rows[r]@.len()),
{
    assert(key_name(pk_col) == kv::key_column(pk_col));
    lemma_entries(columns, key_name(pk_col), rows, rows.len());
}

/// An insert into a key-value collection is refused for why the first value that counts of its first
/// row that cannot be read cannot be had.
pub proof fn law_why_inserts_are_refused(
    columns: Seq<String>,
    pk_col: Option<&str>,
    rows: Seq<Vec<Expr>>,
    table_name: String,
    intent: KvInsertIntent,
    updates: Vec<(String, Expr)>,
    e: SqlError,
)
    requires
        kv::planned(
            kv::rows_read(columns, pk_col, rows),
            table_name,
            intent,
            updates,
            Err::<Vec<SqlPlan>, SqlError>(e),
        ),
    ensures
        exists|r: int, j: int|
            #[trigger] unreadable_first(columns, key_name(pk_col), rows, r) && #[trigger] fails_at(
                columns,
                key_name(pk_col),
                rows[r]@,
                j,
            ) && j < rows[r]@.len() && expr::value_of(rows[r]@[j]) == Valued::Error(e@),
{
    law_which_inserts_are_planned(columns, pk_col, rows);
}

/// Whether `v` is a number.
pub open spec fn vector_number(v: SqlValue) -> bool {
    v is Int || v is Float || v is Decimal
}

/// Whether `v` is an array of numbers.
pub open spec fn is_vector(v: SqlValue) -> bool {
    v matches SqlValue::Array(items) && forall|i: int|
        0 <= i < items@.len() ==> vector_number(#[trigger] items@[i])
}

/// Whether `fault` is what is wrong with `v` as a vector: it is no array, or its first element that is
/// no number is none.
pub open spec fn vector_fault(field: Seq<char>, v: SqlValue, fault: FaultView) -> bool {
    match v {
        SqlValue::Array(items) => exists|i: int|
            0 <= i < items@.len() && !vector_number(#[trigger] items@[i]) && fault
                == FaultView::NotANumber(items@[i]@) && forall|j: int|
                0 <= j < i ==> vector_number(#[trigger] items@[j]),
        _ => fault == (FaultView::NotAnArray { field, value: v@ }),
    }
}

proof fn lemma_first_fault(items: Seq<SqlValue>, n: nat)
    requires
        n <= items.len(),
    ensures
        match vector::first_fault(items, n) {
            None => forall|i: int| 0 <= i < n ==> vector_number(#[trigger] items[i]),
            Some(fault) => exists|i: int|
                0 <= i < n && !vector_number(#[trigger] items[i]) && fault == FaultView::NotANumber(
                    items[i]@,
                ) && forall|j: int| 0 <= j < i ==> vector_number(#[trigger] items[j]),
        },
    decreases n,
{
    if n > 0 {
        lemma_first_fault(items, (n - 1) as nat);
        if vector::first_fault(items, (n - 1) as nat) is None && !vector_number(items[n - 1]) {
            assert(vector::first_fault(items, n) == Some(FaultView::NotANumber(items[n - 1]@)));
        }
    }
}

/// Whether the last of the first `n` columns called `name` is the one at `i`.
pub open spec fn last_called(row: Seq<Cell>, n: nat, name: Seq<char>, i: int) -> bool {
    &&& 0 <= i < n
    &&& row[i].0@ == name
    &&& forall|j: int| i < j < n ==> (#[trigger] row[j]).0@ != name
}

/// Whether one of the first `n` columns is called `name`.
pub open spec fn has_called(row: Seq<Cell>, n: nat, name: Seq<char>) -> bool {
    exists|i: int| 0 <= i < n && (#[trigger] row[i]).0@ == name
}

/// Whether the column at `i` is the first that is called like the vector and holds none.
pub open spec fn spoils(field: Seq<char>, row: Seq<Cell>, i: int) -> bool {
    &&& 0 <= i < row.len()
    &&& row[i].0@ == field
    &&& !is_vector(row[i].1)
    &&& forall|j: int|
        0 <= j < i && (#[trigger] row[j]).0@ == field ==> is_vector(row[j].1)
}

/// What the first `n` columns of a row leave to keep.
spec fn parts_hold(
    field: Seq<char>,
    row: Seq<Cell>,
    n: nat,
    vector: Option<Seq<SqlValue>>,
    payload: Map<Seq<char>, SqlValue>,
) -> bool {
    &&& vector is None <==> !has_called(row, n, field)
    &&& forall|i: int| #[trigger]
        last_called(row, n, field, i) ==> vector is Some && (row[i].1 matches SqlValue::Array(items)
            && items@ == vector->0)
    &&& forall|i: int| 0 <= i < n && (#[trigger] row[i]).0@ == field ==> is_vector(row[i].1)
    &&& forall|name: Seq<char>| #[trigger]
        payload.contains_key(name) <==> name != field && has_called(row, n, name)
    &&& forall|name: Seq<char>, i: int|
        name != field && #[trigger] last_called(row, n, name, i) ==> payload[name] == row[i].1
}

proof fn lemma_parts_hold(field: Seq<char>, row: Seq<Cell>, n: nat)
    requires
        n <= row.len(),
    ensures
        match vector::parts_of(field, row, n) {
            Parts::Parts { vector, payload } => parts_hold(field, row, n, vector, payload),
            Parts::Fault(fault) => exists|i: int|
                i < n && #[trigger] spoils(field, row, i) && vector_fault(field, row[i].1, fault),
        },
    decreases n,
{
    if n > 0 {
        lemma_parts_hold(field, row, (n - 1) as nat);
        let cell = row[n - 1];
        match cell.1 {
            SqlValue::Array(items) => {
                lemma_first_fault(items@, items@.len());
            },
            _ => {},
        }
        match vector::parts_of(field, row, (n - 1) as nat) {
            Parts::Fault(fault) => {},
            Parts::Parts { vector: before, payload: kept } => {
                match vector::parts_of(field, row, n) {
                    Parts::Fault(fault) => {
                        assert(spoils(field, row, n - 1));
                        assert(vector_fault(field, row[n - 1].1, fault));
                    },
                    Parts::Parts { vector, payload } => {
                        assert forall|name: Seq<char>| #[trigger]
                            has_called(row, n, name) <==> has_called(row, (n - 1) as nat, name)
                                || cell.0@ == name by {
                            if has_called(row, n, name) {
                                let i = choose|i: int| 0 <= i < n && (#[trigger] row[i]).0@ == name;
                                if i < n - 1 {
                                    assert(row[i].0@ == name);
                                }
                            }
                            if has_called(row, (n - 1) as nat, name) {
                                let i = choose|i: int|
                                    0 <= i < n - 1 && (#[trigger] row[i]).0@ == name;
                                assert(row[i].0@ == name);
                            }
                            if cell.0@ == name {
                                assert(row[n - 1].0@ == name);
                            }
                        }
                        assert forall|name: Seq<char>, i: int| #[trigger]
                            last_called(row, n, name, i) implies (if i == n - 1 {
                            cell.0@ == name
                        } else {
                            cell.0@ != name && last_called(row, (n - 1) as nat, name, i)
                        }) by {
                            if i < n - 1 {
                                assert(row[n - 1].0@ != name);
                            }
                        }
                        if cell.0@ == field {
                            assert(payload == kept);
                        } else {
                            assert(payload == kept.insert(cell.0@, cell.1));
                            assert(vector == before);
                        }
                        assert forall|i: int| #[trigger] last_called(row, n, field, i) implies vector
                            is Some && (row[i].1 matches SqlValue::Array(items) && items@
                            == vector->0) by {
                            if i < n - 1 {
                                assert(last_called(row, (n - 1) as nat, field, i));
                            }
                        }
                        assert forall|name: Seq<char>, i: int|
                            name != field && #[trigger] last_called(row, n, name, i) implies payload[name]
                            == row[i].1 by {
                            if i < n - 1 {
                                assert(last_called(row, (n - 1) as nat, name, i));
                                assert(payload[name] == kept[name]);
                            }
                        }
                        assert(parts_hold(field, row, n, vector, payload));
                    },
                }
            },
        }
    } else {
        assert(parts_hold(field, row, 0, None, Map::empty()));
    }
}

/// Whether a row gives a vector: it has a column for it, and all of that name hold arrays of numbers.
pub open spec fn gives_vector(field: Seq<char>, row: Seq<Cell>) -> bool {
    &&& has_called(row, row.len(), field)
    &&& forall|i: int|
        0 <= i < row.len() && (#[trigger] row[i]).0@ == field ==> is_vector(row[i].1)
}

/// Whether `built` is what `row` gives: the numbers of its last column called like the vector, and of
/// every other name the value of the last column, with nothing lost and nothing added.
pub open spec fn row_holds(field: Seq<char>, row: Seq<Cell>, built: VectorPrimaryRow) -> bool {
    &&& built.surrogate == 0
    &&& forall|i: int| #[trigger]
        last_called(row, row.len(), field, i) ==> (row[i].1 matches SqlValue::Array(items) && items@
            == built.vector@)
    &&& forall|name: Seq<char>| #[trigger]
        built.payload_fields@.contains_key(name) <==> name != field && has_called(
            row,
            row.len(),
            name,
        )
    &&& forall|name: Seq<char>, i: int|
        name != field && #[trigger] last_called(row, row.len(), name, i)
            ==> built.payload_fields@[name] == row[i].1
}

/// Nothing of a row is lost: the row of an insert of vectors holds the vector, and under the name of
/// each other column the value of the last column of that name.
pub proof fn law_nothing_of_a_row_is_lost(field: Seq<char>, row: Seq<Cell>, built: VectorPrimaryRow)
    requires
        vector::vector_row(field, row) == Ok::<VectorRowView, FaultView>(built@),
    ensures
        gives_vector(field, row),
        row_holds(field, row, built),
        forall|name: Seq<char>| #[trigger]
            built.payload_fields@.contains_key(name) <==> name != field && exists|i: int|
                0 <= i < row.len() && (#[trigger] row[i]).0@ == name,
        forall|i: int|
            0 <= i < row.len() && (#[trigger] row[i]).0@ != field && (forall|j: int|
                i < j < row.len() ==> (#[trigger] row[j]).0@ != row[i].0@)
                ==> built.payload_fields@[row[i].0@] == row[i].1,
        forall|i: int|
            0 <= i < row.len() && (#[trigger] row[i]).0@ == field && (forall|j: int|
                i < j < row.len() ==> (#[trigger] row[j]).0@ != field) ==> row[i].1 is Array
                && row[i].1->Array_0@ == built.vector@,
{
    lemma_parts_hold(field, row, row.len());
    assert forall|name: Seq<char>| #[trigger]
        built.payload_fields@.contains_key(name) <==> name != field && exists|i: int|
            0 <= i < row.len() && (#[trigger] row[i]).0@ == name by {
        assert(has_called(row, row.len(), name) == exists|i: int|
            0 <= i < row.len() && (#[trigger] row[i]).0@ == name);
    }
    assert forall|i: int|
        0 <= i < row.len() && (#[trigger] row[i]).0@ != field && (forall|j: int|
            i < j < row.len() ==> (#[trigger] row[j]).0@ != row[i].0@) implies
        built.payload_fields@[row[i].0@] == row[i].1 by {
        assert(last_called(row, row.len(), row[i].0@, i));
    }
    assert forall|i: int|
        0 <= i < row.len() && (#[trigger] row[i]).0@ == field && (forall|j: int|
            i < j < row.len() ==> (#[trigger] row[j]).0@ != field) implies row[i].1 is Array
        && row[i].1->Array_0@ == built.vector@ by {
        assert(last_called(row, row.len(), field, i));
    }
}

/// A row is refused exactly if it gives no vector: for lack of the column, or for the first column of
/// that name that holds no array of numbers, and then for its first element that is no number.
pub proof fn law_why_vectors_are_refused(field: Seq<char>, row: Seq<Cell>)
    ensures
        vector::vector_row(field, row) is Ok <==> gives_vector(field, row),
        vector::vector_row(field, row) matches Err(fault) ==> if has_called(row, row.len(), field) {
            exists|i: int| #[trigger] spoils(field, row, i) && vector_fault(field, row[i].1, fault)
        } else {
            fault == (FaultView::Missing { field })
        },
{
    lemma_parts_hold(field, row, row.len());
    match vector::vector_row(field, row) {
        Err(fault) => {
            if vector::parts_of(field, row, row.len()) is Fault {
                let i = choose|i: int|
                    i < row.len() && #[trigger] spoils(field, row, i) && vector_fault(
                        field,
                        row[i].1,
                        fault,
                    );
                assert(spoils(field, row, i));
                assert(row[i].0@ == field);
            }
        },
        Ok(_) => {},
    }
}

proof fn lemma_vector_rows(field: Seq<char>, rows: Seq<Vec<Cell>>, n: nat)
    requires
        n <= rows.len(),
    ensures
        match vector::vector_rows(field, rows, n) {
            VectorRows::Rows(all) => all.len() == n && forall|r: int|
                0 <= r < n ==> vector::vector_row(field, (#[trigger] rows[r])@) == Ok::<
                    VectorRowView,
                    FaultView,
                >(all[r]),
            VectorRows::Fault(fault) => exists|r: int|
                0 <= r < n && vector::vector_row(field, (#[trigger] rows[r])@) == Err::<
                    VectorRowView,
                    FaultView,
                >(fault) && forall|q: int|
                    0 <= q < r ==> gives_vector(field, (#[trigger] rows[q])@),
        },
    decreases n,
{
    if n > 0 {
        lemma_vector_rows(field, rows, (n - 1) as nat);
        match vector::vector_rows(field, rows, (n - 1) as nat) {
            VectorRows::Rows(before) => {
                assert forall|q: int| 0 <= q < n - 1 implies gives_vector(
                    field,
                    (#[trigger] rows[q])@,
                ) by {
                    law_why_vectors_are_refused(field, rows[q]@);
                }
                if vector::vector_row(field, rows[n - 1]@) is Ok {
                    let all = vector::vector_rows(field, rows, n)->Rows_0;
                    assert forall|r: int| 0 <= r < n implies vector::vector_row(
                        field,
                        (#[trigger] rows[r])@,
                    ) == Ok::<VectorRowView, FaultView>(all[r]) by {
                        if r < n - 1 {
                            assert(all[r] == before[r]);
                        }
                    }
                }
            },
            _ => {},
        }
    }
}

/// Each row of an insert of vectors is made of its own row alone.
pub proof fn law_vector_rows_hold_their_own_rows(
    field: Seq<char>,
    rows: Seq<Vec<Cell>>,
    built: Vec<VectorPrimaryRow>,
)
    requires
        vector::vector_rows(field, rows, rows.len()) == VectorRows::Rows(
            vector::vector_row_views(built@),
        ),
    ensures
        built@.len() == rows.len(),
        forall|r: int|
            0 <= r < rows.len() ==> gives_vector(field, (#[trigger] rows[r])@) && row_holds(
                field,
                rows[r]@,
                built@[r],
            ),
{
    lemma_vector_rows(field, rows, rows.len());
    assert forall|r: int| 0 <= r < rows.len() implies gives_vector(field, (#[trigger] rows[r])@)
        && row_holds(field, rows[r]@, built@[r]) by {
        assert(vector::vector_row_views(built@)[r] == built@[r]@);
        law_nothing_of_a_row_is_lost(field, rows[r]@, built@[r]);
    }
}

/// An insert of vectors is refused for its first row that gives no vector.
pub proof fn law_why_vector_rows_are_refused(
    field: Seq<char>,
    rows: Seq<Vec<Cell>>,
    fault: FaultView,
)
    requires
        vector::vector_rows(field, rows, rows.len()) == VectorRows::Fault(fault),
    ensures
        exists|r: int|
            0 <= r < rows.len() && vector::vector_row(field, (#[trigger] rows[r])@) == Err::<
                VectorRowView,
                FaultView,
            >(fault) && forall|q: int| 0 <= q < r ==> gives_vector(field, (#[trigger] rows[q])@),
{
    lemma_vector_rows(field, rows, rows.len());
}

/// What is wrong with an element of a vector: nothing with a whole number or a double, nothing with a
/// decimal that a single-precision number stands for, and otherwise that there is none, or that it is
/// no number.
pub proof fn law_what_is_wrong_with_an_element(v: SqlValue, decimal_fits: bool)
    ensures
        v is Int || v is Float ==> vector::element_fault(v, decimal_fits) is None,
        v is Decimal ==> vector::element_fault(v, decimal_fits) == (if decimal_fits {
            None
        } else {
            Some(FaultView::DecimalOutOfRange(v->Decimal_0))
        }),
        !vector_number(v) ==> vector::element_fault(v, decimal_fits) == Some(
            FaultView::NotANumber(v@),
        ),
{
}

} // verus!
