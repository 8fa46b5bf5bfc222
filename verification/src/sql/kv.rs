//! Inserts into key-value collections.

use vstd::prelude::*;

use super::double;
use super::error::{SqlError, SqlErrorView};
use super::expr;
use super::expr::{Cell, Expr, Valued};
use super::plan::SqlPlan;
use super::value::{SqlValue, ValueView};
use crate::text;

verus! {

/// What an insert does with a key that is there already.
#[derive(Debug, Clone, Copy, PartialEq, Eq, Structural)]
pub enum KvInsertIntent {
    Insert,
    InsertIfAbsent,
    Put,
}

/// A key with the columns that are stored under it.
#[derive(Debug)]
pub struct KvEntry {
    pub key: SqlValue,
    pub columns: Vec<Cell>,
}

/// A key with the columns that are stored under it.
pub struct EntryView {
    pub key: ValueView,
    pub columns: Seq<(Seq<char>, ValueView)>,
}

impl View for KvEntry {
    type V = EntryView;

    open spec fn view(&self) -> EntryView {
        EntryView { key: self.key@, columns: expr::cell_views(self.columns@) }
    }
}

/// The views of some entries.
pub open spec fn entry_views(list: Seq<KvEntry>) -> Seq<EntryView> {
    list.map_values(|e: KvEntry| e@)
}

/// The plan of an insert into a key-value collection.
#[derive(Debug)]
pub struct KvInsert {
    pub collection: String,
    pub entries: Vec<KvEntry>,
    pub ttl_secs: u64,
    pub intent: KvInsertIntent,
    pub on_conflict_updates: Vec<(String, Expr)>,
}

/// The first place of a column from `from` on.
pub open spec fn column_place(columns: Seq<String>, name: Seq<char>, from: int) -> Option<int>
    decreases columns.len() - from,
{
    if from < 0 || from >= columns.len() {
        None
    } else if columns[from]@ == name {
        Some(from)
    } else {
        column_place(columns, name, from + 1)
    }
}

/// Which columns of a row mean what.
pub struct Layout {
    pub columns: Seq<String>,
    /// The column that holds the key.
    pub key: Option<int>,
    /// Whether the key is not stored among the columns as well.
    pub key_is_hidden: bool,
    /// The column that holds the time to live.
    pub ttl: Option<int>,
}

/// The layout of rows with these columns, whose key is called `key`. A key column of that very name
/// stands for the raw key and is not stored among the columns; one that the schema names is.
pub open spec fn layout_of(columns: Seq<String>, key: Seq<char>) -> Layout {
    Layout {
        columns,
        key: column_place(columns, key, 0),
        key_is_hidden: key == "key"@,
        ttl: column_place(columns, "ttl"@, 0),
    }
}

impl Layout {
    /// Whether the column at `i` is stored under the key.
    pub open spec fn stores(self, i: int) -> bool {
        !(self.key_is_hidden && self.key == Some(i)) && self.ttl != Some(i)
    }
}

/// What reading part of a row comes to.
pub enum Read<T> {
    Got(T),
    Error(SqlErrorView),
    /// The row has too few values.
    TooShort,
}

/// The value at `i` of a row.
pub open spec fn read_at(row: Seq<Expr>, i: int) -> Read<ValueView> {
    if i < 0 || i >= row.len() {
        Read::TooShort
    } else {
        match expr::value_of(row[i]) {
            Valued::Value(v) => Read::Got(v),
            Valued::Error(e) => Read::Error(e),
        }
    }
}

/// The key of a row, an empty text where no column holds it.
pub open spec fn key_of(l: Layout, row: Seq<Expr>) -> Read<ValueView> {
    match l.key {
        Some(i) => read_at(row, i),
        None => Read::Got(ValueView::String(Seq::empty())),
    }
}

/// The time to live once a row has been read: a number, no less than zero, takes the place of what
/// it was before.
pub open spec fn ttl_after(l: Layout, row: Seq<Expr>, before: u64) -> Read<u64> {
    match l.ttl {
        None => Read::Got(before),
        Some(i) => if i < 0 || i >= row.len() {
            Read::TooShort
        } else {
            Read::Got(
                match expr::value_of(row[i]) {
                    Valued::Value(ValueView::Int(n)) => if n < 0 {
                        0
                    } else {
                        n as u64
                    },
                    Valued::Value(ValueView::Float(bits)) => double::as_unsigned(bits),
                    _ => before,
                },
            )
        },
    }
}

/// The columns among the first `n` that are stored under the key.
pub open spec fn stored_columns(l: Layout, row: Seq<Expr>, n: nat) -> Read<
    Seq<(Seq<char>, ValueView)>,
>
    decreases n,
{
    if n == 0 || n > l.columns.len() {
        Read::Got(Seq::empty())
    } else {
        match stored_columns(l, row, (n - 1) as nat) {
            Read::Error(e) => Read::Error(e),
            Read::TooShort => Read::TooShort,
            Read::Got(before) => if !l.stores(n - 1) {
                Read::Got(before)
            } else {
                match read_at(row, n - 1) {
                    Read::Error(e) => Read::Error(e),
                    Read::TooShort => Read::TooShort,
                    Read::Got(v) => Read::Got(before.push((l.columns[n - 1]@, v))),
                }
            },
        }
    }
}

/// The entry of a row, with the time to live once it has been read.
pub open spec fn entry_of(l: Layout, row: Seq<Expr>, ttl: u64) -> Read<(EntryView, u64)> {
    match key_of(l, row) {
        Read::Error(e) => Read::Error(e),
        Read::TooShort => Read::TooShort,
        Read::Got(key) => match ttl_after(l, row, ttl) {
            Read::Error(e) => Read::Error(e),
            Read::TooShort => Read::TooShort,
            Read::Got(after) => match stored_columns(l, row, l.columns.len()) {
                Read::Error(e) => Read::Error(e),
                Read::TooShort => Read::TooShort,
                Read::Got(columns) => Read::Got((EntryView { key, columns }, after)),
            },
        },
    }
}

/// The entries of the first `n` rows, with the time to live once they have been read: that of the
/// last row that has one.
pub open spec fn entries_of(l: Layout, rows: Seq<Vec<Expr>>, n: nat) -> Read<(Seq<EntryView>, u64)>
    decreases n,
{
    if n == 0 || n > rows.len() {
        Read::Got((Seq::empty(), 0))
    } else {
        match entries_of(l, rows, (n - 1) as nat) {
            Read::Error(e) => Read::Error(e),
            Read::TooShort => Read::TooShort,
            Read::Got(before) => match entry_of(l, rows[n - 1]@, before.1) {
                Read::Error(e) => Read::Error(e),
                Read::TooShort => Read::TooShort,
                Read::Got(entry) => Read::Got((before.0.push(entry.0), entry.1)),
            },
        }
    }
}

proof fn lemma_first_row_decides(l: Layout, rows: Seq<Vec<Expr>>, k: nat, n: nat)
    requires
        k <= n <= rows.len(),
        entries_of(l, rows, k) !is Got,
    ensures
        entries_of(l, rows, n) == entries_of(l, rows, k),
    decreases n,
{
    if k < n {
        lemma_first_row_decides(l, rows, k, (n - 1) as nat);
    }
}

proof fn lemma_first_column_decides(l: Layout, row: Seq<Expr>, k: nat, n: nat)
    requires
        k <= n <= l.columns.len(),
        stored_columns(l, row, k) !is Got,
    ensures
        stored_columns(l, row, n) == stored_columns(l, row, k),
    decreases n,
{
    if k < n {
        lemma_first_column_decides(l, row, k, (n - 1) as nat);
    }
}

/// The first place of a column.
fn position(columns: &[String], name: &str) -> (r: Option<usize>)
    ensures
        match r {
            Some(i) => column_place(columns@, name@, 0) == Some(i as int) && i < columns@.len(),
            None => column_place(columns@, name@, 0) is None,
        },
{
    let mut i: usize = 0;
    while i < columns.len()
        invariant
            i <= columns@.len(),
            column_place(columns@, name@, 0) == column_place(columns@, name@, i as int),
        decreases columns@.len() - i,
    {
        if text::same_text(columns[i].as_str(), name) {
            return Some(i);
        }
        i += 1;
    }
    None
}

/// The view of what reading part of a row comes to; nothing stands for a row that is too short.
pub open spec fn read_view<T, V>(r: Option<Result<T, SqlError>>, view: spec_fn(T) -> V) -> Read<V> {
    match r {
        Some(Ok(x)) => Read::Got(view(x)),
        Some(Err(e)) => Read::Error(e@),
        None => Read::TooShort,
    }
}

/// The value at `i` of a row; nothing where the row is too short.
fn read_value(row: &Vec<Expr>, i: usize) -> (r: Option<Result<SqlValue, SqlError>>)
    ensures
        read_view(r, |v: SqlValue| v@) == read_at(row@, i as int),
{
    if i < row.len() {
        Some(expr::expr_to_sql_value(&row[i]))
    } else {
        None
    }
}

/// The columns of a row that are stored under the key; nothing where the row is too short.
fn read_columns(
    columns: &[String],
    hidden_key: Option<usize>,
    ttl: Option<usize>,
    row: &Vec<Expr>,
    Ghost(l): Ghost<Layout>,
) -> (r: Option<Result<Vec<Cell>, SqlError>>)
    requires
        l.columns == columns@,
        forall|i: int|
            0 <= i < columns@.len() ==> (#[trigger] l.stores(i) <==> (hidden_key is None
                || hidden_key->0 != i) && (ttl is None || ttl->0 != i)),
    ensures
        read_view(r, |cells: Vec<Cell>| expr::cell_views(cells@)) == stored_columns(
            l,
            row@,
            columns@.len(),
        ),
{
    let mut cells: Vec<Cell> = Vec::new();
    let mut i: usize = 0;
    assert(expr::cell_views(cells@) =~= Seq::empty());
    while i < columns.len()
        invariant
            l.columns == columns@,
            forall|k: int|
                0 <= k < columns@.len() ==> (#[trigger] l.stores(k) <==> (hidden_key is None
                    || hidden_key->0 != k) && (ttl is None || ttl->0 != k)),
            i <= columns@.len(),
            stored_columns(l, row@, i as nat) == Read::Got(expr::cell_views(cells@)),
        decreases columns@.len() - i,
    {
        let hidden = match hidden_key {
            Some(k) => k == i,
            None => false,
        };
        let timed = match ttl {
            Some(k) => k == i,
            None => false,
        };
        assert(l.stores(i as int) == (!hidden && !timed));
        if !hidden && !timed {
            let ghost before = cells@;
            proof {
                if read_at(row@, i as int) !is Got {
                    lemma_first_column_decides(l, row@, i as nat + 1, columns@.len());
                }
            }
            match read_value(row, i) {
                Some(Ok(v)) => {
                    let name = columns[i].clone();
                    cells.push((name, v));
                    assert(expr::cell_views(cells@) =~= expr::cell_views(before).push(
                        (name@, v@),
                    ));
                },
                Some(Err(e)) => {
                    return Some(Err(e));
                },
                None => {
                    return None;
                },
            }
        }
        i += 1;
    }
    Some(Ok(cells))
}

/// The time to live once a row has been read; nothing where the row is too short.
fn read_ttl(
    ttl: Option<usize>,
    row: &Vec<Expr>,
    before: u64,
    Ghost(l): Ghost<Layout>,
) -> (r: Option<u64>)
    requires
        l.ttl == (match ttl {
            Some(i) => Some(i as int),
            None => None,
        }),
    ensures
        ttl_after(l, row@, before) == (match r {
            Some(after) => Read::Got(after),
            None => Read::TooShort,
        }),
{
    match ttl {
        None => Some(before),
        Some(i) => match read_value(row, i) {
            Some(Ok(SqlValue::Int(n))) => if n < 0 {
                Some(0)
            } else {
                Some(n as u64)
            },
            Some(Ok(SqlValue::Float(bits))) => Some(double::to_unsigned(bits)),
            Some(_) => Some(before),
            None => None,
        },
    }
}

/// The name of the key column: that of the primary key, or `key` where there is none.
pub open spec fn key_column(pk_col: Option<&str>) -> Seq<char> {
    match pk_col {
        Some(name) => name@,
        None => "key"@,
    }
}

/// What the rows of an insert come to.
pub open spec fn rows_read(columns: Seq<String>, pk_col: Option<&str>, rows: Seq<Vec<Expr>>) -> Read<
    (Seq<EntryView>, u64),
> {
    entries_of(layout_of(columns, key_column(pk_col)), rows, rows.len())
}

/// Reads the rows of an insert: their entries and the time to live; nothing where a row is too
/// short.
fn read_rows(columns: &[String], rows: &[Vec<Expr>], pk_col: Option<&str>) -> (r: Option<
    Result<(Vec<KvEntry>, u64), SqlError>,
>)
    ensures
        read_view(r, |x: (Vec<KvEntry>, u64)| (entry_views(x.0@), x.1)) == rows_read(
            columns@,
            pk_col,
            rows@,
        ),
{
    let key_col = match pk_col {
        Some(name) => name,
        None => "key",
    };
    let ghost l = layout_of(columns@, key_col@);
    let key_idx = position(columns, key_col);
    let ttl_idx = position(columns, "ttl");
    let hidden_key: Option<usize> = if text::same_text(key_col, "key") {
        key_idx
    } else {
        None
    };
    let mut entries: Vec<KvEntry> = Vec::new();
    let mut ttl_secs: u64 = 0;
    let mut i: usize = 0;
    assert(entry_views(entries@) =~= Seq::empty());
    while i < rows.len()
        invariant
            l == layout_of(columns@, key_column(pk_col)),
            l.key == (match key_idx {
                Some(k) => Some(k as int),
                None => None,
            }),
            l.ttl == (match ttl_idx {
                Some(k) => Some(k as int),
                None => None,
            }),
            hidden_key == (if l.key_is_hidden {
                key_idx
            } else {
                None
            }),
            i <= rows@.len(),
            entries_of(l, rows@, i as nat) == Read::Got((entry_views(entries@), ttl_secs)),
        decreases rows@.len() - i,
    {
        let row = &rows[i];
        proof {
            if entry_of(l, row@, ttl_secs) !is Got {
                lemma_first_row_decides(l, rows@, i as nat + 1, rows@.len());
            }
        }
        let key = match key_idx {
            Some(k) => match read_value(row, k) {
                Some(Ok(v)) => v,
                Some(Err(e)) => {
                    return Some(Err(e));
                },
                None => {
                    return None;
                },
            },
            None => SqlValue::String(String::new()),
        };
        let ttl = match read_ttl(ttl_idx, row, ttl_secs, Ghost(l)) {
            Some(ttl) => ttl,
            None => {
                return None;
            },
        };
        match read_columns(columns, hidden_key, ttl_idx, row, Ghost(l)) {
            Some(Ok(cells)) => {
                let ghost before = entries@;
                let entry = KvEntry { key, columns: cells };
                entries.push(entry);
                assert(entry_views(entries@) =~= entry_views(before).push(entry@));
            },
            Some(Err(e)) => {
                return Some(Err(e));
            },
            None => {
                return None;
            },
        }
        ttl_secs = ttl;
        i += 1;
    }
    Some(Ok((entries, ttl_secs)))
}

/// Whether `r` is the plan of an insert whose rows come to `read`, or why there is none.
pub open spec fn planned(
    read: Read<(Seq<EntryView>, u64)>,
    table_name: String,
    intent: KvInsertIntent,
    on_conflict_updates: Vec<(String, Expr)>,
    r: Result<Vec<SqlPlan>, SqlError>,
) -> bool {
    match r {
        Ok(plans) => {
            &&& plans@.len() == 1
            &&& plans@[0] matches SqlPlan::KvInsert(plan)
            &&& plan.collection == table_name
            &&& plan.intent == intent
            &&& plan.on_conflict_updates == on_conflict_updates
            &&& read == Read::Got((entry_views(plan.entries@), plan.ttl_secs))
        },
        Err(e) => read == Read::<(Seq<EntryView>, u64)>::Error(e@),
    }
}

/// Plans an insert into a key-value collection from the rows of a `VALUES` clause; nothing where a
/// row is too short.
pub fn build_kv_insert_plan_checked(
    table_name: String,
    columns: &[String],
    rows: &[Vec<Expr>],
    intent: KvInsertIntent,
    on_conflict_updates: Vec<(String, Expr)>,
    pk_col: Option<&str>,
) -> (r: Option<Result<Vec<SqlPlan>, SqlError>>)
    ensures
        match r {
            Some(r) => planned(
                rows_read(columns@, pk_col, rows@),
                table_name,
                intent,
                on_conflict_updates,
                r,
            ),
            None => rows_read(columns@, pk_col, rows@) is TooShort,
        },
{
    match read_rows(columns, rows, pk_col) {
        Some(Ok((entries, ttl_secs))) => {
            let plan = KvInsert {
                collection: table_name,
                entries,
                ttl_secs,
                intent,
                on_conflict_updates,
            };
            let mut plans: Vec<SqlPlan> = Vec::new();
            plans.push(SqlPlan::KvInsert(plan));
            Some(Ok(plans))
        },
        Some(Err(e)) => Some(Err(e)),
        None => None,
    }
}

/// Plans an insert into a key-value collection from the rows of a `VALUES` clause.
pub fn build_kv_insert_plan(
    table_name: String,
    columns: &[String],
    rows: &[Vec<Expr>],
    intent: KvInsertIntent,
    on_conflict_updates: Vec<(String, Expr)>,
    pk_col: Option<&str>,
) -> (r: Result<Vec<SqlPlan>, SqlError>)
    requires
        rows_read(columns@, pk_col, rows@) !is TooShort,
    ensures
        planned(
            rows_read(columns@, pk_col, rows@),
            table_name,
            intent,
            on_conflict_updates,
            r,
        ),
{
    match build_kv_insert_plan_checked(
        table_name,
        columns,
        rows,
        intent,
        on_conflict_updates,
        pk_col,
    ) {
        Some(r) => r,
        None => vstd::pervasive::unreached(),
    }
}

} // verus!
