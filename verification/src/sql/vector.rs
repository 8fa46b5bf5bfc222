//! Inserts into collections whose primary index is over a vector.

use vstd::prelude::*;

use super::error::{FaultView, SqlError, SqlErrorView, VectorFault};
use super::expr::Cell;
use super::plan::SqlPlan;
use super::value;
use super::value::SqlValue;
use crate::lists;
use crate::text;
use crate::text_map::TextMap;

verus! {

/// How a collection keeps its vectors.
#[derive(Debug)]
pub struct VectorPrimaryConfig {
    /// The column that holds the vector.
    pub vector_field: String,
    pub quantization: String,
    pub storage_dtype: String,
    pub payload_indexes: Vec<String>,
}

/// A row with its vector.
pub struct VectorPrimaryRow {
    /// Zero until a surrogate is assigned.
    pub surrogate: u32,
    /// The elements of the vector, each of them a number.
    pub vector: Vec<SqlValue>,
    pub payload_fields: TextMap<SqlValue>,
}

/// The plan of an insert into a collection of vectors.
pub struct VectorPrimaryInsert {
    pub collection: String,
    pub field: String,
    pub quantization: String,
    pub storage_dtype: String,
    pub payload_indexes: Vec<String>,
    pub rows: Vec<VectorPrimaryRow>,
}

/// A row with its vector.
pub struct VectorRowView {
    pub surrogate: u32,
    pub vector: Seq<SqlValue>,
    pub payload_fields: Map<Seq<char>, SqlValue>,
}

impl View for VectorPrimaryRow {
    type V = VectorRowView;

    open spec fn view(&self) -> VectorRowView {
        VectorRowView {
            surrogate: self.surrogate,
            vector: self.vector@,
            payload_fields: self.payload_fields@,
        }
    }
}

/// The views of some rows.
pub open spec fn vector_row_views(rows: Seq<VectorPrimaryRow>) -> Seq<VectorRowView> {
    rows.map_values(|r: VectorPrimaryRow| r@)
}

/// What is wrong with an element of a vector, given whether a single-precision number stands for it
/// where it is a decimal.
pub open spec fn element_fault(v: SqlValue, decimal_fits: bool) -> Option<FaultView> {
    match v {
        SqlValue::Float(_) => None,
        SqlValue::Int(_) => None,
        SqlValue::Decimal(d) => if decimal_fits {
            None
        } else {
            Some(FaultView::DecimalOutOfRange(d))
        },
        _ => Some(FaultView::NotANumber(v@)),
    }
}

/// What is wrong with the first of the first `n` elements that something is wrong with. A
/// single-precision number stands for every decimal.
pub open spec fn first_fault(items: Seq<SqlValue>, n: nat) -> Option<FaultView>
    decreases n,
{
    if n == 0 || n > items.len() {
        None
    } else {
        match first_fault(items, (n - 1) as nat) {
            Some(fault) => Some(fault),
            None => element_fault(items[n - 1], true),
        }
    }
}

/// The parts of a row, or what is wrong with it.
pub enum Parts {
    Parts { vector: Option<Seq<SqlValue>>, payload: Map<Seq<char>, SqlValue> },
    Fault(FaultView),
}

/// The parts of the first `n` columns of a row. The last column called `field` holds the vector; of
/// any other name, too, the last column counts.
pub open spec fn parts_of(field: Seq<char>, row: Seq<Cell>, n: nat) -> Parts
    decreases n,
{
    if n == 0 || n > row.len() {
        Parts::Parts { vector: None, payload: Map::empty() }
    } else {
        match parts_of(field, row, (n - 1) as nat) {
            Parts::Fault(fault) => Parts::Fault(fault),
            Parts::Parts { vector, payload } => {
                let cell = row[n - 1];
                if cell.0@ == field {
                    match cell.1 {
                        SqlValue::Array(items) => match first_fault(items@, items@.len()) {
                            Some(fault) => Parts::Fault(fault),
                            None => Parts::Parts { vector: Some(items@), payload },
                        },
                        other => Parts::Fault(FaultView::NotAnArray { field, value: other@ }),
                    }
                } else {
                    Parts::Parts { vector, payload: payload.insert(cell.0@, cell.1) }
                }
            },
        }
    }
}

/// Some rows with their vectors, or what is wrong with the first that something is wrong with.
pub enum VectorRows {
    Rows(Seq<VectorRowView>),
    Fault(FaultView),
}

/// A row with its vector. A row without one is faulty.
pub open spec fn vector_row(field: Seq<char>, row: Seq<Cell>) -> Result<VectorRowView, FaultView> {
    match parts_of(field, row, row.len()) {
        Parts::Fault(fault) => Err(fault),
        Parts::Parts { vector: None, payload } => Err(FaultView::Missing { field }),
        Parts::Parts { vector: Some(vector), payload } => Ok(
            VectorRowView { surrogate: 0, vector, payload_fields: payload },
        ),
    }
}

/// The first `n` rows with their vectors.
pub open spec fn vector_rows(field: Seq<char>, rows: Seq<Vec<Cell>>, n: nat) -> VectorRows
    decreases n,
{
    if n == 0 || n > rows.len() {
        VectorRows::Rows(Seq::empty())
    } else {
        match vector_rows(field, rows, (n - 1) as nat) {
            VectorRows::Fault(fault) => VectorRows::Fault(fault),
            VectorRows::Rows(before) => match vector_row(field, rows[n - 1]@) {
                Err(fault) => VectorRows::Fault(fault),
                Ok(row) => VectorRows::Rows(before.push(row)),
            },
        }
    }
}

/// Asks whether `to_f32`, as `rust_decimal` has it from `num_traits::ToPrimitive`, finds a
/// single-precision number for a decimal. Claims that it always does.
#[verifier::external_body]
fn decimal_to_f32_is_some(d: &rust_decimal::Decimal) -> (r: bool)
    ensures
        r,
{
    rust_decimal::prelude::ToPrimitive::to_f32(d).is_some()
}

/// What is wrong with an element of a vector, given whether a single-precision number stands for it
/// where it is a decimal.
pub fn check_element(v: &SqlValue, decimal_fits: bool) -> (r: Result<(), VectorFault>)
    ensures
        match r {
            Ok(()) => element_fault(*v, decimal_fits) is None,
            Err(fault) => element_fault(*v, decimal_fits) == Some(fault@),
        },
{
    match v {
        SqlValue::Float(_) | SqlValue::Int(_) => Ok(()),
        SqlValue::Decimal(d) => if decimal_fits {
            Ok(())
        } else {
            Err(VectorFault::DecimalOutOfRange(*d))
        },
        _ => Err(VectorFault::NotANumber(v.copied())),
    }
}

proof fn lemma_first_fault(items: Seq<SqlValue>, k: nat, n: nat)
    requires
        k <= n <= items.len(),
        first_fault(items, k) is Some,
    ensures
        first_fault(items, n) == first_fault(items, k),
    decreases n,
{
    if k < n {
        lemma_first_fault(items, k, (n - 1) as nat);
    }
}

fn check_vector(items: &Vec<SqlValue>) -> (r: Result<(), VectorFault>)
    ensures
        match r {
            Ok(()) => first_fault(items@, items@.len()) is None,
            Err(fault) => first_fault(items@, items@.len()) == Some(fault@),
        },
{
    let mut i: usize = 0;
    while i < items.len()
        invariant
            i <= items@.len(),
            first_fault(items@, i as nat) is None,
        decreases items@.len() - i,
    {
        let fits = match &items[i] {
            SqlValue::Decimal(d) => decimal_to_f32_is_some(d),
            _ => true,
        };
        match check_element(&items[i], fits) {
            Ok(()) => {},
            Err(fault) => {
                proof {
                    lemma_first_fault(items@, i as nat + 1, items@.len());
                }
                return Err(fault);
            },
        }
        i += 1;
    }
    Ok(())
}

proof fn lemma_faulty_column(field: Seq<char>, row: Seq<Cell>, k: nat, n: nat)
    requires
        k <= n <= row.len(),
        parts_of(field, row, k) is Fault,
    ensures
        parts_of(field, row, n) == parts_of(field, row, k),
    decreases n,
{
    if k < n {
        lemma_faulty_column(field, row, k, (n - 1) as nat);
    }
}

/// Takes a row apart into its vector and the rest.
fn build_row(field: &str, row: Vec<Cell>) -> (r: Result<VectorPrimaryRow, VectorFault>)
    ensures
        match r {
            Ok(built) => vector_row(field@, row@) == Ok::<VectorRowView, FaultView>(built@),
            Err(fault) => vector_row(field@, row@) == Err::<VectorRowView, FaultView>(fault@),
        },
{
    let ghost all = row@;
    let mut rest = lists::reversed(row);
    let mut vector: Option<Vec<SqlValue>> = None;
    let mut payload_fields: TextMap<SqlValue> = TextMap::new();
    let ghost mut k: nat = 0;
    while rest.len() > 0
        invariant
            all == row@,
            k <= all.len(),
            rest@.len() == all.len() - k,
            forall|i: int| 0 <= i < rest@.len() ==> rest@[i] == all[all.len() - 1 - i],
            parts_of(field@, all, k) == (Parts::Parts {
                vector: match vector {
                    Some(v) => Some(v@),
                    None => None,
                },
                payload: payload_fields@,
            }),
        decreases rest@.len(),
    {
        match rest.pop() {
            Some((column, value)) => {
                assert((column, value) == all[k as int]);
                if text::same_text(column.as_str(), field) {
                    match value {
                        SqlValue::Array(items) => {
                            match check_vector(&items) {
                                Ok(()) => {},
                                Err(fault) => {
                                    proof {
                                        lemma_faulty_column(field@, all, k + 1, all.len());
                                    }
                                    return Err(fault);
                                },
                            }
                            vector = Some(items);
                        },
                        other => {
                            proof {
                                lemma_faulty_column(field@, all, k + 1, all.len());
                            }
                            return Err(
                                VectorFault::NotAnArray { field: field.to_owned(), value: other },
                            );
                        },
                    }
                } else {
                    payload_fields.insert(column, value);
                }
                proof {
                    k = k + 1;
                }
            },
            None => {},
        }
    }
    match vector {
        Some(vector) => Ok(VectorPrimaryRow { surrogate: 0, vector, payload_fields }),
        None => Err(VectorFault::Missing { field: field.to_owned() }),
    }
}

proof fn lemma_faulty_row(field: Seq<char>, rows: Seq<Vec<Cell>>, k: nat, n: nat)
    requires
        k <= n <= rows.len(),
        vector_rows(field, rows, k) is Fault,
    ensures
        vector_rows(field, rows, n) == vector_rows(field, rows, k),
    decreases n,
{
    if k < n {
        lemma_faulty_row(field, rows, k, (n - 1) as nat);
    }
}

fn copy_texts(list: &Vec<String>) -> (r: Vec<String>)
    ensures
        r@ == list@,
{
    let mut out: Vec<String> = Vec::new();
    let mut i: usize = 0;
    while i < list.len()
        invariant
            i <= list@.len(),
            out@ == list@.take(i as int),
        decreases list@.len() - i,
    {
        out.push(list[i].clone());
        assert(out@ =~= list@.take(i as int + 1));
        i += 1;
    }
    assert(list@.take(i as int) =~= list@);
    out
}

/// Plans an insert into a collection of vectors. Each row has to hold its vector, as an array of
/// numbers, in the column that the collection keeps it in; its other columns go with it.
pub fn build_vector_primary_insert_plan(
    collection: &str,
    vpc: &VectorPrimaryConfig,
    rows: Vec<Vec<Cell>>,
) -> (r: Result<Vec<SqlPlan>, SqlError>)
    ensures
        match r {
            Ok(plans) => {
                &&& plans@.len() == 1
                &&& plans@[0] matches SqlPlan::VectorPrimaryInsert(plan)
                &&& plan.collection@ == collection@
                &&& plan.field == vpc.vector_field
                &&& plan.quantization == vpc.quantization
                &&& plan.storage_dtype == vpc.storage_dtype
                &&& plan.payload_indexes@ == vpc.payload_indexes@
                &&& vector_rows(vpc.vector_field@, rows@, rows@.len()) == VectorRows::Rows(
                    vector_row_views(plan.rows@),
                )
            },
            Err(e) => e@ matches SqlErrorView::Vector(fault) && vector_rows(
                vpc.vector_field@,
                rows@,
                rows@.len(),
            ) == VectorRows::Fault(fault),
        },
{
    let ghost all = rows@;
    let ghost field = vpc.vector_field@;
    let mut rest = lists::reversed(rows);
    let mut built: Vec<VectorPrimaryRow> = Vec::new();
    let ghost mut k: nat = 0;
    assert(vector_row_views(built@) =~= Seq::empty());
    while rest.len() > 0
        invariant
            all == rows@,
            field == vpc.vector_field@,
            k <= all.len(),
            rest@.len() == all.len() - k,
            forall|i: int| 0 <= i < rest@.len() ==> rest@[i] == all[all.len() - 1 - i],
            vector_rows(field, all, k) == VectorRows::Rows(vector_row_views(built@)),
        decreases rest@.len(),
    {
        match rest.pop() {
            Some(row) => {
                assert(row == all[k as int]);
                let ghost before = built@;
                match build_row(vpc.vector_field.as_str(), row) {
                    Ok(row) => {
                        built.push(row);
                        assert(vector_row_views(built@) =~= vector_row_views(before).push(row@));
                    },
                    Err(fault) => {
                        proof {
                            lemma_faulty_row(field, all, k + 1, all.len());
                        }
                        return Err(SqlError::Vector(fault));
                    },
                }
                proof {
                    k = k + 1;
                }
            },
            None => {},
        }
    }
    let plan = VectorPrimaryInsert {
        collection: collection.to_owned(),
        field: vpc.vector_field.clone(),
        quantization: vpc.quantization.clone(),
        storage_dtype: vpc.storage_dtype.clone(),
        payload_indexes: copy_texts(&vpc.payload_indexes),
        rows: built,
    };
    let mut plans: Vec<SqlPlan> = Vec::new();
    plans.push(SqlPlan::VectorPrimaryInsert(plan));
    Ok(plans)
}

} // verus!
