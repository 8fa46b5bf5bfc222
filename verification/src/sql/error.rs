//! The errors of planning.

use vstd::prelude::*;

use super::value;
use super::value::{SqlValue, ValueView};

verus! {

/// What is wrong with a vector that a row is to hold.
#[derive(Debug)]
pub enum VectorFault {
    /// An element is a decimal that no single-precision number stands for.
    DecimalOutOfRange(rust_decimal::Decimal),
    /// An element is no number.
    NotANumber(SqlValue),
    /// The field holds something else than an array.
    NotAnArray { field: String, value: SqlValue },
    /// The row has no such field.
    Missing { field: String },
}

/// What is wrong with a vector, apart from how it is stored.
pub enum FaultView {
    DecimalOutOfRange(rust_decimal::Decimal),
    NotANumber(ValueView),
    NotAnArray { field: Seq<char>, value: ValueView },
    Missing { field: Seq<char> },
}

impl View for VectorFault {
    type V = FaultView;

    open spec fn view(&self) -> FaultView {
        match self {
            VectorFault::DecimalOutOfRange(d) => FaultView::DecimalOutOfRange(*d),
            VectorFault::NotANumber(v) => FaultView::NotANumber(v@),
            VectorFault::NotAnArray { field, value } => FaultView::NotAnArray {
                field: field@,
                value: value@,
            },
            VectorFault::Missing { field } => FaultView::Missing { field: field@ },
        }
    }
}

/// Why a statement cannot be planned.
#[derive(Debug)]
pub enum SqlError {
    Unsupported { detail: String },
    UnknownTable { name: String },
    Vector(VectorFault),
    /// An expression cannot be resolved, and why.
    Unresolved { reason: String },
}

/// Why a statement cannot be planned, apart from how it is stored.
pub enum SqlErrorView {
    Unsupported { detail: Seq<char> },
    UnknownTable { name: Seq<char> },
    Vector(FaultView),
    Unresolved { reason: Seq<char> },
}

impl View for SqlError {
    type V = SqlErrorView;

    open spec fn view(&self) -> SqlErrorView {
        match self {
            SqlError::Unsupported { detail } => SqlErrorView::Unsupported { detail: detail@ },
            SqlError::UnknownTable { name } => SqlErrorView::UnknownTable { name: name@ },
            SqlError::Vector(fault) => SqlErrorView::Vector(fault@),
            SqlError::Unresolved { reason } => SqlErrorView::Unresolved { reason: reason@ },
        }
    }
}

impl SqlError {
    /// The same error once more.
    pub fn copied(&self) -> (r: Self)
        ensures
            r@ == self@,
    {
        match self {
            SqlError::Unsupported { detail } => SqlError::Unsupported { detail: detail.clone() },
            SqlError::UnknownTable { name } => SqlError::UnknownTable { name: name.clone() },
            SqlError::Vector(fault) => SqlError::Vector(
                match fault {
                    VectorFault::DecimalOutOfRange(d) => VectorFault::DecimalOutOfRange(*d),
                    VectorFault::NotANumber(v) => VectorFault::NotANumber(v.copied()),
                    VectorFault::NotAnArray { field, value } => VectorFault::NotAnArray {
                        field: field.clone(),
                        value: value.copied(),
                    },
                    VectorFault::Missing { field } => VectorFault::Missing { field: field.clone() },
                },
            ),
            SqlError::Unresolved { reason } => SqlError::Unresolved { reason: reason.clone() },
        }
    }
}

} // verus!
