//! Values of SQL.

use vstd::prelude::*;

verus! {

/// The decimal numbers of the `rust_decimal` crate.
#[verifier::external_type_specification]
#[verifier::external_body]
pub struct ExDecimal(rust_decimal::Decimal);

/// A value.
#[derive(Debug)]
pub enum SqlValue {
    Null,
    Bool(bool),
    Int(i64),
    /// A double, held as the bits of its IEEE 754 encoding.
    Float(u64),
    Decimal(rust_decimal::Decimal),
    String(String),
    Bytes(Vec<u8>),
    Array(Vec<SqlValue>),
}

/// A value, apart from how it is stored.
#[verifier::ext_equal]
pub enum ValueView {
    Null,
    Bool(bool),
    Int(i64),
    Float(u64),
    Decimal(rust_decimal::Decimal),
    String(Seq<char>),
    Bytes(Seq<u8>),
    Array(Seq<ValueView>),
}

/// What a value is.
pub open spec fn value_view(v: SqlValue) -> ValueView
    decreases v,
{
    match v {
        SqlValue::Null => ValueView::Null,
        SqlValue::Bool(b) => ValueView::Bool(b),
        SqlValue::Int(n) => ValueView::Int(n),
        SqlValue::Float(bits) => ValueView::Float(bits),
        SqlValue::Decimal(d) => ValueView::Decimal(d),
        SqlValue::String(s) => ValueView::String(s@),
        SqlValue::Bytes(b) => ValueView::Bytes(b@),
        SqlValue::Array(items) => ValueView::Array(
            Seq::new(
                items@.len(),
                |i: int|
                    if 0 <= i < items@.len() {
                        value_view(items@[i])
                    } else {
                        ValueView::Null
                    },
            ),
        ),
    }
}

impl View for SqlValue {
    type V = ValueView;

    open spec fn view(&self) -> ValueView {
        value_view(*self)
    }
}

/// The views of a list of values.
pub open spec fn value_views(list: Seq<SqlValue>) -> Seq<ValueView> {
    list.map_values(|v: SqlValue| v@)
}

/// An array is what its elements are.
pub proof fn lemma_array_view(items: Vec<SqlValue>)
    ensures
        SqlValue::Array(items)@ == ValueView::Array(value_views(items@)),
{
    reveal_with_fuel(value_view, 2);
    let all = SqlValue::Array(items)@->Array_0;
    assert forall|i: int| 0 <= i < items@.len() implies all[i] == value_views(items@)[i] by {
        assert(all[i] == items@[i]@);
    }
    assert(all =~= value_views(items@));
}

impl SqlValue {
    /// The same value once more.
    pub fn copied(&self) -> (r: Self)
        ensures
            r@ == self@,
        decreases *self,
    {
        match self {
            SqlValue::Null => SqlValue::Null,
            SqlValue::Bool(b) => SqlValue::Bool(*b),
            SqlValue::Int(n) => SqlValue::Int(*n),
            SqlValue::Float(bits) => SqlValue::Float(*bits),
            SqlValue::Decimal(d) => SqlValue::Decimal(*d),
            SqlValue::String(s) => SqlValue::String(s.clone()),
            SqlValue::Bytes(b) => {
                let mut out: Vec<u8> = Vec::new();
                out.extend_from_slice(b.as_slice());
                assert(out@ =~= b@);
                SqlValue::Bytes(out)
            },
            SqlValue::Array(items) => {
                let mut out: Vec<SqlValue> = Vec::new();
                let mut i: usize = 0;
                while i < items.len()
                    invariant
                        *self == SqlValue::Array(*items),
                        i <= items@.len(),
                        value_views(out@) == value_views(items@).take(i as int),
                    decreases items@.len() - i,
                {
                    assert(decreases_to!(*self => self->Array_0));
                    assert(decreases_to!(items => items@));
                    assert(decreases_to!(items@ => items@[i as int]));
                    let item = items[i].copied();
                    let ghost before = out@;
                    out.push(item);
                    proof {
                        let all = value_views(items@);
                        assert(all[i as int] == item@);
                        assert(value_views(out@) =~= value_views(before).push(item@));
                        assert(all.take(i as int + 1) =~= all.take(i as int).push(item@));
                    }
                    i += 1;
                }
                proof {
                    assert(value_views(items@).take(i as int) =~= value_views(items@));
                    lemma_array_view(*items);
                    lemma_array_view(out);
                }
                SqlValue::Array(out)
            },
        }
    }
}

} // verus!
