use vstd::prelude::*;
use crate::error::Error;
use crate::value::{tag_of, Value, ValueModel, TAG_BOOL, TAG_INT4, TAG_INT8, TAG_MISSING};

verus! {

/// One result row: the backend's positional column container. Produced by
/// the wire layer per result set and consumed by a `FromRow` impl to yield
/// the caller's target type.
#[derive(Clone, Debug, PartialEq)]
pub struct Row {
    pub columns: Vec<Value>,
}

impl View for Row {
    type V = Seq<ValueModel>;

    open spec fn view(&self) -> Seq<ValueModel> {
        self.columns.deep_view()
    }
}

impl DeepView for Row {
    type V = Seq<ValueModel>;

    open spec fn deep_view(&self) -> Seq<ValueModel> {
        self.view()
    }
}

/// The value of column `i`, or the exact decode error when the column is
/// missing or holds a different wire type than `expected`.
pub open spec fn spec_column(r: Seq<ValueModel>, i: usize, expected: u8) -> Result<
    ValueModel,
    Error,
> {
    if i >= r.len() {
        Err(Error::DecodeError { column: i, expected, actual: TAG_MISSING })
    } else if tag_of(r[i as int]) == expected {
        Ok(r[i as int])
    } else {
        Err(Error::DecodeError { column: i, expected, actual: tag_of(r[i as int]) })
    }
}

impl Row {
    /// A row holding the given column values in order.
    pub fn from_columns(columns: Vec<Value>) -> (r: Row)
        ensures
            r@ == columns.deep_view(),
    {
        Row { columns }
    }

    /// The number of columns.
    pub fn len(&self) -> (n: usize)
        ensures
            n == self@.len(),
    {
        self.columns.len()
    }

    /// Column `i` as a boolean, or the decode error naming the column and
    /// the expected versus actual wire type.
    pub fn get_bool(&self, i: usize) -> (r: Result<bool, Error>)
        ensures
            match (r, spec_column(self@, i, TAG_BOOL)) {
                (Ok(b), Ok(m)) => m == ValueModel::MBool(b),
                (Err(e1), Err(e2)) => e1 == e2,
                _ => false,
            },
    {
        if i >= self.columns.len() {
            Err(Error::DecodeError { column: i, expected: TAG_BOOL, actual: TAG_MISSING })
        } else {
            match &self.columns[i] {
                Value::Bool(b) => Ok(*b),
                other => Err(Error::DecodeError {
                    column: i,
                    expected: TAG_BOOL,
                    actual: tag_value(other),
                }),
            }
        }
    }

    /// Column `i` as a 32-bit integer, or the decode error naming the column
    /// and the expected versus actual wire type.
    pub fn get_i32(&self, i: usize) -> (r: Result<i32, Error>)
        ensures
            match (r, spec_column(self@, i, TAG_INT4)) {
                (Ok(x), Ok(m)) => m == ValueModel::MInt4(x),
                (Err(e1), Err(e2)) => e1 == e2,
                _ => false,
            },
    {
        if i >= self.columns.len() {
            Err(Error::DecodeError { column: i, expected: TAG_INT4, actual: TAG_MISSING })
        } else {
            match &self.columns[i] {
                Value::Int4(x) => Ok(*x),
                other => Err(Error::DecodeError {
                    column: i,
                    expected: TAG_INT4,
                    actual: tag_value(other),
                }),
            }
        }
    }

    /// Column `i` as a 64-bit integer, or the decode error naming the column
    /// and the expected versus actual wire type.
    pub fn get_i64(&self, i: usize) -> (r: Result<i64, Error>)
        ensures
            match (r, spec_column(self@, i, TAG_INT8)) {
                (Ok(x), Ok(m)) => m == ValueModel::MInt8(x),
                (Err(e1), Err(e2)) => e1 == e2,
                _ => false,
            },
    {
        if i >= self.columns.len() {
            Err(Error::DecodeError { column: i, expected: TAG_INT8, actual: TAG_MISSING })
        } else {
            match &self.columns[i] {
                Value::Int8(x) => Ok(*x),
                other => Err(Error::DecodeError {
                    column: i,
                    expected: TAG_INT8,
                    actual: tag_value(other),
                }),
            }
        }
    }
}

/// The wire tag of a value.
pub fn tag_value(v: &Value) -> (t: u8)
    ensures
        t == tag_of(v@),
{
    match v {
        Value::Bool(_) => TAG_BOOL,
        Value::Int4(_) => TAG_INT4,
        Value::Int8(_) => TAG_INT8,
        Value::Bytes(_) => crate::value::TAG_BYTES,
    }
}

/// The row-decoder contract: converts one raw row into a caller target
/// type, or fails with a decode error identifying the column and the
/// expected versus actual wire type. `decode_spec` pins the result for
/// every possible row, so a shape mismatch is a decode error, never a
/// silent default.
pub trait FromRow: Sized {
    /// What decoding yields for a row with these column values.
    spec fn decode_spec(r: Seq<ValueModel>) -> Result<Self, Error>;

    /// Decodes one raw row into the target type.
    fn from_row(row: &Row) -> (res: Result<Self, Error>)
        ensures
            res == Self::decode_spec(row@),
    ;
}

impl FromRow for bool {
    open spec fn decode_spec(r: Seq<ValueModel>) -> Result<bool, Error> {
        match spec_column(r, 0, TAG_BOOL) {
            Ok(m) => match m {
                ValueModel::MBool(b) => Ok(b),
                _ => Err(Error::EncodeError),
            },
            Err(e) => Err(e),
        }
    }

    fn from_row(row: &Row) -> (res: Result<bool, Error>) {
        row.get_bool(0)
    }
}

impl FromRow for i64 {
    open spec fn decode_spec(r: Seq<ValueModel>) -> Result<i64, Error> {
        match spec_column(r, 0, TAG_INT8) {
            Ok(m) => match m {
                ValueModel::MInt8(x) => Ok(x),
                _ => Err(Error::EncodeError),
            },
            Err(e) => Err(e),
        }
    }

    fn from_row(row: &Row) -> (res: Result<i64, Error>) {
        row.get_i64(0)
    }
}

impl FromRow for (i64, i64) {
    open spec fn decode_spec(r: Seq<ValueModel>) -> Result<(i64, i64), Error> {
        match (spec_column(r, 0, TAG_INT8), spec_column(r, 1, TAG_INT8)) {
            (Ok(ValueModel::MInt8(a)), Ok(ValueModel::MInt8(b))) => Ok((a, b)),
            (Err(e), _) => Err(e),
            (_, Err(e)) => Err(e),
            _ => Err(Error::EncodeError),
        }
    }

    fn from_row(row: &Row) -> (res: Result<(i64, i64), Error>) {
        let a = match row.get_i64(0) {
            Ok(a) => a,
            Err(e) => {
                return Err(e);
            },
        };
        let b = match row.get_i64(1) {
            Ok(b) => b,
            Err(e) => {
                return Err(e);
            },
        };
        Ok((a, b))
    }
}

} // verus!
