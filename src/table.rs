use vstd::prelude::*;
use crate::error::DenseError;

verus! {

/// The source type of a column.
#[derive(Clone, Debug, PartialEq, Eq)]
pub enum DType {
    Float32,
    Float64,
    Int8,
    Int16,
    Int32,
    Int64,
    UInt8,
    UInt16,
    UInt32,
    UInt64,
    Boolean,
    /// Any other source type, by its name; it has no conversion.
    Other(String),
}

/// One named column. `values[i]` is the cell of row `i`, already in the
/// target representation, or `None` where the cell is absent.
#[derive(Debug)]
pub struct Column<T> {
    pub name: String,
    pub dtype: DType,
    pub values: Vec<Option<T>>,
}

/// A table: its columns in their natural order.
#[derive(Debug)]
pub struct Table<T> {
    pub columns: Vec<Column<T>>,
}

/// What converting the cell of row `idx` of column `c` gives: the type is
/// checked first, then the presence of the value.
pub open spec fn cell_outcome<T>(c: Column<T>, idx: int) -> Result<T, DenseError> {
    match c.dtype {
        DType::Other(name) => Err(DenseError::UnsupportedType(name)),
        _ => match c.values@[idx] {
            Some(v) => Ok(v),
            None => Err(DenseError::NullValue(idx as usize)),
        },
    }
}

impl DType {
    /// Whether a column of this type can be converted.
    pub fn is_supported(&self) -> (r: bool)
        ensures
            r == !(self is Other),
    {
        match self {
            DType::Other(_) => false,
            _ => true,
        }
    }
}

impl<T: Copy> Column<T> {
    pub fn new(name: String, dtype: DType, values: Vec<Option<T>>) -> (r: Self)
        ensures
            r.name == name,
            r.dtype == dtype,
            r.values@ == values@,
    {
        Column { name, dtype, values }
    }

    /// The number of rows of the column.
    pub fn len(&self) -> (r: usize)
        ensures
            r == self.values@.len(),
    {
        self.values.len()
    }
}

impl<T> Table<T> {
    pub fn new(columns: Vec<Column<T>>) -> (r: Self)
        ensures
            r.columns@ == columns@,
    {
        Table { columns }
    }
}

/// Converts one cell: fails with `UnsupportedType` where the column's type has
/// no conversion, with `NullValue(idx)` where the cell is absent, and gives
/// the value otherwise.
pub fn coerce_cell<T: Copy>(column: &Column<T>, idx: usize) -> (r: Result<T, DenseError>)
    requires
        idx < column.values@.len(),
    ensures
        r == cell_outcome(*column, idx as int),
        column.dtype matches DType::Other(name) ==> r == Err::<T, DenseError>(
            DenseError::UnsupportedType(name),
        ),
{
    match &column.dtype {
        DType::Other(name) => Err(DenseError::UnsupportedType(name.clone())),
        _ => match column.values[idx] {
            Some(v) => Ok(v),
            None => Err(DenseError::NullValue(idx)),
        },
    }
}

} // verus!
