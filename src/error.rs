use vstd::prelude::*;

verus! {

/// Every way in which a conversion or a prediction can fail.
#[derive(Clone, Debug, PartialEq, Eq)]
pub enum DenseError {
    /// The table has no rows or no columns.
    EmptyInput,
    /// A requested column name is not in the table; holds that name.
    ColumnSelection(String),
    /// The cell at this row index is absent.
    NullValue(usize),
    /// A column's source type has no conversion; holds the type's name.
    UnsupportedType(String),
    /// The column at this position (among the selected ones) has another
    /// length than the first selected column.
    LengthMismatch(usize),
    /// The prediction engine failed; holds its message unchanged.
    Engine(String),
}

} // verus!
