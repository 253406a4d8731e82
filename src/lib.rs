//! Conversion of typed, column-oriented tables into dense row-major matrices,
//! and the hand-off of such a matrix to a prediction engine.
//!
//! A table is a sequence of named columns. Each column carries the tag of its
//! source type and, for every row, either a value already in the target
//! representation or an absence marker. The builder checks the shape, visits
//! every cell row by row and column by column, and lays the values out so that
//! cell `(r, c)` sits at offset `r * cols + c`.

pub mod error;
pub mod table;
pub mod dense;
pub mod predict;
pub mod predict_option;

pub use crate::dense::{convert_columns, convert_full, DenseMatrix};
pub use crate::error::DenseError;
pub use crate::predict::{predict, predict_dataframe, predict_dataframe_with_columns, PredictEngine};
pub use crate::table::{coerce_cell, Column, DType, Table};
