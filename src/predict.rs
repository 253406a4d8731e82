use vstd::prelude::*;
use crate::dense::{convert_columns, convert_full, dense_outcome, select_outcome, DenseMatrix};
use crate::error::DenseError;
use crate::table::Table;

verus! {

/// A prediction engine: takes a row-major buffer with its shape, an option
/// mask that only the engine reads, and a training flag, and gives a flat
/// sequence of scores or a message that says why it failed.
pub trait PredictEngine<T> {
    fn predict(
        &self,
        data: &Vec<T>,
        num_rows: usize,
        num_features: usize,
        option_mask: u32,
        training: bool,
    ) -> Result<Vec<T>, String>;
}

/// An engine's answer as the library returns it: the scores unchanged, or
/// the message unchanged inside `DenseError::Engine`.
pub open spec fn carried<T>(answer: Result<Vec<T>, String>) -> Result<Vec<T>, DenseError> {
    match answer {
        Ok(scores) => Ok(scores),
        Err(msg) => Err(DenseError::Engine(msg)),
    }
}

/// Whether `r` is what an answer of `engine.predict` becomes, for a call
/// that is handed the buffer and the shape of `m`, the mask and the flag as
/// they are.
pub open spec fn engine_result<T, E: PredictEngine<T>>(
    engine: &E,
    m: DenseMatrix<T>,
    option_mask: u32,
    training: bool,
    r: Result<Vec<T>, DenseError>,
) -> bool {
    exists|a: Result<Vec<T>, String>|
        call_ensures(E::predict, (engine, &m.buffer, m.rows, m.cols, option_mask, training), a)
            && r == carried(a)
}

/// Carries an engine's answer over: its scores unchanged, or its message
/// unchanged inside `DenseError::Engine`.
pub fn engine_outcome<T>(answer: Result<Vec<T>, String>) -> (r: Result<Vec<T>, DenseError>)
    ensures
        r == carried(answer),
{
    match answer {
        Ok(scores) => Ok(scores),
        Err(msg) => Err(DenseError::Engine(msg)),
    }
}

/// Hands the matrix, its shape, the option mask and the training flag to the
/// engine, once, and carries its answer over.
pub fn predict<T, E: PredictEngine<T>>(
    engine: &E,
    matrix: &DenseMatrix<T>,
    option_mask: u32,
    training: bool,
) -> (r: Result<Vec<T>, DenseError>)
    ensures
        engine_result(engine, *matrix, option_mask, training, r),
{
    let answer = engine.predict(&matrix.buffer, matrix.rows, matrix.cols, option_mask, training);
    let r = engine_outcome(answer);
    r
}

/// Converts every column of `table` and predicts on the matrix. A failed
/// conversion is returned as it is, and the engine is not asked.
pub fn predict_dataframe<T: Copy, E: PredictEngine<T>>(
    engine: &E,
    table: &Table<T>,
    option_mask: u32,
    training: bool,
) -> (r: Result<Vec<T>, DenseError>)
    ensures
        match r {
            Ok(_) | Err(DenseError::Engine(_)) => exists|m: DenseMatrix<T>|
                dense_outcome(table.columns@, Ok(m)) && engine_result(engine, m, option_mask, training, r),
            Err(e) => dense_outcome(table.columns@, Err(e)),
        },
{
    match convert_full(table) {
        Ok(m) => {
            let r = predict(engine, &m, option_mask, training);
            assert(dense_outcome(table.columns@, Ok(m)));
            r
        },
        Err(e) => Err(e),
    }
}

/// Converts the columns of `table` named by `columns`, in that order, and
/// predicts on the matrix. A failed selection or conversion is returned as it
/// is, and the engine is not asked.
pub fn predict_dataframe_with_columns<T: Copy, E: PredictEngine<T>>(
    engine: &E,
    table: &Table<T>,
    columns: &Vec<String>,
    option_mask: u32,
    training: bool,
) -> (r: Result<Vec<T>, DenseError>)
    ensures
        match r {
            Ok(_) | Err(DenseError::Engine(_)) => exists|m: DenseMatrix<T>|
                select_outcome(table.columns@, columns@, Ok(m)) && engine_result(
                    engine,
                    m,
                    option_mask,
                    training,
                    r,
                ),
            Err(e) => select_outcome(table.columns@, columns@, Err(e)),
        },
{
    match convert_columns(table, columns) {
        Ok(m) => {
            let r = predict(engine, &m, option_mask, training);
            assert(select_outcome(table.columns@, columns@, Ok(m)));
            r
        },
        Err(e) => Err(e),
    }
}

} // verus!
