use frame_dense::predict::engine_outcome;
use frame_dense::predict_option::{
    OUTPUT_MARGIN, PRED_APPROX_CONTRIBS, PRED_CONTRIBS, PRED_INTERACTIONS, PRED_LEAF,
};
use frame_dense::{
    convert_full, predict, predict_dataframe, predict_dataframe_with_columns, Column, DType,
    DenseError, PredictEngine, Table,
};
use std::cell::RefCell;

/// Sums each row, and records what it was handed.
struct RowSum {
    seen: RefCell<Vec<(Vec<f32>, usize, usize, u32, bool)>>,
}

impl RowSum {
    fn new() -> Self {
        RowSum { seen: RefCell::new(Vec::new()) }
    }
}

impl PredictEngine<f32> for RowSum {
    fn predict(
        &self,
        data: &Vec<f32>,
        num_rows: usize,
        num_features: usize,
        option_mask: u32,
        training: bool,
    ) -> Result<Vec<f32>, String> {
        self.seen.borrow_mut().push((data.clone(), num_rows, num_features, option_mask, training));
        Ok(data.chunks(num_features).map(|row| row.iter().sum()).collect())
    }
}

struct Failing;

impl PredictEngine<f32> for Failing {
    fn predict(&self, _: &Vec<f32>, _: usize, _: usize, _: u32, _: bool) -> Result<Vec<f32>, String> {
        Err("model not loaded".to_string())
    }
}

fn table() -> Table<f32> {
    Table::new(vec![
        Column::new("A".to_string(), DType::Float32, vec![Some(1.0), Some(2.0)]),
        Column::new("B".to_string(), DType::Int32, vec![Some(10.0), Some(20.0)]),
    ])
}

#[test]
fn predict_passes_buffer_shape_and_flags() {
    let engine = RowSum::new();
    let m = convert_full(&table()).unwrap();
    let scores = predict(&engine, &m, OUTPUT_MARGIN | PRED_LEAF, true).unwrap();
    assert_eq!(scores, vec![11.0, 22.0]);
    let seen = engine.seen.borrow();
    assert_eq!(seen.len(), 1);
    assert_eq!(seen[0], (vec![1.0, 10.0, 2.0, 20.0], 2, 2, 0x03, true));
}

#[test]
fn any_mask_reaches_the_engine_unchanged() {
    let engine = RowSum::new();
    let scores = predict_dataframe(&engine, &table(), 0xFFFF_FFFF, true).unwrap();
    assert_eq!(scores, vec![11.0, 22.0]);
    let seen = engine.seen.borrow();
    assert_eq!(seen.len(), 1);
    assert_eq!(seen[0], (vec![1.0, 10.0, 2.0, 20.0], 2, 2, 0xFFFF_FFFF, true));
}

#[test]
fn engine_failure_keeps_its_message() {
    let m = convert_full(&table()).unwrap();
    let r = predict(&Failing, &m, 0, false);
    assert_eq!(r, Err(DenseError::Engine("model not loaded".to_string())));
    let r = predict_dataframe_with_columns(&Failing, &table(), &vec!["A".to_string()], 0, false);
    assert_eq!(r, Err(DenseError::Engine("model not loaded".to_string())));
}

#[test]
fn engine_outcome_carries_scores_and_messages() {
    assert_eq!(engine_outcome::<f32>(Ok(vec![0.25])), Ok(vec![0.25]));
    assert_eq!(
        engine_outcome::<f32>(Err("bad shape".to_string())),
        Err(DenseError::Engine("bad shape".to_string()))
    );
}

#[test]
fn predict_dataframe_converts_then_predicts() {
    let engine = RowSum::new();
    let scores = predict_dataframe(&engine, &table(), 0, false).unwrap();
    assert_eq!(scores, vec![11.0, 22.0]);
}

#[test]
fn predict_dataframe_with_columns_uses_selection() {
    let engine = RowSum::new();
    let scores =
        predict_dataframe_with_columns(&engine, &table(), &vec!["B".to_string()], PRED_CONTRIBS, false)
            .unwrap();
    assert_eq!(scores, vec![10.0, 20.0]);
    assert_eq!(engine.seen.borrow()[0], (vec![10.0, 20.0], 2, 1, 0x04, false));
}

#[test]
fn failed_conversion_does_not_reach_the_engine() {
    let engine = RowSum::new();
    let t = Table::new(vec![Column::new("A".to_string(), DType::Float32, vec![Some(1.0), None])]);
    assert_eq!(predict_dataframe(&engine, &t, 0, false), Err(DenseError::NullValue(1)));
    let r = predict_dataframe_with_columns(&engine, &table(), &vec!["C".to_string()], 0, false);
    assert_eq!(r, Err(DenseError::ColumnSelection("C".to_string())));
    assert!(engine.seen.borrow().is_empty());
}

#[test]
fn option_bits() {
    assert_eq!(OUTPUT_MARGIN, 0x01);
    assert_eq!(PRED_LEAF, 0x02);
    assert_eq!(PRED_CONTRIBS, 0x04);
    assert_eq!(PRED_APPROX_CONTRIBS, 0x08);
    assert_eq!(PRED_INTERACTIONS, 0x10);
}
