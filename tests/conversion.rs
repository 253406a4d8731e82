use frame_dense::{coerce_cell, convert_columns, convert_full, Column, DType, DenseError, Table};

fn col(name: &str, dtype: DType, values: Vec<Option<f32>>) -> Column<f32> {
    Column::new(name.to_string(), dtype, values)
}

fn two_by_two() -> Table<f32> {
    Table::new(vec![
        col("A", DType::Float32, vec![Some(1.0), Some(2.0)]),
        col("B", DType::Int64, vec![Some(3.0), Some(4.0)]),
    ])
}

fn names(list: &[&str]) -> Vec<String> {
    list.iter().map(|s| s.to_string()).collect()
}

#[test]
fn full_conversion_is_row_major() {
    let m = convert_full(&two_by_two()).unwrap();
    assert_eq!(m.rows, 2);
    assert_eq!(m.cols, 2);
    assert_eq!(m.buffer, vec![1.0, 3.0, 2.0, 4.0]);
}

#[test]
fn selection_order_overrides_table_order() {
    let m = convert_columns(&two_by_two(), &names(&["B", "A"])).unwrap();
    assert_eq!(m.rows, 2);
    assert_eq!(m.cols, 2);
    assert_eq!(m.buffer, vec![3.0, 1.0, 4.0, 2.0]);
}

#[test]
fn selection_of_a_subset() {
    let m = convert_columns(&two_by_two(), &names(&["B"])).unwrap();
    assert_eq!(m.rows, 2);
    assert_eq!(m.cols, 1);
    assert_eq!(m.buffer, vec![3.0, 4.0]);
}

#[test]
fn shape_matches_table() {
    let t = Table::new(vec![
        col("x", DType::UInt8, vec![Some(1.0), Some(2.0), Some(3.0)]),
        col("y", DType::Boolean, vec![Some(1.0), Some(0.0), Some(1.0)]),
    ]);
    let m = convert_full(&t).unwrap();
    assert_eq!(m.rows, 3);
    assert_eq!(m.cols, 2);
    assert_eq!(m.buffer.len(), m.rows * m.cols);
    assert_eq!(m.buffer, vec![1.0, 1.0, 2.0, 0.0, 3.0, 1.0]);
}

#[test]
fn absent_cell_gives_its_index() {
    let t = Table::new(vec![
        col("a", DType::Float64, vec![Some(0.5), Some(1.5), None, Some(3.5)]),
        col("b", DType::Int32, vec![Some(1.0), Some(2.0), Some(3.0), Some(4.0)]),
    ]);
    let r = convert_full(&t);
    assert_eq!(r.unwrap_err(), DenseError::NullValue(2));
}

#[test]
fn zero_rows_is_empty_input() {
    let t = Table::new(vec![
        col("a", DType::Float32, vec![]),
        col("s", DType::Other("str".to_string()), vec![]),
    ]);
    assert_eq!(convert_full(&t).unwrap_err(), DenseError::EmptyInput);
}

#[test]
fn zero_columns_is_empty_input() {
    let t: Table<f32> = Table::new(vec![]);
    assert_eq!(convert_full(&t).unwrap_err(), DenseError::EmptyInput);
    assert_eq!(convert_columns(&two_by_two(), &vec![]).unwrap_err(), DenseError::EmptyInput);
}

#[test]
fn unsupported_type_is_named() {
    let t = Table::new(vec![
        col("a", DType::Int16, vec![Some(1.0), Some(2.0)]),
        col("s", DType::Other("str".to_string()), vec![None, None]),
    ]);
    assert_eq!(convert_full(&t).unwrap_err(), DenseError::UnsupportedType("str".to_string()));
}

#[test]
fn unsupported_type_wins_over_its_own_absent_cells() {
    let t = Table::new(vec![col("s", DType::Other("date".to_string()), vec![None, Some(1.0)])]);
    assert_eq!(convert_full(&t).unwrap_err(), DenseError::UnsupportedType("date".to_string()));
}

#[test]
fn first_failing_cell_in_row_major_order_decides() {
    let t = Table::new(vec![
        col("a", DType::Float32, vec![Some(1.0), None]),
        col("b", DType::UInt64, vec![None, Some(2.0)]),
    ]);
    assert_eq!(convert_full(&t).unwrap_err(), DenseError::NullValue(0));
}

#[test]
fn missing_column_name_is_a_selection_error() {
    let r = convert_columns(&two_by_two(), &names(&["A", "C", "D"]));
    assert_eq!(r.unwrap_err(), DenseError::ColumnSelection("C".to_string()));
}

#[test]
fn missing_name_is_found_before_any_cell() {
    let t = Table::new(vec![col("a", DType::Float32, vec![None])]);
    let r = convert_columns(&t, &names(&["a", "z"]));
    assert_eq!(r.unwrap_err(), DenseError::ColumnSelection("z".to_string()));
}

#[test]
fn duplicate_column_names_in_table_select_the_first() {
    let t = Table::new(vec![
        col("a", DType::Float32, vec![Some(1.0)]),
        col("a", DType::Float32, vec![Some(2.0)]),
    ]);
    let m = convert_columns(&t, &names(&["a"])).unwrap();
    assert_eq!(m.buffer, vec![1.0]);
}

#[test]
fn name_asked_twice_is_a_selection_error() {
    let r = convert_columns(&two_by_two(), &names(&["A", "B", "A"]));
    assert_eq!(r.unwrap_err(), DenseError::ColumnSelection("A".to_string()));
}

#[test]
fn missing_name_is_reported_before_a_repeated_one() {
    let r = convert_columns(&two_by_two(), &names(&["A", "A", "Z"]));
    assert_eq!(r.unwrap_err(), DenseError::ColumnSelection("Z".to_string()));
}

#[test]
fn columns_of_unequal_length_are_rejected() {
    let t = Table::new(vec![
        col("a", DType::Float32, vec![Some(1.0), Some(2.0)]),
        col("b", DType::Float32, vec![Some(1.0), Some(2.0)]),
        col("c", DType::Float32, vec![Some(1.0)]),
    ]);
    assert_eq!(convert_full(&t).unwrap_err(), DenseError::LengthMismatch(2));
}

#[test]
fn empty_first_column_beside_a_longer_one_is_a_length_mismatch() {
    let t = Table::new(vec![
        col("a", DType::Float32, vec![]),
        col("b", DType::Float32, vec![Some(1.0)]),
    ]);
    assert_eq!(convert_full(&t).unwrap_err(), DenseError::LengthMismatch(1));
    let u = Table::new(vec![
        col("a", DType::Float32, vec![Some(1.0)]),
        col("b", DType::Float32, vec![]),
    ]);
    assert_eq!(convert_full(&u).unwrap_err(), DenseError::LengthMismatch(1));
    let r = convert_columns(&t, &names(&["a", "b"]));
    assert_eq!(r.unwrap_err(), DenseError::LengthMismatch(1));
}

#[test]
fn converting_twice_gives_identical_bits() {
    let t = Table::new(vec![
        col("a", DType::Float64, vec![Some(3.141_592_7), Some(-0.0)]),
        col("b", DType::Int64, vec![Some(-7.0), Some(1.0e6)]),
    ]);
    let x = convert_full(&t).unwrap();
    let y = convert_full(&t).unwrap();
    let xb: Vec<u32> = x.buffer.iter().map(|v| v.to_bits()).collect();
    let yb: Vec<u32> = y.buffer.iter().map(|v| v.to_bits()).collect();
    assert_eq!(xb, yb);
    assert_eq!((x.rows, x.cols), (y.rows, y.cols));
}

#[test]
fn coerce_cell_checks_type_then_presence() {
    let c = col("a", DType::UInt32, vec![Some(5.0), None]);
    assert_eq!(coerce_cell(&c, 0), Ok(5.0));
    assert_eq!(coerce_cell(&c, 1), Err(DenseError::NullValue(1)));
    let s = col("s", DType::Other("str".to_string()), vec![Some(5.0)]);
    assert_eq!(coerce_cell(&s, 0), Err(DenseError::UnsupportedType("str".to_string())));
}

#[test]
fn supported_types() {
    assert!(DType::Boolean.is_supported());
    assert!(DType::UInt16.is_supported());
    assert!(!DType::Other("str".to_string()).is_supported());
}
