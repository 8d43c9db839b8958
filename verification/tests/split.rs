use minute_forecast::ratio::validation_row;
use minute_forecast::share::training_rows;
use minute_forecast::split::{
    split_at_row, split_train_test, try_split_at_row, try_split_for_validation, try_split_train_test,
};
use polars::prelude::{AnyValue, Column, DataFrame, DataType, Scalar};

fn frame(rows: i64) -> DataFrame {
    let numbers: Vec<i64> = (0..rows).collect();
    let prices: Vec<f64> = numbers.iter().map(|n| *n as f64 / 4.0).collect();
    DataFrame::new(vec![Column::new("n".into(), numbers), Column::new("price".into(), prices)]).unwrap()
}

fn repeated(rows: usize) -> DataFrame {
    let value = Scalar::new(DataType::Int64, AnyValue::Int64(1));
    DataFrame::new(vec![Column::new_scalar("n".into(), value, rows)]).unwrap()
}

fn numbers(frame: &DataFrame) -> Vec<i64> {
    frame.column("n").unwrap().i64().unwrap().into_no_null_iter().collect()
}

#[test]
fn training_share_of_small_data() {
    assert_eq!(training_rows(0), 0);
    assert_eq!(training_rows(1), 0);
    assert_eq!(training_rows(4), 3);
    assert_eq!(training_rows(5), 4);
    assert_eq!(training_rows(390), 312);
    assert_eq!(training_rows(1_000_003), 800_002);
}

#[test]
fn training_share_is_the_product_of_doubles() {
    let mut samples: Vec<usize> = (0..2000).collect();
    for shift in 10..63 {
        let power = 1usize << shift;
        for delta in 0..40usize {
            samples.push(power - delta);
            samples.push(power + delta);
            samples.push(power / 3 * 4 + delta);
        }
    }
    samples.push(i64::MAX as usize);
    samples.sort();
    let mut previous = 0;
    let mut differs = false;
    for rows in samples {
        if rows > i64::MAX as usize {
            continue;
        }
        assert!(training_rows(rows) >= previous);
        previous = training_rows(rows);
        assert!(rows == 0 || previous < rows);
        let expected = (rows as f64 * 0.8) as i64 as usize;
        assert_eq!(training_rows(rows), expected, "{} rows", rows);
        if rows <= 1 << 50 {
            assert_eq!(expected, 4 * rows / 5);
        }
        differs = differs || expected as u128 != 4 * rows as u128 / 5;
    }
    assert!(differs);
}

#[test]
fn split_keeps_rows_and_columns() {
    let whole = frame(11);
    let (train, test) = split_train_test(&whole);
    assert_eq!(numbers(&train), (0..8).collect::<Vec<i64>>());
    assert_eq!(numbers(&test), (8..11).collect::<Vec<i64>>());
    assert_eq!(train.get_column_names(), whole.get_column_names());
    assert_eq!(test.dtypes(), whole.dtypes());
}

#[test]
fn split_of_empty_frame() {
    let (train, test) = split_train_test(&frame(0));
    assert_eq!(train.height(), 0);
    assert_eq!(test.height(), 0);
    assert_eq!(test.width(), 2);
}

#[test]
fn split_at_either_end() {
    let whole = frame(6);
    let (none, all) = split_at_row(&whole, 0);
    assert_eq!(none.height(), 0);
    assert_eq!(none.width(), 2);
    assert_eq!(numbers(&all), (0..6).collect::<Vec<i64>>());
    let (all, none) = split_at_row(&whole, 6);
    assert_eq!(numbers(&all), (0..6).collect::<Vec<i64>>());
    assert_eq!(none.height(), 0);
    let (earlier, later) = split_at_row(&whole, 2);
    assert_eq!(numbers(&earlier), vec![0, 1]);
    assert_eq!(numbers(&later), vec![2, 3, 4, 5]);
}

#[test]
fn split_beyond_the_end_is_refused() {
    let whole = frame(6);
    assert!(try_split_at_row(&whole, 7).is_none());
    let (earlier, later) = try_split_at_row(&whole, 6).unwrap();
    assert_eq!((earlier.height(), later.height()), (6, 0));
    let (train, test) = try_split_train_test(&whole).unwrap();
    assert_eq!(numbers(&train), vec![0, 1, 2, 3]);
    assert_eq!(numbers(&test), vec![4, 5]);
}

#[test]
fn split_of_uncountable_rows_is_refused() {
    let endless = repeated(i64::MAX as usize + 1);
    assert!(try_split_train_test(&endless).is_none());
    assert!(try_split_at_row(&endless, 0).is_none());
    let countable = repeated(10);
    let (train, test) = try_split_train_test(&countable).unwrap();
    assert_eq!((train.height(), test.height()), (8, 2));
}

/// The row as doubles compute it, if it lies within the data.
fn computed(rows: usize, ratio: f64) -> Option<usize> {
    let row = (rows as f64 * (1.0 - ratio)) as usize;
    if row <= rows {
        Some(row)
    } else {
        None
    }
}

fn ratios() -> Vec<f64> {
    let mut ratios = vec![0.0, -0.0, 1.0, 0.1, 0.2, 0.15, 0.25, 0.3, 0.5, 0.7, 0.9, 0.999, 1.0 / 3.0];
    ratios.extend([f64::MIN_POSITIVE, 5.0e-324, 1.0e-310, 2.0, 1.0e300, f64::INFINITY, f64::NAN, -f64::NAN]);
    ratios.extend([-1.0e-300, -0.1, -0.5, -1.0, -1.5, -1.0e300, f64::NEG_INFINITY]);
    for digits in 1..120 {
        let small = 0.5f64.powi(digits);
        ratios.extend([small, 3.0 * small, 1.0 - small, 1.0 + small, -small, 5.0 * small / 7.0]);
    }
    let mut state = 1u64;
    for _ in 0..200 {
        state = state.wrapping_mul(6364136223846793005).wrapping_add(1442695040888963407);
        ratios.push((state >> 11) as f64 / (1u64 << 53) as f64);
    }
    ratios
}

#[test]
fn validation_row_is_the_product_of_doubles() {
    let mut samples: Vec<usize> = (0..300).collect();
    for shift in 9..63 {
        let power = 1usize << shift;
        for delta in 0..6usize {
            samples.extend([power - delta, power + delta, power / 3 * 4 + delta]);
        }
    }
    samples.push(i64::MAX as usize);
    for ratio in ratios() {
        for &rows in samples.iter().filter(|rows| **rows <= i64::MAX as usize) {
            assert_eq!(validation_row(rows, ratio.to_bits()), computed(rows, ratio), "{} of {}", ratio, rows);
        }
    }
}

#[test]
fn validation_row_of_small_data() {
    assert_eq!(validation_row(10, 0.2f64.to_bits()), Some(8));
    assert_eq!(validation_row(390, 0.15f64.to_bits()), Some(331));
    assert_eq!(validation_row(10, 0.9f64.to_bits()), Some(0));
    assert_eq!(validation_row(10, 0.3f64.to_bits()), Some(7));
    assert_eq!(validation_row(10, 2.0f64.to_bits()), Some(0));
    assert_eq!(validation_row(10, f64::NAN.to_bits()), Some(0));
    assert_eq!(validation_row(10, (-0.2f64).to_bits()), None);
    assert_eq!(validation_row(1, (-0.2f64).to_bits()), Some(1));
    assert_eq!(validation_row(0, (-7.0f64).to_bits()), Some(0));
    assert_eq!(validation_row(1, (-7.0f64).to_bits()), None);
}

#[test]
fn ratio_keeps_part_of_the_rows() {
    let mut ratios: Vec<f64> = ratios().into_iter().filter(|ratio| (0.0..=1.0).contains(ratio)).collect();
    ratios.sort_by(|a, b| a.partial_cmp(b).unwrap());
    for rows in [0usize, 1, 7, 390, 1_000_003, (1 << 53) - 1, 1 << 53] {
        let mut previous = rows;
        for ratio in &ratios {
            let row = validation_row(rows, ratio.to_bits()).unwrap();
            assert!(row <= previous);
            assert!(validation_row(rows + 1, ratio.to_bits()).unwrap_or(usize::MAX) >= row);
            previous = row;
        }
        assert_eq!(validation_row(rows, 0.0f64.to_bits()), Some(rows));
        assert_eq!(validation_row(rows, 1.0f64.to_bits()), Some(0));
    }
    // Beyond 53 binary digits the number of rows is rounded, here up.
    assert_eq!(validation_row((1 << 53) + 3, 0.0f64.to_bits()), None);
}

#[test]
fn split_for_validation() {
    let whole = frame(11);
    let (train, validation) = try_split_for_validation(&whole, 0.2f64.to_bits()).unwrap();
    assert_eq!(numbers(&train), (0..8).collect::<Vec<i64>>());
    assert_eq!(numbers(&validation), (8..11).collect::<Vec<i64>>());
    assert_eq!(train.get_column_names(), whole.get_column_names());
    assert_eq!(validation.dtypes(), whole.dtypes());
    assert!(try_split_for_validation(&whole, (-0.2f64).to_bits()).is_none());
    assert!(try_split_for_validation(&repeated(i64::MAX as usize + 1), 0.2f64.to_bits()).is_none());
}
