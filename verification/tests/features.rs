use minute_forecast::features::{correlation_rows, feature_columns, rank_features, select_features, strength, FeatureError};
use polars::prelude::{Column, DataFrame};
use std::cell::RefCell;

fn strings(items: &[&str]) -> Vec<String> {
    items.iter().map(|item| item.to_string()).collect()
}

fn frame() -> DataFrame {
    DataFrame::new(vec![
        Column::new("time".into(), &["09:30", "09:31", "09:32"]),
        Column::new("symbol".into(), &["AAPL", "AAPL", "AAPL"]),
        Column::new("open".into(), &[1.0f64, 2.0, 4.0]),
        Column::new("volume".into(), &[100i64, 50, 75]),
        Column::new("close".into(), &[1.5f64, 2.5, 3.5]),
        Column::new("high".into(), &[2.0f64, 3.0, 5.0]),
        Column::new("note".into(), &["a", "b", "c"]),
    ])
    .unwrap()
}

fn by_name(name: &String) -> Option<u64> {
    match name.as_str() {
        "open" => Some(0.7f64.to_bits()),
        "high" => Some((-0.9f64).to_bits()),
        _ => Some(1.0f64.to_bits()),
    }
}

#[test]
fn features_exclude_target_time_and_symbol() {
    let columns = strings(&["time", "close", "open", "symbol", "high"]);
    assert_eq!(feature_columns(&columns, "close"), strings(&["open", "high"]));
    assert_eq!(feature_columns(&columns, "open"), strings(&["close", "high"]));
    assert_eq!(feature_columns(&columns, "none"), strings(&["close", "open", "high"]));
    assert_eq!(feature_columns(&Vec::new(), "close"), Vec::<String>::new());
}

#[test]
fn ranking_is_descending_and_stable() {
    let names = strings(&["a", "b", "c", "d", "e"]);
    let scores = vec![3, 9, 3, 0, 9];
    assert_eq!(rank_features(&names, &scores, 5), strings(&["b", "e", "a", "c", "d"]));
    assert_eq!(rank_features(&names, &scores, 3), strings(&["b", "e", "a"]));
    assert_eq!(rank_features(&names, &scores, 0), Vec::<String>::new());
    assert_eq!(rank_features(&names, &scores, 99), strings(&["b", "e", "a", "c", "d"]));
}

#[test]
fn ranking_agrees_with_the_order_of_doubles() {
    let values = [0.25f64, 0.0, 0.999, 1.0e-9, 0.25, 1.0];
    let names = strings(&["a", "b", "c", "d", "e", "f"]);
    let scores: Vec<u64> = values.iter().map(|value| value.to_bits()).collect();
    let mut expected: Vec<(String, f64)> = names.iter().cloned().zip(values).collect();
    expected.sort_by(|a, b| b.1.partial_cmp(&a.1).unwrap());
    let expected: Vec<String> = expected.into_iter().map(|(name, _)| name).take(4).collect();
    assert_eq!(rank_features(&names, &scores, 4), expected);
}

#[test]
fn few_features_are_all_selected() {
    let selected = select_features(&frame(), "close", 4, by_name).unwrap();
    assert_eq!(selected, strings(&["open", "volume", "high", "note"]));
    // The target is not looked at, so it need not exist.
    let selected = select_features(&frame(), "missing", 5, by_name).unwrap();
    assert_eq!(selected, strings(&["open", "volume", "close", "high", "note"]));
}

#[test]
fn strongest_features_are_selected() {
    let asked = RefCell::new(Vec::new());
    let selected = select_features(&frame(), "close", 3, |name: &String| {
        asked.borrow_mut().push(name.clone());
        by_name(name)
    })
    .unwrap();
    assert_eq!(selected, strings(&["high", "open", "volume"]));
    assert_eq!(asked.into_inner(), strings(&["open", "high"]));
}

#[test]
fn integer_target_correlates_with_nothing() {
    let selected = select_features(&frame(), "volume", 2, by_name).unwrap();
    assert_eq!(selected, strings(&["open", "close"]));
}

#[test]
fn text_target_is_converted() {
    let selected = select_features(&frame(), "note", 2, by_name).unwrap();
    assert_eq!(selected, strings(&["open", "volume"]));
}

#[test]
fn missing_target_is_refused() {
    match select_features(&frame(), "missing", 4, by_name) {
        Err(FeatureError::TargetMissing(error)) => {
            assert!(error.to_string().contains("missing"));
        }
        other => panic!("{:?}", other),
    }
}

#[test]
fn unconvertible_target_is_refused() {
    let inner = Column::new("x".into(), &[1i64, 2]);
    let list = inner.as_materialized_series().implode().unwrap();
    let target = Column::from(polars::prelude::Series::from(list));
    let mut target = target;
    target.rename("target".into());
    let frame = DataFrame::new(vec![Column::new("a".into(), &[1.0f64]), target]).unwrap();
    match select_features(&frame, "target", 0, by_name) {
        Err(FeatureError::TargetNotNumeric(_)) => {}
        other => panic!("{:?}", other),
    }
}

#[test]
fn asking_for_more_keeps_the_leaders() {
    let names = strings(&["a", "b", "c", "d"]);
    let scores = vec![5, 8, 8, 1];
    let all = rank_features(&names, &scores, 4);
    for count in 0..5 {
        assert_eq!(rank_features(&names, &scores, count), all[..count].to_vec());
    }
    // Each name's place is the number of names that come before it.
    for (i, name) in names.iter().enumerate() {
        let better = (0..4).filter(|&j| scores[j] > scores[i] || (scores[j] == scores[i] && j < i)).count();
        assert_eq!(&all[better], name);
    }
}

#[test]
fn correlation_takes_rows_with_both_values() {
    let feature = vec![true, true, false, true, true];
    let target = vec![true, false, true, true, true];
    assert_eq!(correlation_rows(&feature, &target, true, true), Some(vec![0, 3, 4]));
    assert_eq!(correlation_rows(&feature, &target, false, true), None);
    assert_eq!(correlation_rows(&feature, &target, true, false), None);
    // A single row has no correlation.
    assert_eq!(correlation_rows(&vec![true, false], &vec![true, true], true, true), None);
    assert_eq!(correlation_rows(&Vec::new(), &Vec::new(), true, true), None);
    assert_eq!(correlation_rows(&vec![true, true], &vec![true, true], true, true), Some(vec![0, 1]));
}

#[test]
fn no_feature_is_selected_twice() {
    let mut selected = select_features(&frame(), "close", 3, |_: &String| Some(1)).unwrap();
    assert_eq!(selected.len(), 3);
    selected.sort();
    selected.dedup();
    assert_eq!(selected.len(), 3);
}

#[test]
fn numeric_targets_are_never_refused() {
    for target in ["open", "close", "volume"] {
        assert!(select_features(&frame(), target, 0, by_name).is_ok());
    }
}

#[test]
fn strength_is_the_absolute_value() {
    for value in [0.0f64, -0.0, 0.25, -0.25, 1.0, -1.0, 1.0e-310, f64::INFINITY, f64::NEG_INFINITY] {
        assert_eq!(strength(Some(value.to_bits())), value.abs().to_bits());
    }
    assert_eq!(strength(Some(f64::NAN.to_bits())), 0);
    assert_eq!(strength(Some((-f64::NAN).to_bits())), 0);
    assert_eq!(strength(None), 0);
}

#[test]
fn sign_of_a_correlation_does_not_matter() {
    for signs in 0..4 {
        let sign = |bit: i32| if signs & bit == 0 { 1.0f64 } else { -1.0 };
        let selected = select_features(&frame(), "close", 3, |name: &String| match name.as_str() {
            "open" => Some((sign(1) * 0.7).to_bits()),
            "high" => Some((sign(2) * 0.9).to_bits()),
            _ => None,
        })
        .unwrap();
        assert_eq!(selected, strings(&["high", "open", "volume"]));
    }
    // Without a correlation a feature keeps its place in column order.
    let selected = select_features(&frame(), "close", 2, |name: &String| {
        if name == "high" {
            Some(0.1f64.to_bits())
        } else {
            None
        }
    })
    .unwrap();
    assert_eq!(selected, strings(&["high", "open"]));
}
