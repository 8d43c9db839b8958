use minute_forecast::schedule::{comparison_rows, forecast_lines, FORECAST_HORIZON};
use minute_forecast::text::{align_right, decimal_text};

fn prices(values: &[f64]) -> Vec<String> {
    values.iter().map(|value| format!("{:.2}", value)).collect()
}

#[test]
fn forecast_starts_at_the_opening() {
    let lines = forecast_lines(&prices(&[187.456, 1.0]));
    assert_eq!(lines, vec!["09:30 - Minute 1: $187.46", "09:31 - Minute 2: $1.00"]);
    assert_eq!(forecast_lines(&Vec::new()), Vec::<String>::new());
}

#[test]
fn forecast_agrees_with_formatting() {
    let values: Vec<f64> = (0..7000).map(|i| 100.0 + i as f64 / 8.0).collect();
    let lines = forecast_lines(&prices(&values));
    let mut hour = 9;
    let mut minute = 30;
    for (i, value) in values.iter().enumerate() {
        assert_eq!(lines[i], format!("{:02}:{:02} - Minute {}: ${:.2}", hour, minute, i + 1, value));
        minute += 1;
        if minute == 60 {
            minute = 0;
            hour += 1;
        }
    }
    assert!(lines[FORECAST_HORIZON - 1].starts_with("15:59 - Minute 390: "));
    // Every minute of a day has a label of its own.
    let mut labels: Vec<String> = lines[..FORECAST_HORIZON].iter().map(|line| line[..5].to_string()).collect();
    labels.dedup();
    assert_eq!(labels.len(), FORECAST_HORIZON);
}

#[test]
fn comparison_agrees_with_formatting() {
    let gru = [187.456, -3.0, 12345678901234.5];
    let lstm = [187.5, 1000000.0, 0.0, 7.0];
    let rows = comparison_rows(&prices(&gru), &prices(&lstm));
    assert_eq!(rows.len(), 3);
    for i in 0..gru.len() {
        assert_eq!(rows[i], format!("{:6} | ${:13.2} | ${:14.2}", i + 1, gru[i], lstm[i]));
    }
    assert_eq!(rows[0], "     1 | $       187.46 | $        187.50");
}

#[test]
fn decimal_numbers() {
    for number in [0u64, 9, 10, 99, 100, 1_234_567_890, u64::MAX] {
        assert_eq!(decimal_text(number), number.to_string());
        assert_eq!(decimal_text(number).parse::<u64>().unwrap(), number);
    }
    assert_eq!(align_right("7", 3, "0"), "007");
    assert_eq!(align_right("1234", 3, "0"), "1234");
    assert_eq!(align_right("é", 2, " "), " é");
}
