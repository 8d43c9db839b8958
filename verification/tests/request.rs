use minute_forecast::loading::{after_loading_stage, data_request, stock_data_request, LoadingStage};
use minute_forecast::request::{
    model_file_name, parse_request, prediction_ticker, requested_model_name, requested_ticker, ModelType,
};
use minute_forecast::workflow::{Outcome, Step};

fn args(items: &[&str]) -> Vec<String> {
    items.iter().map(|item| item.to_string()).collect()
}

#[test]
fn defaults_without_arguments() {
    let request = parse_request(&args(&["program"])).unwrap();
    assert_eq!(request.ticker, "AAPL");
    assert_eq!(request.model_type, ModelType::Lstm);
    assert_eq!(prediction_ticker(&args(&["program"])), "AAPL");
    let request = parse_request(&Vec::new()).unwrap();
    assert_eq!(request.ticker, "AAPL");
}

#[test]
fn case_of_arguments_is_ignored() {
    let line = args(&["program", "tsla", "GrU"]);
    let request = parse_request(&line).unwrap();
    assert_eq!(request.ticker, "TSLA");
    assert_eq!(request.model_type, ModelType::Gru);
    assert_eq!(requested_ticker(&args(&["program", "straße"])), "STRASSE");
    assert_eq!(requested_model_name(&args(&["program", "x", "ÄLSTM"])), "älstm");
}

#[test]
fn prediction_takes_the_ticker_as_given() {
    assert_eq!(prediction_ticker(&args(&["program", "tsla", "gru"])), "tsla");
}

#[test]
fn unknown_model_is_refused() {
    for name in ["", "rnn", "lstm2", " lstm"] {
        let refused = parse_request(&args(&["program", "AAPL", name]));
        assert_eq!(refused.unwrap_err(), "Invalid model type");
        assert_eq!(ModelType::from_name(name), None);
    }
    assert_eq!(ModelType::from_name("LSTM"), None);
}

#[test]
fn names_of_models() {
    for kind in [ModelType::Lstm, ModelType::Gru] {
        assert_eq!(ModelType::from_name(kind.name()), Some(kind));
    }
    assert_eq!(ModelType::Lstm.name(), "lstm");
}

#[test]
fn names_of_files() {
    assert_eq!(model_file_name("AAPL", "_model"), "AAPL_model");
    let request = data_request("MSFT", "lstm", 60);
    assert_eq!(request.file_name, "MSFT-ticker_minute_bars.csv");
}

#[test]
fn only_lstm_training_is_limited_in_time() {
    assert_eq!(data_request("MSFT", "lstm", 60).training_days, Some(60));
    assert_eq!(data_request("MSFT", "gru", 60).training_days, None);
    assert_eq!(stock_data_request("A", &args(&["p", "a", "LSTM"]), 7).training_days, Some(7));
    assert_eq!(stock_data_request("A", &args(&["p", "a"]), 7).training_days, Some(7));
    assert_eq!(stock_data_request("A", &args(&["p", "a", "gru"]), 7).training_days, None);
}

#[test]
fn loading_reports_errors() {
    match after_loading_stage(LoadingStage::LoadBars, Outcome::Failed("no file".to_string())) {
        Step::Failed(message) => assert_eq!(message, "Preprocessing error: no file"),
        other => panic!("{:?}", other),
    }
    match after_loading_stage(LoadingStage::AddIndicators, Outcome::Failed("bad".to_string())) {
        Step::Failed(message) => assert_eq!(message, "bad"),
        other => panic!("{:?}", other),
    }
    assert!(matches!(
        after_loading_stage(LoadingStage::LoadBars, Outcome::Done),
        Step::Perform(LoadingStage::AddIndicators)
    ));
    assert!(matches!(after_loading_stage(LoadingStage::AddIndicators, Outcome::Done), Step::Finished));
}
