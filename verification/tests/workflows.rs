use minute_forecast::prediction::{
    after_prediction_stage, comparison_request, first_prediction_stage, first_prediction_step, loaded_kind, sought_kind,
    stage_location, stage_minutes, PredictionStage, GRU_EXTENDED_FEATURES,
};
use minute_forecast::preparation::{
    after_preparation_stage, augmentations, cross_validation_request, first_preparation_stage, imputation_request,
    indicator_columns, normalization_request, outlier_request, price_columns, PreparationOptions, PreparationStage, SELECTED_FEATURES,
    SELECTION_TARGET,
};
use minute_forecast::request::{model_location, ModelType};
use minute_forecast::session::{after_session_stage, SessionStage};
use minute_forecast::training::{
    after_training_stage, first_training_step, gru_normalization_request, gru_settings, gru_training_request,
    lstm_training_request, save_request, stage_data, stage_horizon, stage_input, stage_tensors, training_result,
    training_settings, GruMetadata, Part, TensorRequest, TrainingStage,
};
use minute_forecast::workflow::{Outcome, Step};

/// Runs to the end; the stage of number `failing` fails, the rest do well.
fn train(kind: ModelType, current: bool, failing: usize) -> (Vec<TrainingStage>, String) {
    let mut stage = TrainingStage::CheckVersion;
    let mut performed = vec![stage];
    loop {
        let outcome = if stage == TrainingStage::CheckVersion {
            if current {
                Outcome::Done
            } else {
                Outcome::Absent
            }
        } else if performed.len() == failing + 1 {
            Outcome::Failed("why".to_string())
        } else {
            Outcome::Done
        };
        match after_training_stage(kind, stage, outcome) {
            Step::Perform(next) => {
                stage = next;
                performed.push(next);
            }
            Step::Finished => return (performed, "finished".to_string()),
            Step::Failed(message) => return (performed, message),
            Step::Panic(message) => return (performed, format!("panic: {}", message)),
        }
    }
}

fn predict(kind: ModelType, stored: bool, failing: usize) -> (Vec<PredictionStage>, String) {
    let mut stage = first_prediction_stage(kind);
    let mut performed = vec![stage];
    loop {
        let outcome = if stage == PredictionStage::FindLstm {
            if stored {
                Outcome::Done
            } else {
                Outcome::Absent
            }
        } else if performed.len() == failing {
            Outcome::Failed("why".to_string())
        } else {
            Outcome::Done
        };
        match after_prediction_stage(stage, outcome) {
            Step::Perform(next) => {
                stage = next;
                performed.push(next);
            }
            Step::Finished => return (performed, "finished".to_string()),
            Step::Failed(message) => return (performed, message),
            Step::Panic(message) => return (performed, format!("panic: {}", message)),
        }
    }
}

fn prepare(options: PreparationOptions, failing: usize) -> (Vec<PreparationStage>, String) {
    let mut stage = first_preparation_stage(options);
    let mut performed = vec![stage];
    loop {
        let outcome = if performed.len() == failing {
            Outcome::Failed("why".to_string())
        } else {
            Outcome::Done
        };
        match after_preparation_stage(options, stage, outcome) {
            Step::Perform(next) => {
                stage = next;
                performed.push(next);
            }
            Step::Finished => return (performed, "finished".to_string()),
            Step::Failed(message) => return (performed, message),
            Step::Panic(message) => return (performed, format!("panic: {}", message)),
        }
    }
}

const GRU_STAGES: [TrainingStage; 8] = [
    TrainingStage::CheckVersion,
    TrainingStage::NormalizeTraining,
    TrainingStage::BuildTrainingTensors,
    TrainingStage::TrainGru,
    TrainingStage::SaveGru,
    TrainingStage::NormalizeTest,
    TrainingStage::BuildTestTensors,
    TrainingStage::EvaluateGru,
];

#[test]
fn include_lstm_tests() {
    assert!(true);
    let (performed, end) = train(ModelType::Lstm, false, 99);
    assert_eq!(
        performed,
        vec![TrainingStage::CheckVersion, TrainingStage::TrainLstm, TrainingStage::EvaluateLstm]
    );
    assert_eq!(end, "finished");
}

#[test]
fn new_gru_model_is_trained_stored_and_evaluated() {
    let (performed, end) = train(ModelType::Gru, false, 99);
    assert_eq!(performed, GRU_STAGES.to_vec());
    assert_eq!(end, "finished");
}

#[test]
fn current_model_is_loaded() {
    for kind in [ModelType::Lstm, ModelType::Gru] {
        let (performed, end) = train(kind, true, 99);
        assert_eq!(performed, vec![TrainingStage::CheckVersion, TrainingStage::LoadModel]);
        assert_eq!(end, "finished");
        let (_, end) = train(kind, true, 1);
        assert_eq!(end, "panic: Failed to load model: why");
    }
}

#[test]
fn training_errors_tell_the_stage() {
    let labels = [
        "Data normalization error: why",
        "Tensor creation error: why",
        "GRU training error: why",
        "Model saving error: why",
        "Test data normalization error: why",
        "Test tensor creation error: why",
        "GRU evaluation error: why",
    ];
    for (i, label) in labels.iter().enumerate() {
        let (performed, end) = train(ModelType::Gru, false, i + 1);
        assert_eq!(performed, GRU_STAGES[..i + 2].to_vec());
        assert_eq!(&end, label);
    }
    assert_eq!(train(ModelType::Lstm, false, 1).1, "Training error: why");
    assert_eq!(train(ModelType::Lstm, false, 2).1, "Evaluation error: why");
}

#[test]
fn settings_of_training() {
    let settings = training_settings();
    assert_eq!(settings.learning_rate_thousandths as f64 / 1000.0, 0.001);
    assert_eq!(settings.test_split_thousandths as f64 / 1000.0, 0.2);
    assert_eq!((settings.batch_size, settings.epochs, settings.use_huber_loss), (32, 10, true));
    let gru = gru_settings();
    assert_eq!(gru.min_delta_thousandths as f64 / 1000.0, 0.001);
    assert_eq!((gru.patience, gru.checkpoint_epochs, gru.bidirectional, gru.num_layers), (5, 2, true, 1));
}

#[test]
fn lstm_forecast() {
    let stages =
        vec![PredictionStage::BuildTensors, PredictionStage::LoadLstm, PredictionStage::ForecastLstm];
    assert_eq!(predict(ModelType::Lstm, true, 99), (stages.clone(), "finished".to_string()));
    assert_eq!(predict(ModelType::Lstm, false, 1).1, "Tensor building error: why");
    assert_eq!(predict(ModelType::Lstm, false, 2).1, "LSTM model loading error: why");
    assert_eq!(predict(ModelType::Lstm, false, 3), (stages, "LSTM forecast error: why".to_string()));
}

#[test]
fn gru_forecast_is_compared_if_possible() {
    let mut stages = vec![PredictionStage::LoadGru, PredictionStage::ForecastGru, PredictionStage::FindLstm];
    assert_eq!(predict(ModelType::Gru, false, 99), (stages.clone(), "finished".to_string()));
    stages.push(PredictionStage::LoadRival);
    stages.push(PredictionStage::Compare);
    assert_eq!(predict(ModelType::Gru, true, 99), (stages, "finished".to_string()));
    assert_eq!(predict(ModelType::Gru, true, 1).1, "GRU model loading error: why");
    assert_eq!(predict(ModelType::Gru, true, 2).1, "GRU forecast error: why");
    assert_eq!(predict(ModelType::Gru, true, 4).1, "LSTM model loading error: why");
    assert_eq!(predict(ModelType::Gru, true, 5).1, "Model comparison error: why");
}

#[test]
fn session_goes_on_after_a_failure() {
    let step = after_session_stage(SessionStage::LoadData, Outcome::Failed("no data".to_string()));
    assert_eq!(step.notice, None);
    match step.next {
        Step::Failed(message) => assert_eq!(message, "no data"),
        other => panic!("{:?}", other),
    }
    let step = after_session_stage(SessionStage::LoadData, Outcome::Done);
    assert!(matches!(step.next, Step::Perform(SessionStage::Train)));
    let step = after_session_stage(SessionStage::Train, Outcome::Failed("x".to_string()));
    assert_eq!(step.notice.unwrap(), "Error during training and evaluation: x");
    assert!(matches!(step.next, Step::Perform(SessionStage::Predict)));
    let step = after_session_stage(SessionStage::Train, Outcome::Done);
    assert_eq!(step.notice, None);
    let step = after_session_stage(SessionStage::Predict, Outcome::Failed("y".to_string()));
    assert_eq!(step.notice.unwrap(), "Error during prediction generation: y");
    assert!(matches!(step.next, Step::Finished));
    assert!(matches!(after_session_stage(SessionStage::Predict, Outcome::Done).next, Step::Finished));
}

#[test]
fn preparation_steps_follow_the_options() {
    for bits in 0..32u32 {
        let options = PreparationOptions {
            use_enhanced_features: bits & 1 != 0,
            use_feature_selection: bits & 2 != 0,
            handle_outliers: bits & 4 != 0,
            use_data_augmentation: bits & 8 != 0,
            use_time_based_cv: bits & 16 != 0,
        };
        let mut expected = Vec::new();
        if options.use_feature_selection {
            expected.push(PreparationStage::SelectFeatures);
        }
        expected.push(PreparationStage::ImputeMissing);
        if options.handle_outliers {
            expected.push(PreparationStage::HandleOutliers);
        }
        if options.use_data_augmentation {
            expected.push(PreparationStage::Augment);
        }
        expected.push(PreparationStage::Normalize);
        expected.push(if options.use_time_based_cv {
            PreparationStage::SplitForCrossValidation
        } else {
            PreparationStage::SplitOnce
        });
        assert_eq!(prepare(options, 99), (expected.clone(), "finished".to_string()));
        assert_eq!(prepare(options, 2), (expected[..2].to_vec(), "why".to_string()));
        let technical = vec!["rsi".to_string()];
        let extended = vec!["rsi".to_string(), "atr".to_string()];
        let request = normalization_request(options);
        assert_eq!(request.columns, vec!["close", "open", "high", "low"]);
        assert_eq!((request.extended, request.outliers), (options.use_enhanced_features, options.handle_outliers));
        let columns = indicator_columns(options, &technical, &extended);
        assert_eq!(columns.len(), if options.use_enhanced_features { 2 } else { 1 });
        let request = imputation_request(options, &technical, &extended);
        assert_eq!(request.columns, columns);
        assert_eq!((request.method, request.option), ("forward_fill", None));
    }
}

#[test]
fn parameters_of_the_preparation() {
    assert_eq!(price_columns(), vec!["close", "open", "high", "low"]);
    assert_eq!(augmentations(), vec!["jitter", "scaling"]);
    assert_eq!((SELECTION_TARGET, SELECTED_FEATURES), ("close", 15));
    let request = outlier_request();
    assert_eq!(request.columns, price_columns());
    assert_eq!((request.test, request.distance_tenths, request.treatment), ("iqr", 15, "clip"));
    let request = cross_validation_request(0.2f64.to_bits());
    assert_eq!(f64::from_bits(request.ratio_bits), 0.2);
    assert!(request.by_time);
}

#[test]
fn unknown_models_do_nothing() {
    for name in ["transformer", "LSTM", "rnn", "", "Gru"] {
        assert!(matches!(first_training_step(name), Step::Finished));
        assert!(matches!(first_prediction_step(name), Step::Finished));
        assert!(model_location(name, "AAPL", "_model").is_none());
        assert!(training_result(name, "AAPL", "_model", Step::Finished).unwrap().is_none());
    }
    for name in ["lstm", "gru"] {
        assert!(matches!(first_training_step(name), Step::Perform(TrainingStage::CheckVersion)));
    }
    assert!(matches!(first_prediction_step("lstm"), Step::Perform(PredictionStage::BuildTensors)));
    assert!(matches!(first_prediction_step("gru"), Step::Perform(PredictionStage::LoadGru)));
}

#[test]
fn result_of_training_is_the_location() {
    let location = training_result("gru", "AAPL", "_model", Step::Finished).unwrap().unwrap();
    assert_eq!(location.ticker, "AAPL");
    assert_eq!(location.model_type, ModelType::Gru);
    assert_eq!(location.file_name, "AAPL_model");
    let failed = training_result("lstm", "AAPL", "_model", Step::Failed("why".to_string()));
    assert_eq!(failed.unwrap_err(), "why");
}

#[test]
fn test_data_is_used_only_for_evaluation() {
    let (stages, _) = train(ModelType::Gru, false, 99);
    let parts: Vec<Option<Part>> = stages.iter().map(|stage| stage_data(*stage)).collect();
    let (train_part, test_part) = (Some(Part::Train), Some(Part::Test));
    assert_eq!(
        parts,
        vec![None, train_part, train_part, train_part, None, test_part, test_part, test_part]
    );
    let (stages, _) = train(ModelType::Lstm, false, 99);
    let inputs: Vec<Option<&i32>> = stages.iter().map(|stage| stage_input(*stage, &1, &2)).collect();
    assert_eq!(inputs, vec![None, Some(&1), Some(&2)]);
}

#[test]
fn arguments_of_the_stages() {
    let request = gru_normalization_request();
    assert_eq!(request.columns, vec!["close", "open", "high", "low"]);
    assert_eq!((request.extended, request.outliers), (false, false));
    assert!(!GRU_EXTENDED_FEATURES);
    assert_eq!(stage_horizon(TrainingStage::BuildTestTensors), Some(390));
    assert_eq!(stage_horizon(TrainingStage::TrainLstm), Some(390));
    assert_eq!(stage_horizon(TrainingStage::SaveGru), None);
    assert_eq!(stage_minutes(PredictionStage::ForecastGru), Some(390));
    assert_eq!(stage_minutes(PredictionStage::Compare), Some(10));
    assert_eq!(stage_minutes(PredictionStage::FindLstm), None);
    assert_eq!(loaded_kind(PredictionStage::LoadRival), Some(ModelType::Lstm));
    assert_eq!(loaded_kind(PredictionStage::LoadGru), Some(ModelType::Gru));
    assert_eq!(loaded_kind(PredictionStage::Compare), None);
    assert_eq!(sought_kind(PredictionStage::FindLstm), Some(ModelType::Lstm));
    assert_eq!(sought_kind(PredictionStage::LoadRival), None);
}

#[test]
fn requests_of_the_training() {
    let request = gru_training_request(0.3f64.to_bits(), 60);
    assert_eq!(f64::from_bits(request.dropout_bits), 0.3);
    assert_eq!((request.settings, request.gru), (training_settings(), gru_settings()));
    let tensors = TensorRequest { sequence_length: 60, horizon: 390, switch: false, option: None };
    assert_eq!(stage_tensors(&request, TrainingStage::BuildTrainingTensors), Some(tensors));
    assert_eq!(stage_tensors(&request, TrainingStage::BuildTestTensors), Some(tensors));
    assert_eq!(stage_tensors(&request, TrainingStage::TrainGru), None);

    let request = lstm_training_request(0.3f64.to_bits());
    assert_eq!(f64::from_bits(request.dropout_bits), 0.3);
    assert_eq!((request.settings, request.horizon), (training_settings(), 390));
}

#[test]
fn gru_model_comes_first_in_a_comparison() {
    let (gru, lstm) = ("gru weights", 7);
    let request = comparison_request(&gru, &lstm);
    assert_eq!((*request.first, *request.second, request.minutes), ("gru weights", 7, 10));
    let args = vec!["program".to_string(), "aapl".to_string(), "gru".to_string()];
    for (stage, kind) in [
        (PredictionStage::LoadGru, ModelType::Gru),
        (PredictionStage::FindLstm, ModelType::Lstm),
        (PredictionStage::LoadRival, ModelType::Lstm),
        (PredictionStage::LoadLstm, ModelType::Lstm),
    ] {
        let location = stage_location(stage, &args, "_model").unwrap();
        assert_eq!((location.ticker.as_str(), location.file_name.as_str()), ("aapl", "aapl_model"));
        assert_eq!(location.model_type, kind);
    }
    assert!(stage_location(PredictionStage::Compare, &args, "_model").is_none());
    // The model that is found is the one that is loaded.
    match after_prediction_stage(PredictionStage::FindLstm, Outcome::Done) {
        Step::Perform(next) => assert_eq!(loaded_kind(next), sought_kind(PredictionStage::FindLstm)),
        _ => panic!("the model is not loaded"),
    }
}

#[test]
fn gru_model_is_stored_as_it_was_trained() {
    let metadata = GruMetadata {
        input_size: 1,
        hidden_size: 2,
        output_size: 3,
        num_layers: 4,
        bidirectional: true,
        dropout_bits: 0.25f64.to_bits(),
    };
    let location = model_location("gru", "TSLA", "_model").unwrap();
    let model = "weights";
    let request = save_request(&model, metadata, &location);
    assert_eq!(*request.model, "weights");
    assert_eq!((request.ticker.as_str(), request.file_name.as_str()), ("TSLA", "TSLA_model"));
    assert_eq!(request.model_type, ModelType::Gru);
    assert_eq!((request.input_size, request.hidden_size, request.output_size), (1, 2, 3));
    assert_eq!((request.num_layers, request.bidirectional), (4, true));
    assert_eq!(f64::from_bits(request.dropout_bits), 0.25);
}
