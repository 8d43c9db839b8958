//! Forecasting the next trading day with a stored model.

use vstd::prelude::*;

use crate::request::{model_file_name, prediction_ticker, ModelLocation, ModelType};
use crate::schedule::{COMPARED_MINUTES, FORECAST_HORIZON};
use crate::text::joined;
use crate::workflow::{Outcome, Step};

verus! {

/// The stages of a forecast.
#[derive(Clone, Copy, Debug, PartialEq, Eq, Structural)]
pub enum PredictionStage {
    /// Make the tensors that the LSTM model works on.
    BuildTensors,
    /// Load the LSTM model.
    LoadLstm,
    /// Forecast with the LSTM model, and print the forecast.
    ForecastLstm,
    /// Load the GRU model.
    LoadGru,
    /// Forecast with the GRU model, and print the forecast.
    ForecastGru,
    /// Look for a stored LSTM model of the same ticker.
    FindLstm,
    /// Load that LSTM model.
    LoadRival,
    /// Compare the forecasts of the two models, and print both.
    Compare,
}

/// All stages of a forecast. A GRU model is compared with the LSTM model of the
/// same ticker if there is one in store.
pub open spec fn prediction_plan(kind: ModelType, lstm_stored: bool) -> Seq<PredictionStage> {
    match kind {
        ModelType::Lstm => seq![
            PredictionStage::BuildTensors,
            PredictionStage::LoadLstm,
            PredictionStage::ForecastLstm,
        ],
        ModelType::Gru => seq![
            PredictionStage::LoadGru,
            PredictionStage::ForecastGru,
            PredictionStage::FindLstm,
        ] + if lstm_stored {
            seq![PredictionStage::LoadRival, PredictionStage::Compare]
        } else {
            seq![]
        },
    }
}

/// What an error is introduced with when `stage` fails.
pub open spec fn failure_label(stage: PredictionStage) -> Seq<char> {
    match stage {
        PredictionStage::BuildTensors => "Tensor building error: "@,
        PredictionStage::LoadLstm => "LSTM model loading error: "@,
        PredictionStage::ForecastLstm => "LSTM forecast error: "@,
        PredictionStage::LoadGru => "GRU model loading error: "@,
        PredictionStage::ForecastGru => "GRU forecast error: "@,
        PredictionStage::FindLstm => ""@,
        PredictionStage::LoadRival => "LSTM model loading error: "@,
        PredictionStage::Compare => "Model comparison error: "@,
    }
}

fn label(stage: PredictionStage) -> (text: &'static str)
    ensures
        text@ == failure_label(stage),
{
    match stage {
        PredictionStage::BuildTensors => "Tensor building error: ",
        PredictionStage::LoadLstm => "LSTM model loading error: ",
        PredictionStage::ForecastLstm => "LSTM forecast error: ",
        PredictionStage::LoadGru => "GRU model loading error: ",
        PredictionStage::ForecastGru => "GRU forecast error: ",
        PredictionStage::FindLstm => "",
        PredictionStage::LoadRival => "LSTM model loading error: ",
        PredictionStage::Compare => "Model comparison error: ",
    }
}

/// The stage after `stage`, if there is one; `found` tells whether the LSTM model
/// that was looked for is there.
pub open spec fn next_prediction_stage(stage: PredictionStage, found: bool) -> Option<
    PredictionStage,
> {
    match stage {
        PredictionStage::BuildTensors => Some(PredictionStage::LoadLstm),
        PredictionStage::LoadLstm => Some(PredictionStage::ForecastLstm),
        PredictionStage::LoadGru => Some(PredictionStage::ForecastGru),
        PredictionStage::ForecastGru => Some(PredictionStage::FindLstm),
        PredictionStage::FindLstm => if found {
            Some(PredictionStage::LoadRival)
        } else {
            None
        },
        PredictionStage::LoadRival => Some(PredictionStage::Compare),
        PredictionStage::ForecastLstm | PredictionStage::Compare => None,
    }
}

/// What comes after `stage` of a forecast. A failure ends the work, with an error
/// that says where.
pub open spec fn prediction_rule(
    stage: PredictionStage,
    outcome: crate::workflow::OutcomeView,
) -> crate::workflow::StepView<PredictionStage> {
    match outcome {
        crate::workflow::OutcomeView::Failed(reason) => {
            crate::workflow::StepView::Failed(failure_label(stage) + reason)
        },
        _ => match next_prediction_stage(stage, outcome is Done) {
            Some(next) => crate::workflow::StepView::Perform(next),
            None => crate::workflow::StepView::Finished,
        },
    }
}

/// The stage that a forecast begins with.
pub fn first_prediction_stage(kind: ModelType) -> (stage: PredictionStage)
    ensures
        forall|lstm_stored: bool| stage == (#[trigger] prediction_plan(kind, lstm_stored))[0],
        kind == ModelType::Lstm ==> stage == PredictionStage::BuildTensors,
        kind == ModelType::Gru ==> stage == PredictionStage::LoadGru,
{
    match kind {
        ModelType::Lstm => PredictionStage::BuildTensors,
        ModelType::Gru => PredictionStage::LoadGru,
    }
}

/// How a forecast with the kind of model called `name` begins: if there is no such
/// kind, it is over at once, without an error.
pub open spec fn prediction_start(name: Seq<char>) -> crate::workflow::StepView<PredictionStage> {
    match crate::request::kind_of(name) {
        Some(kind) => crate::workflow::StepView::Perform(prediction_plan(kind, true)[0]),
        None => crate::workflow::StepView::Finished,
    }
}

/// How a forecast with the kind of model called `name` begins.
pub fn first_prediction_step(name: &str) -> (step: Step<PredictionStage>)
    ensures
        step@ == prediction_start(name@),
        step == if name@ == "lstm"@ {
            Step::Perform(PredictionStage::BuildTensors)
        } else if name@ == "gru"@ {
            Step::Perform(PredictionStage::LoadGru)
        } else {
            Step::Finished
        },
{
    match ModelType::from_name(name) {
        Some(kind) => Step::Perform(first_prediction_stage(kind)),
        None => Step::Finished,
    }
}

/// With a kind of model that there is not, no model is loaded and nothing is
/// forecast, and that is not an error.
pub proof fn unknown_model_forecasts_nothing(
    name: Seq<char>,
    outcomes: Seq<crate::workflow::OutcomeView>,
)
    requires
        name != "lstm"@,
        name != "gru"@,
    ensures
        ({
            let rule = |stage: PredictionStage, outcome: crate::workflow::OutcomeView|
                prediction_rule(stage, outcome);
            &&& crate::workflow::performed_from(rule, prediction_start(name), outcomes)
                == Seq::<PredictionStage>::empty()
            &&& crate::workflow::ending_from(rule, prediction_start(name), outcomes) == Some(
                crate::workflow::StepView::<PredictionStage>::Finished,
            )
        }),
{
}

/// The number of minutes that a stage forecasts or compares, if it does.
pub open spec fn minutes_of(stage: PredictionStage) -> Option<usize> {
    match stage {
        PredictionStage::BuildTensors
        | PredictionStage::ForecastLstm
        | PredictionStage::ForecastGru => Some(FORECAST_HORIZON),
        PredictionStage::Compare => Some(COMPARED_MINUTES),
        _ => None,
    }
}

/// The number of minutes that a stage forecasts or compares, if it does.
pub fn stage_minutes(stage: PredictionStage) -> (minutes: Option<usize>)
    ensures
        minutes == minutes_of(stage),
        stage == PredictionStage::BuildTensors ==> minutes == Some(390usize),
        stage == PredictionStage::ForecastLstm ==> minutes == Some(390usize),
        stage == PredictionStage::ForecastGru ==> minutes == Some(390usize),
        stage == PredictionStage::Compare ==> minutes == Some(10usize),
        minutes is None <==> stage == PredictionStage::LoadLstm || stage
            == PredictionStage::LoadGru || stage == PredictionStage::FindLstm || stage
            == PredictionStage::LoadRival,
{
    match stage {
        PredictionStage::BuildTensors
        | PredictionStage::ForecastLstm
        | PredictionStage::ForecastGru => Some(FORECAST_HORIZON),
        PredictionStage::Compare => Some(COMPARED_MINUTES),
        _ => None,
    }
}

/// The kind of the model that a stage loads, if it loads one.
pub open spec fn kind_loaded(stage: PredictionStage) -> Option<ModelType> {
    match stage {
        PredictionStage::LoadLstm | PredictionStage::LoadRival => Some(ModelType::Lstm),
        PredictionStage::LoadGru => Some(ModelType::Gru),
        _ => None,
    }
}

/// The kind of the model that a stage loads, if it loads one.
pub fn loaded_kind(stage: PredictionStage) -> (kind: Option<ModelType>)
    ensures
        kind == kind_loaded(stage),
        kind == Some(ModelType::Lstm) <==> stage == PredictionStage::LoadLstm || stage
            == PredictionStage::LoadRival,
        kind == Some(ModelType::Gru) <==> stage == PredictionStage::LoadGru,
{
    match stage {
        PredictionStage::LoadLstm | PredictionStage::LoadRival => Some(ModelType::Lstm),
        PredictionStage::LoadGru => Some(ModelType::Gru),
        _ => None,
    }
}

/// The kind of the model that a stage looks for in store, if it looks for one.
pub open spec fn kind_sought(stage: PredictionStage) -> Option<ModelType> {
    if stage == PredictionStage::FindLstm {
        Some(ModelType::Lstm)
    } else {
        None
    }
}

/// The kind of the model that a stage looks for in store, if it looks for one.
pub fn sought_kind(stage: PredictionStage) -> (kind: Option<ModelType>)
    ensures
        kind == kind_sought(stage),
        kind is Some <==> stage == PredictionStage::FindLstm,
        kind is Some ==> kind == Some(ModelType::Lstm),
{
    match stage {
        PredictionStage::FindLstm => Some(ModelType::Lstm),
        _ => None,
    }
}

/// A model that is found is the one that is loaded next.
pub proof fn found_model_is_loaded(stage: PredictionStage)
    requires
        kind_sought(stage) is Some,
    ensures
        next_prediction_stage(stage, true) is Some,
        kind_loaded(next_prediction_stage(stage, true)->0) == kind_sought(stage),
{
}

/// Where the model is stored that a stage loads or looks for, if it does: under the
/// ticker that the command line gives, which starts with the program's name.
pub fn stage_location(stage: PredictionStage, args: &Vec<String>, suffix: &str) -> (location: Option<
    ModelLocation,
>)
    ensures
        ({
            let ticker = crate::request::prediction_ticker_of(crate::text::texts(args@));
            match location {
                Some(location) => {
                    &&& kind_loaded(stage) == Some(location.model_type) || kind_sought(stage)
                        == Some(location.model_type)
                    &&& location.ticker@ == ticker
                    &&& location.file_name@ == ticker + suffix@
                },
                None => kind_loaded(stage) is None && kind_sought(stage) is None,
            }
        }),
        location is Some <==> stage == PredictionStage::LoadLstm || stage
            == PredictionStage::LoadGru || stage == PredictionStage::FindLstm || stage
            == PredictionStage::LoadRival,
        location matches Some(location) ==> {
            let ticker = if args@.len() > 1 {
                args@[1]@
            } else {
                "AAPL"@
            };
            &&& location.model_type == ModelType::Gru <==> stage == PredictionStage::LoadGru
            &&& location.ticker@ == ticker
            &&& location.file_name@ == ticker + suffix@
        },
{
    let model_type = match stage {
        PredictionStage::FindLstm => sought_kind(stage),
        _ => loaded_kind(stage),
    };
    match model_type {
        Some(model_type) => {
            let ticker = prediction_ticker(args);
            let file_name = model_file_name(ticker.as_str(), suffix);
            Some(ModelLocation { ticker, model_type, file_name })
        },
        None => None,
    }
}

/// The request to compare two models: the two in their order, and how many minutes
/// are compared.
#[derive(Debug)]
pub struct ComparisonRequest<'a, G, L> {
    pub first: &'a G,
    pub second: &'a L,
    pub minutes: usize,
}

/// The request to compare a GRU model with its rival: the GRU model comes first,
/// the LSTM model second.
pub fn comparison_request<'a, G, L>(gru: &'a G, lstm: &'a L) -> (request: ComparisonRequest<
    'a,
    G,
    L,
>)
    ensures
        request.first == gru,
        request.second == lstm,
        Some(request.minutes) == minutes_of(PredictionStage::Compare),
        request.minutes == 10,
{
    ComparisonRequest { first: gru, second: lstm, minutes: COMPARED_MINUTES }
}

/// A GRU model forecasts without the extended features.
pub const GRU_EXTENDED_FEATURES: bool = false;

/// What comes after `stage` of a forecast.
pub fn after_prediction_stage(stage: PredictionStage, outcome: Outcome) -> (step: Step<
    PredictionStage,
>)
    requires
        outcome is Absent ==> stage == PredictionStage::FindLstm,
        outcome is Failed ==> stage != PredictionStage::FindLstm,
    ensures
        step@ == prediction_rule(stage, outcome@),
        step !is Panic,
        step is Failed <==> outcome is Failed,
        outcome matches Outcome::Failed(reason) ==> (step matches Step::Failed(message)
            && message@ == match stage {
            PredictionStage::BuildTensors => "Tensor building error: "@,
            PredictionStage::LoadLstm => "LSTM model loading error: "@,
            PredictionStage::ForecastLstm => "LSTM forecast error: "@,
            PredictionStage::LoadGru => "GRU model loading error: "@,
            PredictionStage::ForecastGru => "GRU forecast error: "@,
            PredictionStage::FindLstm => ""@,
            PredictionStage::LoadRival => "LSTM model loading error: "@,
            PredictionStage::Compare => "Model comparison error: "@,
        } + reason@),
        outcome !is Failed ==> match stage {
            PredictionStage::BuildTensors => step == Step::Perform(PredictionStage::LoadLstm),
            PredictionStage::LoadLstm => step == Step::Perform(PredictionStage::ForecastLstm),
            PredictionStage::LoadGru => step == Step::Perform(PredictionStage::ForecastGru),
            PredictionStage::ForecastGru => step == Step::Perform(PredictionStage::FindLstm),
            PredictionStage::FindLstm => step == if outcome is Done {
                Step::Perform(PredictionStage::LoadRival)
            } else {
                Step::Finished
            },
            PredictionStage::LoadRival => step == Step::Perform(PredictionStage::Compare),
            PredictionStage::ForecastLstm | PredictionStage::Compare => step is Finished,
        },
{
    let found: bool = match outcome {
        Outcome::Failed(reason) => {
            return Step::Failed(joined(label(stage), reason.as_str()));
        },
        Outcome::Done => true,
        Outcome::Absent => false,
    };
    match stage {
        PredictionStage::BuildTensors => Step::Perform(PredictionStage::LoadLstm),
        PredictionStage::LoadLstm => Step::Perform(PredictionStage::ForecastLstm),
        PredictionStage::LoadGru => Step::Perform(PredictionStage::ForecastGru),
        PredictionStage::ForecastGru => Step::Perform(PredictionStage::FindLstm),
        PredictionStage::FindLstm => if found {
            Step::Perform(PredictionStage::LoadRival)
        } else {
            Step::Finished
        },
        PredictionStage::LoadRival => Step::Perform(PredictionStage::Compare),
        PredictionStage::ForecastLstm | PredictionStage::Compare => Step::Finished,
    }
}

/// If every stage does well, a forecast carries out all its stages in their
/// order, each once, and ends without an error. Whether there is an LSTM model to
/// compare with is not looked at before the GRU model's own forecast.
pub proof fn forecast_is_completed(kind: ModelType, lstm_stored: bool)
    ensures
        ({
            let rule = |stage: PredictionStage, outcome: crate::workflow::OutcomeView|
                prediction_rule(stage, outcome);
            let plan = prediction_plan(kind, lstm_stored);
            let last = if kind == ModelType::Gru && !lstm_stored {
                crate::workflow::OutcomeView::Absent
            } else {
                crate::workflow::OutcomeView::Done
            };
            let outcomes = crate::workflow::all_done((plan.len() - 1) as nat).push(last);
            &&& crate::workflow::performed(rule, plan[0], outcomes) == plan
            &&& crate::workflow::ending(rule, plan[0], outcomes) == Some(
                crate::workflow::StepView::<PredictionStage>::Finished,
            )
        }),
{
    let rule = |stage: PredictionStage, outcome: crate::workflow::OutcomeView|
        prediction_rule(stage, outcome);
    let plan = prediction_plan(kind, lstm_stored);
    let last = if kind == ModelType::Gru && !lstm_stored {
        crate::workflow::OutcomeView::Absent
    } else {
        crate::workflow::OutcomeView::Done
    };
    let outcomes = crate::workflow::all_done((plan.len() - 1) as nat).push(last);
    assert(crate::workflow::leads_through(rule, plan, outcomes));
    assert(plan.last() == plan[plan.len() - 1]);
    crate::workflow::run_follows_plan(rule, plan, outcomes);
}

/// However the stages come out, those that are carried out are the first ones of
/// the plan: none is skipped, repeated or taken out of turn.
pub proof fn every_forecast_follows_the_plan(
    kind: ModelType,
    outcomes: Seq<crate::workflow::OutcomeView>,
)
    ensures
        crate::workflow::performed(
            |stage, outcome| prediction_rule(stage, outcome),
            prediction_plan(kind, true)[0],
            outcomes,
        ).is_prefix_of(prediction_plan(kind, true)),
{
    let rule = |stage: PredictionStage, outcome: crate::workflow::OutcomeView|
        prediction_rule(stage, outcome);
    let plan = prediction_plan(kind, true);
    crate::workflow::run_stays_within_plan(rule, plan, 0, outcomes);
    assert(plan.skip(0) =~= plan);
}

/// If a stage of a forecast fails, no further stage is carried out, and the error
/// tells which stage it was and why.
pub proof fn first_failure_ends_forecast(kind: ModelType, stage: int, reason: Seq<char>)
    requires
        0 <= stage < prediction_plan(kind, true).len(),
    ensures
        ({
            let rule = |stage: PredictionStage, outcome: crate::workflow::OutcomeView|
                prediction_rule(stage, outcome);
            let plan = prediction_plan(kind, true);
            let outcomes = crate::workflow::all_done(stage as nat).push(
                crate::workflow::OutcomeView::Failed(reason),
            );
            &&& crate::workflow::performed(rule, plan[0], outcomes) == plan.take(stage + 1)
            &&& crate::workflow::ending(rule, plan[0], outcomes) == Some(
                crate::workflow::StepView::<PredictionStage>::Failed(
                    failure_label(plan[stage]) + reason,
                ),
            )
        }),
{
    let rule = |stage: PredictionStage, outcome: crate::workflow::OutcomeView|
        prediction_rule(stage, outcome);
    let plan = prediction_plan(kind, true);
    let run = plan.take(stage + 1);
    let outcomes = crate::workflow::all_done(stage as nat).push(
        crate::workflow::OutcomeView::Failed(reason),
    );
    assert(crate::workflow::leads_through(rule, run, outcomes));
    crate::workflow::run_follows_plan(rule, run, outcomes);
}

/// How a forecast is made with each kind of model. The GRU model's own forecast
/// does not depend on whether there is an LSTM model to compare it with.
pub proof fn plans_of_forecasts(lstm_stored: bool)
    ensures
        prediction_plan(ModelType::Lstm, lstm_stored) == seq![
            PredictionStage::BuildTensors,
            PredictionStage::LoadLstm,
            PredictionStage::ForecastLstm,
        ],
        prediction_plan(ModelType::Gru, lstm_stored).take(3) == seq![
            PredictionStage::LoadGru,
            PredictionStage::ForecastGru,
            PredictionStage::FindLstm,
        ],
        prediction_plan(ModelType::Gru, lstm_stored).skip(3) == if lstm_stored {
            seq![PredictionStage::LoadRival, PredictionStage::Compare]
        } else {
            seq![]
        },
{
    assert(prediction_plan(ModelType::Gru, lstm_stored).take(3) =~= seq![
        PredictionStage::LoadGru,
        PredictionStage::ForecastGru,
        PredictionStage::FindLstm,
    ]);
    assert(prediction_plan(ModelType::Gru, lstm_stored).skip(3) =~= if lstm_stored {
        seq![PredictionStage::LoadRival, PredictionStage::Compare]
    } else {
        seq![]
    });
}

/// A forecast covers the whole trading day: with either kind of model, every stage
/// that takes a number of minutes takes as many as lie between the opening at 09:30
/// and the close at 16:00; only the comparison is confined to the first ten.
pub proof fn forecasts_cover_the_trading_day(kind: ModelType, lstm_stored: bool, i: int)
    requires
        0 <= i < prediction_plan(kind, lstm_stored).len(),
    ensures
        ({
            let stage = prediction_plan(kind, lstm_stored)[i];
            &&& minutes_of(stage) matches Some(minutes) ==> if stage == PredictionStage::Compare {
                minutes == 10
            } else {
                (9 * 60 + 30) + minutes == 16 * 60
            }
            &&& stage == PredictionStage::ForecastLstm || stage == PredictionStage::ForecastGru
                || stage == PredictionStage::BuildTensors || stage == PredictionStage::Compare
                ==> minutes_of(stage) is Some
        }),
        kind == ModelType::Lstm ==> prediction_plan(kind, lstm_stored).contains(
            PredictionStage::ForecastLstm,
        ),
        kind == ModelType::Gru ==> prediction_plan(kind, lstm_stored).contains(
            PredictionStage::ForecastGru,
        ),
{
    let plan = prediction_plan(kind, lstm_stored);
    match kind {
        ModelType::Lstm => {
            assert(plan[2] == PredictionStage::ForecastLstm);
        },
        ModelType::Gru => {
            assert(plan[1] == PredictionStage::ForecastGru);
        },
    }
}

/// A model is loaded before it forecasts, and both are before they are compared.
pub proof fn models_are_loaded_before_use(lstm_stored: bool)
    ensures
        ({
            let lstm = prediction_plan(ModelType::Lstm, lstm_stored);
            let gru = prediction_plan(ModelType::Gru, lstm_stored);
            &&& lstm.last() == PredictionStage::ForecastLstm
            &&& kind_loaded(lstm[lstm.len() - 2]) == Some(ModelType::Lstm)
            &&& gru[1] == PredictionStage::ForecastGru
            &&& kind_loaded(gru[0]) == Some(ModelType::Gru)
            &&& lstm_stored ==> gru.last() == PredictionStage::Compare && kind_loaded(
                gru[gru.len() - 2],
            ) == Some(ModelType::Lstm)
            &&& !lstm_stored ==> !gru.contains(PredictionStage::Compare)
        }),
{
}

/// A GRU model forecasts without the extended features.
pub proof fn gru_model_takes_no_extended_features()
    ensures
        !GRU_EXTENDED_FEATURES,
{
}

} // verus!
