//! Training a model and evaluating it, or loading the stored one.

use vstd::prelude::*;

use crate::preparation::{price_columns, NormalizationRequest};
use crate::request::{model_location, ModelLocation, ModelType};
use crate::schedule::FORECAST_HORIZON;
use crate::text::joined;
use crate::workflow::{Outcome, Step};

verus! {

/// The stages of providing a trained model.
#[derive(Clone, Copy, Debug, PartialEq, Eq, Structural)]
pub enum TrainingStage {
    /// Look for a stored model of the current version.
    CheckVersion,
    /// Load the stored model.
    LoadModel,
    /// Train an LSTM model on the training data, and store it.
    TrainLstm,
    /// Evaluate the LSTM model on the test data.
    EvaluateLstm,
    /// Normalize the prices of the training data.
    NormalizeTraining,
    /// Make tensors of the training data.
    BuildTrainingTensors,
    /// Train a GRU model on the tensors.
    TrainGru,
    /// Store the GRU model.
    SaveGru,
    /// Normalize the prices of the test data.
    NormalizeTest,
    /// Make tensors of the test data.
    BuildTestTensors,
    /// Evaluate the GRU model on the tensors.
    EvaluateGru,
}

/// The stages by which a new model is made.
pub open spec fn making_of(kind: ModelType) -> Seq<TrainingStage> {
    match kind {
        ModelType::Lstm => seq![TrainingStage::TrainLstm, TrainingStage::EvaluateLstm],
        ModelType::Gru => seq![
            TrainingStage::NormalizeTraining,
            TrainingStage::BuildTrainingTensors,
            TrainingStage::TrainGru,
            TrainingStage::SaveGru,
            TrainingStage::NormalizeTest,
            TrainingStage::BuildTestTensors,
            TrainingStage::EvaluateGru,
        ],
    }
}

/// All stages of providing a model: a stored one of the current version is
/// loaded, otherwise a new one is made.
pub open spec fn training_plan(kind: ModelType, current: bool) -> Seq<TrainingStage> {
    seq![TrainingStage::CheckVersion] + if current {
        seq![TrainingStage::LoadModel]
    } else {
        making_of(kind)
    }
}

/// What an error is introduced with when `stage` fails.
pub open spec fn failure_label(stage: TrainingStage) -> Seq<char> {
    match stage {
        TrainingStage::CheckVersion => ""@,
        TrainingStage::LoadModel => "Failed to load model: "@,
        TrainingStage::TrainLstm => "Training error: "@,
        TrainingStage::EvaluateLstm => "Evaluation error: "@,
        TrainingStage::NormalizeTraining => "Data normalization error: "@,
        TrainingStage::BuildTrainingTensors => "Tensor creation error: "@,
        TrainingStage::TrainGru => "GRU training error: "@,
        TrainingStage::SaveGru => "Model saving error: "@,
        TrainingStage::NormalizeTest => "Test data normalization error: "@,
        TrainingStage::BuildTestTensors => "Test tensor creation error: "@,
        TrainingStage::EvaluateGru => "GRU evaluation error: "@,
    }
}

fn label(stage: TrainingStage) -> (text: &'static str)
    ensures
        text@ == failure_label(stage),
{
    match stage {
        TrainingStage::CheckVersion => "",
        TrainingStage::LoadModel => "Failed to load model: ",
        TrainingStage::TrainLstm => "Training error: ",
        TrainingStage::EvaluateLstm => "Evaluation error: ",
        TrainingStage::NormalizeTraining => "Data normalization error: ",
        TrainingStage::BuildTrainingTensors => "Tensor creation error: ",
        TrainingStage::TrainGru => "GRU training error: ",
        TrainingStage::SaveGru => "Model saving error: ",
        TrainingStage::NormalizeTest => "Test data normalization error: ",
        TrainingStage::BuildTestTensors => "Test tensor creation error: ",
        TrainingStage::EvaluateGru => "GRU evaluation error: ",
    }
}

/// The stage after `stage`, if there is one, on the way to a model of kind `kind`;
/// `found` tells whether the stored model that was looked for is there.
pub open spec fn next_training_stage(kind: ModelType, stage: TrainingStage, found: bool) -> Option<
    TrainingStage,
> {
    match stage {
        TrainingStage::CheckVersion => if found {
            Some(TrainingStage::LoadModel)
        } else {
            Some(making_of(kind)[0])
        },
        TrainingStage::TrainLstm => Some(TrainingStage::EvaluateLstm),
        TrainingStage::NormalizeTraining => Some(TrainingStage::BuildTrainingTensors),
        TrainingStage::BuildTrainingTensors => Some(TrainingStage::TrainGru),
        TrainingStage::TrainGru => Some(TrainingStage::SaveGru),
        TrainingStage::SaveGru => Some(TrainingStage::NormalizeTest),
        TrainingStage::NormalizeTest => Some(TrainingStage::BuildTestTensors),
        TrainingStage::BuildTestTensors => Some(TrainingStage::EvaluateGru),
        TrainingStage::LoadModel | TrainingStage::EvaluateLstm | TrainingStage::EvaluateGru => None,
    }
}

/// What comes after `stage` on the way to a model of kind `kind`. A failure ends
/// the work, with an error that says where; that a stored model cannot be loaded
/// though it is there is not an error but a panic.
pub open spec fn training_rule(
    kind: ModelType,
    stage: TrainingStage,
    outcome: crate::workflow::OutcomeView,
) -> crate::workflow::StepView<TrainingStage> {
    match outcome {
        crate::workflow::OutcomeView::Failed(reason) => if stage == TrainingStage::LoadModel {
            crate::workflow::StepView::Panic(failure_label(stage) + reason)
        } else {
            crate::workflow::StepView::Failed(failure_label(stage) + reason)
        },
        _ => match next_training_stage(kind, stage, outcome is Done) {
            Some(next) => crate::workflow::StepView::Perform(next),
            None => crate::workflow::StepView::Finished,
        },
    }
}

/// What comes after `stage` on the way to a model of kind `kind`.
pub fn after_training_stage(kind: ModelType, stage: TrainingStage, outcome: Outcome) -> (step: Step<
    TrainingStage,
>)
    requires
        outcome is Absent ==> stage == TrainingStage::CheckVersion,
        outcome is Failed ==> stage != TrainingStage::CheckVersion,
    ensures
        step@ == training_rule(kind, stage, outcome@),
        step is Panic <==> outcome is Failed && stage == TrainingStage::LoadModel,
        step is Failed <==> outcome is Failed && stage != TrainingStage::LoadModel,
        outcome matches Outcome::Failed(reason) ==> match stage {
            TrainingStage::CheckVersion => true,
            TrainingStage::LoadModel => step matches Step::Panic(message) && message@
                == "Failed to load model: "@ + reason@,
            TrainingStage::TrainLstm => step matches Step::Failed(message) && message@
                == "Training error: "@ + reason@,
            TrainingStage::EvaluateLstm => step matches Step::Failed(message) && message@
                == "Evaluation error: "@ + reason@,
            TrainingStage::NormalizeTraining => step matches Step::Failed(message) && message@
                == "Data normalization error: "@ + reason@,
            TrainingStage::BuildTrainingTensors => step matches Step::Failed(message) && message@
                == "Tensor creation error: "@ + reason@,
            TrainingStage::TrainGru => step matches Step::Failed(message) && message@
                == "GRU training error: "@ + reason@,
            TrainingStage::SaveGru => step matches Step::Failed(message) && message@
                == "Model saving error: "@ + reason@,
            TrainingStage::NormalizeTest => step matches Step::Failed(message) && message@
                == "Test data normalization error: "@ + reason@,
            TrainingStage::BuildTestTensors => step matches Step::Failed(message) && message@
                == "Test tensor creation error: "@ + reason@,
            TrainingStage::EvaluateGru => step matches Step::Failed(message) && message@
                == "GRU evaluation error: "@ + reason@,
        },
        outcome !is Failed ==> match stage {
            TrainingStage::CheckVersion => step == if outcome is Done {
                Step::Perform(TrainingStage::LoadModel)
            } else if kind == ModelType::Lstm {
                Step::Perform(TrainingStage::TrainLstm)
            } else {
                Step::Perform(TrainingStage::NormalizeTraining)
            },
            TrainingStage::TrainLstm => step == Step::Perform(TrainingStage::EvaluateLstm),
            TrainingStage::NormalizeTraining => step == Step::Perform(
                TrainingStage::BuildTrainingTensors,
            ),
            TrainingStage::BuildTrainingTensors => step == Step::Perform(TrainingStage::TrainGru),
            TrainingStage::TrainGru => step == Step::Perform(TrainingStage::SaveGru),
            TrainingStage::SaveGru => step == Step::Perform(TrainingStage::NormalizeTest),
            TrainingStage::NormalizeTest => step == Step::Perform(TrainingStage::BuildTestTensors),
            TrainingStage::BuildTestTensors => step == Step::Perform(TrainingStage::EvaluateGru),
            TrainingStage::LoadModel
            | TrainingStage::EvaluateLstm
            | TrainingStage::EvaluateGru => step is Finished,
        },
{
    let found: bool = match outcome {
        Outcome::Failed(reason) => {
            let message = joined(label(stage), reason.as_str());
            return match stage {
                TrainingStage::LoadModel => Step::Panic(message),
                _ => Step::Failed(message),
            };
        },
        Outcome::Done => true,
        Outcome::Absent => false,
    };
    match stage {
        TrainingStage::CheckVersion => if found {
            Step::Perform(TrainingStage::LoadModel)
        } else {
            match kind {
                ModelType::Lstm => Step::Perform(TrainingStage::TrainLstm),
                ModelType::Gru => Step::Perform(TrainingStage::NormalizeTraining),
            }
        },
        TrainingStage::TrainLstm => Step::Perform(TrainingStage::EvaluateLstm),
        TrainingStage::NormalizeTraining => Step::Perform(TrainingStage::BuildTrainingTensors),
        TrainingStage::BuildTrainingTensors => Step::Perform(TrainingStage::TrainGru),
        TrainingStage::TrainGru => Step::Perform(TrainingStage::SaveGru),
        TrainingStage::SaveGru => Step::Perform(TrainingStage::NormalizeTest),
        TrainingStage::NormalizeTest => Step::Perform(TrainingStage::BuildTestTensors),
        TrainingStage::BuildTestTensors => Step::Perform(TrainingStage::EvaluateGru),
        TrainingStage::LoadModel | TrainingStage::EvaluateLstm | TrainingStage::EvaluateGru => {
            Step::Finished
        },
    }
}

/// How providing a model of the kind called `name` begins: if there is no such
/// kind, it is over at once, without an error.
pub open spec fn training_start(name: Seq<char>) -> crate::workflow::StepView<TrainingStage> {
    if crate::request::kind_of(name) is Some {
        crate::workflow::StepView::Perform(TrainingStage::CheckVersion)
    } else {
        crate::workflow::StepView::Finished
    }
}

/// How providing a model of the kind called `name` begins.
pub fn first_training_step(name: &str) -> (step: Step<TrainingStage>)
    ensures
        step@ == training_start(name@),
        step == if name@ == "lstm"@ || name@ == "gru"@ {
            Step::Perform(TrainingStage::CheckVersion)
        } else {
            Step::Finished
        },
{
    match ModelType::from_name(name) {
        Some(_) => Step::Perform(TrainingStage::CheckVersion),
        None => Step::Finished,
    }
}

/// For a kind of model that there is not, nothing is loaded, trained, evaluated or
/// stored, and that is not an error.
pub proof fn unknown_model_trains_nothing(
    kind: ModelType,
    name: Seq<char>,
    outcomes: Seq<crate::workflow::OutcomeView>,
)
    requires
        name != "lstm"@,
        name != "gru"@,
    ensures
        ({
            let rule = |stage: TrainingStage, outcome: crate::workflow::OutcomeView|
                training_rule(kind, stage, outcome);
            &&& crate::workflow::performed_from(rule, training_start(name), outcomes) == Seq::<
                TrainingStage,
            >::empty()
            &&& crate::workflow::ending_from(rule, training_start(name), outcomes) == Some(
                crate::workflow::StepView::<TrainingStage>::Finished,
            )
        }),
{
}

/// The result of providing a model of the kind called `model_name`, when the work
/// has ended with `end`: where the model is stored, which is nowhere for a kind
/// that there is not; or the error.
pub fn training_result(
    model_name: &str,
    ticker: &str,
    suffix: &str,
    end: Step<TrainingStage>,
) -> (result: Result<Option<ModelLocation>, String>)
    requires
        end is Finished || end is Failed,
    ensures
        match result {
            Ok(Some(location)) => {
                &&& end is Finished
                &&& crate::request::kind_of(model_name@) == Some(location.model_type)
                &&& location.ticker@ == ticker@
                &&& location.file_name@ == ticker@ + suffix@
            },
            Ok(None) => end is Finished && crate::request::kind_of(model_name@) is None,
            Err(message) => end@ == crate::workflow::StepView::<TrainingStage>::Failed(message@),
        },
        result is Err <==> end is Failed,
        result matches Err(message) ==> message@ == end->Failed_0@,
        result matches Ok(Some(location)) ==> model_name@ == if location.model_type
            == ModelType::Lstm {
            "lstm"@
        } else {
            "gru"@
        },
        result matches Ok(None) ==> model_name@ != "lstm"@ && model_name@ != "gru"@,
{
    match end {
        Step::Failed(message) => Err(message),
        _ => Ok(model_location(model_name, ticker, suffix)),
    }
}

/// The two parts of the market data.
#[derive(Clone, Copy, Debug, PartialEq, Eq, Structural)]
pub enum Part {
    Train,
    Test,
}

/// The part of the data that a stage works on, be it directly or in the form that
/// earlier stages have brought it into; none if it works on no data.
pub open spec fn part_of(stage: TrainingStage) -> Option<Part> {
    match stage {
        TrainingStage::TrainLstm
        | TrainingStage::NormalizeTraining
        | TrainingStage::BuildTrainingTensors
        | TrainingStage::TrainGru => Some(Part::Train),
        TrainingStage::EvaluateLstm
        | TrainingStage::NormalizeTest
        | TrainingStage::BuildTestTensors
        | TrainingStage::EvaluateGru => Some(Part::Test),
        TrainingStage::CheckVersion | TrainingStage::LoadModel | TrainingStage::SaveGru => None,
    }
}

/// The part of the data that a stage works on.
pub fn stage_data(stage: TrainingStage) -> (part: Option<Part>)
    ensures
        part == part_of(stage),
        part == Some(Part::Train) <==> stage == TrainingStage::TrainLstm || stage
            == TrainingStage::NormalizeTraining || stage == TrainingStage::BuildTrainingTensors
            || stage == TrainingStage::TrainGru,
        part == Some(Part::Test) <==> stage == TrainingStage::EvaluateLstm || stage
            == TrainingStage::NormalizeTest || stage == TrainingStage::BuildTestTensors || stage
            == TrainingStage::EvaluateGru,
{
    match stage {
        TrainingStage::TrainLstm
        | TrainingStage::NormalizeTraining
        | TrainingStage::BuildTrainingTensors
        | TrainingStage::TrainGru => Some(Part::Train),
        TrainingStage::EvaluateLstm
        | TrainingStage::NormalizeTest
        | TrainingStage::BuildTestTensors
        | TrainingStage::EvaluateGru => Some(Part::Test),
        TrainingStage::CheckVersion | TrainingStage::LoadModel | TrainingStage::SaveGru => None,
    }
}

/// What a stage is given of the two parts of the data.
pub open spec fn input_of<D>(stage: TrainingStage, train: D, test: D) -> Option<D> {
    match part_of(stage) {
        Some(Part::Train) => Some(train),
        Some(Part::Test) => Some(test),
        None => None,
    }
}

/// What a stage is given of the two parts of the data.
pub fn stage_input<'a, D>(stage: TrainingStage, train: &'a D, test: &'a D) -> (input: Option<
    &'a D,
>)
    ensures
        input == input_of(stage, train, test),
        input == match stage {
            TrainingStage::TrainLstm
            | TrainingStage::NormalizeTraining
            | TrainingStage::BuildTrainingTensors
            | TrainingStage::TrainGru => Some(train),
            TrainingStage::EvaluateLstm
            | TrainingStage::NormalizeTest
            | TrainingStage::BuildTestTensors
            | TrainingStage::EvaluateGru => Some(test),
            _ => None,
        },
{
    match stage_data(stage) {
        Some(Part::Train) => Some(train),
        Some(Part::Test) => Some(test),
        None => None,
    }
}

/// The number of minutes that a stage trains or evaluates forecasts of, if it does.
pub fn stage_horizon(stage: TrainingStage) -> (horizon: Option<usize>)
    ensures
        horizon == match stage {
            TrainingStage::TrainLstm
            | TrainingStage::EvaluateLstm
            | TrainingStage::BuildTrainingTensors
            | TrainingStage::BuildTestTensors => Some(FORECAST_HORIZON),
            _ => None,
        },
        horizon is Some <==> stage == TrainingStage::TrainLstm || stage
            == TrainingStage::EvaluateLstm || stage == TrainingStage::BuildTrainingTensors || stage
            == TrainingStage::BuildTestTensors,
        horizon is Some ==> horizon == Some(390usize),
{
    match stage {
        TrainingStage::TrainLstm
        | TrainingStage::EvaluateLstm
        | TrainingStage::BuildTrainingTensors
        | TrainingStage::BuildTestTensors => Some(FORECAST_HORIZON),
        _ => None,
    }
}

/// The request to normalize the prices on the way to a GRU model, for training and
/// for test data alike: the extended indicators are not included, and outliers are
/// not treated.
pub fn gru_normalization_request() -> (request: NormalizationRequest)
    ensures
        crate::text::texts(request.columns@) == seq!["close"@, "open"@, "high"@, "low"@],
        !request.extended,
        !request.outliers,
{
    NormalizationRequest { columns: price_columns(), extended: false, outliers: false }
}

/// The shape of a trained GRU model, as its training reports it.
#[derive(Clone, Copy, Debug, PartialEq, Eq, Structural)]
pub struct GruMetadata {
    pub input_size: usize,
    pub hidden_size: usize,
    pub output_size: usize,
    pub num_layers: usize,
    pub bidirectional: bool,
    /// The bits of the dropout rate, a double.
    pub dropout_bits: u64,
}

/// The request to store a GRU model.
#[derive(Debug)]
pub struct SaveRequest<'a, M> {
    pub model: &'a M,
    pub ticker: String,
    pub model_type: ModelType,
    pub file_name: String,
    pub input_size: usize,
    pub hidden_size: usize,
    pub output_size: usize,
    pub num_layers: usize,
    pub bidirectional: bool,
    pub dropout_bits: u64,
}

/// The request to store a GRU model that was trained: the model itself, at its
/// location, with the shape that its training reported.
pub fn save_request<'a, M>(
    model: &'a M,
    metadata: GruMetadata,
    location: &ModelLocation,
) -> (request: SaveRequest<'a, M>)
    requires
        location.model_type == ModelType::Gru,
    ensures
        request.model == model,
        request.ticker@ == location.ticker@,
        request.model_type == ModelType::Gru,
        request.file_name@ == location.file_name@,
        request.input_size == metadata.input_size,
        request.hidden_size == metadata.hidden_size,
        request.output_size == metadata.output_size,
        request.num_layers == metadata.num_layers,
        request.bidirectional == metadata.bidirectional,
        request.dropout_bits == metadata.dropout_bits,
{
    SaveRequest {
        model,
        ticker: location.ticker.clone(),
        model_type: location.model_type,
        file_name: location.file_name.clone(),
        input_size: metadata.input_size,
        hidden_size: metadata.hidden_size,
        output_size: metadata.output_size,
        num_layers: metadata.num_layers,
        bidirectional: metadata.bidirectional,
        dropout_bits: metadata.dropout_bits,
    }
}

/// Whatever the kind of model: if a stored model is current it is loaded, and
/// nothing else is done.
pub proof fn current_model_is_only_loaded(kind: ModelType)
    ensures
        crate::workflow::performed(
            |stage, outcome| training_rule(kind, stage, outcome),
            TrainingStage::CheckVersion,
            crate::workflow::all_done(2),
        ) == seq![TrainingStage::CheckVersion, TrainingStage::LoadModel],
        crate::workflow::ending(
            |stage, outcome| training_rule(kind, stage, outcome),
            TrainingStage::CheckVersion,
            crate::workflow::all_done(2),
        ) == Some(crate::workflow::StepView::<TrainingStage>::Finished),
{
    let rule = |stage: TrainingStage, outcome: crate::workflow::OutcomeView|
        training_rule(kind, stage, outcome);
    let plan = training_plan(kind, true);
    crate::workflow::run_follows_plan(rule, plan, crate::workflow::all_done(2));
    assert(plan =~= seq![TrainingStage::CheckVersion, TrainingStage::LoadModel]);
}

/// If a stored model is current but cannot be loaded, the program panics.
pub proof fn failed_load_panics(kind: ModelType, reason: Seq<char>)
    ensures
        crate::workflow::ending(
            |stage, outcome| training_rule(kind, stage, outcome),
            TrainingStage::CheckVersion,
            seq![
                crate::workflow::OutcomeView::Done,
                crate::workflow::OutcomeView::Failed(reason),
            ],
        ) == Some(
            crate::workflow::StepView::<TrainingStage>::Panic("Failed to load model: "@ + reason),
        ),
{
    let rule = |stage: TrainingStage, outcome: crate::workflow::OutcomeView|
        training_rule(kind, stage, outcome);
    let plan = training_plan(kind, true);
    let outcomes = seq![
        crate::workflow::OutcomeView::Done,
        crate::workflow::OutcomeView::Failed(reason),
    ];
    crate::workflow::run_follows_plan(rule, plan, outcomes);
}

/// The outcomes of a run that finds no current model and does well up to the
/// stage of number `stage`, whose outcome is `last`.
pub open spec fn fresh_outcomes(stage: int, last: crate::workflow::OutcomeView) -> Seq<
    crate::workflow::OutcomeView,
> {
    seq![crate::workflow::OutcomeView::Absent] + crate::workflow::all_done((stage - 1) as nat)
        + seq![last]
}

/// If no stored model is current and every stage does well, a new model is made:
/// the stages of its making are carried out in their order, each once.
pub proof fn fresh_model_is_made(kind: ModelType)
    ensures
        ({
            let rule = |stage: TrainingStage, outcome: crate::workflow::OutcomeView|
                training_rule(kind, stage, outcome);
            let outcomes = fresh_outcomes(
                making_of(kind).len() as int,
                crate::workflow::OutcomeView::Done,
            );
            &&& crate::workflow::performed(rule, TrainingStage::CheckVersion, outcomes)
                == training_plan(kind, false)
            &&& crate::workflow::ending(rule, TrainingStage::CheckVersion, outcomes) == Some(
                crate::workflow::StepView::<TrainingStage>::Finished,
            )
        }),
{
    let count = making_of(kind).len() as int;
    fresh_run(kind, count, crate::workflow::OutcomeView::Done);
    let plan = training_plan(kind, false);
    assert(plan.take(count + 1) =~= plan);
}

/// If no stored model is current and a stage of the making of a new one fails, no
/// further stage is carried out, and the error tells which stage it was and why.
pub proof fn first_failure_ends_training(kind: ModelType, stage: int, reason: Seq<char>)
    requires
        1 <= stage <= making_of(kind).len(),
    ensures
        ({
            let rule = |stage: TrainingStage, outcome: crate::workflow::OutcomeView|
                training_rule(kind, stage, outcome);
            let outcomes = fresh_outcomes(stage, crate::workflow::OutcomeView::Failed(reason));
            let failed = making_of(kind)[stage - 1];
            &&& crate::workflow::performed(rule, TrainingStage::CheckVersion, outcomes)
                == training_plan(kind, false).take(stage + 1)
            &&& crate::workflow::ending(rule, TrainingStage::CheckVersion, outcomes) == Some(
                crate::workflow::StepView::<TrainingStage>::Failed(failure_label(failed) + reason),
            )
        }),
{
    fresh_run(kind, stage, crate::workflow::OutcomeView::Failed(reason));
}

proof fn fresh_run(kind: ModelType, stage: int, last: crate::workflow::OutcomeView)
    requires
        1 <= stage <= making_of(kind).len(),
        training_rule(kind, making_of(kind)[stage - 1], last) !is Perform,
    ensures
        ({
            let rule = |stage: TrainingStage, outcome: crate::workflow::OutcomeView|
                training_rule(kind, stage, outcome);
            let outcomes = fresh_outcomes(stage, last);
            &&& crate::workflow::performed(rule, TrainingStage::CheckVersion, outcomes)
                == training_plan(kind, false).take(stage + 1)
            &&& crate::workflow::ending(rule, TrainingStage::CheckVersion, outcomes) == Some(
                training_rule(kind, making_of(kind)[stage - 1], last),
            )
        }),
{
    let rule = |stage: TrainingStage, outcome: crate::workflow::OutcomeView|
        training_rule(kind, stage, outcome);
    let outcomes = fresh_outcomes(stage, last);
    let plan = training_plan(kind, false);
    let run = plan.take(stage + 1);
    assert(crate::workflow::leads_through(rule, run, outcomes));
    crate::workflow::run_follows_plan(rule, run, outcomes);
}

/// However the stages come out, those that are carried out are the first ones of
/// a plan: none is skipped, repeated or taken out of turn.
pub proof fn every_training_run_follows_a_plan(
    kind: ModelType,
    outcomes: Seq<crate::workflow::OutcomeView>,
)
    ensures
        crate::workflow::performed(
            |stage, outcome| training_rule(kind, stage, outcome),
            TrainingStage::CheckVersion,
            outcomes,
        ).is_prefix_of(training_plan(kind, outcomes.len() > 0 && outcomes[0] is Done)),
{
    let rule = |stage: TrainingStage, outcome: crate::workflow::OutcomeView|
        training_rule(kind, stage, outcome);
    let plan = training_plan(kind, outcomes.len() > 0 && outcomes[0] is Done);
    if outcomes.len() > 0 && outcomes[0] !is Failed {
        crate::workflow::run_stays_within_plan(rule, plan, 1, outcomes.drop_first());
        assert(rule(plan[0], outcomes[0]) == crate::workflow::StepView::Perform(plan[1]));
        assert(plan =~= seq![plan[0]] + plan.skip(1));
    }
}

/// A model is evaluated only after it was trained, and a GRU model only after it
/// was stored; a stored model that is loaded is not evaluated at all.
pub proof fn evaluation_comes_last(kind: ModelType)
    ensures
        making_of(kind).last() == match kind {
            ModelType::Lstm => TrainingStage::EvaluateLstm,
            ModelType::Gru => TrainingStage::EvaluateGru,
        },
        making_of(kind).drop_last().contains(
            match kind {
                ModelType::Lstm => TrainingStage::TrainLstm,
                ModelType::Gru => TrainingStage::TrainGru,
            },
        ),
        kind == ModelType::Gru ==> making_of(kind).index_of(TrainingStage::TrainGru) < making_of(
            kind,
        ).index_of(TrainingStage::SaveGru),
        !training_plan(kind, true).contains(TrainingStage::EvaluateLstm),
        !training_plan(kind, true).contains(TrainingStage::EvaluateGru),
{
    let making = making_of(kind);
    match kind {
        ModelType::Lstm => {
            assert(making.drop_last()[0] == TrainingStage::TrainLstm);
        },
        ModelType::Gru => {
            assert(making.drop_last()[2] == TrainingStage::TrainGru);
            assert(making[2] == TrainingStage::TrainGru);
            assert(making[3] == TrainingStage::SaveGru);
        },
    }
}

/// No model is trained or stored on anything but the training data: up to the
/// storing of the model no stage works on test data, and afterwards every stage does.
pub proof fn test_data_comes_after_training(kind: ModelType, i: int)
    requires
        0 <= i < training_plan(kind, false).len(),
    ensures
        part_of(training_plan(kind, false)[i]) == Some(Part::Test) <==> i >= first_test_stage(
            kind,
        ),
        training_plan(kind, false)[first_test_stage(kind) - 1] == match kind {
            ModelType::Lstm => TrainingStage::TrainLstm,
            ModelType::Gru => TrainingStage::SaveGru,
        },
{
}

/// The number of the first stage that works on test data, when a new model is made.
pub open spec fn first_test_stage(kind: ModelType) -> int {
    match kind {
        ModelType::Lstm => 2,
        ModelType::Gru => 5,
    }
}

/// How the stages of a plan come out in a world in which a stage's outcome depends
/// on the stage and on the data that it is given.
pub open spec fn outcomes_in<D>(
    world: spec_fn(TrainingStage, Option<D>) -> crate::workflow::OutcomeView,
    plan: Seq<TrainingStage>,
    train: D,
    test: D,
) -> Seq<crate::workflow::OutcomeView> {
    Seq::new(plan.len(), |i: int| world(plan[i], input_of(plan[i], train, test)))
}

/// The end of a run in which the first failure, or the last stage, is that of
/// number `end`.
proof fn run_ends_at(
    kind: ModelType,
    current: bool,
    outcomes: Seq<crate::workflow::OutcomeView>,
    end: int,
)
    requires
        outcomes.len() == training_plan(kind, current).len(),
        outcomes[0] !is Failed,
        current == outcomes[0] is Done,
        1 <= end < outcomes.len(),
        forall|i: int| 0 <= i < end ==> #[trigger] outcomes[i] !is Failed,
        outcomes[end] is Failed || end == outcomes.len() - 1,
    ensures
        ({
            let rule = |stage: TrainingStage, outcome: crate::workflow::OutcomeView|
                training_rule(kind, stage, outcome);
            let plan = training_plan(kind, current);
            &&& crate::workflow::performed(rule, TrainingStage::CheckVersion, outcomes)
                == plan.take(end + 1)
            &&& crate::workflow::ending(rule, TrainingStage::CheckVersion, outcomes) == Some(
                training_rule(kind, plan[end], outcomes[end]),
            )
        }),
{
    let rule = |stage: TrainingStage, outcome: crate::workflow::OutcomeView|
        training_rule(kind, stage, outcome);
    let plan = training_plan(kind, current);
    let run = plan.take(end + 1);
    let reports = outcomes.take(end + 1);
    assert forall|i: int| 0 <= i < run.len() - 1 implies rule(#[trigger] run[i], reports[i])
        == crate::workflow::StepView::Perform(run[i + 1]) by {
        assert(outcomes[i] !is Failed);
    }
    crate::workflow::run_follows_plan(rule, run, reports);
    crate::workflow::nothing_follows_the_end(
        rule,
        TrainingStage::CheckVersion,
        reports,
        outcomes.skip(end + 1),
    );
    assert(reports + outcomes.skip(end + 1) =~= outcomes);
}

/// The number of the first outcome from `from` on that is a failure, or of the last.
proof fn first_failure(outcomes: Seq<crate::workflow::OutcomeView>, from: int) -> (end: int)
    requires
        0 <= from < outcomes.len(),
    ensures
        from <= end < outcomes.len(),
        forall|i: int| from <= i < end ==> #[trigger] outcomes[i] !is Failed,
        outcomes[end] is Failed || end == outcomes.len() - 1,
    decreases outcomes.len() - from,
{
    if outcomes[from] is Failed || from == outcomes.len() - 1 {
        from
    } else {
        first_failure(outcomes, from + 1)
    }
}

/// The run ends with success, or with the error of a stage that works on test data.
pub open spec fn ends_with_evaluation(end: crate::workflow::StepView<TrainingStage>) -> bool {
    ||| end is Finished
    ||| exists|stage: TrainingStage, reason: Seq<char>|
        #![trigger failure_label(stage) + reason]
        part_of(stage) == Some(Part::Test) && end == crate::workflow::StepView::<
            TrainingStage,
        >::Failed(failure_label(stage) + reason)
}

/// Of the test data nothing depends but the evaluation. Take two runs in the same
/// world, with the same training data. Every stage that does not work on test data
/// is given the same in both. Either the runs are the same from beginning to end,
/// or a new model is made, both get to the end of its making, and each ends with
/// success or with an error of the evaluation.
pub proof fn test_data_changes_only_the_evaluation<D>(
    kind: ModelType,
    world: spec_fn(TrainingStage, Option<D>) -> crate::workflow::OutcomeView,
    train: D,
    one_test: D,
    other_test: D,
)
    requires
        world(TrainingStage::CheckVersion, None) !is Failed,
    ensures
        forall|stage: TrainingStage|
            part_of(stage) != Some(Part::Test) ==> #[trigger] input_of(stage, train, one_test)
                == input_of(stage, train, other_test),
        ({
            let rule = |stage: TrainingStage, outcome: crate::workflow::OutcomeView|
                training_rule(kind, stage, outcome);
            let current = world(TrainingStage::CheckVersion, None) is Done;
            let plan = training_plan(kind, current);
            let one = outcomes_in(world, plan, train, one_test);
            let other = outcomes_in(world, plan, train, other_test);
            let start = TrainingStage::CheckVersion;
            let one_run = crate::workflow::performed(rule, start, one);
            let other_run = crate::workflow::performed(rule, start, other);
            let one_end = crate::workflow::ending(rule, start, one);
            let other_end = crate::workflow::ending(rule, start, other);
            ||| one_run == other_run && one_end == other_end
            ||| {
                &&& !current
                &&& plan.take(first_test_stage(kind)).is_prefix_of(one_run)
                &&& plan.take(first_test_stage(kind)).is_prefix_of(other_run)
                &&& one_end is Some && ends_with_evaluation(one_end->0)
                &&& other_end is Some && ends_with_evaluation(other_end->0)
            }
        }),
{
    let rule = |stage: TrainingStage, outcome: crate::workflow::OutcomeView|
        training_rule(kind, stage, outcome);
    let current = world(TrainingStage::CheckVersion, None) is Done;
    let plan = training_plan(kind, current);
    let one = outcomes_in(world, plan, train, one_test);
    let other = outcomes_in(world, plan, train, other_test);
    assert(plan[0] == TrainingStage::CheckVersion);
    if current {
        assert(one =~= other);
    } else {
        let tests = first_test_stage(kind);
        assert forall|i: int| 0 <= i < tests implies one[i] == other[i] by {
            test_data_comes_after_training(kind, i);
        }
        let one_stop = first_failure(one, 1);
        let other_stop = first_failure(other, 1);
        run_ends_at(kind, current, one, one_stop);
        run_ends_at(kind, current, other, other_stop);
        if one_stop < tests || other_stop < tests {
            if one_stop < other_stop {
                assert(other[one_stop] !is Failed);
            }
            if other_stop < one_stop {
                assert(one[other_stop] !is Failed);
            }
            assert(one_stop == other_stop);
        } else {
            test_data_comes_after_training(kind, one_stop);
            test_data_comes_after_training(kind, other_stop);
            evaluation_end(kind, plan[one_stop], one[one_stop], one_stop == plan.len() - 1);
            evaluation_end(kind, plan[other_stop], other[other_stop], other_stop == plan.len() - 1);
        }
    }
}

proof fn evaluation_end(
    kind: ModelType,
    stage: TrainingStage,
    outcome: crate::workflow::OutcomeView,
    last: bool,
)
    requires
        part_of(stage) == Some(Part::Test),
        last ==> stage == making_of(kind).last(),
        last || outcome is Failed,
    ensures
        ends_with_evaluation(training_rule(kind, stage, outcome)),
{
    if let crate::workflow::OutcomeView::Failed(reason) = outcome {
        assert(training_rule(kind, stage, outcome) == crate::workflow::StepView::<
            TrainingStage,
        >::Failed(failure_label(stage) + reason));
    }
}

/// The numbers that training is set up with. Fractions are given in thousandths.
#[derive(Clone, Copy, Debug, PartialEq, Eq, Structural)]
pub struct TrainingSettings {
    pub learning_rate_thousandths: u32,
    pub batch_size: usize,
    pub epochs: usize,
    pub test_split_thousandths: u32,
    pub use_huber_loss: bool,
}

/// The numbers that only the training of a GRU model is set up with.
#[derive(Clone, Copy, Debug, PartialEq, Eq, Structural)]
pub struct GruSettings {
    pub patience: usize,
    pub min_delta_thousandths: u32,
    pub checkpoint_epochs: usize,
    pub bidirectional: bool,
    pub num_layers: usize,
}

/// The settings that both kinds of model are trained with.
pub fn training_settings() -> (settings: TrainingSettings)
    ensures
        settings == (TrainingSettings {
            learning_rate_thousandths: 1,
            batch_size: 32,
            epochs: 10,
            test_split_thousandths: 200,
            use_huber_loss: true,
        }),
{
    TrainingSettings {
        learning_rate_thousandths: 1,
        batch_size: 32,
        epochs: 10,
        test_split_thousandths: 200,
        use_huber_loss: true,
    }
}

/// The settings that a GRU model is trained with.
pub fn gru_settings() -> (settings: GruSettings)
    ensures
        settings == (GruSettings {
            patience: 5,
            min_delta_thousandths: 1,
            checkpoint_epochs: 2,
            bidirectional: true,
            num_layers: 1,
        }),
{
    GruSettings {
        patience: 5,
        min_delta_thousandths: 1,
        checkpoint_epochs: 2,
        bidirectional: true,
        num_layers: 1,
    }
}

/// What the making of tensors is told on the way to a GRU model, besides the data.
#[derive(Clone, Copy, Debug, PartialEq, Eq)]
pub struct TensorRequest {
    /// The number of rows that a forecast is made from.
    pub sequence_length: usize,
    /// The number of minutes that are forecast.
    pub horizon: usize,
    pub switch: bool,
    /// The optional argument.
    pub option: Option<usize>,
}

/// All that the making of a GRU model is told, besides the data.
#[derive(Clone, Copy, Debug, PartialEq, Eq)]
pub struct GruTrainingRequest {
    pub settings: TrainingSettings,
    pub gru: GruSettings,
    /// The bits of the dropout rate, a double.
    pub dropout_bits: u64,
    /// How the tensors for training are made.
    pub training_tensors: TensorRequest,
    /// How the tensors for the evaluation are made.
    pub test_tensors: TensorRequest,
}

/// All that the training of an LSTM model is told, besides the data and where the
/// model is stored. What is not said here is left to the defaults of the training.
#[derive(Clone, Copy, Debug, PartialEq, Eq, Structural)]
pub struct LstmTrainingRequest {
    pub settings: TrainingSettings,
    /// The bits of the dropout rate, a double.
    pub dropout_bits: u64,
    /// The number of minutes that are forecast.
    pub horizon: usize,
}

/// The tensors that a GRU model is trained on or evaluated with: they forecast a
/// whole trading day, the switch is off, and the optional argument is left out.
pub open spec fn gru_tensors(sequence_length: usize) -> TensorRequest {
    TensorRequest { sequence_length, horizon: FORECAST_HORIZON, switch: false, option: None }
}

/// The request to make a GRU model: it is trained with the program's default
/// dropout rate, and the tensors for the training and for the evaluation are made
/// with the program's sequence length.
pub fn gru_training_request(default_dropout_bits: u64, sequence_length: usize) -> (request:
    GruTrainingRequest)
    ensures
        request.dropout_bits == default_dropout_bits,
        request.training_tensors == gru_tensors(sequence_length),
        request.test_tensors == gru_tensors(sequence_length),
        request.training_tensors == (TensorRequest {
            sequence_length,
            horizon: 390,
            switch: false,
            option: None,
        }),
        request.test_tensors == request.training_tensors,
        request.settings == (TrainingSettings {
            learning_rate_thousandths: 1,
            batch_size: 32,
            epochs: 10,
            test_split_thousandths: 200,
            use_huber_loss: true,
        }),
        request.gru == (GruSettings {
            patience: 5,
            min_delta_thousandths: 1,
            checkpoint_epochs: 2,
            bidirectional: true,
            num_layers: 1,
        }),
{
    let tensors = TensorRequest {
        sequence_length,
        horizon: FORECAST_HORIZON,
        switch: false,
        option: None,
    };
    GruTrainingRequest {
        settings: training_settings(),
        gru: gru_settings(),
        dropout_bits: default_dropout_bits,
        training_tensors: tensors,
        test_tensors: tensors,
    }
}

/// How the tensors of a stage are made, if it makes any.
pub fn stage_tensors(request: &GruTrainingRequest, stage: TrainingStage) -> (tensors: Option<
    TensorRequest,
>)
    ensures
        tensors == match stage {
            TrainingStage::BuildTrainingTensors => Some(request.training_tensors),
            TrainingStage::BuildTestTensors => Some(request.test_tensors),
            _ => None,
        },
{
    match stage {
        TrainingStage::BuildTrainingTensors => Some(request.training_tensors),
        TrainingStage::BuildTestTensors => Some(request.test_tensors),
        _ => None,
    }
}

/// The request to train an LSTM model, with the program's default dropout rate.
pub fn lstm_training_request(default_dropout_bits: u64) -> (request: LstmTrainingRequest)
    ensures
        request.dropout_bits == default_dropout_bits,
        request.horizon == FORECAST_HORIZON,
        request.horizon == 390,
        request.settings == (TrainingSettings {
            learning_rate_thousandths: 1,
            batch_size: 32,
            epochs: 10,
            test_split_thousandths: 200,
            use_huber_loss: true,
        }),
{
    LstmTrainingRequest {
        settings: training_settings(),
        dropout_bits: default_dropout_bits,
        horizon: FORECAST_HORIZON,
    }
}

/// How a model is made, stage by stage, and that a current one is only loaded.
pub proof fn plans_of_training(kind: ModelType)
    ensures
        training_plan(kind, true) == seq![TrainingStage::CheckVersion, TrainingStage::LoadModel],
        training_plan(kind, false) == seq![TrainingStage::CheckVersion] + making_of(kind),
        making_of(ModelType::Lstm) == seq![TrainingStage::TrainLstm, TrainingStage::EvaluateLstm],
        making_of(ModelType::Gru) == seq![
            TrainingStage::NormalizeTraining,
            TrainingStage::BuildTrainingTensors,
            TrainingStage::TrainGru,
            TrainingStage::SaveGru,
            TrainingStage::NormalizeTest,
            TrainingStage::BuildTestTensors,
            TrainingStage::EvaluateGru,
        ],
{
    assert(training_plan(kind, true) =~= seq![
        TrainingStage::CheckVersion,
        TrainingStage::LoadModel,
    ]);
}

/// The error of a stage on the way to a new model tells which stage it was: from
/// two errors with the same reason, the two stages can be told apart.
pub proof fn errors_tell_the_stage(one: TrainingStage, other: TrainingStage, reason: Seq<char>)
    ensures
        failure_label(one) + reason == failure_label(other) + reason <==> one == other,
{
    let first = failure_label(one);
    let second = failure_label(other);
    if first + reason == second + reason {
        assert((first + reason).len() == (second + reason).len());
        assert((first + reason).take(first.len() as int) =~= first);
        assert((second + reason).take(second.len() as int) =~= second);
        reveal_strlit("");
        reveal_strlit("Failed to load model: ");
        reveal_strlit("Training error: ");
        reveal_strlit("Evaluation error: ");
        reveal_strlit("Data normalization error: ");
        reveal_strlit("Tensor creation error: ");
        reveal_strlit("GRU training error: ");
        reveal_strlit("Model saving error: ");
        reveal_strlit("Test data normalization error: ");
        reveal_strlit("Test tensor creation error: ");
        reveal_strlit("GRU evaluation error: ");
        assert(first.len() == second.len() && first[0] == second[0] && first[1] == second[1]);
    }
}

/// Training and evaluation see the same of a sequence: the tensors for both are
/// made in the same way, for a whole trading day.
pub proof fn tensors_are_made_alike(sequence_length: usize)
    ensures
        gru_tensors(sequence_length).sequence_length == sequence_length,
        gru_tensors(sequence_length).horizon == 390,
        !gru_tensors(sequence_length).switch,
        gru_tensors(sequence_length).option is None,
{
}

/// A stage is given the part of the data that it works on: what it is given does
/// not change with the other part, and no stage is given both.
pub proof fn stages_are_given_their_part<D>(stage: TrainingStage, train: D, test: D, another: D)
    ensures
        part_of(stage) == Some(Part::Train) ==> input_of(stage, train, test) == Some(train),
        part_of(stage) == Some(Part::Test) ==> input_of(stage, train, test) == Some(test),
        part_of(stage) is None <==> input_of(stage, train, test) is None,
        part_of(stage) == Some(Part::Train) ==> input_of(stage, train, test) == input_of(
            stage,
            train,
            another,
        ),
        part_of(stage) == Some(Part::Test) ==> input_of(stage, train, test) == input_of(
            stage,
            another,
            test,
        ),
{
}

} // verus!
