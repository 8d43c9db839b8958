//! Loading the market data that a model is trained on.

use vstd::prelude::*;

use crate::request::requested_model_name;
use crate::text::{joined, same_text};
use crate::workflow::{Outcome, Step};

verus! {

/// The market data to load.
#[derive(Debug)]
pub struct DataRequest {
    /// The file that holds it, in the working directory.
    pub file_name: String,
    /// The number of most recent days to keep; all if there is none.
    pub training_days: Option<i64>,
}

/// The name of the file with a symbol's minute bars.
pub open spec fn data_file_name(symbol: Seq<char>) -> Seq<char> {
    symbol + "-ticker_minute_bars.csv"@
}

/// The market data of `symbol` that the kind of model called `model_name` is
/// trained on: an LSTM takes `lstm_training_days` days, any other model all of it.
pub fn data_request(symbol: &str, model_name: &str, lstm_training_days: i64) -> (request: DataRequest)
    ensures
        request.file_name@ == data_file_name(symbol@),
        request.file_name@ == symbol@ + "-ticker_minute_bars.csv"@,
        request.training_days == if model_name@ == "lstm"@ {
            Some(lstm_training_days)
        } else {
            None
        },
{
    DataRequest {
        file_name: joined(symbol, "-ticker_minute_bars.csv"),
        training_days: if same_text(model_name, "lstm") {
            Some(lstm_training_days)
        } else {
            None
        },
    }
}

/// The market data of `symbol` for the model that the command line asks for.
pub fn stock_data_request(symbol: &str, args: &Vec<String>, lstm_training_days: i64) -> (request:
    DataRequest)
    ensures
        request.file_name@ == data_file_name(symbol@),
        request.file_name@ == symbol@ + "-ticker_minute_bars.csv"@,
        args@.len() <= 2 ==> request.training_days == Some(lstm_training_days),
        args@.len() > 2 ==> request.training_days == if crate::request::lowercase(args@[2]@)
            == "lstm"@ {
            Some(lstm_training_days)
        } else {
            None
        },
        request.training_days == if crate::request::model_name_of(crate::text::texts(args@)) == "lstm"@ {
            Some(lstm_training_days)
        } else {
            None
        },
        args@.len() > 2 && crate::request::is_ascii(args@[2]@) ==> crate::request::model_name_of(
            crate::text::texts(args@),
        ) == args@[2]@.map_values(|c: char| crate::request::ascii_lower(c)),
{
    data_request(symbol, requested_model_name(args).as_str(), lstm_training_days)
}

/// The stages of loading market data.
#[derive(Clone, Copy, Debug, PartialEq, Eq, Structural)]
pub enum LoadingStage {
    /// Read the file and clean the data.
    LoadBars,
    /// Add the technical indicators as columns.
    AddIndicators,
}

/// What comes after `stage`. Data that cannot be read is reported as a
/// preprocessing error; an error of the indicators is passed on as it is.
pub open spec fn loading_rule(
    stage: LoadingStage,
    outcome: crate::workflow::OutcomeView,
) -> crate::workflow::StepView<LoadingStage> {
    match (stage, outcome) {
        (LoadingStage::LoadBars, crate::workflow::OutcomeView::Failed(reason)) => {
            crate::workflow::StepView::Failed("Preprocessing error: "@ + reason)
        },
        (LoadingStage::LoadBars, _) => crate::workflow::StepView::Perform(
            LoadingStage::AddIndicators,
        ),
        (LoadingStage::AddIndicators, crate::workflow::OutcomeView::Failed(reason)) => {
            crate::workflow::StepView::Failed(reason)
        },
        (LoadingStage::AddIndicators, _) => crate::workflow::StepView::Finished,
    }
}

/// What comes after `stage`.
pub fn after_loading_stage(stage: LoadingStage, outcome: Outcome) -> (step: Step<LoadingStage>)
    requires
        outcome !is Absent,
    ensures
        step@ == loading_rule(stage, outcome@),
        outcome !is Failed && stage == LoadingStage::LoadBars ==> step == Step::Perform(
            LoadingStage::AddIndicators,
        ),
        outcome !is Failed && stage == LoadingStage::AddIndicators ==> step is Finished,
        outcome matches Outcome::Failed(reason) ==> (step matches Step::Failed(message)
            && message@ == if stage == LoadingStage::LoadBars {
            "Preprocessing error: "@ + reason@
        } else {
            reason@
        }),
{
    match (stage, outcome) {
        (LoadingStage::LoadBars, Outcome::Failed(reason)) => Step::Failed(
            joined("Preprocessing error: ", reason.as_str()),
        ),
        (LoadingStage::LoadBars, _) => Step::Perform(LoadingStage::AddIndicators),
        (LoadingStage::AddIndicators, Outcome::Failed(reason)) => Step::Failed(reason),
        (LoadingStage::AddIndicators, _) => Step::Finished,
    }
}

/// Indicators are added only to data that was loaded, and the loading ends with
/// the first failure.
pub proof fn first_failure_ends_loading(reason: Seq<char>)
    ensures
        ({
            let rule = |stage: LoadingStage, outcome: crate::workflow::OutcomeView|
                loading_rule(stage, outcome);
            let unread = seq![crate::workflow::OutcomeView::Failed(reason)];
            let unindicated = seq![
                crate::workflow::OutcomeView::Done,
                crate::workflow::OutcomeView::Failed(reason),
            ];
            let loaded = crate::workflow::all_done(2);
            let plan = seq![LoadingStage::LoadBars, LoadingStage::AddIndicators];
            &&& crate::workflow::performed(rule, LoadingStage::LoadBars, unread) == seq![
                LoadingStage::LoadBars,
            ]
            &&& crate::workflow::ending(rule, LoadingStage::LoadBars, unread) == Some(
                crate::workflow::StepView::<LoadingStage>::Failed(
                    "Preprocessing error: "@ + reason,
                ),
            )
            &&& crate::workflow::performed(rule, LoadingStage::LoadBars, unindicated) == plan
            &&& crate::workflow::ending(rule, LoadingStage::LoadBars, unindicated) == Some(
                crate::workflow::StepView::<LoadingStage>::Failed(reason),
            )
            &&& crate::workflow::performed(rule, LoadingStage::LoadBars, loaded) == plan
            &&& crate::workflow::ending(rule, LoadingStage::LoadBars, loaded) == Some(
                crate::workflow::StepView::<LoadingStage>::Finished,
            )
        }),
{
    let rule = |stage: LoadingStage, outcome: crate::workflow::OutcomeView|
        loading_rule(stage, outcome);
    let plan = seq![LoadingStage::LoadBars, LoadingStage::AddIndicators];
    crate::workflow::run_follows_plan(
        rule,
        seq![LoadingStage::LoadBars],
        seq![crate::workflow::OutcomeView::Failed(reason)],
    );
    crate::workflow::run_follows_plan(
        rule,
        plan,
        seq![crate::workflow::OutcomeView::Done, crate::workflow::OutcomeView::Failed(reason)],
    );
    crate::workflow::run_follows_plan(rule, plan, crate::workflow::all_done(2));
}

/// Each symbol has a file of its own, and its name ends in the same way.
pub proof fn symbols_have_files_of_their_own(one: Seq<char>, other: Seq<char>)
    ensures
        data_file_name(one) == one + "-ticker_minute_bars.csv"@,
        data_file_name(one) == data_file_name(other) <==> one == other,
{
    let suffix = "-ticker_minute_bars.csv"@;
    if one + suffix == other + suffix {
        assert((one + suffix).len() == (other + suffix).len());
        assert((one + suffix).take(one.len() as int) =~= one);
        assert((other + suffix).take(other.len() as int) =~= other);
    }
}

} // verus!
