//! A whole session: load the market data, provide a model, forecast with it.

use vstd::prelude::*;

use crate::text::joined;
use crate::workflow::{Outcome, Step};

verus! {

/// The parts of a session.
#[derive(Clone, Copy, Debug, PartialEq, Eq, Structural)]
pub enum SessionStage {
    LoadData,
    Train,
    Predict,
}

/// What comes next in a session, and what the user is told before.
#[derive(Debug)]
pub struct SessionStep {
    pub notice: Option<String>,
    pub next: Step<SessionStage>,
}

/// What the user is told of the outcome of `stage`.
pub open spec fn session_notice(stage: SessionStage, outcome: crate::workflow::OutcomeView) -> Option<
    Seq<char>,
> {
    match (stage, outcome) {
        (SessionStage::Train, crate::workflow::OutcomeView::Failed(reason)) => Some(
            "Error during training and evaluation: "@ + reason,
        ),
        (SessionStage::Predict, crate::workflow::OutcomeView::Failed(reason)) => Some(
            "Error during prediction generation: "@ + reason,
        ),
        _ => None,
    }
}

/// What comes after `stage`. Without data the session ends with the error; a
/// failure of training or of the forecast does not end it.
pub open spec fn session_rule(
    stage: SessionStage,
    outcome: crate::workflow::OutcomeView,
) -> crate::workflow::StepView<SessionStage> {
    match (stage, outcome) {
        (SessionStage::LoadData, crate::workflow::OutcomeView::Failed(reason)) => {
            crate::workflow::StepView::Failed(reason)
        },
        (SessionStage::LoadData, _) => crate::workflow::StepView::Perform(SessionStage::Train),
        (SessionStage::Train, _) => crate::workflow::StepView::Perform(SessionStage::Predict),
        (SessionStage::Predict, _) => crate::workflow::StepView::Finished,
    }
}

/// What comes after `stage`, and what the user is told before.
pub fn after_session_stage(stage: SessionStage, outcome: Outcome) -> (step: SessionStep)
    requires
        outcome !is Absent,
    ensures
        step.next@ == session_rule(stage, outcome@),
        match step.notice {
            Some(text) => session_notice(stage, outcome@) == Some(text@),
            None => session_notice(stage, outcome@) is None,
        },
        stage == SessionStage::LoadData && outcome !is Failed ==> step.next == Step::Perform(
            SessionStage::Train,
        ),
        stage == SessionStage::Train ==> step.next == Step::Perform(SessionStage::Predict),
        stage == SessionStage::Predict ==> step.next is Finished,
        step.notice is Some <==> outcome is Failed && stage != SessionStage::LoadData,
        outcome matches Outcome::Failed(reason) ==> match stage {
            SessionStage::LoadData => step.next matches Step::Failed(message) && message@
                == reason@,
            SessionStage::Train => step.notice->0@ == "Error during training and evaluation: "@
                + reason@,
            SessionStage::Predict => step.notice->0@ == "Error during prediction generation: "@
                + reason@,
        },
{
    match (stage, outcome) {
        (SessionStage::LoadData, Outcome::Failed(reason)) => SessionStep {
            notice: None,
            next: Step::Failed(reason),
        },
        (SessionStage::LoadData, _) => SessionStep {
            notice: None,
            next: Step::Perform(SessionStage::Train),
        },
        (SessionStage::Train, Outcome::Failed(reason)) => SessionStep {
            notice: Some(joined("Error during training and evaluation: ", reason.as_str())),
            next: Step::Perform(SessionStage::Predict),
        },
        (SessionStage::Train, _) => SessionStep {
            notice: None,
            next: Step::Perform(SessionStage::Predict),
        },
        (SessionStage::Predict, Outcome::Failed(reason)) => SessionStep {
            notice: Some(joined("Error during prediction generation: ", reason.as_str())),
            next: Step::Finished,
        },
        (SessionStage::Predict, _) => SessionStep { notice: None, next: Step::Finished },
    }
}

/// Once the data is loaded, training and forecast are both attempted, however
/// they come out, and the session ends without an error.
pub proof fn session_goes_on_after_failures(
    training: crate::workflow::OutcomeView,
    forecast: crate::workflow::OutcomeView,
)
    ensures
        ({
            let rule = |stage: SessionStage, outcome: crate::workflow::OutcomeView|
                session_rule(stage, outcome);
            let outcomes = seq![crate::workflow::OutcomeView::Done, training, forecast];
            &&& crate::workflow::performed(rule, SessionStage::LoadData, outcomes) == seq![
                SessionStage::LoadData,
                SessionStage::Train,
                SessionStage::Predict,
            ]
            &&& crate::workflow::ending(rule, SessionStage::LoadData, outcomes) == Some(
                crate::workflow::StepView::<SessionStage>::Finished,
            )
        }),
{
    let rule = |stage: SessionStage, outcome: crate::workflow::OutcomeView|
        session_rule(stage, outcome);
    crate::workflow::run_follows_plan(
        rule,
        seq![SessionStage::LoadData, SessionStage::Train, SessionStage::Predict],
        seq![crate::workflow::OutcomeView::Done, training, forecast],
    );
}

/// Without data nothing is trained or forecast, and the session ends with the
/// error that kept the data from being loaded.
pub proof fn session_needs_data(reason: Seq<char>)
    ensures
        ({
            let rule = |stage: SessionStage, outcome: crate::workflow::OutcomeView|
                session_rule(stage, outcome);
            let outcomes = seq![crate::workflow::OutcomeView::Failed(reason)];
            &&& crate::workflow::performed(rule, SessionStage::LoadData, outcomes) == seq![
                SessionStage::LoadData,
            ]
            &&& crate::workflow::ending(rule, SessionStage::LoadData, outcomes) == Some(
                crate::workflow::StepView::<SessionStage>::Failed(reason),
            )
        }),
{
    let rule = |stage: SessionStage, outcome: crate::workflow::OutcomeView|
        session_rule(stage, outcome);
    crate::workflow::run_follows_plan(
        rule,
        seq![SessionStage::LoadData],
        seq![crate::workflow::OutcomeView::Failed(reason)],
    );
}

/// The user is told of every failure of training and of the forecast, with its
/// reason, and of which of the two it was; of nothing else.
pub proof fn failures_are_told(
    stage: SessionStage,
    outcome: crate::workflow::OutcomeView,
    reason: Seq<char>,
)
    ensures
        session_notice(stage, outcome) is Some <==> outcome is Failed && stage
            != SessionStage::LoadData,
        session_notice(SessionStage::Train, crate::workflow::OutcomeView::Failed(reason)) == Some(
            "Error during training and evaluation: "@ + reason,
        ),
        session_notice(SessionStage::Predict, crate::workflow::OutcomeView::Failed(reason)) == Some(
            "Error during prediction generation: "@ + reason,
        ),
{
}

} // verus!
