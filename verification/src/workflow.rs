//! Work in stages: each stage is carried out by the program around the library,
//! which reports the outcome and is told what comes next.

use vstd::prelude::*;

verus! {

/// How a stage came out.
#[derive(Debug)]
pub enum Outcome {
    /// It was carried out; where it looked for something, that was found.
    Done,
    /// What it looked for is not there.
    Absent,
    /// It failed, for the reason given.
    Failed(String),
}

/// What comes next.
#[derive(Debug)]
pub enum Step<S> {
    /// The stage to carry out.
    Perform(S),
    /// The work is done.
    Finished,
    /// The work ends with this error.
    Failed(String),
    /// The program panics with this message.
    Panic(String),
}

/// The value of an [`Outcome`].
pub enum OutcomeView {
    Done,
    Absent,
    Failed(Seq<char>),
}

/// The value of a [`Step`].
pub enum StepView<S> {
    Perform(S),
    Finished,
    Failed(Seq<char>),
    Panic(Seq<char>),
}

impl View for Outcome {
    type V = OutcomeView;

    open spec fn view(&self) -> OutcomeView {
        match *self {
            Outcome::Done => OutcomeView::Done,
            Outcome::Absent => OutcomeView::Absent,
            Outcome::Failed(reason) => OutcomeView::Failed(reason@),
        }
    }
}

impl<S> View for Step<S> {
    type V = StepView<S>;

    open spec fn view(&self) -> StepView<S> {
        match *self {
            Step::Perform(stage) => StepView::Perform(stage),
            Step::Finished => StepView::Finished,
            Step::Failed(message) => StepView::Failed(message@),
            Step::Panic(message) => StepView::Panic(message@),
        }
    }
}

/// A rule of what comes next: from a stage and its outcome to a step.
pub type Rule<S> = spec_fn(S, OutcomeView) -> StepView<S>;

/// The stages that are carried out, beginning with `stage`, when their outcomes
/// are `outcomes`; of a run that goes on after the last outcome, including the
/// stage whose outcome is not known yet.
pub open spec fn performed<S>(rule: Rule<S>, stage: S, outcomes: Seq<OutcomeView>) -> Seq<S>
    decreases outcomes.len(),
{
    if outcomes.len() == 0 {
        seq![stage]
    } else {
        match rule(stage, outcomes[0]) {
            StepView::Perform(next) => seq![stage] + performed(rule, next, outcomes.drop_first()),
            _ => seq![stage],
        }
    }
}

/// How a run that begins with `stage` ends when the stages' outcomes are
/// `outcomes`; `None` if it goes on after them.
pub open spec fn ending<S>(rule: Rule<S>, stage: S, outcomes: Seq<OutcomeView>) -> Option<StepView<S>>
    decreases outcomes.len(),
{
    if outcomes.len() == 0 {
        None
    } else {
        match rule(stage, outcomes[0]) {
            StepView::Perform(next) => ending(rule, next, outcomes.drop_first()),
            end => Some(end),
        }
    }
}

/// The stages that are carried out from a first step on.
pub open spec fn performed_from<S>(
    rule: Rule<S>,
    first: StepView<S>,
    outcomes: Seq<OutcomeView>,
) -> Seq<S> {
    match first {
        StepView::Perform(stage) => performed(rule, stage, outcomes),
        _ => seq![],
    }
}

/// How a run ends that begins with a first step; `None` if it goes on.
pub open spec fn ending_from<S>(
    rule: Rule<S>,
    first: StepView<S>,
    outcomes: Seq<OutcomeView>,
) -> Option<StepView<S>> {
    match first {
        StepView::Perform(stage) => ending(rule, stage, outcomes),
        end => Some(end),
    }
}

/// Under `rule` the outcomes lead through the stages of `plan` one after the other.
pub open spec fn leads_through<S>(rule: Rule<S>, plan: Seq<S>, outcomes: Seq<OutcomeView>) -> bool {
    &&& plan.len() == outcomes.len()
    &&& plan.len() > 0
    &&& forall|i: int|
        0 <= i < plan.len() - 1 ==> rule(#[trigger] plan[i], outcomes[i]) == StepView::Perform(
            plan[i + 1],
        )
}

/// A run whose outcomes lead through a plan carries out exactly the plan, and
/// ends as the last outcome makes it end.
pub proof fn run_follows_plan<S>(rule: Rule<S>, plan: Seq<S>, outcomes: Seq<OutcomeView>)
    requires
        leads_through(rule, plan, outcomes),
        rule(plan.last(), outcomes.last()) !is Perform,
    ensures
        performed(rule, plan[0], outcomes) == plan,
        ending(rule, plan[0], outcomes) == Some(rule(plan.last(), outcomes.last())),
    decreases plan.len(),
{
    let rest = plan.drop_first();
    let reports = outcomes.drop_first();
    if plan.len() > 1 {
        assert(rule(plan[0], outcomes[0]) == StepView::Perform(plan[1]));
        assert forall|i: int| 0 <= i < rest.len() - 1 implies rule(#[trigger] rest[i], reports[i])
            == StepView::Perform(rest[i + 1]) by {
            assert(rest[i] == plan[i + 1]);
        }
        run_follows_plan(rule, rest, reports);
        assert(seq![plan[0]] + rest =~= plan);
    } else {
        assert(seq![plan[0]] =~= plan);
    }
}

/// If after a stage of a plan, whatever its outcome, no other stage comes than the
/// next one of the plan, a run that begins within the plan follows it.
pub proof fn run_stays_within_plan<S>(
    rule: Rule<S>,
    plan: Seq<S>,
    start: int,
    outcomes: Seq<OutcomeView>,
)
    requires
        0 <= start < plan.len(),
        forall|i: int, outcome: OutcomeView|
            start <= i < plan.len() && (#[trigger] rule(plan[i], outcome)) is Perform ==> i + 1
                < plan.len() && rule(plan[i], outcome) == StepView::Perform(plan[i + 1]),
    ensures
        performed(rule, plan[start], outcomes).is_prefix_of(plan.skip(start)),
    decreases outcomes.len(),
{
    if outcomes.len() > 0 && rule(plan[start], outcomes[0]) is Perform {
        run_stays_within_plan(rule, plan, start + 1, outcomes.drop_first());
        assert(plan.skip(start) =~= seq![plan[start]] + plan.skip(start + 1));
    }
}

/// The same stages with the same outcomes end the same way, whatever else would
/// have been reported afterwards: nothing is carried out after the end.
pub proof fn nothing_follows_the_end<S>(
    rule: Rule<S>,
    stage: S,
    outcomes: Seq<OutcomeView>,
    more: Seq<OutcomeView>,
)
    requires
        ending(rule, stage, outcomes) is Some,
    ensures
        ending(rule, stage, outcomes + more) == ending(rule, stage, outcomes),
        performed(rule, stage, outcomes + more) == performed(rule, stage, outcomes),
    decreases outcomes.len(),
{
    assert((outcomes + more)[0] == outcomes[0]);
    match rule(stage, outcomes[0]) {
        StepView::Perform(next) => {
            nothing_follows_the_end(rule, next, outcomes.drop_first(), more);
            assert((outcomes + more).drop_first() =~= outcomes.drop_first() + more);
        },
        _ => {},
    }
}

/// `count` stages in a row that are carried out.
pub open spec fn all_done(count: nat) -> Seq<OutcomeView> {
    Seq::new(count, |i: int| OutcomeView::Done)
}

/// The value of an outcome tells the kind of outcome, and why a stage failed.
pub proof fn outcome_has_its_value(outcome: Outcome)
    ensures
        outcome is Done <==> outcome@ == OutcomeView::Done,
        outcome is Absent <==> outcome@ == OutcomeView::Absent,
        outcome matches Outcome::Failed(reason) ==> outcome@ == OutcomeView::Failed(reason@),
{
}

/// The value of a step tells the kind of step, and the stage or the message in it.
pub proof fn step_has_its_value<S>(step: Step<S>)
    ensures
        step matches Step::Perform(stage) ==> step@ == StepView::Perform(stage),
        step is Finished <==> step@ == StepView::<S>::Finished,
        step matches Step::Failed(message) ==> step@ == StepView::<S>::Failed(message@),
        step matches Step::Panic(message) ==> step@ == StepView::<S>::Panic(message@),
{
}

/// A run begins with its first stage, carries out what the rule says after each
/// outcome, and ends where the rule names no further stage.
pub proof fn run_goes_step_by_step<S>(
    rule: Rule<S>,
    stage: S,
    outcome: OutcomeView,
    more: Seq<OutcomeView>,
)
    ensures
        performed(rule, stage, Seq::<OutcomeView>::empty()) == seq![stage],
        ending(rule, stage, Seq::<OutcomeView>::empty()) is None,
        match rule(stage, outcome) {
            StepView::Perform(next) => {
                &&& performed(rule, stage, seq![outcome] + more) == seq![stage] + performed(
                    rule,
                    next,
                    more,
                )
                &&& ending(rule, stage, seq![outcome] + more) == ending(rule, next, more)
            },
            end => {
                &&& performed(rule, stage, seq![outcome] + more) == seq![stage]
                &&& ending(rule, stage, seq![outcome] + more) == Some(end)
            },
        },
{
    assert((seq![outcome] + more).drop_first() =~= more);
}

} // verus!
