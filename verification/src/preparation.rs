//! Preparing market data for training: which steps are taken, in which order and
//! with which parameters.

use vstd::prelude::*;

use crate::workflow::{Outcome, Step};

verus! {

/// What the preparation is to include.
#[derive(Clone, Copy, Debug, PartialEq, Eq, Structural)]
pub struct PreparationOptions {
    pub use_enhanced_features: bool,
    pub use_feature_selection: bool,
    pub handle_outliers: bool,
    pub use_data_augmentation: bool,
    pub use_time_based_cv: bool,
}

/// The steps of the preparation.
#[derive(Clone, Copy, Debug, PartialEq, Eq, Structural)]
pub enum PreparationStage {
    /// Select the features most strongly correlated with the closing price.
    SelectFeatures,
    /// Fill in missing values of the indicators.
    ImputeMissing,
    /// Treat outliers among the prices.
    HandleOutliers,
    /// Add varied copies of the data.
    Augment,
    /// Normalize the prices.
    Normalize,
    /// Split by time for cross-validation.
    SplitForCrossValidation,
    /// Split once, the earlier rows for training.
    SplitOnce,
}

/// The column whose values are predicted.
pub const SELECTION_TARGET: &'static str = "close";

/// The number of features that are selected.
pub const SELECTED_FEATURES: usize = 15;

/// How missing values are filled in.
pub const IMPUTATION: &'static str = "forward_fill";

/// How outliers are told.
pub const OUTLIER_TEST: &'static str = "iqr";

/// How far beyond the quartiles a value has to lie to be an outlier, in tenths of
/// their distance.
pub const OUTLIER_DISTANCE_TENTHS: u32 = 15;

/// What is done to outliers.
pub const OUTLIER_TREATMENT: &'static str = "clip";

/// The number of varied copies.
pub const AUGMENTATION_ROUNDS: usize = 1;

/// The columns that hold prices.
pub fn price_columns() -> (columns: Vec<String>)
    ensures
        crate::text::texts(columns@) == seq!["close"@, "open"@, "high"@, "low"@],
{
    let columns = vec!["close".to_owned(), "open".to_owned(), "high".to_owned(), "low".to_owned()];
    assert(crate::text::texts(columns@) =~= seq!["close"@, "open"@, "high"@, "low"@]);
    columns
}

/// The ways in which the copies are varied.
pub fn augmentations() -> (methods: Vec<String>)
    ensures
        crate::text::texts(methods@) == seq!["jitter"@, "scaling"@],
{
    let methods = vec!["jitter".to_owned(), "scaling".to_owned()];
    assert(crate::text::texts(methods@) =~= seq!["jitter"@, "scaling"@]);
    methods
}

/// `stage` if it is wanted.
pub open spec fn optional(wanted: bool, stage: PreparationStage) -> Seq<PreparationStage> {
    if wanted {
        seq![stage]
    } else {
        seq![]
    }
}

/// All steps of the preparation, in their order.
pub open spec fn preparation_plan(options: PreparationOptions) -> Seq<PreparationStage> {
    optional(options.use_feature_selection, PreparationStage::SelectFeatures) + seq![
        PreparationStage::ImputeMissing,
    ] + optional(options.handle_outliers, PreparationStage::HandleOutliers) + optional(
        options.use_data_augmentation,
        PreparationStage::Augment,
    ) + seq![PreparationStage::Normalize] + seq![
        if options.use_time_based_cv {
            PreparationStage::SplitForCrossValidation
        } else {
            PreparationStage::SplitOnce
        },
    ]
}

/// The step after `stage`, if there is one: the first of the later steps that is wanted.
pub open spec fn next_preparation_stage(
    options: PreparationOptions,
    stage: PreparationStage,
) -> Option<PreparationStage> {
    match stage {
        PreparationStage::SelectFeatures => Some(PreparationStage::ImputeMissing),
        PreparationStage::ImputeMissing => if options.handle_outliers {
            Some(PreparationStage::HandleOutliers)
        } else if options.use_data_augmentation {
            Some(PreparationStage::Augment)
        } else {
            Some(PreparationStage::Normalize)
        },
        PreparationStage::HandleOutliers => if options.use_data_augmentation {
            Some(PreparationStage::Augment)
        } else {
            Some(PreparationStage::Normalize)
        },
        PreparationStage::Augment => Some(PreparationStage::Normalize),
        PreparationStage::Normalize => if options.use_time_based_cv {
            Some(PreparationStage::SplitForCrossValidation)
        } else {
            Some(PreparationStage::SplitOnce)
        },
        PreparationStage::SplitForCrossValidation | PreparationStage::SplitOnce => None,
    }
}

/// What comes after `stage`. A failure ends the preparation, with its own error.
pub open spec fn preparation_rule(
    options: PreparationOptions,
    stage: PreparationStage,
    outcome: crate::workflow::OutcomeView,
) -> crate::workflow::StepView<PreparationStage> {
    match outcome {
        crate::workflow::OutcomeView::Failed(reason) => crate::workflow::StepView::Failed(reason),
        _ => match next_preparation_stage(options, stage) {
            Some(next) => crate::workflow::StepView::Perform(next),
            None => crate::workflow::StepView::Finished,
        },
    }
}

/// The step that the preparation begins with.
pub fn first_preparation_stage(options: PreparationOptions) -> (stage: PreparationStage)
    ensures
        stage == preparation_plan(options)[0],
        stage == if options.use_feature_selection {
            PreparationStage::SelectFeatures
        } else {
            PreparationStage::ImputeMissing
        },
{
    if options.use_feature_selection {
        PreparationStage::SelectFeatures
    } else {
        PreparationStage::ImputeMissing
    }
}

/// What comes after `stage`.
pub fn after_preparation_stage(
    options: PreparationOptions,
    stage: PreparationStage,
    outcome: Outcome,
) -> (step: Step<PreparationStage>)
    requires
        outcome !is Absent,
    ensures
        step@ == preparation_rule(options, stage, outcome@),
        step is Failed <==> outcome is Failed,
        outcome matches Outcome::Failed(reason) ==> step->Failed_0@ == reason@,
        outcome !is Failed ==> match stage {
            PreparationStage::SelectFeatures => step == Step::Perform(
                PreparationStage::ImputeMissing,
            ),
            PreparationStage::ImputeMissing => step == if options.handle_outliers {
                Step::Perform(PreparationStage::HandleOutliers)
            } else if options.use_data_augmentation {
                Step::Perform(PreparationStage::Augment)
            } else {
                Step::Perform(PreparationStage::Normalize)
            },
            PreparationStage::HandleOutliers => step == if options.use_data_augmentation {
                Step::Perform(PreparationStage::Augment)
            } else {
                Step::Perform(PreparationStage::Normalize)
            },
            PreparationStage::Augment => step == Step::Perform(PreparationStage::Normalize),
            PreparationStage::Normalize => step == if options.use_time_based_cv {
                Step::Perform(PreparationStage::SplitForCrossValidation)
            } else {
                Step::Perform(PreparationStage::SplitOnce)
            },
            PreparationStage::SplitForCrossValidation
            | PreparationStage::SplitOnce => step is Finished,
        },
{
    if let Outcome::Failed(reason) = outcome {
        return Step::Failed(reason);
    }
    match stage {
        PreparationStage::SelectFeatures => Step::Perform(PreparationStage::ImputeMissing),
        PreparationStage::ImputeMissing => if options.handle_outliers {
            Step::Perform(PreparationStage::HandleOutliers)
        } else if options.use_data_augmentation {
            Step::Perform(PreparationStage::Augment)
        } else {
            Step::Perform(PreparationStage::Normalize)
        },
        PreparationStage::HandleOutliers => if options.use_data_augmentation {
            Step::Perform(PreparationStage::Augment)
        } else {
            Step::Perform(PreparationStage::Normalize)
        },
        PreparationStage::Augment => Step::Perform(PreparationStage::Normalize),
        PreparationStage::Normalize => if options.use_time_based_cv {
            Step::Perform(PreparationStage::SplitForCrossValidation)
        } else {
            Step::Perform(PreparationStage::SplitOnce)
        },
        PreparationStage::SplitForCrossValidation => Step::Finished,
        PreparationStage::SplitOnce => Step::Finished,
    }
}

/// The indicators that missing values are filled in for: the extended set if
/// enhanced features are used, else the technical set.
pub fn indicator_columns<'a>(
    options: PreparationOptions,
    technical: &'a Vec<String>,
    extended: &'a Vec<String>,
) -> (columns: &'a Vec<String>)
    ensures
        *columns == if options.use_enhanced_features {
            *extended
        } else {
            *technical
        },
{
    if options.use_enhanced_features {
        extended
    } else {
        technical
    }
}

/// What normalization is told.
#[derive(Debug)]
pub struct NormalizationRequest {
    /// The columns that are normalized.
    pub columns: Vec<String>,
    /// Whether the extended indicators are included.
    pub extended: bool,
    /// Whether outliers are treated.
    pub outliers: bool,
}

/// The request to normalize the prices, with the extended indicators and the
/// treatment of outliers as the preparation has them.
pub fn normalization_request(options: PreparationOptions) -> (request: NormalizationRequest)
    ensures
        crate::text::texts(request.columns@) == seq!["close"@, "open"@, "high"@, "low"@],
        request.extended == options.use_enhanced_features,
        request.outliers == options.handle_outliers,
{
    NormalizationRequest {
        columns: price_columns(),
        extended: options.use_enhanced_features,
        outliers: options.handle_outliers,
    }
}

/// What the treatment of outliers is told.
#[derive(Debug)]
pub struct OutlierRequest {
    /// The columns that are treated.
    pub columns: Vec<String>,
    /// How outliers are told.
    pub test: &'static str,
    /// How far beyond the quartiles they lie, in tenths of the quartiles' distance.
    pub distance_tenths: u32,
    /// What is done to them.
    pub treatment: &'static str,
}

/// The request to treat outliers among the prices.
pub fn outlier_request() -> (request: OutlierRequest)
    ensures
        crate::text::texts(request.columns@) == seq!["close"@, "open"@, "high"@, "low"@],
        request.test@ == "iqr"@,
        request.distance_tenths == 15,
        request.treatment@ == "clip"@,
{
    OutlierRequest {
        columns: price_columns(),
        test: OUTLIER_TEST,
        distance_tenths: OUTLIER_DISTANCE_TENTHS,
        treatment: OUTLIER_TREATMENT,
    }
}

/// What the filling in of missing values is told.
#[derive(Debug)]
pub struct ImputationRequest<'a> {
    /// The columns that are filled in.
    pub columns: &'a Vec<String>,
    /// How they are filled in.
    pub method: &'static str,
    /// The optional argument.
    pub option: Option<usize>,
}

/// The request to fill in missing values of the indicators: what is missing takes
/// the value before it, and the optional argument is left out.
pub fn imputation_request<'a>(
    options: PreparationOptions,
    technical: &'a Vec<String>,
    extended: &'a Vec<String>,
) -> (request: ImputationRequest<'a>)
    ensures
        request.columns == if options.use_enhanced_features {
            extended
        } else {
            technical
        },
        request.method@ == "forward_fill"@,
        request.option == None::<usize>,
{
    ImputationRequest {
        columns: indicator_columns(options, technical, extended),
        method: IMPUTATION,
        option: None,
    }
}

/// What the split for cross-validation is told.
#[derive(Clone, Copy, Debug, PartialEq, Eq, Structural)]
pub struct CrossValidationRequest {
    /// The bits of the ratio of the data that is held back, a double.
    pub ratio_bits: u64,
    /// Whether the data is split by time.
    pub by_time: bool,
}

/// The request to split for cross-validation: by time, and with the program's ratio.
pub fn cross_validation_request(validation_ratio_bits: u64) -> (request: CrossValidationRequest)
    ensures
        request.ratio_bits == validation_ratio_bits,
        request.by_time,
{
    CrossValidationRequest { ratio_bits: validation_ratio_bits, by_time: true }
}

/// If a step fails after `count` steps that did well, no further step is carried
/// out, and the preparation ends with that step's own error.
pub proof fn first_failure_ends_preparation(
    options: PreparationOptions,
    count: int,
    reason: Seq<char>,
)
    requires
        0 <= count < preparation_plan(options).len(),
    ensures
        ({
            let rule = |stage: PreparationStage, outcome: crate::workflow::OutcomeView|
                preparation_rule(options, stage, outcome);
            let plan = preparation_plan(options);
            let outcomes = crate::workflow::all_done(count as nat).push(
                crate::workflow::OutcomeView::Failed(reason),
            );
            &&& crate::workflow::performed(rule, plan[0], outcomes) == plan.take(count + 1)
            &&& crate::workflow::ending(rule, plan[0], outcomes) == Some(
                crate::workflow::StepView::<PreparationStage>::Failed(reason),
            )
        }),
{
    prepared(options, count, crate::workflow::OutcomeView::Failed(reason));
}

/// If every step does well, the preparation carries out all its steps in their
/// order, each once, and ends without an error.
pub proof fn preparation_is_completed(options: PreparationOptions)
    ensures
        ({
            let rule = |stage: PreparationStage, outcome: crate::workflow::OutcomeView|
                preparation_rule(options, stage, outcome);
            let plan = preparation_plan(options);
            let outcomes = crate::workflow::all_done(plan.len());
            &&& crate::workflow::performed(rule, plan[0], outcomes) == plan
            &&& crate::workflow::ending(rule, plan[0], outcomes) == Some(
                crate::workflow::StepView::<PreparationStage>::Finished,
            )
        }),
{
    let plan = preparation_plan(options);
    let count = plan.len() - 1;
    prepared(options, count, crate::workflow::OutcomeView::Done);
    assert(plan.take(count + 1) =~= plan);
    assert(crate::workflow::all_done(count as nat).push(crate::workflow::OutcomeView::Done)
        =~= crate::workflow::all_done(plan.len()));
}

/// However the steps come out, those that are carried out are the first ones of
/// the plan: none is skipped, repeated or taken out of turn.
pub proof fn every_preparation_follows_the_plan(
    options: PreparationOptions,
    outcomes: Seq<crate::workflow::OutcomeView>,
)
    ensures
        crate::workflow::performed(
            |stage, outcome| preparation_rule(options, stage, outcome),
            preparation_plan(options)[0],
            outcomes,
        ).is_prefix_of(preparation_plan(options)),
{
    let rule = |stage: PreparationStage, outcome: crate::workflow::OutcomeView|
        preparation_rule(options, stage, outcome);
    let plan = preparation_plan(options);
    crate::workflow::run_stays_within_plan(rule, plan, 0, outcomes);
    assert(plan.skip(0) =~= plan);
}

proof fn prepared(options: PreparationOptions, count: int, last: crate::workflow::OutcomeView)
    requires
        0 <= count < preparation_plan(options).len(),
        preparation_rule(options, preparation_plan(options)[count], last) !is Perform,
    ensures
        ({
            let rule = |stage: PreparationStage, outcome: crate::workflow::OutcomeView|
                preparation_rule(options, stage, outcome);
            let plan = preparation_plan(options);
            let outcomes = crate::workflow::all_done(count as nat).push(last);
            &&& crate::workflow::performed(rule, plan[0], outcomes) == plan.take(count + 1)
            &&& crate::workflow::ending(rule, plan[0], outcomes) == Some(
                preparation_rule(options, plan[count], last),
            )
        }),
{
    let rule = |stage: PreparationStage, outcome: crate::workflow::OutcomeView|
        preparation_rule(options, stage, outcome);
    let plan = preparation_plan(options);
    let run = plan.take(count + 1);
    let outcomes = crate::workflow::all_done(count as nat).push(last);
    assert(crate::workflow::leads_through(rule, run, outcomes));
    crate::workflow::run_follows_plan(rule, run, outcomes);
}

/// The data is normalized after outliers were treated and copies were added, and
/// split only when all else is done.
pub proof fn split_comes_last(options: PreparationOptions)
    ensures
        ({
            let plan = preparation_plan(options);
            &&& plan[plan.len() - 2] == PreparationStage::Normalize
            &&& plan.last() == if options.use_time_based_cv {
                PreparationStage::SplitForCrossValidation
            } else {
                PreparationStage::SplitOnce
            }
            &&& plan.no_duplicates()
        }),
{
}

/// A step is taken exactly if it is asked for; missing values are filled in and the
/// data is normalized in any case, and it is split in one of the two ways. What is
/// taken is taken in this order: selection, filling in, outliers, copies,
/// normalization, split.
pub proof fn options_decide_the_steps(options: PreparationOptions)
    ensures
        ({
            let plan = preparation_plan(options);
            &&& plan.contains(PreparationStage::SelectFeatures) <==> options.use_feature_selection
            &&& plan.contains(PreparationStage::ImputeMissing)
            &&& plan.contains(PreparationStage::HandleOutliers) <==> options.handle_outliers
            &&& plan.contains(PreparationStage::Augment) <==> options.use_data_augmentation
            &&& plan.contains(PreparationStage::Normalize)
            &&& plan.contains(PreparationStage::SplitForCrossValidation)
                <==> options.use_time_based_cv
            &&& plan.contains(PreparationStage::SplitOnce) <==> !options.use_time_based_cv
            &&& forall|a: int, b: int|
                0 <= a < b < plan.len() ==> turn_of(#[trigger] plan[a]) < turn_of(
                    #[trigger] plan[b],
                )
        }),
{
    let plan = preparation_plan(options);
    let filled = if options.use_feature_selection {
        1int
    } else {
        0int
    };
    let treated = filled + 1;
    let copied = treated + if options.handle_outliers {
        1int
    } else {
        0int
    };
    let normalized = copied + if options.use_data_augmentation {
        1int
    } else {
        0int
    };
    assert(options.use_feature_selection ==> plan[0] == PreparationStage::SelectFeatures);
    assert(plan[filled] == PreparationStage::ImputeMissing);
    assert(options.handle_outliers ==> plan[treated] == PreparationStage::HandleOutliers);
    assert(options.use_data_augmentation ==> plan[copied] == PreparationStage::Augment);
    assert(plan[normalized] == PreparationStage::Normalize);
    assert(plan[normalized + 1] == if options.use_time_based_cv {
        PreparationStage::SplitForCrossValidation
    } else {
        PreparationStage::SplitOnce
    });
    assert(plan.len() == normalized + 2);
}

/// The turn in which a step is taken, if it is.
pub open spec fn turn_of(stage: PreparationStage) -> int {
    match stage {
        PreparationStage::SelectFeatures => 0,
        PreparationStage::ImputeMissing => 1,
        PreparationStage::HandleOutliers => 2,
        PreparationStage::Augment => 3,
        PreparationStage::Normalize => 4,
        PreparationStage::SplitForCrossValidation | PreparationStage::SplitOnce => 5,
    }
}

/// The numbers and names that the steps are carried out with: fifteen features are
/// selected by their correlation with the closing price, missing values take the
/// value before them, an outlier lies one and a half times the quartiles' distance
/// beyond them and is clipped, and one varied copy is added.
pub proof fn parameters_of_the_steps()
    ensures
        SELECTION_TARGET@ == "close"@,
        SELECTED_FEATURES == 15,
        IMPUTATION@ == "forward_fill"@,
        OUTLIER_TEST@ == "iqr"@,
        2 * OUTLIER_DISTANCE_TENTHS == 3 * 10,
        OUTLIER_TREATMENT@ == "clip"@,
        AUGMENTATION_ROUNDS == 1,
{
}

} // verus!
