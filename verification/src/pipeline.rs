//! The composition pipeline: which stage runs next, what each stage's event
//! does to the composition, and what the composition results in.
//!
//! The pipeline holds the subgraphs and the merged supergraph itself. It runs
//! the validations before the merge on the subgraphs that the validation
//! stage produced, and the validations after the merge on the supergraph that
//! the merge produced; a successful composition returns that supergraph (or,
//! with satisfiability validation on, the one that stage gave back for it).
use vstd::prelude::*;
use crate::error::{errors_view, hints_view, CompositionError, CompositionErrorView, CompositionHint};
use crate::graph::{Subgraph, Supergraph};
use crate::options::CompositionOptions;
use crate::stages::{
    law_collect_all_ok, law_collect_no_errors_iff_all_ok, err_values, expand_subgraphs, merge_errors, merge_hints, merge_subgraphs_with_hints,
    ok_values, validate_satisfiability_with_hints, validate_subgraphs, MergeOutcome,
};
use crate::validation::{law_pre_merge_passes_exactly, subgraph_names, post_merge_errors, post_merge_validations, pre_merge_errors, pre_merge_validations};
use apollo_compiler::Schema;

verus! {

/// The stages whose work is done outside the pipeline, in the order they run.
/// The validations before the merge run as part of the validation stage, and
/// those after the merge as part of the merge stage.
#[derive(Debug, Clone, Copy, PartialEq, Eq, Structural)]
pub enum CompositionStage {
    /// Add the missing federation definitions to each subgraph schema.
    ExpandSubgraphs,
    /// Upgrade the subgraphs where necessary.
    UpgradeSubgraphs,
    /// Validate each subgraph schema against the federation rules.
    ValidateSubgraphs,
    /// Merge the validated subgraphs into a supergraph.
    MergeSubgraphs,
    /// Validate that the merged supergraph is satisfiable.
    SatisfiabilityValidation,
}

/// The stage that runs after `stage`, if any.
pub open spec fn stage_after(stage: CompositionStage, run_satisfiability: bool) -> Option<
    CompositionStage,
> {
    match stage {
        CompositionStage::ExpandSubgraphs => Some(CompositionStage::UpgradeSubgraphs),
        CompositionStage::UpgradeSubgraphs => Some(CompositionStage::ValidateSubgraphs),
        CompositionStage::ValidateSubgraphs => Some(CompositionStage::MergeSubgraphs),
        CompositionStage::MergeSubgraphs => if run_satisfiability {
            Some(CompositionStage::SatisfiabilityValidation)
        } else {
            None
        },
        CompositionStage::SatisfiabilityValidation => None,
    }
}

/// What the work of a stage gave.
#[derive(Debug)]
pub enum StageEvent {
    /// The result of expanding each subgraph's links, in order.
    Expanded { results: Vec<Result<Subgraph, CompositionError>> },
    /// The result of upgrading the subgraphs.
    Upgraded { result: Result<Vec<Subgraph>, Vec<CompositionError>> },
    /// The result of validating each subgraph, in order.
    Validated { results: Vec<Result<Subgraph, CompositionError>> },
    /// The outcome of merging the validated subgraphs.
    Merged { outcome: MergeOutcome },
    /// The result of satisfiability validation of the merged supergraph.
    SatisfiabilityChecked { result: Result<Supergraph, Vec<CompositionError>> },
}

/// Result of the composition process.
#[derive(Debug)]
pub enum CompositionResult {
    /// Successful composition: the composed supergraph and the hints
    /// generated during composition.
    Success { supergraph: Supergraph, hints: Vec<CompositionHint> },
    /// Failed composition: the errors that occurred.
    Failure { errors: Vec<CompositionError> },
}

impl CompositionResult {
    /// The supergraph of a success, or the errors of a failure.
    pub fn into_result(self) -> (r: Result<Supergraph, Vec<CompositionError>>)
        ensures
            match (self, r) {
                (CompositionResult::Success { supergraph, .. }, Ok(s)) => s == supergraph,
                (CompositionResult::Failure { errors }, Err(e)) => e == errors,
                _ => false,
            },
    {
        match self {
            CompositionResult::Success { supergraph, .. } => Ok(supergraph),
            CompositionResult::Failure { errors } => Err(errors),
        }
    }
}

/// The state of a composition: its options; the stage that runs next (none
/// once it has succeeded or failed); the subgraphs it holds; the subgraphs
/// that passed validation and the validations before the merge; the merged
/// schema with the merge's hints, once it passed the validations after the
/// merge; the supergraph it holds; the hints collected; and the errors it
/// failed with.
pub struct PipelineView {
    pub run_satisfiability: bool,
    pub max_validation_subgraph_paths: Option<usize>,
    pub next: Option<CompositionStage>,
    pub subgraphs: Seq<Subgraph>,
    pub validated: Option<Seq<Subgraph>>,
    pub merged: Option<(Schema, Seq<(Seq<char>, Seq<char>)>)>,
    pub supergraph: Option<Schema>,
    pub hints: Seq<(Seq<char>, Seq<char>)>,
    pub failure: Option<Seq<CompositionErrorView>>,
}

/// A composition with the given options and subgraphs that has not run any stage.
pub open spec fn initial_pipeline(options: CompositionOptions, subgraphs: Seq<Subgraph>) -> PipelineView {
    PipelineView {
        run_satisfiability: options.run_satisfiability,
        max_validation_subgraph_paths: options.max_validation_subgraph_paths,
        next: Some(CompositionStage::ExpandSubgraphs),
        subgraphs,
        validated: None,
        merged: None,
        supergraph: None,
        hints: seq![],
        failure: None,
    }
}

/// The composition ended by the given errors.
pub open spec fn failed(p: PipelineView, errors: Seq<CompositionErrorView>) -> PipelineView {
    PipelineView { next: None, failure: Some(errors), ..p }
}

/// The state after the event of the stage that runs next. An event of
/// another stage, or any event after the composition has finished, leaves it
/// as it is.
///
/// - Expanded: fails with every expansion error, else holds the expanded subgraphs.
/// - Upgraded: fails with the upgrade's errors, else holds the upgraded subgraphs.
/// - Validated: fails with every validation error; else runs the validations
///   before the merge on the validated subgraphs and fails with their errors;
///   else holds the validated subgraphs.
/// - Merged: fails with the merge stage's errors for the subgraphs it holds;
///   else runs the validations after the merge on the merged schema and fails
///   with their errors; else holds the merged supergraph and adds the merge's hints.
/// - SatisfiabilityChecked: fails with its errors, else holds the supergraph it gave.
pub open spec fn step(p: PipelineView, event: StageEvent) -> PipelineView {
    match p.next {
        None => p,
        Some(stage) => match event {
            StageEvent::Expanded { results } => if stage == CompositionStage::ExpandSubgraphs {
                if err_values(results@).len() > 0 {
                    failed(p, err_values(results@))
                } else {
                    PipelineView {
                        next: Some(CompositionStage::UpgradeSubgraphs),
                        subgraphs: ok_values(results@),
                        ..p
                    }
                }
            } else {
                p
            },
            StageEvent::Upgraded { result } => if stage == CompositionStage::UpgradeSubgraphs {
                match result {
                    Ok(upgraded) => PipelineView {
                        next: Some(CompositionStage::ValidateSubgraphs),
                        subgraphs: upgraded@,
                        ..p
                    },
                    Err(errors) => failed(p, errors_view(errors@)),
                }
            } else {
                p
            },
            StageEvent::Validated { results } => if stage == CompositionStage::ValidateSubgraphs {
                if err_values(results@).len() > 0 {
                    failed(p, err_values(results@))
                } else if pre_merge_errors(ok_values(results@)).len() > 0 {
                    failed(p, pre_merge_errors(ok_values(results@)))
                } else {
                    PipelineView {
                        next: Some(CompositionStage::MergeSubgraphs),
                        subgraphs: ok_values(results@),
                        validated: Some(ok_values(results@)),
                        ..p
                    }
                }
            } else {
                p
            },
            StageEvent::Merged { outcome } => if stage == CompositionStage::MergeSubgraphs {
                match merge_errors(p.subgraphs, outcome) {
                    Some(errors) => failed(p, errors),
                    None => match outcome {
                        MergeOutcome::Merged { schema, .. } => if post_merge_errors(schema).len() > 0 {
                            failed(p, post_merge_errors(schema))
                        } else {
                            PipelineView {
                                next: stage_after(stage, p.run_satisfiability),
                                merged: Some((schema, merge_hints(outcome))),
                                supergraph: Some(schema),
                                hints: p.hints + merge_hints(outcome),
                                ..p
                            }
                        },
                        MergeOutcome::Failed { .. } => p,
                    },
                }
            } else {
                p
            },
            StageEvent::SatisfiabilityChecked { result } => if stage
                == CompositionStage::SatisfiabilityValidation {
                match result {
                    Ok(s) => PipelineView { next: None, supergraph: Some(s.spec_schema()), ..p },
                    Err(errors) => failed(p, errors_view(errors@)),
                }
            } else {
                p
            },
        },
    }
}

/// The event is the one that the given stage gives.
pub open spec fn event_for(stage: CompositionStage, event: StageEvent) -> bool {
    match event {
        StageEvent::Expanded { .. } => stage == CompositionStage::ExpandSubgraphs,
        StageEvent::Upgraded { .. } => stage == CompositionStage::UpgradeSubgraphs,
        StageEvent::Validated { .. } => stage == CompositionStage::ValidateSubgraphs,
        StageEvent::Merged { .. } => stage == CompositionStage::MergeSubgraphs,
        StageEvent::SatisfiabilityChecked { .. } => stage == CompositionStage::SatisfiabilityValidation,
    }
}

/// The state after the events, in order.
pub open spec fn run(p: PipelineView, events: Seq<StageEvent>) -> PipelineView
    decreases events.len(),
{
    if events.len() == 0 {
        p
    } else {
        step(run(p, events.drop_last()), events.last())
    }
}

/// What every state of a composition keeps:
/// - a failed composition runs no further stage;
/// - satisfiability validation runs only where it is enabled;
/// - no hint is collected before the merge;
/// - the merge stage holds the validated subgraphs, which passed the
///   validations before the merge;
/// - from the merge on, the merged schema passed the validations after the
///   merge, the hints are the merge's, and the supergraph held is the merged
///   one (or, after satisfiability validation, the one that stage gave).
pub open spec fn pipeline_inv(v: PipelineView) -> bool {
    &&& v.failure is Some ==> v.next is None
    &&& v.next == Some(CompositionStage::SatisfiabilityValidation) ==> v.run_satisfiability
    &&& v.merged is None ==> v.hints == Seq::<(Seq<char>, Seq<char>)>::empty()
    &&& v.next == Some(CompositionStage::MergeSubgraphs) ==> v.validated == Some(v.subgraphs)
        && pre_merge_errors(v.subgraphs).len() == 0 && v.merged is None
    &&& (v.next == Some(CompositionStage::ExpandSubgraphs) || v.next == Some(
        CompositionStage::UpgradeSubgraphs,
    ) || v.next == Some(CompositionStage::ValidateSubgraphs)) ==> v.merged is None
    &&& (v.next == Some(CompositionStage::SatisfiabilityValidation) || (v.next is None
        && v.failure is None)) ==> {
        &&& v.validated matches Some(vs) && pre_merge_errors(vs).len() == 0
        &&& v.merged matches Some((m, mh)) && post_merge_errors(m).len() == 0 && v.hints == mh
            && (v.next == Some(CompositionStage::SatisfiabilityValidation) ==> (v.supergraph is Some
            ==> v.supergraph == Some(m))) && (!v.run_satisfiability ==> v.supergraph == Some(m))
        &&& v.next is None ==> v.supergraph is Some
    }
}

/// A composition in progress: it says which stage runs next, hands out what
/// that stage works on, and takes the stage's event in turn.
pub struct CompositionPipeline {
    run_satisfiability: bool,
    max_validation_subgraph_paths: Option<usize>,
    next: Option<CompositionStage>,
    subgraphs: Vec<Subgraph>,
    supergraph: Option<Supergraph>,
    hints: Vec<CompositionHint>,
    failure: Option<Vec<CompositionError>>,
    validated: Ghost<Option<Seq<Subgraph>>>,
    merged: Ghost<Option<(Schema, Seq<(Seq<char>, Seq<char>)>)>>,
}

impl View for CompositionPipeline {
    type V = PipelineView;

    closed spec fn view(&self) -> PipelineView {
        PipelineView {
            run_satisfiability: self.run_satisfiability,
            max_validation_subgraph_paths: self.max_validation_subgraph_paths,
            next: self.next,
            subgraphs: self.subgraphs@,
            validated: self.validated@,
            merged: self.merged@,
            supergraph: match self.supergraph {
                Some(s) => Some(s.spec_schema()),
                None => None,
            },
            hints: hints_view(self.hints@),
            failure: match self.failure {
                Some(errors) => Some(errors_view(errors@)),
                None => None,
            },
        }
    }
}

impl CompositionPipeline {
    #[verifier::type_invariant]
    closed spec fn well_formed(self) -> bool {
        pipeline_inv(self@)
    }

    /// A composition of the given subgraphs with the given options that has
    /// not run any stage.
    pub fn new(subgraphs: Vec<Subgraph>, options: &CompositionOptions) -> (pipeline: Self)
        ensures
            pipeline@ == initial_pipeline(*options, subgraphs@),
    {
        let hints: Vec<CompositionHint> = Vec::new();
        assert(hints_view(hints@) =~= seq![]);
        let pipeline = CompositionPipeline {
            run_satisfiability: options.run_satisfiability,
            max_validation_subgraph_paths: options.max_validation_subgraph_paths,
            next: Some(CompositionStage::ExpandSubgraphs),
            subgraphs,
            supergraph: None,
            hints,
            failure: None,
            validated: Ghost(None),
            merged: Ghost(None),
        };
        pipeline
    }

    /// The stage that runs next, if the composition has not finished.
    pub fn next_stage(&self) -> (stage: Option<CompositionStage>)
        ensures
            stage == self@.next,
    {
        self.next
    }

    /// The limit on outstanding subgraph paths that satisfiability validation is given.
    pub fn max_validation_subgraph_paths(&self) -> (limit: Option<usize>)
        ensures
            limit == self@.max_validation_subgraph_paths,
    {
        self.max_validation_subgraph_paths
    }

    /// The subgraphs the composition holds, which the merge stage works on.
    pub fn subgraphs(&self) -> (subgraphs: &[Subgraph])
        ensures
            subgraphs@ == self@.subgraphs,
    {
        self.subgraphs.as_slice()
    }

    /// Hands out the subgraphs for the expansion, upgrade or validation stage
    /// to work on; at any other stage hands out none and keeps them.
    pub fn take_subgraphs(self) -> (r: (Self, Vec<Subgraph>))
        ensures
            if self@.next == Some(CompositionStage::ExpandSubgraphs) || self@.next == Some(
                CompositionStage::UpgradeSubgraphs,
            ) || self@.next == Some(CompositionStage::ValidateSubgraphs) {
                r.0@ == (PipelineView { subgraphs: seq![], ..self@ }) && r.1@ == self@.subgraphs
            } else {
                r.0@ == self@ && r.1@.len() == 0
            },
    {
        proof {
            use_type_invariant(&self);
        }
        let CompositionPipeline {
            run_satisfiability,
            max_validation_subgraph_paths,
            next,
            subgraphs,
            supergraph,
            hints,
            failure,
            validated,
            merged,
        } = self;
        let hand_out = next == Some(CompositionStage::ExpandSubgraphs) || next == Some(
            CompositionStage::UpgradeSubgraphs,
        ) || next == Some(CompositionStage::ValidateSubgraphs);
        let (kept, taken) = if hand_out {
            (Vec::new(), subgraphs)
        } else {
            (subgraphs, Vec::new())
        };
        let pipeline = CompositionPipeline {
            run_satisfiability,
            max_validation_subgraph_paths,
            next,
            subgraphs: kept,
            supergraph,
            hints,
            failure,
            validated,
            merged,
        };
        assert(hand_out ==> pipeline@.subgraphs =~= seq![]);
        (pipeline, taken)
    }

    /// Hands out the merged supergraph for satisfiability validation; at any
    /// other stage hands out nothing.
    pub fn take_merged_supergraph(self) -> (r: (Self, Option<Supergraph>))
        ensures
            if self@.next == Some(CompositionStage::SatisfiabilityValidation) {
                r.0@ == (PipelineView { supergraph: None, ..self@ }) && match r.1 {
                    Some(s) => self@.supergraph == Some(s.spec_schema()) && (self@.merged matches Some(
                        (m, _),
                    ) && s.spec_schema() == m),
                    None => self@.supergraph is None,
                }
            } else {
                r.0@ == self@ && r.1 is None
            },
    {
        proof {
            use_type_invariant(&self);
        }
        let CompositionPipeline {
            run_satisfiability,
            max_validation_subgraph_paths,
            next,
            subgraphs,
            supergraph,
            hints,
            failure,
            validated,
            merged,
        } = self;
        let hand_out = next == Some(CompositionStage::SatisfiabilityValidation);
        let (kept, taken) = if hand_out {
            (None, supergraph)
        } else {
            (supergraph, None)
        };
        let pipeline = CompositionPipeline {
            run_satisfiability,
            max_validation_subgraph_paths,
            next,
            subgraphs,
            supergraph: kept,
            hints,
            failure,
            validated,
            merged,
        };
        (pipeline, taken)
    }

    /// Takes the event of the stage that ran.
    pub fn report(self, event: StageEvent) -> (pipeline: Self)
        ensures
            pipeline@ == step(self@, event),
    {
        proof {
            use_type_invariant(&self);
        }
        let ghost p = self@;
        let ghost e = event;
        let CompositionPipeline {
            run_satisfiability,
            max_validation_subgraph_paths,
            next,
            subgraphs,
            supergraph,
            hints,
            failure,
            validated,
            merged,
        } = self;
        let stage = match next {
            Some(stage) => stage,
            None => {
                return CompositionPipeline {
                    run_satisfiability,
                    max_validation_subgraph_paths,
                    next,
                    subgraphs,
                    supergraph,
                    hints,
                    failure,
                    validated,
                    merged,
                };
            },
        };
        match event {
            StageEvent::Expanded { results } if stage == CompositionStage::ExpandSubgraphs => {
                match expand_subgraphs(results) {
                    Ok(expanded) => CompositionPipeline {
                        run_satisfiability,
                        max_validation_subgraph_paths,
                        next: Some(CompositionStage::UpgradeSubgraphs),
                        subgraphs: expanded,
                        supergraph,
                        hints,
                        failure,
                        validated,
                        merged,
                    },
                    Err(errors) => CompositionPipeline {
                        run_satisfiability,
                        max_validation_subgraph_paths,
                        next: None,
                        subgraphs,
                        supergraph,
                        hints,
                        failure: Some(errors),
                        validated,
                        merged,
                    },
                }
            },
            StageEvent::Upgraded { result } if stage == CompositionStage::UpgradeSubgraphs => {
                match result {
                    Ok(upgraded) => CompositionPipeline {
                        run_satisfiability,
                        max_validation_subgraph_paths,
                        next: Some(CompositionStage::ValidateSubgraphs),
                        subgraphs: upgraded,
                        supergraph,
                        hints,
                        failure,
                        validated,
                        merged,
                    },
                    Err(errors) => CompositionPipeline {
                        run_satisfiability,
                        max_validation_subgraph_paths,
                        next: None,
                        subgraphs,
                        supergraph,
                        hints,
                        failure: Some(errors),
                        validated,
                        merged,
                    },
                }
            },
            StageEvent::Validated { results } if stage == CompositionStage::ValidateSubgraphs => {
                match validate_subgraphs(results) {
                    Ok(checked) => match pre_merge_validations(checked.as_slice()) {
                        Ok(()) => CompositionPipeline {
                            run_satisfiability,
                            max_validation_subgraph_paths,
                            next: Some(CompositionStage::MergeSubgraphs),
                            subgraphs: checked,
                            supergraph,
                            hints,
                            failure,
                            validated: Ghost(Some(checked@)),
                            merged,
                        },
                        Err(errors) => CompositionPipeline {
                            run_satisfiability,
                            max_validation_subgraph_paths,
                            next: None,
                            subgraphs,
                            supergraph,
                            hints,
                            failure: Some(errors),
                            validated,
                            merged,
                        },
                    },
                    Err(errors) => CompositionPipeline {
                        run_satisfiability,
                        max_validation_subgraph_paths,
                        next: None,
                        subgraphs,
                        supergraph,
                        hints,
                        failure: Some(errors),
                        validated,
                        merged,
                    },
                }
            },
            StageEvent::Merged { outcome } if stage == CompositionStage::MergeSubgraphs => {
                let ghost o = outcome;
                match merge_subgraphs_with_hints(subgraphs.as_slice(), outcome) {
                    Ok((merged_supergraph, merge_hints_found)) => {
                        let ghost m = merged_supergraph.spec_schema();
                        match post_merge_validations(&merged_supergraph) {
                            Ok(()) => {
                                let next = if run_satisfiability {
                                    Some(CompositionStage::SatisfiabilityValidation)
                                } else {
                                    None
                                };
                                let mut all_hints = hints;
                                let mut added = merge_hints_found;
                                let ghost before = hints_view(all_hints@);
                                let ghost more = hints_view(added@);
                                all_hints.append(&mut added);
                                assert(hints_view(all_hints@) =~= before + more);
                                CompositionPipeline {
                                    run_satisfiability,
                                    max_validation_subgraph_paths,
                                    next,
                                    subgraphs,
                                    supergraph: Some(merged_supergraph),
                                    hints: all_hints,
                                    failure,
                                    validated,
                                    merged: Ghost(Some((m, merge_hints(o)))),
                                }
                            },
                            Err(errors) => CompositionPipeline {
                                run_satisfiability,
                                max_validation_subgraph_paths,
                                next: None,
                                subgraphs,
                                supergraph,
                                hints,
                                failure: Some(errors),
                                validated,
                                merged,
                            },
                        }
                    },
                    Err(errors) => CompositionPipeline {
                        run_satisfiability,
                        max_validation_subgraph_paths,
                        next: None,
                        subgraphs,
                        supergraph,
                        hints,
                        failure: Some(errors),
                        validated,
                        merged,
                    },
                }
            },
            StageEvent::SatisfiabilityChecked { result } if stage
                == CompositionStage::SatisfiabilityValidation => {
                match validate_satisfiability_with_hints(result) {
                    Ok((satisfiable, _no_hints)) => CompositionPipeline {
                        run_satisfiability,
                        max_validation_subgraph_paths,
                        next: None,
                        subgraphs,
                        supergraph: Some(satisfiable),
                        hints,
                        failure,
                        validated,
                        merged,
                    },
                    Err(errors) => CompositionPipeline {
                        run_satisfiability,
                        max_validation_subgraph_paths,
                        next: None,
                        subgraphs,
                        supergraph,
                        hints,
                        failure: Some(errors),
                        validated,
                        merged,
                    },
                }
            },
            _ => CompositionPipeline {
                run_satisfiability,
                max_validation_subgraph_paths,
                next,
                subgraphs,
                supergraph,
                hints,
                failure,
                validated,
                merged,
            },
        }
    }

    /// The result of a finished composition: the errors it failed with, or
    /// the supergraph it holds with the hints collected.
    pub fn finish(self) -> (result: CompositionResult)
        requires
            self@.next is None,
        ensures
            result is Success <==> self@.failure is None,
            match result {
                CompositionResult::Success { supergraph: s, hints } => {
                    &&& self@.supergraph == Some(s.spec_schema())
                    &&& hints_view(hints@) == self@.hints
                    &&& self@.validated matches Some(vs) && pre_merge_errors(vs).len() == 0
                    &&& self@.merged matches Some((m, mh)) && post_merge_errors(m).len() == 0
                        && hints_view(hints@) == mh && (!self@.run_satisfiability
                        ==> s.spec_schema() == m)
                },
                CompositionResult::Failure { errors } => self@.failure == Some(errors_view(errors@)),
            },
    {
        proof {
            use_type_invariant(&self);
        }
        let CompositionPipeline { supergraph, hints, failure, .. } = self;
        match failure {
            Some(errors) => CompositionResult::Failure { errors },
            None => match supergraph {
                Some(s) => CompositionResult::Success { supergraph: s, hints },
                None => CompositionResult::Failure { errors: Vec::new() },
            },
        }
    }
}

// ---------------------------------------------------------------------------
// Laws
// ---------------------------------------------------------------------------

/// A composition that has not run any stage keeps the invariant.
pub proof fn law_initial_keeps_invariant(options: CompositionOptions, subgraphs: Seq<Subgraph>)
    ensures
        pipeline_inv(initial_pipeline(options, subgraphs)),
{
}

/// Every event keeps the invariant.
pub proof fn law_step_keeps_invariant(p: PipelineView, event: StageEvent)
    requires
        pipeline_inv(p),
    ensures
        pipeline_inv(step(p, event)),
{
}

/// Whatever events a composition takes, it keeps the invariant. In
/// particular a successful composition ran the validations before the merge
/// on the validated subgraphs and those after the merge on the merged schema,
/// both without error; it returns the merge's hints; and, with satisfiability
/// validation off, it returns the merged supergraph.
pub proof fn law_run_keeps_invariant(
    options: CompositionOptions,
    subgraphs: Seq<Subgraph>,
    events: Seq<StageEvent>,
)
    ensures
        pipeline_inv(run(initial_pipeline(options, subgraphs), events)),
    decreases events.len(),
{
    if events.len() > 0 {
        law_run_keeps_invariant(options, subgraphs, events.drop_last());
        law_step_keeps_invariant(run(initial_pipeline(options, subgraphs), events.drop_last()), events.last());
    }
}

/// While no stage fails, the stages run in their fixed order: expansion,
/// upgrade, validation, merge, then satisfiability validation where it is
/// enabled.
pub proof fn law_stage_order(p: PipelineView, event: StageEvent)
    requires
        p.next matches Some(stage) && event_for(stage, event),
        step(p, event).failure is None,
    ensures
        step(p, event).next == stage_after(p.next->0, p.run_satisfiability),
{
}

/// A failing stage ends the composition with exactly the errors that stage
/// reports, and a finished composition ignores any further event.
pub proof fn law_failure_ends(p: PipelineView, event: StageEvent, more: Seq<StageEvent>)
    requires
        pipeline_inv(p),
        step(p, event).failure is Some,
    ensures
        step(p, event).next is None,
        run(step(p, event), more) == step(p, event),
    decreases more.len(),
{
    if more.len() > 0 {
        law_failure_ends(p, event, more.drop_last());
    }
}

/// With satisfiability validation disabled, that stage never runs.
pub proof fn law_satisfiability_skipped_when_disabled(
    options: CompositionOptions,
    subgraphs: Seq<Subgraph>,
    events: Seq<StageEvent>,
)
    requires
        !options.run_satisfiability,
    ensures
        run(initial_pipeline(options, subgraphs), events).next != Some(
            CompositionStage::SatisfiabilityValidation,
        ),
{
    law_run_keeps_invariant(options, subgraphs, events);
    lemma_run_keeps_options(initial_pipeline(options, subgraphs), events);
}

proof fn lemma_run_keeps_options(p: PipelineView, events: Seq<StageEvent>)
    ensures
        run(p, events).run_satisfiability == p.run_satisfiability,
        run(p, events).max_validation_subgraph_paths == p.max_validation_subgraph_paths,
    decreases events.len(),
{
    if events.len() > 0 {
        lemma_run_keeps_options(p, events.drop_last());
    }
}

// ---------------------------------------------------------------------------
// Laws over a whole composition
// ---------------------------------------------------------------------------

/// The events of a composition in which each stage runs once, in order:
/// satisfiability validation only where it is enabled.
pub open spec fn composition_events(
    run_satisfiability: bool,
    expanded: Vec<Result<Subgraph, CompositionError>>,
    upgraded: Result<Vec<Subgraph>, Vec<CompositionError>>,
    validated: Vec<Result<Subgraph, CompositionError>>,
    outcome: MergeOutcome,
    satisfiable: Result<Supergraph, Vec<CompositionError>>,
) -> Seq<StageEvent> {
    let through_merge = Seq::<StageEvent>::empty().push(StageEvent::Expanded { results: expanded }).push(
        StageEvent::Upgraded { result: upgraded },
    ).push(StageEvent::Validated { results: validated }).push(StageEvent::Merged { outcome });
    if run_satisfiability {
        through_merge.push(StageEvent::SatisfiabilityChecked { result: satisfiable })
    } else {
        through_merge
    }
}

/// Every stage passes: expansion, upgrade and validation of each subgraph;
/// the validations before the merge on the validated subgraphs; the merge of
/// the validated subgraphs; the validations after the merge on the merged
/// schema; and satisfiability validation where it is enabled.
pub open spec fn all_stages_pass(
    run_satisfiability: bool,
    expanded: Vec<Result<Subgraph, CompositionError>>,
    upgraded: Result<Vec<Subgraph>, Vec<CompositionError>>,
    validated: Vec<Result<Subgraph, CompositionError>>,
    outcome: MergeOutcome,
    satisfiable: Result<Supergraph, Vec<CompositionError>>,
) -> bool {
    &&& err_values(expanded@).len() == 0
    &&& upgraded is Ok
    &&& err_values(validated@).len() == 0
    &&& pre_merge_errors(ok_values(validated@)).len() == 0
    &&& merge_errors(ok_values(validated@), outcome) is None
    &&& outcome matches MergeOutcome::Merged { schema, .. } && post_merge_errors(schema).len() == 0
    &&& run_satisfiability ==> satisfiable is Ok
}

proof fn lemma_run_push(p: PipelineView, events: Seq<StageEvent>, event: StageEvent)
    ensures
        run(p, events.push(event)) == step(run(p, events), event),
{
    assert(events.push(event).drop_last() =~= events);
}

proof fn lemma_run_composition(
    p: PipelineView,
    run_satisfiability: bool,
    expanded: Vec<Result<Subgraph, CompositionError>>,
    upgraded: Result<Vec<Subgraph>, Vec<CompositionError>>,
    validated: Vec<Result<Subgraph, CompositionError>>,
    outcome: MergeOutcome,
    satisfiable: Result<Supergraph, Vec<CompositionError>>,
)
    ensures
        ({
            let through_merge = step(
                step(
                    step(step(p, StageEvent::Expanded { results: expanded }), StageEvent::Upgraded { result: upgraded }),
                    StageEvent::Validated { results: validated },
                ),
                StageEvent::Merged { outcome },
            );
            run(p, composition_events(run_satisfiability, expanded, upgraded, validated, outcome, satisfiable))
                == if run_satisfiability {
                step(through_merge, StageEvent::SatisfiabilityChecked { result: satisfiable })
            } else {
                through_merge
            }
        }),
{
    let e0 = Seq::<StageEvent>::empty();
    let e1 = e0.push(StageEvent::Expanded { results: expanded });
    let e2 = e1.push(StageEvent::Upgraded { result: upgraded });
    let e3 = e2.push(StageEvent::Validated { results: validated });
    let e4 = e3.push(StageEvent::Merged { outcome });
    lemma_run_push(p, e0, StageEvent::Expanded { results: expanded });
    lemma_run_push(p, e1, StageEvent::Upgraded { result: upgraded });
    lemma_run_push(p, e2, StageEvent::Validated { results: validated });
    lemma_run_push(p, e3, StageEvent::Merged { outcome });
    lemma_run_push(p, e4, StageEvent::SatisfiabilityChecked { result: satisfiable });
}

/// A composition in which each stage runs once finishes, and succeeds exactly
/// when every stage passes. A success holds the merge's hints, and the merged
/// supergraph (or, with satisfiability validation on, the supergraph that
/// stage gave back).
pub proof fn law_composition_succeeds_exactly(
    options: CompositionOptions,
    subgraphs: Seq<Subgraph>,
    expanded: Vec<Result<Subgraph, CompositionError>>,
    upgraded: Result<Vec<Subgraph>, Vec<CompositionError>>,
    validated: Vec<Result<Subgraph, CompositionError>>,
    outcome: MergeOutcome,
    satisfiable: Result<Supergraph, Vec<CompositionError>>,
)
    ensures
        ({
            let r = options.run_satisfiability;
            let last = run(
                initial_pipeline(options, subgraphs),
                composition_events(r, expanded, upgraded, validated, outcome, satisfiable),
            );
            &&& last.next is None
            &&& last.failure is None <==> all_stages_pass(r, expanded, upgraded, validated, outcome, satisfiable)
            &&& last.failure is None ==> last.hints == merge_hints(outcome) && (outcome matches MergeOutcome::Merged { schema, .. }
                && last.supergraph == Some(
                if r {
                    satisfiable->Ok_0.spec_schema()
                } else {
                    schema
                },
            ))
        }),
{
    lemma_run_composition(
        initial_pipeline(options, subgraphs),
        options.run_satisfiability,
        expanded,
        upgraded,
        validated,
        outcome,
        satisfiable,
    );
}

proof fn lemma_step_ignores_flag(p: PipelineView, event: StageEvent, flag: bool)
    requires
        !(event is Merged),
        p.next != Some(CompositionStage::SatisfiabilityValidation),
    ensures
        step(PipelineView { run_satisfiability: flag, ..p }, event) == (PipelineView {
            run_satisfiability: flag,
            ..step(p, event)
        }),
{
}

proof fn lemma_merge_ignores_flag(p: PipelineView, outcome: MergeOutcome, flag: bool)
    ensures
        ({
            let q = step(PipelineView { run_satisfiability: flag, ..p }, StageEvent::Merged { outcome });
            let r = step(p, StageEvent::Merged { outcome });
            &&& q.failure == r.failure
            &&& q.hints == r.hints
        }),
{
}

/// Turning satisfiability validation off, with the other stages giving the
/// same results, keeps a success a success with the same hints, and a
/// failure with it off is the same failure with it on.
pub proof fn law_satisfiability_only_adds_failures(
    options: CompositionOptions,
    subgraphs: Seq<Subgraph>,
    expanded: Vec<Result<Subgraph, CompositionError>>,
    upgraded: Result<Vec<Subgraph>, Vec<CompositionError>>,
    validated: Vec<Result<Subgraph, CompositionError>>,
    outcome: MergeOutcome,
    satisfiable: Result<Supergraph, Vec<CompositionError>>,
)
    ensures
        ({
            let on = run(
                initial_pipeline(options.spec_with_satisfiability(true), subgraphs),
                composition_events(true, expanded, upgraded, validated, outcome, satisfiable),
            );
            let off = run(
                initial_pipeline(options.spec_with_satisfiability(false), subgraphs),
                composition_events(false, expanded, upgraded, validated, outcome, satisfiable),
            );
            &&& on.failure is None ==> off.failure is None && off.hints == on.hints
            &&& off.failure is Some ==> on.failure == off.failure
        }),
{
    let p_on = initial_pipeline(options.spec_with_satisfiability(true), subgraphs);
    let p_off = initial_pipeline(options.spec_with_satisfiability(false), subgraphs);
    assert(p_on == (PipelineView { run_satisfiability: true, ..p_off }));
    let e1 = StageEvent::Expanded { results: expanded };
    let e2 = StageEvent::Upgraded { result: upgraded };
    let e3 = StageEvent::Validated { results: validated };
    let e4 = StageEvent::Merged { outcome };
    let e5 = StageEvent::SatisfiabilityChecked { result: satisfiable };
    let off1 = step(p_off, e1);
    lemma_step_ignores_flag(p_off, e1, true);
    let off2 = step(off1, e2);
    lemma_step_ignores_flag(off1, e2, true);
    let off3 = step(off2, e3);
    lemma_step_ignores_flag(off2, e3, true);
    let on3 = step(step(step(p_on, e1), e2), e3);
    assert(on3 == (PipelineView { run_satisfiability: true, ..off3 }));
    lemma_merge_ignores_flag(off3, outcome, true);
    let on4 = step(on3, e4);
    lemma_run_composition(p_on, true, expanded, upgraded, validated, outcome, satisfiable);
    lemma_run_composition(p_off, false, expanded, upgraded, validated, outcome, satisfiable);
    assert(step(on4, e5).failure is None ==> on4.failure is None);
    assert(on4.failure is Some ==> step(on4, e5) == on4);
}

/// The errors that an event brings from outside the library are never an
/// empty list.
pub open spec fn outside_errors_nonempty(event: StageEvent) -> bool {
    match event {
        StageEvent::Upgraded { result: Err(errors) } => errors.len() > 0,
        StageEvent::Merged { outcome: MergeOutcome::Failed { errors } } => errors.len() > 0,
        StageEvent::SatisfiabilityChecked { result: Err(errors) } => errors.len() > 0,
        _ => true,
    }
}

proof fn lemma_step_failure_nonempty(p: PipelineView, event: StageEvent)
    requires
        p.failure matches Some(errors) ==> errors.len() > 0,
        outside_errors_nonempty(event),
    ensures
        step(p, event).failure matches Some(errors) ==> errors.len() > 0,
{
}

/// Where the stages outside the library never fail with an empty list of
/// errors, a failed composition reports at least one error.
pub proof fn law_failure_has_errors(
    options: CompositionOptions,
    subgraphs: Seq<Subgraph>,
    events: Seq<StageEvent>,
)
    requires
        forall|i: int| 0 <= i < events.len() ==> outside_errors_nonempty(#[trigger] events[i]),
    ensures
        run(initial_pipeline(options, subgraphs), events).failure matches Some(errors) ==> errors.len() > 0,
    decreases events.len(),
{
    if events.len() > 0 {
        let prefix = events.drop_last();
        assert forall|i: int| 0 <= i < prefix.len() implies outside_errors_nonempty(#[trigger] prefix[i]) by {
            assert(prefix[i] == events[i]);
        }
        law_failure_has_errors(options, subgraphs, prefix);
        assert(outside_errors_nonempty(events[events.len() - 1]));
        lemma_step_failure_nonempty(run(initial_pipeline(options, subgraphs), prefix), events.last());
    }
}

/// The upgrade stage's subgraphs are exactly what the composition holds next,
/// and so what the validation stage is handed.
pub proof fn law_upgrade_hands_on_upgraded(p: PipelineView, upgraded: Vec<Subgraph>)
    requires
        p.next == Some(CompositionStage::UpgradeSubgraphs),
    ensures
        step(p, StageEvent::Upgraded { result: Ok(upgraded) }).subgraphs == upgraded@,
        step(p, StageEvent::Upgraded { result: Ok(upgraded) }).next == Some(
            CompositionStage::ValidateSubgraphs,
        ),
        step(p, StageEvent::Upgraded { result: Ok(upgraded) }).failure == p.failure,
{
}

/// When each subgraph expands, the composition holds every expanded
/// subgraph, in order, for the upgrade stage.
pub proof fn law_expansion_hands_on_every_subgraph(p: PipelineView, results: Vec<Result<Subgraph, CompositionError>>)
    requires
        p.next == Some(CompositionStage::ExpandSubgraphs),
        forall|i: int| 0 <= i < results@.len() ==> (#[trigger] results@[i]) is Ok,
    ensures
        ({
            let q = step(p, StageEvent::Expanded { results });
            &&& q.next == Some(CompositionStage::UpgradeSubgraphs)
            &&& q.subgraphs.len() == results@.len()
            &&& forall|i: int| 0 <= i < results@.len() ==> results@[i] == Ok::<Subgraph, CompositionError>(#[trigger] q.subgraphs[i])
        }),
{
    law_collect_no_errors_iff_all_ok(results@);
    law_collect_all_ok(results@);
}

/// When the stages outside the library hand every subgraph on unchanged, a
/// composition of subgraphs two of which share a name fails, with the errors
/// of the validations before the merge on those subgraphs.
pub proof fn law_repeated_name_fails_composition(
    options: CompositionOptions,
    subgraphs: Seq<Subgraph>,
    expanded: Vec<Result<Subgraph, CompositionError>>,
    upgraded: Vec<Subgraph>,
    validated: Vec<Result<Subgraph, CompositionError>>,
    outcome: MergeOutcome,
    satisfiable: Result<Supergraph, Vec<CompositionError>>,
    i: int,
    j: int,
)
    requires
        expanded@.len() == subgraphs.len(),
        validated@.len() == subgraphs.len(),
        forall|k: int| 0 <= k < subgraphs.len() ==> #[trigger] expanded@[k] == Ok::<Subgraph, CompositionError>(subgraphs[k]),
        forall|k: int| 0 <= k < subgraphs.len() ==> #[trigger] validated@[k] == Ok::<Subgraph, CompositionError>(subgraphs[k]),
        upgraded@ == subgraphs,
        0 <= i < j < subgraphs.len(),
        subgraphs[i].name@ == subgraphs[j].name@,
    ensures
        ({
            let last = run(
                initial_pipeline(options, subgraphs),
                composition_events(
                    options.run_satisfiability,
                    expanded,
                    Ok(upgraded),
                    validated,
                    outcome,
                    satisfiable,
                ),
            );
            &&& last.next is None
            &&& last.failure == Some(pre_merge_errors(subgraphs))
            &&& pre_merge_errors(subgraphs).len() > 0
        }),
{
    law_collect_no_errors_iff_all_ok(validated@);
    law_collect_all_ok(validated@);
    assert(ok_values(validated@) =~= subgraphs) by {
        assert forall|k: int| 0 <= k < subgraphs.len() implies ok_values(validated@)[k] == subgraphs[k] by {
            assert(validated@[k] == Ok::<Subgraph, CompositionError>(ok_values(validated@)[k]));
        }
    }
    law_collect_no_errors_iff_all_ok(expanded@);
    law_pre_merge_passes_exactly(subgraphs);
    let names = subgraph_names(subgraphs);
    assert(names[i] == names[j]);
    let p0 = initial_pipeline(options, subgraphs);
    let p1 = step(p0, StageEvent::Expanded { results: expanded });
    let p2 = step(p1, StageEvent::Upgraded { result: Ok(upgraded) });
    let p3 = step(p2, StageEvent::Validated { results: validated });
    assert(p3.failure == Some(pre_merge_errors(subgraphs)) && p3.next is None);
    lemma_run_composition(
        p0,
        options.run_satisfiability,
        expanded,
        Ok(upgraded),
        validated,
        outcome,
        satisfiable,
    );
}

/// When each subgraph passes validation and the validations before the merge
/// pass on them, the composition holds every validated subgraph, in order,
/// for the merge.
pub proof fn law_validation_hands_on_every_subgraph(
    p: PipelineView,
    results: Vec<Result<Subgraph, CompositionError>>,
)
    requires
        p.next == Some(CompositionStage::ValidateSubgraphs),
        forall|i: int| 0 <= i < results@.len() ==> (#[trigger] results@[i]) is Ok,
        pre_merge_errors(ok_values(results@)).len() == 0,
    ensures
        ({
            let q = step(p, StageEvent::Validated { results });
            &&& q.next == Some(CompositionStage::MergeSubgraphs)
            &&& q.subgraphs.len() == results@.len()
            &&& forall|i: int| 0 <= i < results@.len() ==> results@[i] == Ok::<Subgraph, CompositionError>(#[trigger] q.subgraphs[i])
            &&& q.validated == Some(q.subgraphs)
        }),
{
    law_collect_no_errors_iff_all_ok(results@);
    law_collect_all_ok(results@);
}

} // verus!
