use vstd::prelude::*;

verus! {

/// Composition options that control the behavior of the composition process.
#[derive(Debug, Clone)]
pub struct CompositionOptions {
    /// Flag to toggle if satisfiability should be performed during composition.
    /// Defaults to `true`.
    pub run_satisfiability: bool,
    /// Maximum allowable number of outstanding subgraph paths to validate.
    pub max_validation_subgraph_paths: Option<usize>,
}

impl CompositionOptions {
    /// The options that `new` gives: satisfiability on, no path limit.
    pub open spec fn spec_new() -> CompositionOptions {
        CompositionOptions { run_satisfiability: true, max_validation_subgraph_paths: None }
    }

    /// The options with satisfiability validation set as given.
    pub open spec fn spec_with_satisfiability(self, run_satisfiability: bool) -> CompositionOptions {
        CompositionOptions { run_satisfiability, ..self }
    }

    /// The options with the path limit set to `max_paths`.
    pub open spec fn spec_with_max_validation_paths(self, max_paths: usize) -> CompositionOptions {
        CompositionOptions { max_validation_subgraph_paths: Some(max_paths), ..self }
    }

    /// Create new composition options with default values.
    pub fn new() -> (options: Self)
        ensures
            options == Self::spec_new(),
    {
        CompositionOptions { run_satisfiability: true, max_validation_subgraph_paths: None }
    }

    /// Set whether to run satisfiability validation.
    pub fn with_satisfiability(self, run_satisfiability: bool) -> (options: Self)
        ensures
            options == self.spec_with_satisfiability(run_satisfiability),
    {
        let mut options = self;
        options.run_satisfiability = run_satisfiability;
        options
    }

    /// Set the maximum validation subgraph paths.
    pub fn with_max_validation_paths(self, max_paths: usize) -> (options: Self)
        ensures
            options == self.spec_with_max_validation_paths(max_paths),
    {
        let mut options = self;
        options.max_validation_subgraph_paths = Some(max_paths);
        options
    }
}

impl Default for CompositionOptions {
    /// The default options, which are those of `new`: satisfiability
    /// validation on, no path limit.
    fn default() -> (options: Self)
        ensures
            options == Self::spec_new(),
    {
        Self::new()
    }
}

/// Each setter changes its own option and keeps the other, so the order in
/// which they are applied does not matter, and the later of two calls of one
/// setter wins.
pub proof fn law_setters_independent(
    options: CompositionOptions,
    run_satisfiability: bool,
    other_run_satisfiability: bool,
    max_paths: usize,
    other_max_paths: usize,
)
    ensures
        options.spec_with_satisfiability(run_satisfiability).spec_with_max_validation_paths(max_paths)
            == options.spec_with_max_validation_paths(max_paths).spec_with_satisfiability(
            run_satisfiability,
        ),
        options.spec_with_satisfiability(other_run_satisfiability).spec_with_satisfiability(
            run_satisfiability,
        ) == options.spec_with_satisfiability(run_satisfiability),
        options.spec_with_max_validation_paths(other_max_paths).spec_with_max_validation_paths(
            max_paths,
        ) == options.spec_with_max_validation_paths(max_paths),
        options.spec_with_satisfiability(run_satisfiability).run_satisfiability == run_satisfiability,
        options.spec_with_max_validation_paths(max_paths).max_validation_subgraph_paths == Some(
            max_paths,
        ),
{
}

} // verus!
