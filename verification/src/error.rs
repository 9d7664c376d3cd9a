//! The errors and hints that composition reports.
use vstd::prelude::*;

verus! {

/// An error found while composing subgraphs.
#[derive(Debug, Clone)]
pub enum CompositionError {
    /// A schema, or the set of subgraphs, breaks a GraphQL or federation rule.
    InvalidGraphQL { message: String },
    /// A type does not implement all the fields of an interface it declares.
    InterfaceObjectUsageError { message: String },
    /// A subgraph could not be taken into the merge.
    SubgraphError { subgraph: String, error: String },
    /// An error raised by a composition stage itself.
    InternalError { message: String },
}

/// What an error reads as in contracts.
pub enum CompositionErrorView {
    InvalidGraphQL(Seq<char>),
    InterfaceObjectUsageError(Seq<char>),
    SubgraphError(Seq<char>, Seq<char>),
    InternalError(Seq<char>),
}

impl View for CompositionError {
    type V = CompositionErrorView;

    open spec fn view(&self) -> CompositionErrorView {
        match self {
            CompositionError::InvalidGraphQL { message } => CompositionErrorView::InvalidGraphQL(
                message@,
            ),
            CompositionError::InterfaceObjectUsageError { message } =>
                CompositionErrorView::InterfaceObjectUsageError(message@),
            CompositionError::SubgraphError { subgraph, error } => CompositionErrorView::SubgraphError(
                subgraph@,
                error@,
            ),
            CompositionError::InternalError { message } => CompositionErrorView::InternalError(
                message@,
            ),
        }
    }
}

/// A hint generated during composition: a code and a message.
#[derive(Debug, Clone)]
pub struct CompositionHint {
    pub code: String,
    pub message: String,
}

impl View for CompositionHint {
    type V = (Seq<char>, Seq<char>);

    open spec fn view(&self) -> (Seq<char>, Seq<char>) {
        (self.code@, self.message@)
    }
}

pub open spec fn errors_view(errors: Seq<CompositionError>) -> Seq<CompositionErrorView> {
    errors.map_values(|e: CompositionError| e@)
}

pub open spec fn hints_view(hints: Seq<CompositionHint>) -> Seq<(Seq<char>, Seq<char>)> {
    hints.map_values(|h: CompositionHint| h@)
}

} // verus!
