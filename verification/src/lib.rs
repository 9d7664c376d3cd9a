//! Composition of federated GraphQL subgraphs into a supergraph: the options
//! that steer it, the validations that run before and after the merge, and the
//! order in which the composition stages run and report.

pub mod error;
pub mod graph;
pub mod options;
pub mod schema;
pub mod federation;
pub mod validation;
pub mod stages;
pub mod pipeline;
