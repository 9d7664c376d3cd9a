//! Subgraphs, which composition takes in, and the supergraph it produces.
use vstd::prelude::*;
use apollo_compiler::Schema;

verus! {

/// A subgraph: its name, the URL it is served at, and its schema.
#[derive(Debug)]
pub struct Subgraph {
    pub name: String,
    pub url: String,
    pub schema: Schema,
}

impl Subgraph {
    /// A subgraph with the given name, URL and schema.
    pub fn new(name: &str, url: &str, schema: Schema) -> (subgraph: Self)
        ensures
            subgraph.name@ == name@,
            subgraph.url@ == url@,
            subgraph.schema == schema,
    {
        Subgraph { name: String::from_str(name), url: String::from_str(url), schema }
    }
}

/// A composed supergraph, held by its schema.
#[derive(Debug)]
pub struct Supergraph {
    schema: Schema,
}

impl Supergraph {
    pub closed spec fn spec_schema(&self) -> Schema {
        self.schema
    }

    /// The supergraph whose schema is `schema`.
    pub fn new(schema: Schema) -> (supergraph: Self)
        ensures
            supergraph.spec_schema() == schema,
    {
        Supergraph { schema }
    }

    /// The supergraph's schema.
    pub fn schema(&self) -> (schema: &Schema)
        ensures
            *schema == self.spec_schema(),
    {
        &self.schema
    }
}

} // verus!
