# apollo_composition

Composition of federated GraphQL subgraphs into a supergraph, verified with Verus.

- `src/options.rs`: `CompositionOptions` and its builder.
- `src/error.rs`: `CompositionError` and `CompositionHint`.
- `src/schema.rs`: the `apollo_compiler::Schema` type and what composition reads of a schema
  (its types, its query root, its schema directives), through small trusted wrappers.
- `src/federation.rs`: which schemas link the federation specification at version 2 or more.
- `src/graph.rs`: `Subgraph` and `Supergraph`.
- `src/validation.rs`: the validations before the merge (unique names, a query root, federation 2)
  and after it (a query root, complete interface implementations), with their laws.
- `src/stages.rs`: what each stage makes of its work: collecting per-subgraph results, turning merge
  errors and warnings into composition errors and hints, satisfiability hints.
- `src/pipeline.rs`: the composition itself: the order in which the stages run, the subgraphs and
  supergraph it holds, the validations it runs on them, and its result, with the laws of the pipeline.
- `app/lib.rs`: the driver that runs a composition: it performs the work of each stage the pipeline
  asks for through caller-supplied federation work and hands back what that work gave.
