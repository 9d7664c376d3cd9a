use apollo_compiler::Schema;
use apollo_composition::error::CompositionError;
use apollo_composition::federation::{is_fed_2, is_federation_2_link_url};
use apollo_composition::graph::Subgraph;
use apollo_composition::options::CompositionOptions;
use apollo_composition::pipeline::{
    CompositionPipeline, CompositionResult, CompositionStage, StageEvent,
};
use apollo_composition::stages::{
    expand_subgraphs, merge_subgraphs_with_hints, validate_satisfiability_with_hints,
    validate_subgraphs, MergeOutcome,
};
use apollo_composition::validation::pre_merge_validations;

const FED2_QUERY: &str = r#"
    extend schema @link(url: "https://specs.apollo.dev/federation/v2.3")
    type Query { s: String }
"#;

fn subgraph(name: &str, sdl: &str) -> Subgraph {
    Subgraph::new(name, "http://example", Schema::parse(sdl, "schema.graphql").unwrap())
}

fn invalid_messages(errors: &[CompositionError]) -> Vec<String> {
    errors
        .iter()
        .map(|e| match e {
            CompositionError::InvalidGraphQL { message } => message.clone(),
            _ => panic!("unexpected error kind"),
        })
        .collect()
}

#[test]
fn federation_link_urls() {
    assert!(is_federation_2_link_url("https://specs.apollo.dev/federation/v2.0"));
    assert!(is_federation_2_link_url("https://specs.apollo.dev/federation/v2.10"));
    assert!(is_federation_2_link_url("https://specs.apollo.dev/federation/v10.0"));
    assert!(!is_federation_2_link_url("https://specs.apollo.dev/federation/v1.0"));
    assert!(!is_federation_2_link_url("https://specs.apollo.dev/federation/v01.5"));
    assert!(!is_federation_2_link_url("https://specs.apollo.dev/federation/v2"));
    assert!(!is_federation_2_link_url("https://specs.apollo.dev/federation/v2."));
    assert!(!is_federation_2_link_url("https://specs.apollo.dev/federation/v2.x"));
    assert!(!is_federation_2_link_url("https://specs.apollo.dev/link/v2.0"));
    assert!(!is_federation_2_link_url(""));
}

#[test]
fn schema_federation_version() {
    let fed2 = Schema::parse(FED2_QUERY, "a.graphql").unwrap();
    assert!(is_fed_2(&fed2));
    let fed1 = Schema::parse(
        r#"extend schema @link(url: "https://specs.apollo.dev/federation/v1.0")
           type Query { s: String }"#,
        "b.graphql",
    )
    .unwrap();
    assert!(!is_fed_2(&fed1));
    let unlinked = Schema::parse("type Query { s: String }", "c.graphql").unwrap();
    assert!(!is_fed_2(&unlinked));
}

#[test]
fn pre_merge_reports_every_repeated_name_in_order() {
    let subgraphs = vec![
        subgraph("a", FED2_QUERY),
        subgraph("b", FED2_QUERY),
        subgraph("a", FED2_QUERY),
        subgraph("b", FED2_QUERY),
        subgraph("a", FED2_QUERY),
    ];
    let errors = pre_merge_validations(&subgraphs).unwrap_err();
    assert_eq!(
        invalid_messages(&errors),
        vec![
            "Duplicate subgraph name: 'a'".to_string(),
            "Duplicate subgraph name: 'b'".to_string(),
            "Duplicate subgraph name: 'a'".to_string(),
        ]
    );
}

#[test]
fn pre_merge_requires_a_query_somewhere() {
    let mutation_only = r#"
        schema @link(url: "https://specs.apollo.dev/federation/v2.0") { mutation: Mutation }
        type Mutation { update: String }
    "#;
    let errors = pre_merge_validations(&[subgraph("m", mutation_only)]).unwrap_err();
    assert_eq!(
        invalid_messages(&errors),
        vec!["No queries found in any subgraph: a supergraph must have a query root type."
            .to_string()]
    );
    assert!(pre_merge_validations(&[subgraph("m", mutation_only), subgraph("q", FED2_QUERY)]).is_ok());
}

#[test]
fn pre_merge_requires_federation_2() {
    let fed1 = "type Query { s: String }";
    let errors = pre_merge_validations(&[subgraph("q", FED2_QUERY), subgraph("old", fed1)]).unwrap_err();
    assert_eq!(
        invalid_messages(&errors),
        vec!["Merging should only be applied to federation 2 subgraphs".to_string()]
    );
}

#[test]
fn pre_merge_reports_all_rules_in_order() {
    let fed1_mutation = "schema { mutation: Mutation } type Mutation { u: String }";
    let errors =
        pre_merge_validations(&[subgraph("x", fed1_mutation), subgraph("x", fed1_mutation)])
            .unwrap_err();
    assert_eq!(
        invalid_messages(&errors),
        vec![
            "Duplicate subgraph name: 'x'".to_string(),
            "No queries found in any subgraph: a supergraph must have a query root type."
                .to_string(),
            "Merging should only be applied to federation 2 subgraphs".to_string(),
        ]
    );
}

#[test]
fn pre_merge_of_no_subgraphs_has_no_query() {
    let errors = pre_merge_validations(&[]).unwrap_err();
    assert_eq!(errors.len(), 1);
}

#[test]
fn expand_collects_every_error_in_order() {
    let results: Vec<Result<u32, CompositionError>> = vec![
        Ok(1),
        Err(CompositionError::InternalError { message: "first".to_string() }),
        Ok(2),
        Err(CompositionError::InvalidGraphQL { message: "second".to_string() }),
    ];
    let errors = expand_subgraphs(results).unwrap_err();
    assert_eq!(errors.len(), 2);
    assert!(matches!(&errors[0], CompositionError::InternalError { message } if message == "first"));
    assert!(matches!(&errors[1], CompositionError::InvalidGraphQL { message } if message == "second"));
}

#[test]
fn validate_keeps_every_subgraph_in_order() {
    let results: Vec<Result<u32, CompositionError>> = vec![Ok(3), Ok(1), Ok(2)];
    assert_eq!(validate_subgraphs(results).unwrap(), vec![3, 1, 2]);
    let empty: Vec<Result<u32, CompositionError>> = vec![];
    assert_eq!(validate_subgraphs(empty).unwrap(), Vec::<u32>::new());
}

#[test]
fn merge_turns_warnings_into_hints() {
    let subgraphs = vec![subgraph("a", FED2_QUERY), subgraph("b", FED2_QUERY)];
    let merged = MergeOutcome::Merged {
        schema: Schema::parse(FED2_QUERY, "merged.graphql").unwrap(),
        composition_hints: vec!["w1".to_string(), "w2".to_string()],
    };
    let (_, hints) = merge_subgraphs_with_hints(&subgraphs, merged).unwrap();
    let pairs: Vec<(String, String)> =
        hints.into_iter().map(|h| (h.code, h.message)).collect();
    assert_eq!(
        pairs,
        vec![
            ("MERGE_WARNING".to_string(), "w1".to_string()),
            ("MERGE_WARNING".to_string(), "w2".to_string()),
        ]
    );
}

#[test]
fn merge_failure_becomes_graphql_errors() {
    let subgraphs = vec![subgraph("a", FED2_QUERY)];
    let failed = MergeOutcome::Failed { errors: vec!["e1".to_string(), "e2".to_string()] };
    let errors = merge_subgraphs_with_hints(&subgraphs, failed).unwrap_err();
    assert_eq!(invalid_messages(&errors), vec!["e1".to_string(), "e2".to_string()]);
}

#[test]
fn merge_refuses_a_repeated_subgraph_name() {
    let subgraphs =
        vec![subgraph("a", FED2_QUERY), subgraph("b", FED2_QUERY), subgraph("b", FED2_QUERY)];
    let merged = MergeOutcome::Merged {
        schema: Schema::parse(FED2_QUERY, "merged.graphql").unwrap(),
        composition_hints: vec![],
    };
    let errors = merge_subgraphs_with_hints(&subgraphs, merged).unwrap_err();
    assert_eq!(errors.len(), 1);
    match &errors[0] {
        CompositionError::SubgraphError { subgraph, error } => {
            assert_eq!(subgraph, "b");
            assert_eq!(error, "A subgraph named \"b\" already exists");
        }
        _ => panic!("unexpected error kind"),
    }
}

#[test]
fn satisfiability_adds_no_hints() {
    let supergraph = apollo_composition::graph::Supergraph::new(
        Schema::parse(FED2_QUERY, "s.graphql").unwrap(),
    );
    let (_, hints) = validate_satisfiability_with_hints(Ok(supergraph)).unwrap();
    assert!(hints.is_empty());
    let errors = validate_satisfiability_with_hints(Err(vec![CompositionError::InternalError {
        message: "unsatisfiable".to_string(),
    }]))
    .unwrap_err();
    assert_eq!(errors.len(), 1);
}

fn take(pipeline: CompositionPipeline) -> (CompositionPipeline, Vec<Subgraph>) {
    pipeline.take_subgraphs()
}

fn passing_pipeline(options: &CompositionOptions) -> CompositionPipeline {
    let subgraphs = vec![subgraph("a", FED2_QUERY), subgraph("b", FED2_QUERY)];
    let mut pipeline = CompositionPipeline::new(subgraphs, options);
    assert_eq!(pipeline.next_stage(), Some(CompositionStage::ExpandSubgraphs));
    let (p, taken) = take(pipeline);
    pipeline = p.report(StageEvent::Expanded { results: taken.into_iter().map(Ok).collect() });
    assert_eq!(pipeline.next_stage(), Some(CompositionStage::UpgradeSubgraphs));
    let (p, taken) = take(pipeline);
    pipeline = p.report(StageEvent::Upgraded { result: Ok(taken) });
    assert_eq!(pipeline.next_stage(), Some(CompositionStage::ValidateSubgraphs));
    let (p, taken) = take(pipeline);
    pipeline = p.report(StageEvent::Validated { results: taken.into_iter().map(Ok).collect() });
    assert_eq!(pipeline.next_stage(), Some(CompositionStage::MergeSubgraphs));
    assert_eq!(pipeline.subgraphs().len(), 2);
    pipeline
}

fn merged_outcome(sdl: &str, warnings: &[&str]) -> MergeOutcome {
    MergeOutcome::Merged {
        schema: Schema::parse(sdl, "merged.graphql").unwrap(),
        composition_hints: warnings.iter().map(|w| w.to_string()).collect(),
    }
}

#[test]
fn pipeline_runs_every_stage_in_order() {
    let options = CompositionOptions::new().with_max_validation_paths(9);
    let mut pipeline = passing_pipeline(&options);
    pipeline = pipeline.report(StageEvent::Merged { outcome: merged_outcome(FED2_QUERY, &["w1", "w2"]) });
    assert_eq!(pipeline.next_stage(), Some(CompositionStage::SatisfiabilityValidation));
    assert_eq!(pipeline.max_validation_subgraph_paths(), Some(9));
    let (p, merged) = pipeline.take_merged_supergraph();
    let merged = merged.unwrap();
    assert!(merged.schema().types.contains_key("Query"));
    pipeline = p.report(StageEvent::SatisfiabilityChecked { result: Ok(merged) });
    assert_eq!(pipeline.next_stage(), None);
    match pipeline.finish() {
        CompositionResult::Success { supergraph, hints } => {
            assert!(supergraph.schema().schema_definition.query.is_some());
            let pairs: Vec<(String, String)> =
                hints.into_iter().map(|h| (h.code, h.message)).collect();
            assert_eq!(
                pairs,
                vec![
                    ("MERGE_WARNING".to_string(), "w1".to_string()),
                    ("MERGE_WARNING".to_string(), "w2".to_string()),
                ]
            );
        }
        CompositionResult::Failure { .. } => panic!("expected success"),
    }
}

#[test]
fn pipeline_skips_satisfiability_when_disabled() {
    let options = CompositionOptions::new().with_satisfiability(false);
    let pipeline = passing_pipeline(&options);
    let pipeline = pipeline.report(StageEvent::Merged { outcome: merged_outcome(FED2_QUERY, &[]) });
    assert_eq!(pipeline.next_stage(), None);
    match pipeline.finish() {
        CompositionResult::Success { supergraph, hints } => {
            assert!(supergraph.schema().types.contains_key("Query"));
            assert!(hints.is_empty());
        }
        CompositionResult::Failure { .. } => panic!("expected success"),
    }
}

#[test]
fn pipeline_runs_pre_merge_validations_on_validated_subgraphs() {
    let subgraphs = vec![subgraph("same", FED2_QUERY), subgraph("other", FED2_QUERY)];
    let mut pipeline = CompositionPipeline::new(subgraphs, &CompositionOptions::new());
    let (p, taken) = take(pipeline);
    pipeline = p.report(StageEvent::Expanded { results: taken.into_iter().map(Ok).collect() });
    let (p, taken) = take(pipeline);
    pipeline = p.report(StageEvent::Upgraded { result: Ok(taken) });
    let (p, _) = take(pipeline);
    let renamed = vec![Ok(subgraph("same", FED2_QUERY)), Ok(subgraph("same", FED2_QUERY))];
    pipeline = p.report(StageEvent::Validated { results: renamed });
    assert_eq!(pipeline.next_stage(), None);
    match pipeline.finish() {
        CompositionResult::Failure { errors } => {
            assert_eq!(invalid_messages(&errors), vec!["Duplicate subgraph name: 'same'".to_string()]);
        }
        CompositionResult::Success { .. } => panic!("expected failure"),
    }
}

#[test]
fn pipeline_runs_post_merge_validations_on_merged_supergraph() {
    let pipeline = passing_pipeline(&CompositionOptions::new());
    let broken = r#"
        type Query { node: Node }
        interface Node { id: ID! }
        type User implements Node { name: String }
    "#;
    let pipeline = pipeline.report(StageEvent::Merged { outcome: merged_outcome(broken, &["w"]) });
    assert_eq!(pipeline.next_stage(), None);
    match pipeline.finish() {
        CompositionResult::Failure { errors } => {
            assert_eq!(errors.len(), 1);
            assert!(matches!(&errors[0], CompositionError::InterfaceObjectUsageError { .. }));
        }
        CompositionResult::Success { .. } => panic!("expected failure"),
    }
}

#[test]
fn pipeline_stops_at_first_failure() {
    let mut pipeline =
        CompositionPipeline::new(vec![subgraph("a", FED2_QUERY)], &CompositionOptions::new());
    let (p, taken) = take(pipeline);
    pipeline = p.report(StageEvent::Expanded { results: taken.into_iter().map(Ok).collect() });
    assert_eq!(pipeline.next_stage(), Some(CompositionStage::UpgradeSubgraphs));
    let (p, _) = take(pipeline);
    pipeline = p.report(StageEvent::Upgraded {
        result: Err(vec![CompositionError::InternalError { message: "bad".to_string() }]),
    });
    assert_eq!(pipeline.next_stage(), None);
    let pipeline = pipeline.report(StageEvent::Validated { results: vec![] });
    assert_eq!(pipeline.next_stage(), None);
    match pipeline.finish() {
        CompositionResult::Failure { errors } => {
            assert_eq!(errors.len(), 1);
            assert!(matches!(&errors[0], CompositionError::InternalError { message } if message == "bad"));
        }
        CompositionResult::Success { .. } => panic!("expected failure"),
    }
}

#[test]
fn pipeline_ignores_an_event_of_another_stage() {
    let pipeline =
        CompositionPipeline::new(vec![subgraph("a", FED2_QUERY)], &CompositionOptions::new());
    let pipeline = pipeline.report(StageEvent::Upgraded { result: Ok(vec![]) });
    assert_eq!(pipeline.next_stage(), Some(CompositionStage::ExpandSubgraphs));
    assert_eq!(pipeline.subgraphs().len(), 1);
}

#[test]
fn composition_result_into_result() {
    let failure = CompositionResult::Failure {
        errors: vec![CompositionError::InternalError { message: "x".to_string() }],
    };
    assert_eq!(failure.into_result().err().map(|e| e.len()), Some(1));
    let success = CompositionResult::Success {
        supergraph: apollo_composition::graph::Supergraph::new(
            Schema::parse(FED2_QUERY, "s.graphql").unwrap(),
        ),
        hints: vec![],
    };
    assert!(success.into_result().is_ok());
}

#[test]
fn options_setters_commute() {
    let a = CompositionOptions::new().with_satisfiability(false).with_max_validation_paths(7);
    let b = CompositionOptions::new().with_max_validation_paths(7).with_satisfiability(false);
    assert_eq!(a.run_satisfiability, b.run_satisfiability);
    assert_eq!(a.max_validation_subgraph_paths, b.max_validation_subgraph_paths);
    let c = CompositionOptions::new().with_max_validation_paths(1).with_max_validation_paths(2);
    assert_eq!(c.max_validation_subgraph_paths, Some(2));
    assert!(c.run_satisfiability);
}

#[test]
fn options_default_runs_satisfiability() {
    let new = CompositionOptions::new();
    assert!(new.run_satisfiability);
    assert_eq!(new.max_validation_subgraph_paths, None);
    let default = CompositionOptions::default();
    assert!(default.run_satisfiability);
    assert_eq!(default.max_validation_subgraph_paths, None);
}

#[test]
fn pre_merge_outcome_does_not_depend_on_order() {
    let fed1 = "type Query { s: String }";
    let forward = vec![subgraph("a", FED2_QUERY), subgraph("b", fed1), subgraph("a", FED2_QUERY)];
    let backward = vec![subgraph("a", FED2_QUERY), subgraph("b", fed1), subgraph("a", FED2_QUERY)]
        .into_iter()
        .rev()
        .collect::<Vec<_>>();
    assert_eq!(
        pre_merge_validations(&forward).is_ok(),
        pre_merge_validations(&backward).is_ok()
    );
    let good = vec![subgraph("x", FED2_QUERY), subgraph("y", FED2_QUERY)];
    let good_rev = vec![subgraph("y", FED2_QUERY), subgraph("x", FED2_QUERY)];
    assert!(pre_merge_validations(&good).is_ok());
    assert!(pre_merge_validations(&good_rev).is_ok());
}

#[test]
fn pre_merge_errors_do_not_depend_on_order() {
    let order_one = vec![
        subgraph("a", FED2_QUERY),
        subgraph("b", FED2_QUERY),
        subgraph("a", FED2_QUERY),
        subgraph("b", FED2_QUERY),
        subgraph("a", FED2_QUERY),
    ];
    let order_two = vec![
        subgraph("b", FED2_QUERY),
        subgraph("a", FED2_QUERY),
        subgraph("a", FED2_QUERY),
        subgraph("a", FED2_QUERY),
        subgraph("b", FED2_QUERY),
    ];
    let mut one = invalid_messages(&pre_merge_validations(&order_one).unwrap_err());
    let mut two = invalid_messages(&pre_merge_validations(&order_two).unwrap_err());
    one.sort();
    two.sort();
    assert_eq!(one, two);
    assert_eq!(one.len(), 3);
}
