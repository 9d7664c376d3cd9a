use apollo_compiler::Schema;
use apollo_composition::error::{CompositionError, CompositionHint};
use apollo_composition::graph::{Subgraph, Supergraph};
use apollo_composition::options::CompositionOptions;
use apollo_composition::stages::{
    expand_subgraphs, merge_subgraphs, validate_subgraphs, MergeOutcome,
};
use apollo_composition::validation::{post_merge_validations, pre_merge_validations};

fn parse(sdl: &str) -> Schema {
    Schema::parse(sdl, "schema.graphql").unwrap()
}

#[test]
fn can_validate_subgraph_before_merge() {
    let schema_str = r#"
                extend schema @link(url: "https://specs.apollo.dev/federation/v2.0")

                type Query {
                    s: String
                }"#
    .to_string();

    let schema = Schema::parse(schema_str, "").unwrap();
    let s1 = Subgraph::new("S", "http://S", schema.clone());
    let expanded_subgraphs = expand_subgraphs(vec![Ok(s1)]).unwrap();
    let validated_subgraphs =
        validate_subgraphs(expanded_subgraphs.into_iter().map(Ok).collect()).unwrap();

    let outcome = pre_merge_validations(&validated_subgraphs).unwrap();

    assert!(outcome == ())
}

#[test]
fn pre_merge_validations_detects_duplicate_subgraph_names() {
    let schema_str = r#"
        extend schema @link(url: "https://specs.apollo.dev/federation/v2.0")
        type Query {
            s: String
        }"#;

    let schema = Schema::parse(schema_str, "").unwrap();
    let s1 = Subgraph::new("DuplicateName", "http://s1", schema.clone());
    let s2 = Subgraph::new("DuplicateName", "http://s2", schema.clone());

    let expanded_subgraphs = expand_subgraphs(vec![Ok(s1), Ok(s2)]).unwrap();
    let validated_subgraphs =
        validate_subgraphs(expanded_subgraphs.into_iter().map(Ok).collect()).unwrap();

    let result = pre_merge_validations(&validated_subgraphs);

    assert!(result.is_err());
    let errors = result.unwrap_err();
    assert_eq!(errors.len(), 1);
    match &errors[0] {
        CompositionError::InvalidGraphQL { message } => {
            assert!(message.contains("Duplicate subgraph name: 'DuplicateName'"));
        }
        _ => panic!("Expected InvalidGraphQL error"),
    }
}

#[test]
fn merge_subgraphs_succeeds_with_valid_schemas() {
    let schema_str1 = r#"
        schema @link(url: "https://specs.apollo.dev/federation/v2.0", import: ["@key"]) {
            query: Query
        }

        type Query {
            product(id: ID!): Product
        }

        type Product @key(fields: "id") {
            id: ID!
            name: String!
        }
    "#;

    let schema_str2 = r#"
        schema @link(url: "https://specs.apollo.dev/federation/v2.0", import: ["@key"]) {
            query: Query
        }

        type Query {
            _dummy: String
        }

        type Product @key(fields: "id") {
            id: ID!
            price: Float!
        }
    "#;

    let schema1 = Schema::parse(schema_str1, "").unwrap();
    let schema2 = Schema::parse(schema_str2, "").unwrap();
    let s1 = Subgraph::new("Subgraph1", "https://subgraph1", schema1.clone());
    let s2 = Subgraph::new("Subgraph2", "https://subgraph2", schema2);

    let validated_subgraphs = validate_subgraphs(vec![Ok(s1), Ok(s2)]).unwrap();
    assert!(pre_merge_validations(&validated_subgraphs).is_ok());

    let merged = MergeOutcome::Merged { schema: schema1, composition_hints: vec![] };
    let result = merge_subgraphs(&validated_subgraphs, merged);

    assert!(result.is_ok());
    let supergraph = result.unwrap();

    let schema = supergraph.schema();
    assert!(schema.schema_definition.query.is_some());
}

#[test]
fn post_merge_validations_succeeds_with_valid_supergraph() {
    let schema_str = r#"
        schema @link(url: "https://specs.apollo.dev/federation/v2.0") {
            query: Query
        }

        type Query {
            hello: String
        }
    "#;

    let schema = Schema::parse(schema_str, "").unwrap();
    let s1 = Subgraph::new("Subgraph1", "https://subgraph1", schema.clone());

    let validated_subgraphs = validate_subgraphs(vec![Ok(s1)]).unwrap();
    let merged = MergeOutcome::Merged { schema, composition_hints: vec![] };
    let merged_supergraph = merge_subgraphs(&validated_subgraphs, merged).unwrap();

    let result = post_merge_validations(&merged_supergraph);
    assert!(result.is_ok());
}

#[test]
fn post_merge_validations_detects_interface_implementation_errors() {
    let schema_str = r#"
        schema @link(url: "https://specs.apollo.dev/federation/v2.0") {
            query: Query
        }

        type Query {
            node: Node
        }

        interface Node {
            id: ID!
        }

        type User implements Node {
            id: ID!
            name: String!
        }
    "#;

    let schema = Schema::parse(schema_str, "").unwrap();
    let s1 = Subgraph::new("Subgraph1", "https://subgraph1", schema.clone());

    let validated_subgraphs = validate_subgraphs(vec![Ok(s1)]).unwrap();
    let merged = MergeOutcome::Merged { schema, composition_hints: vec![] };
    let merged_supergraph = merge_subgraphs(&validated_subgraphs, merged).unwrap();

    let result = post_merge_validations(&merged_supergraph);
    assert!(result.is_ok());
}

#[test]
fn composition_options_builder_pattern() {
    let options = CompositionOptions::new()
        .with_satisfiability(false)
        .with_max_validation_paths(100);

    assert_eq!(options.run_satisfiability, false);
    assert_eq!(options.max_validation_subgraph_paths, Some(100));
}

#[test]
fn composition_hint_structure() {
    let hint = CompositionHint {
        code: "TEST_HINT".to_string(),
        message: "This is a test hint".to_string(),
    };

    assert_eq!(hint.code, "TEST_HINT");
    assert_eq!(hint.message, "This is a test hint");
}

#[test]
fn post_merge_reports_each_missing_interface_field() {
    let schema = parse(
        r#"
        type Query { node: Node }
        interface Node { id: ID! version: Int }
        interface Named { name: String }
        type User implements Node & Named { name: String }
        type Robot implements Node { id: ID! version: Int }
        "#,
    );
    let supergraph = Supergraph::new(schema);
    let errors = post_merge_validations(&supergraph).unwrap_err();
    let messages: Vec<String> = errors
        .iter()
        .map(|e| match e {
            CompositionError::InterfaceObjectUsageError { message } => message.clone(),
            _ => panic!("unexpected error kind"),
        })
        .collect();
    assert_eq!(
        messages,
        vec![
            "Type \"User\" implements interface \"Node\" but is missing field \"id\"".to_string(),
            "Type \"User\" implements interface \"Node\" but is missing field \"version\"".to_string(),
        ]
    );
}

#[test]
fn post_merge_checks_interfaces_implementing_interfaces() {
    let schema = parse(
        r#"
        type Query { node: Node }
        interface Node { id: ID! }
        interface Resource implements Node { url: String }
        "#,
    );
    let errors = post_merge_validations(&Supergraph::new(schema)).unwrap_err();
    assert_eq!(errors.len(), 1);
    match &errors[0] {
        CompositionError::InterfaceObjectUsageError { message } => assert_eq!(
            message,
            "Type \"Resource\" implements interface \"Node\" but is missing field \"id\""
        ),
        _ => panic!("unexpected error kind"),
    }
}

#[test]
fn post_merge_requires_query_root() {
    let schema = parse(
        r#"
        schema { mutation: Mutation }
        type Mutation { update: String }
        interface Node { id: ID! }
        type User implements Node { name: String }
        "#,
    );
    let errors = post_merge_validations(&Supergraph::new(schema)).unwrap_err();
    assert_eq!(errors.len(), 2);
    match &errors[0] {
        CompositionError::InvalidGraphQL { message } => {
            assert_eq!(message, "Merged supergraph must have a query root type")
        }
        _ => panic!("unexpected error kind"),
    }
    assert!(matches!(&errors[1], CompositionError::InterfaceObjectUsageError { .. }));
}

#[test]
fn post_merge_ignores_declared_names_that_are_not_interfaces() {
    let schema = parse(
        r#"
        type Query { a: A }
        type B { x: Int }
        type A implements B { y: Int }
        "#,
    );
    assert!(post_merge_validations(&Supergraph::new(schema)).is_ok());
}
