//! The GraphQL schemas that composition reads, held as `apollo_compiler`
//! schemas, and what the composition rules read of them.
use vstd::prelude::*;
use apollo_compiler::schema::ExtendedType;
use apollo_compiler::Schema;

verus! {

#[verifier::external_type_specification]
#[verifier::external_body]
pub struct ExSchema(apollo_compiler::Schema);

/// The kind of a named type, one for each variant of `ExtendedType`.
#[derive(Debug, Clone, Copy, PartialEq, Eq, Structural)]
pub enum TypeKind {
    Scalar,
    Object,
    Interface,
    Union,
    Enum,
    InputObject,
}

/// What composition reads of one named type: its name, its kind, the
/// interfaces it declares it implements and the names of its explicit fields.
pub type TypeShape = (Seq<char>, TypeKind, Seq<Seq<char>>, Seq<Seq<char>>);

/// What a directive application reads as: its name, and for each of its
/// arguments in order the argument's name and, where the value is a GraphQL
/// string, that string.
pub type DirectiveShape = (Seq<char>, Seq<(Seq<char>, Option<Seq<char>>)>);

/// The named types of a schema, in the order of its `types` map.
/// Object and interface types list the interfaces they implement and their
/// explicit fields; the other kinds list neither.
pub uninterp spec fn schema_types(schema: Schema) -> Seq<TypeShape>;

/// The name of the type that the schema definition names as the `query` root.
pub uninterp spec fn schema_query_root(schema: Schema) -> Option<Seq<char>>;

/// The directives applied to the schema definition (and its extensions), in order.
pub uninterp spec fn schema_directives(schema: Schema) -> Seq<DirectiveShape>;

pub open spec fn strings_view(v: Seq<String>) -> Seq<Seq<char>> {
    v.map_values(|s: String| s@)
}

pub open spec fn option_string_view(o: Option<String>) -> Option<Seq<char>> {
    match o {
        Some(s) => Some(s@),
        None => None,
    }
}

/// The string value of the first argument named `name`, where there is such
/// an argument and its value is a string.
pub open spec fn first_argument_string(
    args: Seq<(Seq<char>, Option<Seq<char>>)>,
    name: Seq<char>,
) -> Option<Seq<char>>
    decreases args.len(),
{
    if args.len() == 0 {
        None
    } else if args[0].0 == name {
        args[0].1
    } else {
        first_argument_string(args.drop_first(), name)
    }
}

/// `Schema::types.len()`: the number of named types.
#[verifier::external_body]
pub(crate) fn schema_type_count(schema: &Schema) -> (n: usize)
    ensures
        n == schema_types(*schema).len(),
{
    schema.types.len()
}

/// `Schema::types.get_index(i)`: the name and kind of the type at position `i`.
#[verifier::external_body]
pub(crate) fn schema_type_header(schema: &Schema, i: usize) -> (r: (String, TypeKind))
    requires
        i < schema_types(*schema).len(),
    ensures
        r.0@ == schema_types(*schema)[i as int].0,
        r.1 == schema_types(*schema)[i as int].1,
{
    let (name, ty) = schema.types.get_index(i).unwrap();
    let kind = match ty {
        ExtendedType::Scalar(_) => TypeKind::Scalar,
        ExtendedType::Object(_) => TypeKind::Object,
        ExtendedType::Interface(_) => TypeKind::Interface,
        ExtendedType::Union(_) => TypeKind::Union,
        ExtendedType::Enum(_) => TypeKind::Enum,
        ExtendedType::InputObject(_) => TypeKind::InputObject,
    };
    (name.to_string(), kind)
}

/// The `implements_interfaces` of the type at position `i` of `Schema::types`,
/// in order, for an object or interface type; none for the other kinds.
#[verifier::external_body]
pub(crate) fn schema_type_interfaces(schema: &Schema, i: usize) -> (r: Vec<String>)
    requires
        i < schema_types(*schema).len(),
    ensures
        strings_view(r@) == schema_types(*schema)[i as int].2,
{
    match &schema.types[i] {
        ExtendedType::Object(t) => t.implements_interfaces.iter().map(|n| n.name.to_string()).collect(),
        ExtendedType::Interface(t) => t.implements_interfaces.iter().map(|n| n.name.to_string()).collect(),
        ExtendedType::Scalar(_) => Vec::new(),
        ExtendedType::Union(_) => Vec::new(),
        ExtendedType::Enum(_) => Vec::new(),
        ExtendedType::InputObject(_) => Vec::new(),
    }
}

/// The keys of the `fields` map of the type at position `i` of `Schema::types`,
/// in order, for an object or interface type; none for the other kinds.
#[verifier::external_body]
pub(crate) fn schema_type_fields(schema: &Schema, i: usize) -> (r: Vec<String>)
    requires
        i < schema_types(*schema).len(),
    ensures
        strings_view(r@) == schema_types(*schema)[i as int].3,
{
    match &schema.types[i] {
        ExtendedType::Object(t) => t.fields.keys().map(|k| k.to_string()).collect(),
        ExtendedType::Interface(t) => t.fields.keys().map(|k| k.to_string()).collect(),
        ExtendedType::Scalar(_) => Vec::new(),
        ExtendedType::Union(_) => Vec::new(),
        ExtendedType::Enum(_) => Vec::new(),
        ExtendedType::InputObject(_) => Vec::new(),
    }
}

/// `schema_definition.query`: the name of the query root type, if any.
#[verifier::external_body]
pub(crate) fn schema_query_root_name(schema: &Schema) -> (r: Option<String>)
    ensures
        option_string_view(r) == schema_query_root(*schema),
{
    schema.schema_definition.query.as_ref().map(|q| q.name.to_string())
}

/// The number of directives applied to the schema definition.
#[verifier::external_body]
pub(crate) fn schema_directive_count(schema: &Schema) -> (n: usize)
    ensures
        n == schema_directives(*schema).len(),
{
    schema.schema_definition.directives.len()
}

/// The name of the schema directive at position `i`.
#[verifier::external_body]
pub(crate) fn schema_directive_name(schema: &Schema, i: usize) -> (r: String)
    requires
        i < schema_directives(*schema).len(),
    ensures
        r@ == schema_directives(*schema)[i as int].0,
{
    schema.schema_definition.directives[i].name.to_string()
}

/// `Directive::specified_argument_by_name(name)` then `Value::as_str` on the
/// schema directive at position `i`: the first argument with that name, and
/// its value where the value is a string.
#[verifier::external_body]
pub(crate) fn schema_directive_string_argument(schema: &Schema, i: usize, name: &str) -> (r:
    Option<String>)
    requires
        i < schema_directives(*schema).len(),
    ensures
        option_string_view(r) == first_argument_string(schema_directives(*schema)[i as int].1, name@),
{
    let directive = &schema.schema_definition.directives[i];
    directive.specified_argument_by_name(name).and_then(|v| v.as_str()).map(|s| s.to_string())
}

} // verus!
