//! The validations that run over all subgraphs before the merge and over the
//! merged supergraph after it.
use vstd::prelude::*;
use crate::error::{errors_view, CompositionError, CompositionErrorView};
use crate::federation::{is_fed_2, is_fed_2_schema};
use crate::graph::{Subgraph, Supergraph};
use crate::schema::{
    schema_query_root, schema_query_root_name, schema_type_count,
    schema_type_fields, schema_type_interfaces, schema_type_header, schema_types,
    strings_view, TypeKind, TypeShape,
};
use apollo_compiler::Schema;

verus! {

// ---------------------------------------------------------------------------
// Messages
// ---------------------------------------------------------------------------

pub open spec fn duplicate_name_message(name: Seq<char>) -> Seq<char> {
    "Duplicate subgraph name: '"@ + name + "'"@
}

pub open spec fn no_query_message() -> Seq<char> {
    "No queries found in any subgraph: a supergraph must have a query root type."@
}

pub open spec fn not_fed_2_message() -> Seq<char> {
    "Merging should only be applied to federation 2 subgraphs"@
}

pub open spec fn no_query_root_message() -> Seq<char> {
    "Merged supergraph must have a query root type"@
}

pub open spec fn missing_field_message(
    owner_name: Seq<char>,
    interface_name: Seq<char>,
    field_name: Seq<char>,
) -> Seq<char> {
    "Type \""@ + owner_name + "\" implements interface \""@ + interface_name
        + "\" but is missing field \""@ + field_name + "\""@
}

fn duplicate_name_message_string(name: &String) -> (m: String)
    ensures
        m@ == duplicate_name_message(name@),
{
    let mut m = String::from_str("Duplicate subgraph name: '");
    m.append(name.as_str());
    m.append("'");
    m
}

fn missing_field_message_string(owner_name: &String, interface_name: &String, field_name: &String) -> (m:
    String)
    ensures
        m@ == missing_field_message(owner_name@, interface_name@, field_name@),
{
    let mut m = String::from_str("Type \"");
    m.append(owner_name.as_str());
    m.append("\" implements interface \"");
    m.append(interface_name.as_str());
    m.append("\" but is missing field \"");
    m.append(field_name.as_str());
    m.append("\"");
    m
}

// ---------------------------------------------------------------------------
// Before the merge
// ---------------------------------------------------------------------------

pub open spec fn subgraph_names(subgraphs: Seq<Subgraph>) -> Seq<Seq<char>> {
    subgraphs.map_values(|g: Subgraph| g.name@)
}

/// One error for each name that an earlier name in the list repeats, in order.
pub open spec fn duplicate_name_errors(names: Seq<Seq<char>>) -> Seq<CompositionErrorView>
    decreases names.len(),
{
    if names.len() == 0 {
        seq![]
    } else {
        duplicate_name_errors(names.drop_last()) + if names.drop_last().contains(names.last()) {
            seq![CompositionErrorView::InvalidGraphQL(duplicate_name_message(names.last()))]
        } else {
            seq![]
        }
    }
}

pub open spec fn some_subgraph_has_query(subgraphs: Seq<Subgraph>) -> bool {
    exists|i: int| 0 <= i < subgraphs.len() && (#[trigger] schema_query_root(subgraphs[i].schema)) is Some
}

pub open spec fn all_subgraphs_fed_2(subgraphs: Seq<Subgraph>) -> bool {
    forall|i: int| 0 <= i < subgraphs.len() ==> #[trigger] is_fed_2_schema(subgraphs[i].schema)
}

/// The errors that the validations before the merge report, in order: the
/// repeated subgraph names, a missing query root in every subgraph, and a
/// subgraph that is not a federation 2 subgraph.
pub open spec fn pre_merge_errors(subgraphs: Seq<Subgraph>) -> Seq<CompositionErrorView> {
    duplicate_name_errors(subgraph_names(subgraphs)) + (if some_subgraph_has_query(subgraphs) {
        seq![]
    } else {
        seq![CompositionErrorView::InvalidGraphQL(no_query_message())]
    }) + (if all_subgraphs_fed_2(subgraphs) {
        seq![]
    } else {
        seq![CompositionErrorView::InvalidGraphQL(not_fed_2_message())]
    })
}

/// Whether an earlier subgraph than the one at `i` has its name.
fn name_seen_before(subgraphs: &[Subgraph], i: usize) -> (r: bool)
    requires
        i < subgraphs@.len(),
    ensures
        r == subgraph_names(subgraphs@).take(i as int).contains(subgraphs@[i as int].name@),
{
    let ghost names = subgraph_names(subgraphs@);
    let mut j: usize = 0;
    while j < i
        invariant
            i < subgraphs@.len(),
            names == subgraph_names(subgraphs@),
            j <= i,
            forall|k: int| 0 <= k < j ==> names[k] != subgraphs@[i as int].name@,
        decreases i - j,
    {
        if subgraphs[j].name == subgraphs[i].name {
            assert(names.take(i as int)[j as int] == subgraphs@[i as int].name@);
            return true;
        }
        j = j + 1;
    }
    proof {
        assert forall|k: int| 0 <= k < names.take(i as int).len() implies names.take(
            i as int,
        )[k] != subgraphs@[i as int].name@ by {
            assert(names.take(i as int)[k] == names[k]);
        }
    }
    false
}

/// Perform validations that require information about all available subgraphs:
/// subgraph names are unique, some subgraph has a query root type, and all
/// subgraphs are federation 2 subgraphs.
pub fn pre_merge_validations(subgraphs: &[Subgraph]) -> (r: Result<(), Vec<CompositionError>>)
    ensures
        r is Ok <==> pre_merge_errors(subgraphs@).len() == 0,
        r matches Err(errors) ==> errors_view(errors@) == pre_merge_errors(subgraphs@),
{
    let ghost names = subgraph_names(subgraphs@);
    let mut errors: Vec<CompositionError> = Vec::new();
    let n = subgraphs.len();
    let mut i: usize = 0;
    while i < n
        invariant
            n == subgraphs@.len(),
            names == subgraph_names(subgraphs@),
            i <= n,
            errors_view(errors@) == duplicate_name_errors(names.take(i as int)),
        decreases n - i,
    {
        let seen = name_seen_before(subgraphs, i);
        proof {
            let t = names.take(i as int + 1);
            assert(t.drop_last() =~= names.take(i as int));
            assert(t.last() == subgraphs@[i as int].name@);
        }
        if seen {
            let message = duplicate_name_message_string(&subgraphs[i].name);
            let ghost before = errors@;
            errors.push(CompositionError::InvalidGraphQL { message });
            assert(errors_view(errors@) =~= errors_view(before).push(errors@.last()@));
        }
        i = i + 1;
    }
    assert(names.take(n as int) =~= names);
    let ghost dup_errors = errors_view(errors@);

    let mut has_query = false;
    let mut i: usize = 0;
    while i < n
        invariant
            n == subgraphs@.len(),
            i <= n,
            has_query <==> exists|k: int| 0 <= k < i && (#[trigger] schema_query_root(subgraphs@[k].schema)) is Some,
        decreases n - i,
    {
        let root = schema_query_root_name(&subgraphs[i].schema);
        if root.is_some() {
            assert(schema_query_root(subgraphs@[i as int].schema) is Some);
            has_query = true;
        }
        i = i + 1;
    }
    if !has_query {
        let ghost before = errors@;
        errors.push(
            CompositionError::InvalidGraphQL {
                message: String::from_str(
                    "No queries found in any subgraph: a supergraph must have a query root type.",
                ),
            },
        );
        assert(errors_view(errors@) =~= errors_view(before).push(errors@.last()@));
    }
    let ghost query_errors = errors_view(errors@);
    assert(query_errors =~= dup_errors + (if some_subgraph_has_query(subgraphs@) {
        seq![]
    } else {
        seq![CompositionErrorView::InvalidGraphQL(no_query_message())]
    }));

    let mut all_fed_2 = true;
    let mut i: usize = 0;
    while i < n
        invariant
            n == subgraphs@.len(),
            i <= n,
            all_fed_2 <==> forall|k: int| 0 <= k < i ==> #[trigger] is_fed_2_schema(subgraphs@[k].schema),
        decreases n - i,
    {
        if !is_fed_2(&subgraphs[i].schema) {
            all_fed_2 = false;
        }
        i = i + 1;
    }
    if !all_fed_2 {
        let ghost before = errors@;
        errors.push(
            CompositionError::InvalidGraphQL {
                message: String::from_str("Merging should only be applied to federation 2 subgraphs"),
            },
        );
        assert(errors_view(errors@) =~= errors_view(before).push(errors@.last()@));
    }
    assert(errors_view(errors@) =~= pre_merge_errors(subgraphs@));
    if errors.len() == 0 {
        Ok(())
    } else {
        Err(errors)
    }
}

// ---------------------------------------------------------------------------
// After the merge
// ---------------------------------------------------------------------------

/// The first type of the list with the given name.
pub open spec fn lookup_type(types: Seq<TypeShape>, name: Seq<char>) -> Option<TypeShape>
    decreases types.len(),
{
    if types.len() == 0 {
        None
    } else if types[0].0 == name {
        Some(types[0])
    } else {
        lookup_type(types.drop_first(), name)
    }
}

/// One error for each field of the interface, in order, that the type lacks.
pub open spec fn missing_field_errors(
    owner_name: Seq<char>,
    type_fields: Seq<Seq<char>>,
    interface_name: Seq<char>,
    interface_fields: Seq<Seq<char>>,
) -> Seq<CompositionErrorView>
    decreases interface_fields.len(),
{
    if interface_fields.len() == 0 {
        seq![]
    } else {
        missing_field_errors(owner_name, type_fields, interface_name, interface_fields.drop_last())
            + if type_fields.contains(interface_fields.last()) {
            seq![]
        } else {
            seq![
                CompositionErrorView::InterfaceObjectUsageError(
                    missing_field_message(owner_name, interface_name, interface_fields.last()),
                ),
            ]
        }
    }
}

/// The errors for one declared interface of a type: where the schema defines
/// an interface type of that name, one for each of its fields the type lacks.
pub open spec fn interface_errors(
    types: Seq<TypeShape>,
    t: TypeShape,
    interface_name: Seq<char>,
) -> Seq<CompositionErrorView> {
    match lookup_type(types, interface_name) {
        Some(i) => if i.1 == TypeKind::Interface {
            missing_field_errors(t.0, t.3, interface_name, i.3)
        } else {
            seq![]
        },
        None => seq![],
    }
}

/// The errors for a type, over the given prefix of the interfaces it declares.
pub open spec fn declared_interfaces_errors(
    types: Seq<TypeShape>,
    t: TypeShape,
    interfaces: Seq<Seq<char>>,
) -> Seq<CompositionErrorView>
    decreases interfaces.len(),
{
    if interfaces.len() == 0 {
        seq![]
    } else {
        declared_interfaces_errors(types, t, interfaces.drop_last()) + interface_errors(
            types,
            t,
            interfaces.last(),
        )
    }
}

/// The errors for one type: none unless it is an object or interface type.
pub open spec fn type_errors(types: Seq<TypeShape>, t: TypeShape) -> Seq<CompositionErrorView> {
    if t.1 == TypeKind::Object || t.1 == TypeKind::Interface {
        declared_interfaces_errors(types, t, t.2)
    } else {
        seq![]
    }
}

/// The errors for the given prefix of the schema's types, in order.
pub open spec fn types_errors(types: Seq<TypeShape>, prefix: Seq<TypeShape>) -> Seq<
    CompositionErrorView,
>
    decreases prefix.len(),
{
    if prefix.len() == 0 {
        seq![]
    } else {
        types_errors(types, prefix.drop_last()) + type_errors(types, prefix.last())
    }
}

/// Every missing interface field of every object and interface type, in the
/// order of the types, of their declared interfaces and of the interfaces' fields.
pub open spec fn interface_implementation_errors(types: Seq<TypeShape>) -> Seq<CompositionErrorView> {
    types_errors(types, types)
}

/// The errors that the validations after the merge report, in order.
pub open spec fn post_merge_errors(schema: Schema) -> Seq<CompositionErrorView> {
    (if schema_query_root(schema) is Some {
        seq![]
    } else {
        seq![CompositionErrorView::InvalidGraphQL(no_query_root_message())]
    }) + interface_implementation_errors(schema_types(schema))
}

proof fn lemma_lookup_first(types: Seq<TypeShape>, name: Seq<char>, i: int)
    requires
        0 <= i < types.len(),
        types[i].0 == name,
        forall|k: int| 0 <= k < i ==> types[k].0 != name,
    ensures
        lookup_type(types, name) == Some(types[i]),
    decreases i,
{
    if i > 0 {
        lemma_lookup_first(types.drop_first(), name, i - 1);
    }
}

proof fn lemma_lookup_none(types: Seq<TypeShape>, name: Seq<char>)
    requires
        forall|k: int| 0 <= k < types.len() ==> types[k].0 != name,
    ensures
        lookup_type(types, name) is None,
    decreases types.len(),
{
    if types.len() > 0 {
        lemma_lookup_none(types.drop_first(), name);
    }
}

/// The position of the first type of the schema with the given name.
fn find_type(schema: &Schema, name: &String) -> (r: Option<(usize, TypeKind)>)
    ensures
        match r {
            Some((i, kind)) => i < schema_types(*schema).len() && lookup_type(schema_types(*schema), name@)
                == Some(schema_types(*schema)[i as int]) && kind == schema_types(*schema)[i as int].1,
            None => lookup_type(schema_types(*schema), name@) is None,
        },
{
    let ghost types = schema_types(*schema);
    let n = schema_type_count(schema);
    let mut i: usize = 0;
    while i < n
        invariant
            types == schema_types(*schema),
            n == types.len(),
            i <= n,
            forall|k: int| 0 <= k < i ==> types[k].0 != name@,
        decreases n - i,
    {
        let (owner_name, kind) = schema_type_header(schema, i);
        if owner_name == *name {
            proof {
                lemma_lookup_first(types, name@, i as int);
            }
            return Some((i, kind));
        }
        i = i + 1;
    }
    proof {
        lemma_lookup_none(types, name@);
    }
    None
}

fn contains_string(names: &Vec<String>, name: &String) -> (r: bool)
    ensures
        r == strings_view(names@).contains(name@),
{
    let mut i: usize = 0;
    while i < names.len()
        invariant
            i <= names@.len(),
            forall|k: int| 0 <= k < i ==> names@[k]@ != name@,
        decreases names@.len() - i,
    {
        if names[i] == *name {
            assert(strings_view(names@)[i as int] == name@);
            return true;
        }
        i = i + 1;
    }
    proof {
        assert forall|k: int| 0 <= k < strings_view(names@).len() implies strings_view(names@)[k]
            != name@ by {
            assert(strings_view(names@)[k] == names@[k]@);
        }
    }
    false
}

/// The errors for one declared interface of the type at position `t` of the schema.
fn interface_errors_of(schema: &Schema, t: usize, owner_name: &String, type_fields: &Vec<String>, interface_name: &String) -> (errors: Vec<CompositionError>)
    requires
        t < schema_types(*schema).len(),
        owner_name@ == schema_types(*schema)[t as int].0,
        strings_view(type_fields@) == schema_types(*schema)[t as int].3,
    ensures
        errors_view(errors@) == interface_errors(schema_types(*schema), schema_types(*schema)[t as int], interface_name@),
{
    let ghost types = schema_types(*schema);
    let mut errors: Vec<CompositionError> = Vec::new();
    match find_type(schema, interface_name) {
        Some((i, kind)) => {
            if kind == TypeKind::Interface {
                let fields = schema_type_fields(schema, i);
                let ghost interface_fields = strings_view(fields@);
                let mut k: usize = 0;
                while k < fields.len()
                    invariant
                        interface_fields == strings_view(fields@),
                        strings_view(type_fields@) == types[t as int].3,
                        owner_name@ == types[t as int].0,
                        k <= fields@.len(),
                        errors_view(errors@) == missing_field_errors(
                            types[t as int].0,
                            types[t as int].3,
                            interface_name@,
                            interface_fields.take(k as int),
                        ),
                    decreases fields@.len() - k,
                {
                    proof {
                        let p = interface_fields.take(k as int + 1);
                        assert(p.drop_last() =~= interface_fields.take(k as int));
                        assert(p.last() == fields@[k as int]@);
                    }
                    if !contains_string(type_fields, &fields[k]) {
                        let message = missing_field_message_string(owner_name, interface_name, &fields[k]);
                        let ghost before = errors@;
                        errors.push(CompositionError::InterfaceObjectUsageError { message });
                        assert(errors_view(errors@) =~= errors_view(before).push(errors@.last()@));
                    }
                    k = k + 1;
                }
                assert(interface_fields.take(fields@.len() as int) =~= interface_fields);
            }
        },
        None => {},
    }
    errors
}

/// Every missing interface field of every object and interface type of the schema.
fn interface_implementation_errors_of(schema: &Schema) -> (errors: Vec<CompositionError>)
    ensures
        errors_view(errors@) == interface_implementation_errors(schema_types(*schema)),
{
    let ghost types = schema_types(*schema);
    let mut errors: Vec<CompositionError> = Vec::new();
    let n = schema_type_count(schema);
    let mut t: usize = 0;
    while t < n
        invariant
            types == schema_types(*schema),
            n == types.len(),
            t <= n,
            errors_view(errors@) == types_errors(types, types.take(t as int)),
        decreases n - t,
    {
        proof {
            let p = types.take(t as int + 1);
            assert(p.drop_last() =~= types.take(t as int));
            assert(p.last() == types[t as int]);
        }
        let (owner_name, kind) = schema_type_header(schema, t);
        if kind == TypeKind::Object || kind == TypeKind::Interface {
            let interfaces = schema_type_interfaces(schema, t);
            let type_fields = schema_type_fields(schema, t);
            let ghost declared = strings_view(interfaces@);
            let ghost start = errors_view(errors@);
            let mut j: usize = 0;
            while j < interfaces.len()
                invariant
                    types == schema_types(*schema),
                    t < types.len(),
                    owner_name@ == types[t as int].0,
                    strings_view(type_fields@) == types[t as int].3,
                    declared == strings_view(interfaces@),
                    j <= interfaces@.len(),
                    errors_view(errors@) == start + declared_interfaces_errors(types, types[t as int], declared.take(j as int)),
                decreases interfaces@.len() - j,
            {
                proof {
                    let p = declared.take(j as int + 1);
                    assert(p.drop_last() =~= declared.take(j as int));
                    assert(p.last() == interfaces@[j as int]@);
                }
                let mut more = interface_errors_of(schema, t, &owner_name, &type_fields, &interfaces[j]);
                let ghost before = errors_view(errors@);
                let ghost added = errors_view(more@);
                errors.append(&mut more);
                assert(errors_view(errors@) =~= before + added);
                j = j + 1;
            }
            assert(declared.take(interfaces@.len() as int) =~= declared);
        }
        t = t + 1;
    }
    assert(types.take(n as int) =~= types);
    errors
}

/// Validates that object and interface types implement every field of the
/// interfaces they declare, adding an error for each missing field.
pub fn validate_interface_implementations(errors: &mut Vec<CompositionError>, schema: &Schema)
    ensures
        errors_view(final(errors)@) == errors_view(old(errors)@) + interface_implementation_errors(
            schema_types(*schema),
        ),
{
    let mut found = interface_implementation_errors_of(schema);
    let ghost before = errors_view(errors@);
    let ghost added = errors_view(found@);
    errors.append(&mut found);
    assert(errors_view(errors@) =~= before + added);
}

/// Validations of the merged supergraph: it has a query root type, and its
/// object and interface types implement the interfaces they declare.
pub fn post_merge_validations(supergraph: &Supergraph) -> (r: Result<(), Vec<CompositionError>>)
    ensures
        r is Ok <==> post_merge_errors(supergraph.spec_schema()).len() == 0,
        r matches Err(errors) ==> errors_view(errors@) == post_merge_errors(supergraph.spec_schema()),
{
    let mut errors: Vec<CompositionError> = Vec::new();
    let schema = supergraph.schema();
    let root = schema_query_root_name(schema);
    if root.is_none() {
        errors.push(
            CompositionError::InvalidGraphQL {
                message: String::from_str("Merged supergraph must have a query root type"),
            },
        );
    }
    assert(errors_view(errors@) =~= (if schema_query_root(*schema) is Some {
        seq![]
    } else {
        seq![CompositionErrorView::InvalidGraphQL(no_query_root_message())]
    }));
    validate_interface_implementations(&mut errors, schema);
    if errors.len() == 0 {
        Ok(())
    } else {
        Err(errors)
    }
}

// ---------------------------------------------------------------------------
// Laws
// ---------------------------------------------------------------------------

pub open spec fn names_distinct(names: Seq<Seq<char>>) -> bool {
    forall|i: int, j: int| 0 <= i < j < names.len() ==> names[i] != names[j]
}

proof fn lemma_duplicate_errors_empty(names: Seq<Seq<char>>)
    ensures
        duplicate_name_errors(names).len() == 0 <==> names_distinct(names),
    decreases names.len(),
{
    if names.len() > 0 {
        let p = names.drop_last();
        lemma_duplicate_errors_empty(p);
        if names_distinct(names) {
            assert forall|i: int, j: int| 0 <= i < j < p.len() implies p[i] != p[j] by {
                assert(p[i] == names[i] && p[j] == names[j]);
            }
            if p.contains(names.last()) {
                let k = choose|k: int| 0 <= k < p.len() && p[k] == names.last();
                assert(names[k] == names[names.len() - 1]);
            }
        }
        if duplicate_name_errors(names).len() == 0 {
            assert forall|i: int, j: int| 0 <= i < j < names.len() implies names[i] != names[j] by {
                if j == names.len() - 1 {
                    assert(p[i] == names[i]);
                    assert(!p.contains(names.last()));
                } else {
                    assert(p[i] == names[i] && p[j] == names[j]);
                }
            }
        }
    }
}

/// The validations before the merge pass exactly when the subgraph names are
/// unique, some subgraph has a query root type, and every subgraph is a
/// federation 2 subgraph; a failure reports one error for each subgraph whose
/// name an earlier subgraph already has.
pub proof fn law_pre_merge_passes_exactly(subgraphs: Seq<Subgraph>)
    ensures
        pre_merge_errors(subgraphs).len() == 0 <==> names_distinct(subgraph_names(subgraphs))
            && some_subgraph_has_query(subgraphs) && all_subgraphs_fed_2(subgraphs),
{
    lemma_duplicate_errors_empty(subgraph_names(subgraphs));
}

/// A type implements every field of each interface type it declares (where
/// the schema defines a type of that name, and that type is an interface).
pub open spec fn implements_declared_interfaces(types: Seq<TypeShape>, t: TypeShape) -> bool {
    forall|j: int|
        0 <= j < t.2.len() ==> match #[trigger] lookup_type(types, t.2[j]) {
            Some(i) => i.1 == TypeKind::Interface ==> forall|f: int|
                0 <= f < i.3.len() ==> t.3.contains(#[trigger] i.3[f]),
            None => true,
        }
}

proof fn lemma_missing_fields_empty(
    tn: Seq<char>,
    tf: Seq<Seq<char>>,
    iname: Seq<char>,
    ifields: Seq<Seq<char>>,
)
    ensures
        missing_field_errors(tn, tf, iname, ifields).len() == 0 <==> forall|f: int|
            0 <= f < ifields.len() ==> tf.contains(#[trigger] ifields[f]),
    decreases ifields.len(),
{
    if ifields.len() > 0 {
        let p = ifields.drop_last();
        lemma_missing_fields_empty(tn, tf, iname, p);
        if forall|f: int| 0 <= f < ifields.len() ==> tf.contains(#[trigger] ifields[f]) {
            assert forall|f: int| 0 <= f < p.len() implies tf.contains(#[trigger] p[f]) by {
                assert(p[f] == ifields[f]);
            }
            assert(tf.contains(ifields[ifields.len() - 1]));
        }
        if missing_field_errors(tn, tf, iname, ifields).len() == 0 {
            assert forall|f: int| 0 <= f < ifields.len() implies tf.contains(#[trigger] ifields[f]) by {
                if f < p.len() {
                    assert(p[f] == ifields[f]);
                }
            }
        }
    }
}

proof fn lemma_declared_empty(types: Seq<TypeShape>, t: TypeShape, ifs: Seq<Seq<char>>)
    ensures
        declared_interfaces_errors(types, t, ifs).len() == 0 <==> forall|j: int|
            0 <= j < ifs.len() ==> (#[trigger] interface_errors(types, t, ifs[j])).len() == 0,
    decreases ifs.len(),
{
    if ifs.len() > 0 {
        let p = ifs.drop_last();
        lemma_declared_empty(types, t, p);
        if forall|j: int| 0 <= j < ifs.len() ==> (#[trigger] interface_errors(types, t, ifs[j])).len() == 0 {
            assert forall|j: int| 0 <= j < p.len() implies (#[trigger] interface_errors(types, t, p[j])).len() == 0 by {
                assert(p[j] == ifs[j]);
            }
            assert(interface_errors(types, t, ifs[ifs.len() - 1]).len() == 0);
        }
        if declared_interfaces_errors(types, t, ifs).len() == 0 {
            assert forall|j: int| 0 <= j < ifs.len() implies (#[trigger] interface_errors(types, t, ifs[j])).len() == 0 by {
                if j < p.len() {
                    assert(p[j] == ifs[j]);
                }
            }
        }
    }
}

proof fn lemma_interface_errors_empty(types: Seq<TypeShape>, t: TypeShape, name: Seq<char>)
    ensures
        interface_errors(types, t, name).len() == 0 <==> match lookup_type(types, name) {
            Some(i) => i.1 == TypeKind::Interface ==> forall|f: int|
                0 <= f < i.3.len() ==> t.3.contains(#[trigger] i.3[f]),
            None => true,
        },
{
    match lookup_type(types, name) {
        Some(i) => {
            lemma_missing_fields_empty(t.0, t.3, name, i.3);
        },
        None => {},
    }
}

proof fn lemma_type_errors_empty(types: Seq<TypeShape>, t: TypeShape)
    ensures
        type_errors(types, t).len() == 0 <==> ((t.1 == TypeKind::Object || t.1 == TypeKind::Interface)
            ==> implements_declared_interfaces(types, t)),
{
    if t.1 == TypeKind::Object || t.1 == TypeKind::Interface {
        lemma_declared_empty(types, t, t.2);
        if type_errors(types, t).len() == 0 {
            assert forall|j: int| 0 <= j < t.2.len() implies match #[trigger] lookup_type(types, t.2[j]) {
                Some(i) => i.1 == TypeKind::Interface ==> forall|f: int|
                    0 <= f < i.3.len() ==> t.3.contains(#[trigger] i.3[f]),
                None => true,
            } by {
                assert(interface_errors(types, t, t.2[j]).len() == 0);
                lemma_interface_errors_empty(types, t, t.2[j]);
            }
        }
        if implements_declared_interfaces(types, t) {
            assert forall|j: int| 0 <= j < t.2.len() implies (#[trigger] interface_errors(
                types,
                t,
                t.2[j],
            )).len() == 0 by {
                let _ = lookup_type(types, t.2[j]);
                lemma_interface_errors_empty(types, t, t.2[j]);
            }
        }
    }
}

proof fn lemma_types_errors_empty(types: Seq<TypeShape>, prefix: Seq<TypeShape>)
    ensures
        types_errors(types, prefix).len() == 0 <==> forall|i: int|
            0 <= i < prefix.len() ==> (#[trigger] type_errors(types, prefix[i])).len() == 0,
    decreases prefix.len(),
{
    if prefix.len() > 0 {
        let p = prefix.drop_last();
        lemma_types_errors_empty(types, p);
        if forall|i: int| 0 <= i < prefix.len() ==> (#[trigger] type_errors(types, prefix[i])).len() == 0 {
            assert forall|i: int| 0 <= i < p.len() implies (#[trigger] type_errors(types, p[i])).len() == 0 by {
                assert(p[i] == prefix[i]);
            }
            assert(type_errors(types, prefix[prefix.len() - 1]).len() == 0);
        }
        if types_errors(types, prefix).len() == 0 {
            assert forall|i: int| 0 <= i < prefix.len() implies (#[trigger] type_errors(types, prefix[i])).len() == 0 by {
                if i < p.len() {
                    assert(p[i] == prefix[i]);
                }
            }
        }
    }
}

/// The validations after the merge pass exactly when the supergraph has a
/// query root type and every object and interface type implements every
/// field of each interface it declares.
pub proof fn law_post_merge_passes_exactly(schema: Schema)
    ensures
        post_merge_errors(schema).len() == 0 <==> schema_query_root(schema) is Some && forall|i: int|
            0 <= i < schema_types(schema).len() ==> ((schema_types(schema)[i].1 == TypeKind::Object
                || schema_types(schema)[i].1 == TypeKind::Interface) ==> implements_declared_interfaces(
                schema_types(schema),
                #[trigger] schema_types(schema)[i],
            )),
{
    let types = schema_types(schema);
    lemma_types_errors_empty(types, types);
    if types_errors(types, types).len() == 0 {
        assert forall|i: int|
            0 <= i < types.len() && (types[i].1 == TypeKind::Object || types[i].1
                == TypeKind::Interface) implies implements_declared_interfaces(
            types,
            #[trigger] types[i],
        ) by {
            assert(type_errors(types, types[i]).len() == 0);
            lemma_type_errors_empty(types, types[i]);
        }
    }
    if forall|i: int| 0 <= i < types.len() ==> ((types[i].1 == TypeKind::Object
        || types[i].1 == TypeKind::Interface) ==> implements_declared_interfaces(
        types,
        #[trigger] types[i],
    )) {
        assert forall|i: int| 0 <= i < types.len() implies (#[trigger] type_errors(types, types[i])).len()
            == 0 by {
            lemma_type_errors_empty(types, types[i]);
        }
    }
}

proof fn lemma_map_keeps_multiset<A, B>(s1: Seq<A>, s2: Seq<A>, f: spec_fn(A) -> B)
    requires
        s1.to_multiset() == s2.to_multiset(),
    ensures
        s1.map_values(f).to_multiset() == s2.map_values(f).to_multiset(),
    decreases s1.len(),
{
    broadcast use vstd::seq_lib::group_to_multiset_ensures;

    if s1.len() == 0 {
        assert(s2.to_multiset().len() == 0);
        assert(s1.map_values(f) =~= Seq::<B>::empty());
        assert(s2.map_values(f) =~= Seq::<B>::empty());
    } else {
        let a = s1.last();
        assert(s1.to_multiset().count(a) > 0) by {
            assert(s1.contains(a)) by {
                assert(s1[s1.len() - 1] == a);
            }
        }
        assert(s2.contains(a));
        let i = choose|i: int| 0 <= i < s2.len() && s2[i] == a;
        assert(s1.drop_last() =~= s1.remove(s1.len() - 1));
        assert(s1.drop_last().to_multiset() == s2.remove(i).to_multiset());
        lemma_map_keeps_multiset(s1.drop_last(), s2.remove(i), f);
        assert(s1.map_values(f) =~= s1.drop_last().map_values(f).push(f(a)));
        assert(s2.remove(i).map_values(f) =~= s2.map_values(f).remove(i));
        assert(s2.map_values(f)[i] == f(a));
        assert(s2.map_values(f).remove(i).to_multiset() == s2.map_values(f).to_multiset().remove(f(a)));
        assert(s2.map_values(f).to_multiset().count(f(a)) > 0) by {
            assert(s2.map_values(f).contains(f(a)));
        }
        assert(s1.map_values(f).to_multiset() =~= s2.map_values(f).to_multiset());
    }
}

proof fn lemma_duplicate_message_injective(a: Seq<char>, b: Seq<char>)
    requires
        duplicate_name_message(a) == duplicate_name_message(b),
    ensures
        a == b,
{
    let head = "Duplicate subgraph name: '"@;
    let l = head.len() as int;
    assert(duplicate_name_message(a).len() == l + a.len() + "'"@.len());
    assert(duplicate_name_message(b).len() == l + b.len() + "'"@.len());
    assert(a.len() == b.len());
    assert(duplicate_name_message(a).subrange(l, l + a.len()) =~= a);
    assert(duplicate_name_message(b).subrange(l, l + b.len()) =~= b);
}

pub open spec fn duplicate_error(name: Seq<char>) -> CompositionErrorView {
    CompositionErrorView::InvalidGraphQL(duplicate_name_message(name))
}

/// Each name occurring `k > 0` times gives `k - 1` errors, and there are no others.
proof fn lemma_duplicate_error_counts(names: Seq<Seq<char>>)
    ensures
        forall|n: Seq<char>|
            #![trigger duplicate_name_errors(names).to_multiset().count(duplicate_error(n))]
            duplicate_name_errors(names).to_multiset().count(duplicate_error(n)) == if names.to_multiset().count(n) > 0 {
                (names.to_multiset().count(n) - 1) as nat
            } else {
                0nat
            },
        forall|x: CompositionErrorView|
            (forall|n: Seq<char>| x != #[trigger] duplicate_error(n)) ==> #[trigger] duplicate_name_errors(
                names,
            ).to_multiset().count(x) == 0,
    decreases names.len(),
{
    broadcast use vstd::seq_lib::group_to_multiset_ensures;

    if names.len() == 0 {
        assert(duplicate_name_errors(names) =~= Seq::<CompositionErrorView>::empty());
    } else {
        let prefix = names.drop_last();
        let last = names.last();
        lemma_duplicate_error_counts(prefix);
        assert(names =~= prefix.push(last));
        let before = duplicate_name_errors(prefix);
        if prefix.contains(last) {
            assert(duplicate_name_errors(names) =~= before.push(duplicate_error(last)));
            assert forall|n: Seq<char>| #[trigger] duplicate_name_errors(names).to_multiset().count(duplicate_error(n))
                == if names.to_multiset().count(n) > 0 {
                (names.to_multiset().count(n) - 1) as nat
            } else {
                0nat
            } by {
                assert(before.to_multiset().count(duplicate_error(n)) == if prefix.to_multiset().count(n) > 0 {
                    (prefix.to_multiset().count(n) - 1) as nat
                } else {
                    0nat
                });
                if n != last {
                    if duplicate_error(n) == duplicate_error(last) {
                        lemma_duplicate_message_injective(n, last);
                    }
                }
            }
        } else {
            assert(duplicate_name_errors(names) =~= before);
            assert forall|n: Seq<char>| #[trigger] duplicate_name_errors(names).to_multiset().count(duplicate_error(n))
                == if names.to_multiset().count(n) > 0 {
                (names.to_multiset().count(n) - 1) as nat
            } else {
                0nat
            } by {
                assert(before.to_multiset().count(duplicate_error(n)) == if prefix.to_multiset().count(n) > 0 {
                    (prefix.to_multiset().count(n) - 1) as nat
                } else {
                    0nat
                });
            }
        }
    }
}

proof fn lemma_same_multiset_same_checks(p: Seq<Subgraph>, s: Seq<Subgraph>)
    requires
        p.to_multiset() == s.to_multiset(),
    ensures
        some_subgraph_has_query(p) ==> some_subgraph_has_query(s),
        all_subgraphs_fed_2(s) ==> all_subgraphs_fed_2(p),
{
    broadcast use vstd::seq_lib::group_to_multiset_ensures;

    if some_subgraph_has_query(p) {
        let i = choose|i: int| 0 <= i < p.len() && (#[trigger] schema_query_root(p[i].schema)) is Some;
        assert(p.contains(p[i]));
        assert(p.to_multiset().count(p[i]) > 0);
        assert(s.contains(p[i]));
        let j = choose|j: int| 0 <= j < s.len() && s[j] == p[i];
        assert(schema_query_root(s[j].schema) is Some);
    }
    if all_subgraphs_fed_2(s) {
        assert forall|i: int| 0 <= i < p.len() implies #[trigger] is_fed_2_schema(p[i].schema) by {
            assert(p.contains(p[i]));
            assert(p.to_multiset().count(p[i]) > 0);
            assert(s.contains(p[i]));
            let j = choose|j: int| 0 <= j < s.len() && s[j] == p[i];
            assert(is_fed_2_schema(s[j].schema));
        }
    }
}

/// The validations before the merge do not depend on the order of the
/// subgraphs: two orders of the same subgraphs give the same errors, as a
/// multiset (each name occurring `k` times gives `k - 1` duplicate-name
/// errors), and so pass or fail together.
pub proof fn law_pre_merge_order_independent(p: Seq<Subgraph>, s: Seq<Subgraph>)
    requires
        p.to_multiset() == s.to_multiset(),
    ensures
        pre_merge_errors(p).to_multiset() == pre_merge_errors(s).to_multiset(),
        (pre_merge_errors(p).len() == 0) == (pre_merge_errors(s).len() == 0),
{
    broadcast use vstd::seq_lib::group_to_multiset_ensures;

    let name_of = |g: Subgraph| g.name@;
    assert(subgraph_names(p) =~= p.map_values(name_of));
    assert(subgraph_names(s) =~= s.map_values(name_of));
    lemma_map_keeps_multiset(p, s, name_of);
    let np = subgraph_names(p);
    let ns = subgraph_names(s);
    lemma_duplicate_error_counts(np);
    lemma_duplicate_error_counts(ns);
    let dp = duplicate_name_errors(np);
    let ds = duplicate_name_errors(ns);
    assert forall|x: CompositionErrorView| dp.to_multiset().count(x) == ds.to_multiset().count(x) by {
        if exists|n: Seq<char>| x == #[trigger] duplicate_error(n) {
            let n = choose|n: Seq<char>| x == #[trigger] duplicate_error(n);
            assert(dp.to_multiset().count(duplicate_error(n)) == ds.to_multiset().count(duplicate_error(n)));
        }
    }
    assert(dp.to_multiset() =~= ds.to_multiset());
    lemma_same_multiset_same_checks(p, s);
    lemma_same_multiset_same_checks(s, p);
    let rest_p = (if some_subgraph_has_query(p) {
        seq![]
    } else {
        seq![CompositionErrorView::InvalidGraphQL(no_query_message())]
    }) + (if all_subgraphs_fed_2(p) {
        seq![]
    } else {
        seq![CompositionErrorView::InvalidGraphQL(not_fed_2_message())]
    });
    assert(pre_merge_errors(p) =~= dp + rest_p);
    assert(pre_merge_errors(s) =~= ds + rest_p);
    vstd::seq_lib::lemma_multiset_commutative(dp, rest_p);
    vstd::seq_lib::lemma_multiset_commutative(ds, rest_p);
    assert(pre_merge_errors(p).len() == pre_merge_errors(p).to_multiset().len());
    assert(pre_merge_errors(s).len() == pre_merge_errors(s).to_multiset().len());
}

proof fn lemma_missing_field_listed(
    tn: Seq<char>,
    tf: Seq<Seq<char>>,
    iname: Seq<char>,
    ifields: Seq<Seq<char>>,
    f: int,
)
    requires
        0 <= f < ifields.len(),
        !tf.contains(ifields[f]),
    ensures
        missing_field_errors(tn, tf, iname, ifields).contains(
            CompositionErrorView::InterfaceObjectUsageError(missing_field_message(tn, iname, ifields[f])),
        ),
    decreases ifields.len(),
{
    let p = ifields.drop_last();
    let before = missing_field_errors(tn, tf, iname, p);
    let e = CompositionErrorView::InterfaceObjectUsageError(missing_field_message(tn, iname, ifields[f]));
    if f == ifields.len() - 1 {
        let all = missing_field_errors(tn, tf, iname, ifields);
        assert(all[before.len() as int] == e);
    } else {
        assert(p[f] == ifields[f]);
        lemma_missing_field_listed(tn, tf, iname, p, f);
        let x = choose|x: int| 0 <= x < before.len() && before[x] == e;
        assert(missing_field_errors(tn, tf, iname, ifields)[x] == e);
    }
}

proof fn lemma_declared_listed(
    types: Seq<TypeShape>,
    t: TypeShape,
    ifs: Seq<Seq<char>>,
    j: int,
    e: CompositionErrorView,
)
    requires
        0 <= j < ifs.len(),
        interface_errors(types, t, ifs[j]).contains(e),
    ensures
        declared_interfaces_errors(types, t, ifs).contains(e),
    decreases ifs.len(),
{
    let p = ifs.drop_last();
    let before = declared_interfaces_errors(types, t, p);
    let all = declared_interfaces_errors(types, t, ifs);
    if j == ifs.len() - 1 {
        let x = choose|x: int| 0 <= x < interface_errors(types, t, ifs[j]).len() && interface_errors(types, t, ifs[j])[x] == e;
        assert(all[before.len() + x] == e);
    } else {
        assert(p[j] == ifs[j]);
        lemma_declared_listed(types, t, p, j, e);
        let x = choose|x: int| 0 <= x < before.len() && before[x] == e;
        assert(all[x] == e);
    }
}

proof fn lemma_types_listed(types: Seq<TypeShape>, prefix: Seq<TypeShape>, t: int, e: CompositionErrorView)
    requires
        0 <= t < prefix.len(),
        type_errors(types, prefix[t]).contains(e),
    ensures
        types_errors(types, prefix).contains(e),
    decreases prefix.len(),
{
    let p = prefix.drop_last();
    let before = types_errors(types, p);
    let all = types_errors(types, prefix);
    if t == prefix.len() - 1 {
        let x = choose|x: int| 0 <= x < type_errors(types, prefix[t]).len() && type_errors(types, prefix[t])[x] == e;
        assert(all[before.len() + x] == e);
    } else {
        assert(p[t] == prefix[t]);
        lemma_types_listed(types, p, t, e);
        let x = choose|x: int| 0 <= x < before.len() && before[x] == e;
        assert(all[x] == e);
    }
}

/// Every missing interface field is reported: for every object or interface
/// type of the schema, every interface it declares that the schema defines
/// (the first type of that name) as an interface type, and every field of
/// that interface the type lacks, the validations after the merge report
/// `Type "T" implements interface "I" but is missing field "f"`.
pub proof fn law_every_missing_field_reported(schema: Schema, t: int, j: int, k: int, f: int)
    requires
        0 <= t < schema_types(schema).len(),
        schema_types(schema)[t].1 == TypeKind::Object || schema_types(schema)[t].1 == TypeKind::Interface,
        0 <= j < schema_types(schema)[t].2.len(),
        0 <= k < schema_types(schema).len(),
        schema_types(schema)[k].0 == schema_types(schema)[t].2[j],
        forall|m: int| 0 <= m < k ==> schema_types(schema)[m].0 != schema_types(schema)[t].2[j],
        schema_types(schema)[k].1 == TypeKind::Interface,
        0 <= f < schema_types(schema)[k].3.len(),
        !schema_types(schema)[t].3.contains(schema_types(schema)[k].3[f]),
    ensures
        post_merge_errors(schema).contains(
            CompositionErrorView::InterfaceObjectUsageError(
                missing_field_message(
                    schema_types(schema)[t].0,
                    schema_types(schema)[t].2[j],
                    schema_types(schema)[k].3[f],
                ),
            ),
        ),
{
    let types = schema_types(schema);
    let ty = types[t];
    let name = ty.2[j];
    let e = CompositionErrorView::InterfaceObjectUsageError(missing_field_message(ty.0, name, types[k].3[f]));
    lemma_lookup_first(types, name, k);
    lemma_missing_field_listed(ty.0, ty.3, name, types[k].3, f);
    assert(interface_errors(types, ty, name).contains(e));
    lemma_declared_listed(types, ty, ty.2, j, e);
    assert(type_errors(types, ty).contains(e));
    lemma_types_listed(types, types, t, e);
    let head = (if schema_query_root(schema) is Some {
        seq![]
    } else {
        seq![CompositionErrorView::InvalidGraphQL(no_query_root_message())]
    });
    let x = choose|x: int| 0 <= x < types_errors(types, types).len() && types_errors(types, types)[x] == e;
    assert(post_merge_errors(schema)[head.len() + x] == e);
}

} // verus!
