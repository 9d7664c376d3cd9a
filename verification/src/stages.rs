//! What the composition stages make of the results of their per-subgraph
//! work, of the merge and of satisfiability validation.
use vstd::prelude::*;
use crate::error::{errors_view, hints_view, CompositionError, CompositionErrorView, CompositionHint};
use crate::graph::{Subgraph, Supergraph};
use crate::validation::subgraph_names;
use apollo_compiler::Schema;

verus! {

// ---------------------------------------------------------------------------
// Per-subgraph stages
// ---------------------------------------------------------------------------

/// The values of the successful results, in order.
pub open spec fn ok_values<T>(results: Seq<Result<T, CompositionError>>) -> Seq<T>
    decreases results.len(),
{
    if results.len() == 0 {
        seq![]
    } else {
        ok_values(results.drop_last()) + match results.last() {
            Ok(v) => seq![v],
            Err(_) => seq![],
        }
    }
}

/// The errors of the failed results, in order.
pub open spec fn err_values<T>(results: Seq<Result<T, CompositionError>>) -> Seq<CompositionErrorView>
    decreases results.len(),
{
    if results.len() == 0 {
        seq![]
    } else {
        err_values(results.drop_last()) + match results.last() {
            Ok(_) => seq![],
            Err(e) => seq![e@],
        }
    }
}

/// What a stage that works on each subgraph on its own makes of the results:
/// all the subgraphs it produced when no subgraph failed, else every error.
pub open spec fn collected<T>(results: Seq<Result<T, CompositionError>>, r: Result<Vec<T>, Vec<CompositionError>>) -> bool {
    match r {
        Ok(values) => err_values(results).len() == 0 && values@ == ok_values(results),
        Err(errors) => err_values(results).len() > 0 && errors_view(errors@) == err_values(results),
    }
}

/// Collecting the results of two runs of a per-subgraph stage one after the
/// other gives the values, and the errors, of the first run followed by those
/// of the second.
pub proof fn law_collect_concat<T>(a: Seq<Result<T, CompositionError>>, b: Seq<Result<T, CompositionError>>)
    ensures
        err_values(a + b) == err_values(a) + err_values(b),
        ok_values(a + b) == ok_values(a) + ok_values(b),
    decreases b.len(),
{
    if b.len() == 0 {
        assert(a + b =~= a);
        assert(err_values(a) + err_values(b) =~= err_values(a));
        assert(ok_values(a) + ok_values(b) =~= ok_values(a));
    } else {
        law_collect_concat(a, b.drop_last());
        assert((a + b).drop_last() =~= a + b.drop_last());
        assert((a + b).last() == b.last());
        assert(err_values(a + b) =~= err_values(a) + err_values(b));
        assert(ok_values(a + b) =~= ok_values(a) + ok_values(b));
    }
}

/// A single success gives its value and no error; a single failure gives its
/// error and no value.
pub proof fn law_collect_single<T>(r: Result<T, CompositionError>)
    ensures
        err_values(seq![r]) == match r {
            Ok(_) => Seq::<CompositionErrorView>::empty(),
            Err(e) => seq![e@],
        },
        ok_values(seq![r]) == match r {
            Ok(v) => seq![v],
            Err(_) => Seq::<T>::empty(),
        },
{
    let none = Seq::<Result<T, CompositionError>>::empty();
    assert(seq![r].drop_last() =~= none);
    assert(seq![r].last() == r);
    assert(err_values(none) == Seq::<CompositionErrorView>::empty());
    assert(ok_values(none) == Seq::<T>::empty());
    match r {
        Ok(v) => {
            assert(err_values(seq![r]) =~= err_values(none) + Seq::<CompositionErrorView>::empty());
            assert(ok_values(seq![r]) =~= ok_values(none) + seq![v]);
        },
        Err(e) => {
            assert(err_values(seq![r]) =~= err_values(none) + seq![e@]);
            assert(ok_values(seq![r]) =~= ok_values(none) + Seq::<T>::empty());
        },
    }
    assert(err_values(seq![r]) =~= match r {
        Ok(_) => Seq::<CompositionErrorView>::empty(),
        Err(e) => seq![e@],
    });
    assert(ok_values(seq![r]) =~= match r {
        Ok(v) => seq![v],
        Err(_) => Seq::<T>::empty(),
    });
}

/// A per-subgraph stage reports no error exactly when every subgraph passed.
pub proof fn law_collect_no_errors_iff_all_ok<T>(results: Seq<Result<T, CompositionError>>)
    ensures
        err_values(results).len() == 0 <==> forall|i: int| 0 <= i < results.len() ==> (#[trigger] results[i]) is Ok,
    decreases results.len(),
{
    if results.len() > 0 {
        let p = results.drop_last();
        law_collect_no_errors_iff_all_ok(p);
        assert(results.last() == results[results.len() - 1]);
        if forall|i: int| 0 <= i < results.len() ==> (#[trigger] results[i]) is Ok {
            assert forall|i: int| 0 <= i < p.len() implies (#[trigger] p[i]) is Ok by {
                assert(p[i] == results[i]);
            }
        }
        if err_values(results).len() == 0 {
            assert forall|i: int| 0 <= i < results.len() implies (#[trigger] results[i]) is Ok by {
                if i < p.len() {
                    assert(p[i] == results[i]);
                }
            }
        }
    }
}

/// Every subgraph's error is among the errors a per-subgraph stage reports.
pub proof fn law_collect_keeps_every_error<T>(results: Seq<Result<T, CompositionError>>, i: int)
    requires
        0 <= i < results.len(),
        results[i] is Err,
    ensures
        err_values(results).contains(results[i]->Err_0@),
    decreases results.len(),
{
    let p = results.drop_last();
    if i == results.len() - 1 {
        assert(err_values(results)[err_values(results).len() - 1] == results[i]->Err_0@);
    } else {
        assert(p[i] == results[i]);
        law_collect_keeps_every_error(p, i);
        let k = choose|k: int| 0 <= k < err_values(p).len() && err_values(p)[k] == results[i]->Err_0@;
        assert(err_values(results)[k] == err_values(p)[k]);
    }
}

/// When every subgraph passed, a per-subgraph stage gives each subgraph's
/// value, in order.
pub proof fn law_collect_all_ok<T>(results: Seq<Result<T, CompositionError>>)
    requires
        forall|i: int| 0 <= i < results.len() ==> (#[trigger] results[i]) is Ok,
    ensures
        ok_values(results).len() == results.len(),
        forall|i: int| 0 <= i < results.len() ==> results[i] == Ok::<T, CompositionError>(#[trigger] ok_values(results)[i]),
    decreases results.len(),
{
    if results.len() > 0 {
        let p = results.drop_last();
        assert forall|i: int| 0 <= i < p.len() implies (#[trigger] p[i]) is Ok by {
            assert(p[i] == results[i]);
        }
        law_collect_all_ok(p);
        assert(results.last() == results[results.len() - 1]);
        assert forall|i: int| 0 <= i < results.len() implies results[i] == Ok::<T, CompositionError>(
            #[trigger] ok_values(results)[i],
        ) by {
            if i < p.len() {
                assert(p[i] == results[i]);
                assert(ok_values(results)[i] == ok_values(p)[i]);
            }
        }
    }
}

fn collect_subgraph_results<T>(results: Vec<Result<T, CompositionError>>) -> (r: Result<Vec<T>, Vec<CompositionError>>)
    ensures
        collected(results@, r),
        r is Ok <==> forall|i: int| 0 <= i < results@.len() ==> (#[trigger] results@[i]) is Ok,
        r matches Ok(values) ==> values@.len() == results@.len() && forall|i: int|
            0 <= i < results@.len() ==> results@[i] == Ok::<T, CompositionError>(#[trigger] values@[i]),
        r matches Err(errors) ==> forall|i: int|
            0 <= i < results@.len() && (#[trigger] results@[i]) is Err ==> errors_view(errors@).contains(
                results@[i]->Err_0@,
            ),
{
    let ghost input = results@;
    let mut values: Vec<T> = Vec::new();
    let mut errors: Vec<CompositionError> = Vec::new();
    let mut rest = results;
    let n = rest.len();
    let mut i: usize = 0;
    while i < n
        invariant
            n == input.len(),
            i <= n,
            rest@ == input.skip(i as int),
            values@ == ok_values(input.take(i as int)),
            errors_view(errors@) == err_values(input.take(i as int)),
        decreases n - i,
    {
        let r = rest.remove(0);
        proof {
            let p = input.take(i as int + 1);
            assert(p.drop_last() =~= input.take(i as int));
            assert(p.last() == r);
            assert(rest@ =~= input.skip(i as int + 1));
        }
        match r {
            Ok(v) => {
                values.push(v);
            },
            Err(e) => {
                let ghost before = errors@;
                errors.push(e);
                assert(errors_view(errors@) =~= errors_view(before).push(errors@.last()@));
            },
        }
        i = i + 1;
    }
    assert(input.take(n as int) =~= input);
    proof {
        law_collect_no_errors_iff_all_ok(input);
        if err_values(input).len() == 0 {
            law_collect_all_ok(input);
        }
        assert forall|i: int| 0 <= i < input.len() && (#[trigger] input[i]) is Err implies err_values(
            input,
        ).contains(input[i]->Err_0@) by {
            law_collect_keeps_every_error(input, i);
        }
    }
    if errors.len() == 0 {
        Ok(values)
    } else {
        Err(errors)
    }
}

/// Collects what expanding each subgraph's links gave: the expanded subgraphs
/// when every subgraph expanded, else the errors of those that did not.
pub fn expand_subgraphs<T>(expanded: Vec<Result<T, CompositionError>>) -> (r: Result<
    Vec<T>,
    Vec<CompositionError>,
>)
    ensures
        collected(expanded@, r),
        r is Ok <==> forall|i: int| 0 <= i < expanded@.len() ==> (#[trigger] expanded@[i]) is Ok,
        r matches Ok(values) ==> values@.len() == expanded@.len() && forall|i: int|
            0 <= i < expanded@.len() ==> expanded@[i] == Ok::<T, CompositionError>(#[trigger] values@[i]),
        r matches Err(errors) ==> forall|i: int|
            0 <= i < expanded@.len() && (#[trigger] expanded@[i]) is Err ==> errors_view(errors@).contains(
                expanded@[i]->Err_0@,
            ),
{
    collect_subgraph_results(expanded)
}

/// Collects what validating each subgraph gave: the validated subgraphs when
/// every subgraph passed, else the errors of those that did not.
pub fn validate_subgraphs<T>(validated: Vec<Result<T, CompositionError>>) -> (r: Result<
    Vec<T>,
    Vec<CompositionError>,
>)
    ensures
        collected(validated@, r),
        r is Ok <==> forall|i: int| 0 <= i < validated@.len() ==> (#[trigger] validated@[i]) is Ok,
        r matches Ok(values) ==> values@.len() == validated@.len() && forall|i: int|
            0 <= i < validated@.len() ==> validated@[i] == Ok::<T, CompositionError>(#[trigger] values@[i]),
        r matches Err(errors) ==> forall|i: int|
            0 <= i < validated@.len() && (#[trigger] validated@[i]) is Err ==> errors_view(errors@).contains(
                validated@[i]->Err_0@,
            ),
{
    collect_subgraph_results(validated)
}

// ---------------------------------------------------------------------------
// Merge
// ---------------------------------------------------------------------------

/// What merging the federation subgraphs gave: the merged schema and the
/// warnings issued while merging, or the messages of the errors.
#[derive(Debug)]
pub enum MergeOutcome {
    Merged { schema: Schema, composition_hints: Vec<String> },
    Failed { errors: Vec<String> },
}

pub open spec fn merge_warning_code() -> Seq<char> {
    "MERGE_WARNING"@
}

pub open spec fn duplicate_subgraph_message(name: Seq<char>) -> Seq<char> {
    "A subgraph named \""@ + name + "\" already exists"@
}

/// The position of the first subgraph whose name an earlier one already has.
pub open spec fn first_repeated_name(names: Seq<Seq<char>>) -> Option<int> {
    if exists|i: int| 0 <= i < names.len() && #[trigger] names.take(i).contains(names[i]) {
        Some(
            choose|i: int|
                0 <= i < names.len() && #[trigger] names.take(i).contains(names[i]) && forall|j: int|
                    0 <= j < i ==> !names.take(j).contains(names[j]),
        )
    } else {
        None
    }
}

/// The errors that the merge stage reports for the given subgraphs and merge
/// outcome, or `None` where it succeeds.
pub open spec fn merge_errors(subgraphs: Seq<Subgraph>, outcome: MergeOutcome) -> Option<
    Seq<CompositionErrorView>,
> {
    let names = subgraph_names(subgraphs);
    match first_repeated_name(names) {
        Some(i) => Some(
            seq![CompositionErrorView::SubgraphError(names[i], duplicate_subgraph_message(names[i]))],
        ),
        None => match outcome {
            MergeOutcome::Merged { .. } => None,
            MergeOutcome::Failed { errors } => Some(
                errors@.map_values(|m: String| CompositionErrorView::InvalidGraphQL(m@)),
            ),
        },
    }
}

/// The hints that a successful merge reports: one per merge warning, in order.
pub open spec fn merge_hints(outcome: MergeOutcome) -> Seq<(Seq<char>, Seq<char>)> {
    match outcome {
        MergeOutcome::Merged { composition_hints, .. } => composition_hints@.map_values(
            |w: String| (merge_warning_code(), w@),
        ),
        MergeOutcome::Failed { .. } => seq![],
    }
}

proof fn lemma_first_repeated_none(names: Seq<Seq<char>>)
    requires
        forall|i: int| 0 <= i < names.len() ==> !(#[trigger] names.take(i).contains(names[i])),
    ensures
        first_repeated_name(names) is None,
{
}

proof fn lemma_first_repeated_some(names: Seq<Seq<char>>, i: int)
    requires
        0 <= i < names.len(),
        names.take(i).contains(names[i]),
        forall|j: int| 0 <= j < i ==> !(#[trigger] names.take(j).contains(names[j])),
    ensures
        first_repeated_name(names) == Some(i),
{
    let k = choose|k: int|
        0 <= k < names.len() && #[trigger] names.take(k).contains(names[k]) && forall|j: int|
            0 <= j < k ==> !names.take(j).contains(names[j]);
    if k < i {
        assert(!names.take(k).contains(names[k]));
    } else if k > i {
        assert(!names.take(i).contains(names[i]));
    }
}

fn string_in_prefix(names: &Vec<String>, n: usize, name: &String) -> (r: bool)
    requires
        n <= names@.len(),
    ensures
        r == names@.take(n as int).map_values(|s: String| s@).contains(name@),
{
    let ghost view = names@.take(n as int).map_values(|s: String| s@);
    let mut i: usize = 0;
    while i < n
        invariant
            n <= names@.len(),
            view == names@.take(n as int).map_values(|s: String| s@),
            i <= n,
            forall|k: int| 0 <= k < i ==> names@[k]@ != name@,
        decreases n - i,
    {
        if names[i] == *name {
            assert(view[i as int] == name@);
            return true;
        }
        i = i + 1;
    }
    proof {
        assert forall|k: int| 0 <= k < view.len() implies view[k] != name@ by {
            assert(view[k] == names@[k]@);
        }
    }
    false
}

proof fn lemma_first_repeat_exists(names: Seq<Seq<char>>, j: int)
    requires
        0 <= j < names.len(),
        names.take(j).contains(names[j]),
    ensures
        exists|x: int|
            0 <= x < names.len() && #[trigger] names.take(x).contains(names[x]) && forall|y: int|
                0 <= y < x ==> !names.take(y).contains(names[y]),
    decreases j,
{
    if exists|y: int| 0 <= y < j && #[trigger] names.take(y).contains(names[y]) {
        let y = choose|y: int| 0 <= y < j && #[trigger] names.take(y).contains(names[y]);
        lemma_first_repeat_exists(names, y);
    } else {
        assert(forall|y: int| 0 <= y < j ==> !names.take(y).contains(names[y]));
    }
}

proof fn lemma_first_repeated_found(names: Seq<Seq<char>>, i: int, j: int)
    requires
        0 <= i < j < names.len(),
        names[i] == names[j],
    ensures
        first_repeated_name(names) matches Some(l) && 0 <= l < names.len() && exists|k: int|
            0 <= k < l && #[trigger] names[k] == names[l],
{
    assert(names.take(j)[i] == names[i]);
    assert(names.take(j).contains(names[j]));
    lemma_first_repeat_exists(names, j);
    let l = first_repeated_name(names)->0;
    assert(0 <= l < names.len() && names.take(l).contains(names[l]));
    let k = choose|k: int| 0 <= k < names.take(l).len() && names.take(l)[k] == names[l];
    assert(names.take(l)[k] == names[k]);
}

/// A successful merge gives one `MERGE_WARNING` hint per merge warning, in
/// order, with the warning as its message.
pub proof fn law_merge_warnings_become_hints(schema: Schema, warnings: Vec<String>)
    ensures
        merge_hints(MergeOutcome::Merged { schema, composition_hints: warnings }).len() == warnings@.len(),
        forall|i: int|
            0 <= i < warnings@.len() ==> #[trigger] merge_hints(
                MergeOutcome::Merged { schema, composition_hints: warnings },
            )[i] == ("MERGE_WARNING"@, warnings@[i]@),
{
}

/// With no repeated name, a failed merge gives one `InvalidGraphQL` error per
/// merge error message, in order.
pub proof fn law_merge_errors_become_graphql_errors(subgraphs: Seq<Subgraph>, messages: Vec<String>)
    requires
        forall|i: int, j: int|
            0 <= i < j < subgraphs.len() ==> (#[trigger] subgraphs[i]).name@ != (#[trigger] subgraphs[j]).name@,
    ensures
        merge_errors(subgraphs, MergeOutcome::Failed { errors: messages }) matches Some(errors)
            && errors.len() == messages@.len() && forall|i: int|
            0 <= i < messages@.len() ==> #[trigger] errors[i] == CompositionErrorView::InvalidGraphQL(
                messages@[i]@,
            ),
{
    let names = subgraph_names(subgraphs);
    assert forall|x: int| 0 <= x < names.len() implies !(#[trigger] names.take(x).contains(names[x])) by {
        if names.take(x).contains(names[x]) {
            let y = choose|y: int| 0 <= y < names.take(x).len() && names.take(x)[y] == names[x];
            assert(names.take(x)[y] == names[y]);
            assert(subgraphs[y].name@ == names[y] && subgraphs[x].name@ == names[x]);
        }
    }
    lemma_first_repeated_none(names);
}

/// The merge refuses any repeated subgraph name, wherever the two subgraphs
/// stand: it fails with a single error, for a subgraph whose name an
/// earlier subgraph already has.
pub proof fn law_merge_refuses_repeated_names(
    subgraphs: Seq<Subgraph>,
    outcome: MergeOutcome,
    i: int,
    j: int,
)
    requires
        0 <= i < j < subgraphs.len(),
        subgraphs[i].name@ == subgraphs[j].name@,
    ensures
        merge_errors(subgraphs, outcome) matches Some(errors) && errors.len() == 1 && exists|k: int, l: int|
            #![trigger subgraphs[k], subgraphs[l]]
            0 <= k < l < subgraphs.len() && subgraphs[k].name@ == subgraphs[l].name@ && errors[0]
                == CompositionErrorView::SubgraphError(
                subgraphs[l].name@,
                duplicate_subgraph_message(subgraphs[l].name@),
            ),
{
    let names = subgraph_names(subgraphs);
    assert(names[i] == subgraphs[i].name@ && names[j] == subgraphs[j].name@);
    lemma_first_repeated_found(names, i, j);
    let l = first_repeated_name(names)->0;
    let k = choose|k: int| 0 <= k < l && #[trigger] names[k] == names[l];
    assert(names[k] == subgraphs[k].name@ && names[l] == subgraphs[l].name@);
    let errors = seq![CompositionErrorView::SubgraphError(names[l], duplicate_subgraph_message(names[l]))];
    assert(merge_errors(subgraphs, outcome) == Some(errors));
    assert(errors[0] == CompositionErrorView::SubgraphError(
        subgraphs[l].name@,
        duplicate_subgraph_message(subgraphs[l].name@),
    ));
}

/// A merge that succeeds had no two subgraphs with the same name.
pub proof fn law_merge_success_has_distinct_names(subgraphs: Seq<Subgraph>, outcome: MergeOutcome)
    requires
        merge_errors(subgraphs, outcome) is None,
    ensures
        forall|i: int, j: int|
            0 <= i < j < subgraphs.len() ==> (#[trigger] subgraphs[i]).name@ != (#[trigger] subgraphs[j]).name@,
{
    assert forall|i: int, j: int| 0 <= i < j < subgraphs.len() implies (#[trigger] subgraphs[i]).name@
        != (#[trigger] subgraphs[j]).name@ by {
        if subgraphs[i].name@ == subgraphs[j].name@ {
            law_merge_refuses_repeated_names(subgraphs, outcome, i, j);
        }
    }
}

/// Performs what follows the merge of the validated subgraphs, collecting
/// hints: a subgraph whose name an earlier one has cannot be taken into the
/// merge; otherwise the merge's errors become composition errors and its
/// warnings become hints with the code `MERGE_WARNING`.
pub fn merge_subgraphs_with_hints(subgraphs: &[Subgraph], outcome: MergeOutcome) -> (r: Result<
    (Supergraph, Vec<CompositionHint>),
    Vec<CompositionError>,
>)
    ensures
        r is Ok <==> merge_errors(subgraphs@, outcome) is None,
        r matches Err(errors) ==> merge_errors(subgraphs@, outcome) == Some(errors_view(errors@)),
        r matches Ok((supergraph, hints)) ==> outcome matches MergeOutcome::Merged { schema, .. }
            && supergraph.spec_schema() == schema && hints_view(hints@) == merge_hints(outcome),
        r is Ok ==> forall|i: int, j: int|
            0 <= i < j < subgraphs@.len() ==> (#[trigger] subgraphs@[i]).name@ != (#[trigger] subgraphs@[j]).name@,
{
    let ghost names = subgraph_names(subgraphs@);
    let mut taken: Vec<String> = Vec::new();
    let n = subgraphs.len();
    let mut i: usize = 0;
    while i < n
        invariant
            n == subgraphs@.len(),
            names == subgraph_names(subgraphs@),
            i <= n,
            taken@.len() == i,
            forall|k: int| 0 <= k < i ==> (#[trigger] taken@[k])@ == names[k],
            forall|j: int| 0 <= j < i ==> !(#[trigger] names.take(j).contains(names[j])),
        decreases n - i,
    {
        let name = subgraphs[i].name.clone();
        let ghost prefix = taken@.take(i as int).map_values(|s: String| s@);
        assert(prefix =~= names.take(i as int));
        if string_in_prefix(&taken, i, &name) {
            proof {
                lemma_first_repeated_some(names, i as int);
            }
            let mut message = String::from_str("A subgraph named \"");
            message.append(name.as_str());
            message.append("\" already exists");
            let mut errors: Vec<CompositionError> = Vec::new();
            errors.push(CompositionError::SubgraphError { subgraph: name, error: message });
            assert(errors_view(errors@) =~= seq![
                CompositionErrorView::SubgraphError(names[i as int], duplicate_subgraph_message(names[i as int])),
            ]);
            return Err(errors);
        }
        taken.push(name);
        i = i + 1;
    }
    proof {
        lemma_first_repeated_none(names);
        if merge_errors(subgraphs@, outcome) is None {
            law_merge_success_has_distinct_names(subgraphs@, outcome);
        }
    }
    match outcome {
        MergeOutcome::Merged { schema, composition_hints } => {
            let mut hints: Vec<CompositionHint> = Vec::new();
            let mut k: usize = 0;
            while k < composition_hints.len()
                invariant
                    k <= composition_hints@.len(),
                    hints_view(hints@) == composition_hints@.take(k as int).map_values(
                        |w: String| (merge_warning_code(), w@),
                    ),
                decreases composition_hints@.len() - k,
            {
                let ghost before = hints@;
                hints.push(
                    CompositionHint {
                        code: String::from_str("MERGE_WARNING"),
                        message: composition_hints[k].clone(),
                    },
                );
                assert(hints_view(hints@) =~= hints_view(before).push(hints@.last()@));
                assert(composition_hints@.take(k as int + 1).map_values(
                    |w: String| (merge_warning_code(), w@),
                ) =~= composition_hints@.take(k as int).map_values(
                    |w: String| (merge_warning_code(), w@),
                ).push((merge_warning_code(), composition_hints@[k as int]@)));
                k = k + 1;
            }
            assert(composition_hints@.take(composition_hints@.len() as int) =~= composition_hints@);
            Ok((Supergraph::new(schema), hints))
        },
        MergeOutcome::Failed { errors: messages } => {
            let mut errors: Vec<CompositionError> = Vec::new();
            let mut k: usize = 0;
            while k < messages.len()
                invariant
                    k <= messages@.len(),
                    errors_view(errors@) == messages@.take(k as int).map_values(
                        |m: String| CompositionErrorView::InvalidGraphQL(m@),
                    ),
                decreases messages@.len() - k,
            {
                let ghost before = errors@;
                errors.push(CompositionError::InvalidGraphQL { message: messages[k].clone() });
                assert(errors_view(errors@) =~= errors_view(before).push(errors@.last()@));
                assert(messages@.take(k as int + 1).map_values(
                    |m: String| CompositionErrorView::InvalidGraphQL(m@),
                ) =~= messages@.take(k as int).map_values(
                    |m: String| CompositionErrorView::InvalidGraphQL(m@),
                ).push(CompositionErrorView::InvalidGraphQL(messages@[k as int]@)));
                k = k + 1;
            }
            assert(messages@.take(messages@.len() as int) =~= messages@);
            Err(errors)
        },
    }
}

/// Performs what follows the merge of all validated subgraphs, without the hints.
pub fn merge_subgraphs(subgraphs: &[Subgraph], outcome: MergeOutcome) -> (r: Result<
    Supergraph,
    Vec<CompositionError>,
>)
    ensures
        r is Ok <==> merge_errors(subgraphs@, outcome) is None,
        r matches Err(errors) ==> merge_errors(subgraphs@, outcome) == Some(errors_view(errors@)),
        r matches Ok(supergraph) ==> outcome matches MergeOutcome::Merged { schema, .. }
            && supergraph.spec_schema() == schema,
        r is Ok ==> forall|i: int, j: int|
            0 <= i < j < subgraphs@.len() ==> (#[trigger] subgraphs@[i]).name@ != (#[trigger] subgraphs@[j]).name@,
{
    match merge_subgraphs_with_hints(subgraphs, outcome) {
        Ok((supergraph, _hints)) => Ok(supergraph),
        Err(errors) => Err(errors),
    }
}

// ---------------------------------------------------------------------------
// Satisfiability
// ---------------------------------------------------------------------------

/// What satisfiability validation of the merged supergraph reports, with the
/// hints it collects: it collects none.
pub fn validate_satisfiability_with_hints(
    validated: Result<Supergraph, Vec<CompositionError>>,
) -> (r: Result<(Supergraph, Vec<CompositionHint>), Vec<CompositionError>>)
    ensures
        match (validated, r) {
            (Ok(s1), Ok((s2, hints))) => s1 == s2 && hints@.len() == 0,
            (Err(e1), Err(e2)) => e1 == e2,
            _ => false,
        },
{
    match validated {
        Ok(supergraph) => Ok((supergraph, Vec::new())),
        Err(errors) => Err(errors),
    }
}

} // verus!
