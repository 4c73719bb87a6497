//! What holds of the reports on refused packages, and of the order of submissions.
use vstd::prelude::*;

use crate::backend::Backend;
use crate::error::{
    TemplateError, TemplatePackageError, TemplateUpdateError, TemplateUpdateMemberError,
};
use crate::names::{
    in_name_order, name_before, name_order_is_irreflexive, name_order_is_total,
    name_order_is_transitive,
};
use crate::registry::package::{
    compile_errors, compiled_members, errors_of, lemma_contains_after_push, lists_unresolved,
    named_pairs, package_committed, pair_before, reported_before, reports, PackageMember,
    Submission,
};
use crate::registry::update::{
    at_fault, is_fault, is_missing_dependency, repeated, update_applied,
};
use crate::registry::RegistryView;
use crate::template::Template;
use crate::text::texts;

verus! {

/// Which errors are reported, and in which order, is settled by the errors alone:
/// a report does not depend on how the errors of different names are mixed.
pub proof fn reports_are_unique(
    errors: Seq<TemplateError>,
    one: Seq<TemplateError>,
    other: Seq<TemplateError>,
)
    requires
        reports(errors, one),
        reports(errors, other),
    ensures
        one == other,
    decreases one.len(),
{
    if one.len() == 0 || other.len() == 0 {
        assert forall|name: Option<Seq<char>>| #[trigger] errors_of(errors, name).len() == 0 by {
            assert(errors_of(one, name) == errors_of(errors, name));
            assert(errors_of(other, name) == errors_of(errors, name));
            if one.len() == 0 {
                one.lemma_filter_len(|e: TemplateError| e.name_spec() == name);
            } else {
                other.lemma_filter_len(|e: TemplateError| e.name_spec() == name);
            }
        }
        if one.len() > 0 {
            lemma_first_is_listed(one);
            assert(errors_of(one, one[0].name_spec()) == errors_of(errors, one[0].name_spec()));
        }
        if other.len() > 0 {
            lemma_first_is_listed(other);
            assert(errors_of(other, other[0].name_spec()) == errors_of(
                errors,
                other[0].name_spec(),
            ));
        }
        assert(one =~= other);
    } else {
        let a = one[0].name_spec();
        let b = other[0].name_spec();
        lemma_first_is_listed(one);
        lemma_first_is_listed(other);
        assert(errors_of(one, a) == errors_of(errors, a));
        assert(errors_of(other, a) == errors_of(errors, a));
        assert(errors_of(one, b) == errors_of(errors, b));
        assert(errors_of(other, b) == errors_of(errors, b));
        lemma_listed_not_before_first(one, b);
        lemma_listed_not_before_first(other, a);
        if let (Some(x), Some(y)) = (a, b) {
            name_order_is_total(x, y);
        }
        assert(a == b);
        assert(one[0] == other[0]);
        let rest = one.drop_first();
        let other_rest = other.drop_first();
        assert forall|i: int, j: int| 0 <= i < j < rest.len() implies !#[trigger] reported_before(
            rest[j].name_spec(),
            rest[i].name_spec(),
        ) by {
            assert(!reported_before(one[j + 1].name_spec(), one[i + 1].name_spec()));
        }
        assert forall|i: int, j: int|
            0 <= i < j < other_rest.len() implies !#[trigger] reported_before(
            other_rest[j].name_spec(),
            other_rest[i].name_spec(),
        ) by {
            assert(!reported_before(other[j + 1].name_spec(), other[i + 1].name_spec()));
        }
        assert forall|name: Option<Seq<char>>| #[trigger]
            errors_of(other_rest, name) == errors_of(rest, name) by {
            assert(errors_of(one, name) == errors_of(errors, name));
            assert(errors_of(other, name) == errors_of(errors, name));
            lemma_errors_of_rest(one, name);
            lemma_errors_of_rest(other, name);
            if name == a {
                assert(errors_of(one, name).drop_first() =~= errors_of(rest, name));
                assert(errors_of(other, name).drop_first() =~= errors_of(other_rest, name));
            }
        }
        reports_are_unique(rest, rest, other_rest);
        assert(one =~= seq![one[0]] + rest);
        assert(other =~= seq![other[0]] + other_rest);
    }
}

proof fn lemma_errors_of_rest(errors: Seq<TemplateError>, name: Option<Seq<char>>)
    requires
        errors.len() > 0,
    ensures
        errors_of(errors, name) == if errors[0].name_spec() == name {
            seq![errors[0]] + errors_of(errors.drop_first(), name)
        } else {
            errors_of(errors.drop_first(), name)
        },
{
    let pred = |e: TemplateError| e.name_spec() == name;
    let first = seq![errors[0]];
    assert(errors =~= first + errors.drop_first());
    Seq::filter_distributes_over_add(first, errors.drop_first(), pred);
    reveal_with_fuel(Seq::filter, 2);
    assert(first.drop_last() =~= Seq::empty());
    assert(first.filter(pred) =~= if pred(errors[0]) {
        first
    } else {
        Seq::empty()
    });
    assert(errors_of(errors, name) =~= first.filter(pred) + errors_of(errors.drop_first(), name));
}

proof fn lemma_first_is_listed(errors: Seq<TemplateError>)
    requires
        errors.len() > 0,
    ensures
        errors_of(errors, errors[0].name_spec()).len() > 0,
        errors_of(errors, errors[0].name_spec())[0] == errors[0],
{
    lemma_errors_of_rest(errors, errors[0].name_spec());
}

/// In a list in order, no name that occurs is reported before the first one.
proof fn lemma_listed_not_before_first(errors: Seq<TemplateError>, name: Option<Seq<char>>)
    requires
        errors.len() > 0,
        errors_of(errors, name).len() > 0,
        forall|i: int, j: int|
            0 <= i < j < errors.len() ==> !#[trigger] reported_before(
                errors[j].name_spec(),
                errors[i].name_spec(),
            ),
    ensures
        !reported_before(name, errors[0].name_spec()),
{
    let pred = |e: TemplateError| e.name_spec() == name;
    let found = errors_of(errors, name)[0];
    errors.lemma_filter_pred(pred, 0);
    assert(errors.filter(pred).contains(found));
    errors.lemma_filter_contains_rev(pred, found);
    let k = errors.index_of(found);
    if k == 0 {
        if let Some(n) = name {
            name_order_is_irreflexive(n);
        }
    } else {
        assert(!reported_before(errors[k].name_spec(), errors[0].name_spec()));
    }
}

/// The list of unresolved references is settled by the registry and the package.
pub proof fn unresolved_lists_are_unique<B: Backend>(
    before: RegistryView<B>,
    members: Map<Seq<char>, PackageMember<B::Source>>,
    one: Seq<(Seq<char>, Seq<char>)>,
    other: Seq<(Seq<char>, Seq<char>)>,
)
    requires
        lists_unresolved(before, members, one),
        lists_unresolved(before, members, other),
    ensures
        one == other,
{
    assert forall|pair: (Seq<char>, Seq<char>)| #[trigger]
        one.contains(pair) <==> other.contains(pair) by {
        let (m, p) = pair;
        assert(one.contains((m, p)) <==> before.unresolved(members, m, p));
        assert(other.contains((m, p)) <==> before.unresolved(members, m, p));
    }
    lemma_ordered_pairs_are_unique(one, other);
}

proof fn lemma_ordered_pairs_are_unique(
    one: Seq<(Seq<char>, Seq<char>)>,
    other: Seq<(Seq<char>, Seq<char>)>,
)
    requires
        forall|i: int, j: int| 0 <= i < j < one.len() ==> #[trigger] pair_before(one[i], one[j]),
        forall|i: int, j: int|
            0 <= i < j < other.len() ==> #[trigger] pair_before(other[i], other[j]),
        forall|pair: (Seq<char>, Seq<char>)| #[trigger]
            one.contains(pair) <==> other.contains(pair),
    ensures
        one == other,
    decreases one.len(),
{
    if one.len() == 0 {
        if other.len() > 0 {
            assert(other.contains(other[0]));
            assert(one.contains(other[0]));
        }
        assert(one =~= other);
    } else {
        assert(one.contains(one[0]));
        assert(other.contains(one[0]));
        let j = other.index_of(one[0]);
        assert(one.contains(other[0])) by {
            assert(other.contains(other[0]));
        }
        let i = one.index_of(other[0]);
        if j > 0 {
            assert(pair_before(other[0], other[j]));
            if i > 0 {
                assert(pair_before(one[0], one[i]));
                lemma_pair_order(one[0], other[0]);
            } else {
                lemma_pair_order(one[0], one[0]);
            }
        }
        assert(one[0] == other[0]);
        let rest = one.drop_first();
        let other_rest = other.drop_first();
        assert forall|a: int, b: int| 0 <= a < b < rest.len() implies #[trigger] pair_before(
            rest[a],
            rest[b],
        ) by {
            assert(pair_before(one[a + 1], one[b + 1]));
        }
        assert forall|a: int, b: int| 0 <= a < b < other_rest.len() implies #[trigger] pair_before(
            other_rest[a],
            other_rest[b],
        ) by {
            assert(pair_before(other[a + 1], other[b + 1]));
        }
        assert forall|pair: (Seq<char>, Seq<char>)| #[trigger]
            rest.contains(pair) <==> other_rest.contains(pair) by {
            lemma_in_rest(one, pair);
            lemma_in_rest(other, pair);
            assert(one.contains(pair) <==> other.contains(pair));
        }
        lemma_ordered_pairs_are_unique(rest, other_rest);
        assert(one =~= seq![one[0]] + rest);
        assert(other =~= seq![other[0]] + other_rest);
    }
}

proof fn lemma_in_rest(list: Seq<(Seq<char>, Seq<char>)>, pair: (Seq<char>, Seq<char>))
    requires
        list.len() > 0,
        forall|i: int, j: int|
            0 <= i < j < list.len() ==> #[trigger] pair_before(list[i], list[j]),
    ensures
        list.drop_first().contains(pair) <==> list.contains(pair) && pair != list[0],
{
    if list.drop_first().contains(pair) {
        let k = list.drop_first().index_of(pair);
        assert(list[k + 1] == pair);
        assert(pair_before(list[0], list[k + 1]));
        lemma_pair_order(pair, pair);
    }
    if list.contains(pair) && pair != list[0] {
        let k = list.index_of(pair);
        assert(list.drop_first()[k - 1] == pair);
    }
}

proof fn lemma_pair_order(a: (Seq<char>, Seq<char>), b: (Seq<char>, Seq<char>))
    ensures
        !(pair_before(a, b) && pair_before(b, a)),
{
    if pair_before(a, b) && pair_before(b, a) {
        if a.0 == b.0 {
            name_order_is_irreflexive(a.0);
            name_order_is_transitive(a.1, b.1, a.1);
            name_order_is_irreflexive(a.1);
        } else {
            name_order_is_transitive(a.0, b.0, a.0);
            name_order_is_irreflexive(a.0);
        }
    }
}

/// Without repeated names, a name is among the compiled members exactly if it was
/// submitted and compiled.
proof fn lemma_compiled_member<S>(submitted: Seq<Submission<S>>, name: Seq<char>)
    requires
        !repeated(submitted, name),
    ensures
        compiled_members(submitted).contains_key(name) <==> exists|i: int|
            0 <= i < submitted.len() && #[trigger] submitted[i].name@ == name
                && submitted[i].compiled is Ok,
        forall|i: int|
            0 <= i < submitted.len() && #[trigger] submitted[i].name@ == name
                && submitted[i].compiled is Ok ==> compiled_members(submitted)[name] == (
            PackageMember {
                template: submitted[i].compiled->Ok_0,
                source: submitted[i].source,
            }),
    decreases submitted.len(),
{
    if submitted.len() > 0 {
        let front = submitted.drop_last();
        assert(!repeated(front, name)) by {
            if repeated(front, name) {
                let (i, j) = choose|i: int, j: int|
                    0 <= i < j < front.len() && #[trigger] front[i].name@ == name
                        && #[trigger] front[j].name@ == name;
                assert(submitted[i].name@ == name && submitted[j].name@ == name);
            }
        }
        lemma_compiled_member(front, name);
        let last = submitted.len() - 1;
        if submitted[last].name@ == name {
            assert forall|i: int| 0 <= i < last implies #[trigger] submitted[i].name@ != name by {
                if submitted[i].name@ == name {
                    assert(submitted[last].name@ == name);
                }
            }
            assert(!compiled_members(front).contains_key(name)) by {
                if compiled_members(front).contains_key(name) {
                    let i = choose|i: int|
                        0 <= i < front.len() && #[trigger] front[i].name@ == name
                            && front[i].compiled is Ok;
                    assert(submitted[i].name@ == name);
                }
            }
        } else {
            assert forall|i: int|
                0 <= i < submitted.len() && #[trigger] submitted[i].name@ == name
                    && submitted[i].compiled is Ok implies compiled_members(submitted)[name] == (
            PackageMember {
                template: submitted[i].compiled->Ok_0,
                source: submitted[i].source,
            }) by {
                assert(front[i].name@ == name);
            }
            if compiled_members(submitted).contains_key(name) {
                let i = choose|i: int|
                    0 <= i < front.len() && #[trigger] front[i].name@ == name
                        && front[i].compiled is Ok;
                assert(submitted[i].name@ == name);
            }
            if exists|i: int|
                0 <= i < submitted.len() && #[trigger] submitted[i].name@ == name
                    && submitted[i].compiled is Ok {
                let i = choose|i: int|
                    0 <= i < submitted.len() && #[trigger] submitted[i].name@ == name
                        && submitted[i].compiled is Ok;
                assert(front[i].name@ == name);
            }
        }
    }
}

/// Whether two submissions are the same but for the strings that hold their names.
pub open spec fn alike<S>(one: Submission<S>, other: Submission<S>) -> bool {
    &&& one.name@ == other.name@
    &&& one.source == other.source
    &&& one.compiled == other.compiled
}

/// Whether there is a submission like this one.
pub open spec fn has_like<S>(submitted: Seq<Submission<S>>, one: Submission<S>) -> bool {
    exists|i: int| 0 <= i < submitted.len() && alike(one, #[trigger] submitted[i])
}

/// Whether two lists hold the same submissions, in whatever order.
pub open spec fn same_submissions<S>(
    one: Seq<Submission<S>>,
    other: Seq<Submission<S>>,
) -> bool {
    &&& forall|i: int| 0 <= i < one.len() ==> has_like(other, #[trigger] one[i])
    &&& forall|i: int| 0 <= i < other.len() ==> has_like(one, #[trigger] other[i])
}

/// Package members may be submitted in any order: the same submissions, without
/// repeated names, make the same package.
pub proof fn submission_order_does_not_matter<S>(
    one: Seq<Submission<S>>,
    other: Seq<Submission<S>>,
)
    requires
        same_submissions(one, other),
        forall|name: Seq<char>| !repeated(one, name) && !repeated(other, name),
    ensures
        compiled_members(one) == compiled_members(other),
{
    assert forall|name: Seq<char>|
        (#[trigger] compiled_members(one).contains_key(name) == compiled_members(
            other,
        ).contains_key(name)) && (compiled_members(one).contains_key(name) ==> compiled_members(
            one,
        )[name] == compiled_members(other)[name]) by {
        assert(!repeated(one, name) && !repeated(other, name));
        lemma_compiled_member(one, name);
        lemma_compiled_member(other, name);
        if compiled_members(one).contains_key(name) {
            let i = choose|i: int|
                0 <= i < one.len() && #[trigger] one[i].name@ == name && one[i].compiled is Ok;
            assert(has_like(other, one[i]));
            let j = choose|j: int| 0 <= j < other.len() && alike(one[i], #[trigger] other[j]);
            assert(other[j].name@ == name);
        }
        if compiled_members(other).contains_key(name) {
            let i = choose|i: int|
                0 <= i < other.len() && #[trigger] other[i].name@ == name
                    && other[i].compiled is Ok;
            assert(has_like(one, other[i]));
            let j = choose|j: int| 0 <= j < one.len() && alike(other[i], #[trigger] one[j]);
            assert(one[j].name@ == name);
        }
    }
    assert(compiled_members(one) =~= compiled_members(other));
}

/// Whether no two errors carry the same name.
pub open spec fn name_different_templates(errors: Seq<TemplateError>) -> bool {
    forall|i: int, j: int|
        0 <= i < j < errors.len() ==> (#[trigger] errors[i]).name_spec() != (
        #[trigger] errors[j]).name_spec()
}

proof fn lemma_only_error_of_its_name(errors: Seq<TemplateError>, i: int)
    requires
        name_different_templates(errors),
        0 <= i < errors.len(),
    ensures
        errors_of(errors, errors[i].name_spec()) == seq![errors[i]],
    decreases errors.len(),
{
    let name = errors[i].name_spec();
    let rest = errors.drop_first();
    lemma_errors_of_rest(errors, name);
    if i == 0 {
        let pred = |e: TemplateError| e.name_spec() == name;
        assert forall|k: int| 0 <= k < rest.len() implies !pred(#[trigger] rest[k]) by {
            assert(errors[0].name_spec() != errors[k + 1].name_spec());
        }
        rest.lemma_all_neg_filter_empty(pred);
        assert(errors_of(errors, name) =~= seq![errors[0]]);
    } else {
        assert(errors[0].name_spec() != errors[i].name_spec());
        assert forall|a: int, b: int| 0 <= a < b < rest.len() implies (
        #[trigger] rest[a]).name_spec() != (#[trigger] rest[b]).name_spec() by {
            assert(errors[a + 1].name_spec() != errors[b + 1].name_spec());
        }
        assert(rest[i - 1] == errors[i]);
        lemma_only_error_of_its_name(rest, i - 1);
    }
}

/// The report on a refused package does not depend on the order in which the errors
/// came up, where each concerns a template of its own.
pub proof fn reports_do_not_depend_on_order(
    one: Seq<TemplateError>,
    other: Seq<TemplateError>,
    report: Seq<TemplateError>,
    other_report: Seq<TemplateError>,
)
    requires
        name_different_templates(one),
        name_different_templates(other),
        forall|e: TemplateError| #[trigger] one.contains(e) <==> other.contains(e),
        reports(one, report),
        reports(other, other_report),
    ensures
        report == other_report,
{
    assert forall|name: Option<Seq<char>>| #[trigger]
        errors_of(other_report, name) == errors_of(one, name) by {
        assert(errors_of(other_report, name) == errors_of(other, name));
        if exists|i: int| 0 <= i < one.len() && (#[trigger] one[i]).name_spec() == name {
            let i = choose|i: int| 0 <= i < one.len() && (#[trigger] one[i]).name_spec() == name;
            assert(one.contains(one[i]));
            let j = other.index_of(one[i]);
            lemma_only_error_of_its_name(one, i);
            lemma_only_error_of_its_name(other, j);
        } else {
            let pred = |e: TemplateError| e.name_spec() == name;
            one.lemma_all_neg_filter_empty(pred);
            assert forall|j: int| 0 <= j < other.len() implies !pred(#[trigger] other[j]) by {
                assert(other.contains(other[j]));
                assert(one.contains(other[j]));
                let i = one.index_of(other[j]);
                assert(one[i].name_spec() != name);
            }
            other.lemma_all_neg_filter_empty(pred);
        }
    }
    reports_are_unique(one, report, other_report);
}

/// Whether no two members are answered with errors that carry the same name.
pub open spec fn errors_tell_apart<S>(submitted: Seq<Submission<S>>) -> bool {
    forall|i: int, j: int|
        0 <= i < j < submitted.len() && (#[trigger] submitted[i]).compiled is Err && (
        #[trigger] submitted[j]).compiled is Err ==> submitted[i].compiled->Err_0.name_spec()
            != submitted[j].compiled->Err_0.name_spec()
}

pub(super) proof fn lemma_compile_error<S>(submitted: Seq<Submission<S>>, error: TemplateError)
    ensures
        compile_errors(submitted).contains(error) <==> exists|i: int|
            0 <= i < submitted.len() && (#[trigger] submitted[i]).compiled == Err::<
                Template,
                TemplateError,
            >(error),
    decreases submitted.len(),
{
    if submitted.len() > 0 {
        let front = submitted.drop_last();
        let last = submitted.len() - 1;
        lemma_compile_error(front, error);
        if let Err(e) = submitted[last].compiled {
            lemma_contains_after_push(compile_errors(front), e, error);
        }
        if compile_errors(front).contains(error) {
            let i = choose|i: int|
                0 <= i < front.len() && (#[trigger] front[i]).compiled == Err::<
                    Template,
                    TemplateError,
                >(error);
            assert(submitted[i].compiled == Err::<Template, TemplateError>(error));
        }
        if exists|i: int|
            0 <= i < submitted.len() && (#[trigger] submitted[i]).compiled == Err::<
                Template,
                TemplateError,
            >(error) {
            let i = choose|i: int|
                0 <= i < submitted.len() && (#[trigger] submitted[i]).compiled == Err::<
                    Template,
                    TemplateError,
                >(error);
            if i < last {
                assert(front[i].compiled == Err::<Template, TemplateError>(error));
            }
        }
    }
}

proof fn lemma_compile_errors_differ<S>(submitted: Seq<Submission<S>>)
    requires
        errors_tell_apart(submitted),
    ensures
        name_different_templates(compile_errors(submitted)),
    decreases submitted.len(),
{
    if submitted.len() > 0 {
        let front = submitted.drop_last();
        let last = submitted.len() - 1;
        let earlier = compile_errors(front);
        assert forall|i: int, j: int|
            0 <= i < j < front.len() && (#[trigger] front[i]).compiled is Err && (
            #[trigger] front[j]).compiled is Err implies front[i].compiled->Err_0.name_spec()
            != front[j].compiled->Err_0.name_spec() by {
            assert(submitted[i].compiled is Err && submitted[j].compiled is Err);
        }
        lemma_compile_errors_differ(front);
        if let Err(e) = submitted[last].compiled {
            assert forall|k: int| 0 <= k < earlier.len() implies (
            #[trigger] earlier[k]).name_spec() != e.name_spec() by {
                lemma_compile_error(front, earlier[k]);
                assert(earlier.contains(earlier[k]));
                let i = choose|i: int|
                    0 <= i < front.len() && (#[trigger] front[i]).compiled == Err::<
                        Template,
                        TemplateError,
                    >(earlier[k]);
                assert(submitted[i].compiled is Err);
                assert(submitted[last].compiled is Err);
            }
            assert forall|a: int, b: int| 0 <= a < b < compile_errors(submitted).len() implies (
            #[trigger] compile_errors(submitted)[a]).name_spec() != (
            #[trigger] compile_errors(submitted)[b]).name_spec() by {
                if b < earlier.len() {
                    assert(earlier[a].name_spec() != earlier[b].name_spec());
                } else {
                    assert(earlier[a].name_spec() != e.name_spec());
                }
            }
        }
    }
}

proof fn lemma_errors_tell_apart_in_any_order<S>(
    one: Seq<Submission<S>>,
    other: Seq<Submission<S>>,
)
    requires
        same_submissions(one, other),
        forall|name: Seq<char>| !repeated(other, name),
        errors_tell_apart(one),
    ensures
        errors_tell_apart(other),
{
    assert forall|i: int, j: int|
        0 <= i < j < other.len() && (#[trigger] other[i]).compiled is Err && (
        #[trigger] other[j]).compiled is Err implies other[i].compiled->Err_0.name_spec()
        != other[j].compiled->Err_0.name_spec() by {
        assert(has_like(one, other[i]) && has_like(one, other[j]));
        let a = choose|a: int| 0 <= a < one.len() && alike(other[i], #[trigger] one[a]);
        let b = choose|b: int| 0 <= b < one.len() && alike(other[j], #[trigger] one[b]);
        assert(!repeated(other, other[i].name@));
        assert(other[i].name@ != other[j].name@);
        assert(one[a].compiled is Err && one[b].compiled is Err);
        assert(a != b);
    }
}

proof fn lemma_same_errors<S>(
    one: Seq<Submission<S>>,
    other: Seq<Submission<S>>,
    error: TemplateError,
)
    requires
        same_submissions(one, other),
        compile_errors(one).contains(error),
    ensures
        compile_errors(other).contains(error),
{
    lemma_compile_error(one, error);
    lemma_compile_error(other, error);
    let i = choose|i: int|
        0 <= i < one.len() && (#[trigger] one[i]).compiled == Err::<Template, TemplateError>(
            error,
        );
    assert(has_like(other, one[i]));
    let j = choose|j: int| 0 <= j < other.len() && alike(one[i], #[trigger] other[j]);
    assert(other[j].compiled == Err::<Template, TemplateError>(error));
}

/// Whether two package updates have come out alike: both accepted, or both refused with
/// the same report.
pub open spec fn same_package_result(
    result: Result<(), TemplatePackageError>,
    other_result: Result<(), TemplatePackageError>,
) -> bool {
    match result {
        Ok(()) => other_result is Ok,
        Err(TemplatePackageError::Compile(report)) => {
            &&& other_result matches Err(TemplatePackageError::Compile(other_report))
            &&& report@ == other_report@
        },
        Err(TemplatePackageError::UnresolvedPartials(list)) => {
            &&& other_result matches Err(TemplatePackageError::UnresolvedPartials(other_list))
            &&& named_pairs(list@) == named_pairs(other_list@)
        },
    }
}

/// One package with one list of errors comes out in one way.
pub proof fn package_outcomes_are_unique<B: Backend>(
    before: RegistryView<B>,
    members: Map<Seq<char>, PackageMember<B::Source>>,
    errors: Seq<TemplateError>,
    result: Result<(), TemplatePackageError>,
    after: RegistryView<B>,
    other_result: Result<(), TemplatePackageError>,
    other_after: RegistryView<B>,
)
    requires
        package_committed(before, members, errors, result, after),
        package_committed(before, members, errors, other_result, other_after),
    ensures
        after == other_after,
        same_package_result(result, other_result),
{
    if errors.len() > 0 {
        reports_are_unique(
            errors,
            result->Err_0->Compile_0@,
            other_result->Err_0->Compile_0@,
        );
    } else if !before.closes(members) {
        unresolved_lists_are_unique(
            before,
            members,
            named_pairs(result->Err_0->UnresolvedPartials_0@),
            named_pairs(other_result->Err_0->UnresolvedPartials_0@),
        );
    }
}

/// Package members may be submitted in any order: the outcome of an update is the
/// same, down to the report on a refused package. That is so where no name is
/// submitted twice and no two errors carry the same name.
pub proof fn package_outcomes_do_not_depend_on_order<B: Backend>(
    before: RegistryView<B>,
    one: Seq<Submission<B::Source>>,
    other: Seq<Submission<B::Source>>,
    result: Result<(), TemplatePackageError>,
    after: RegistryView<B>,
    other_result: Result<(), TemplatePackageError>,
    other_after: RegistryView<B>,
)
    requires
        same_submissions(one, other),
        forall|name: Seq<char>| !repeated(one, name) && !repeated(other, name),
        errors_tell_apart(one),
        package_committed(before, compiled_members(one), compile_errors(one), result, after),
        package_committed(
            before,
            compiled_members(other),
            compile_errors(other),
            other_result,
            other_after,
        ),
    ensures
        after == other_after,
        same_package_result(result, other_result),
{
    submission_order_does_not_matter(one, other);
    assert forall|name: Seq<char>| !repeated(other, name) by {
        assert(!repeated(one, name) && !repeated(other, name));
    }
    lemma_errors_tell_apart_in_any_order(one, other);
    lemma_compile_errors_differ(one);
    lemma_compile_errors_differ(other);
    let errors = compile_errors(one);
    let other_errors = compile_errors(other);
    assert forall|e: TemplateError| #[trigger] errors.contains(e) <==> other_errors.contains(e) by {
        if errors.contains(e) {
            lemma_same_errors(one, other, e);
        }
        if other_errors.contains(e) {
            lemma_same_errors(other, one, e);
        }
    }
    if errors.len() > 0 {
        assert(errors.contains(errors[0]));
        assert(other_errors.contains(errors[0]));
        let report = result->Err_0->Compile_0;
        let other_report = other_result->Err_0->Compile_0;
        reports_do_not_depend_on_order(errors, other_errors, report@, other_report@);
    } else {
        if other_errors.len() > 0 {
            assert(other_errors.contains(other_errors[0]));
            assert(errors.contains(other_errors[0]));
        }
        assert(errors =~= other_errors);
        package_outcomes_are_unique(
            before,
            compiled_members(one),
            errors,
            result,
            after,
            other_result,
            other_after,
        );
    }
}

/// Whether each submission of one list has a place of its own in another list, where
/// one like it stands.
pub open spec fn has_places<S>(
    one: Seq<Submission<S>>,
    other: Seq<Submission<S>>,
    places: Seq<int>,
) -> bool {
    &&& places.len() == one.len()
    &&& places.no_duplicates()
    &&& forall|i: int|
        0 <= i < one.len() ==> 0 <= #[trigger] places[i] < other.len() && alike(
            one[i],
            other[places[i]],
        )
}

/// Whether two lists hold the same submissions equally often, in whatever order.
pub open spec fn reordered<S>(one: Seq<Submission<S>>, other: Seq<Submission<S>>) -> bool {
    &&& exists|places: Seq<int>| has_places(one, other, places)
    &&& exists|places: Seq<int>| has_places(other, one, places)
}

proof fn lemma_repeated_in_any_order<S>(
    one: Seq<Submission<S>>,
    other: Seq<Submission<S>>,
    name: Seq<char>,
)
    requires
        reordered(one, other),
        repeated(one, name),
    ensures
        repeated(other, name),
{
    let places = choose|places: Seq<int>| has_places(one, other, places);
    let (i, j) = choose|i: int, j: int|
        0 <= i < j < one.len() && #[trigger] one[i].name@ == name && #[trigger] one[j].name@
            == name;
    let a = places[i];
    let b = places[j];
    assert(other[a].name@ == name && other[b].name@ == name);
    assert(a != b);
    if a < b {
        assert(repeated(other, name));
    } else {
        assert(repeated(other, name));
    }
}

proof fn lemma_reordered_are_same<S>(one: Seq<Submission<S>>, other: Seq<Submission<S>>)
    requires
        reordered(one, other),
    ensures
        same_submissions(one, other),
{
    let places = choose|places: Seq<int>| has_places(one, other, places);
    let back = choose|places: Seq<int>| has_places(other, one, places);
    assert forall|i: int| 0 <= i < one.len() implies has_like(other, #[trigger] one[i]) by {
        assert(alike(one[i], other[places[i]]));
    }
    assert forall|i: int| 0 <= i < other.len() implies has_like(one, #[trigger] other[i]) by {
        assert(alike(other[i], one[back[i]]));
    }
}

proof fn lemma_faults_in_any_order<S>(
    one: Seq<Submission<S>>,
    other: Seq<Submission<S>>,
    name: Seq<char>,
)
    requires
        reordered(one, other),
        at_fault(one, name),
    ensures
        at_fault(other, name),
{
    if repeated(one, name) {
        lemma_repeated_in_any_order(one, other, name);
    } else {
        lemma_reordered_are_same(one, other);
        let i = choose|i: int|
            0 <= i < one.len() && #[trigger] one[i].name@ == name && one[i].compiled is Err;
        assert(has_like(other, one[i]));
        let j = choose|j: int| 0 <= j < other.len() && alike(one[i], #[trigger] other[j]);
        assert(other[j].name@ == name);
    }
}

/// Whether two members are refused for the same: both are repeated, or have the same
/// error, or lack the same partial, which the same members refer to.
pub open spec fn same_fault(
    one: TemplateUpdateMemberError,
    other: TemplateUpdateMemberError,
) -> bool {
    match (one, other) {
        (
            TemplateUpdateMemberError::Template(error),
            TemplateUpdateMemberError::Template(other_error),
        ) => error == other_error,
        (
            TemplateUpdateMemberError::DuplicateName,
            TemplateUpdateMemberError::DuplicateName,
        ) => true,
        (
            TemplateUpdateMemberError::MissingDependency { name, referenced_by },
            TemplateUpdateMemberError::MissingDependency {
                name: other_name,
                referenced_by: other_referenced_by,
            },
        ) => name@ == other_name@ && texts(referenced_by@) == texts(other_referenced_by@),
        _ => false,
    }
}

proof fn lemma_same_fault_in_any_order<S>(
    one: Seq<Submission<S>>,
    other: Seq<Submission<S>>,
    name: Seq<char>,
    fault: TemplateUpdateMemberError,
    other_fault: TemplateUpdateMemberError,
)
    requires
        reordered(one, other),
        is_fault(one, name, fault),
        is_fault(other, name, other_fault),
    ensures
        same_fault(fault, other_fault),
{
    if repeated(one, name) {
        lemma_repeated_in_any_order(one, other, name);
    } else {
        if repeated(other, name) {
            lemma_repeated_in_any_order(other, one, name);
        }
        lemma_reordered_are_same(one, other);
        let i = choose|i: int|
            0 <= i < one.len() && #[trigger] one[i].name@ == name && {
                &&& one[i].compiled matches Err(error)
                &&& fault == TemplateUpdateMemberError::Template(error)
            };
        let j = choose|j: int|
            0 <= j < other.len() && #[trigger] other[j].name@ == name && {
                &&& other[j].compiled matches Err(error)
                &&& other_fault == TemplateUpdateMemberError::Template(error)
            };
        assert(has_like(other, one[i]));
        let k = choose|k: int| 0 <= k < other.len() && alike(one[i], #[trigger] other[k]);
        assert(other[k].name@ == name);
        if k != j {
            assert(repeated(other, name));
        }
    }
}

proof fn lemma_ordered_names_are_unique(one: Seq<Seq<char>>, other: Seq<Seq<char>>)
    requires
        in_name_order(one),
        in_name_order(other),
        forall|name: Seq<char>| #[trigger] one.contains(name) <==> other.contains(name),
    ensures
        one == other,
{
    let nothing = Seq::<char>::empty();
    let pairs = Seq::new(one.len(), |i: int| (one[i], nothing));
    let other_pairs = Seq::new(other.len(), |i: int| (other[i], nothing));
    assert forall|i: int, j: int| 0 <= i < j < pairs.len() implies #[trigger] pair_before(
        pairs[i],
        pairs[j],
    ) by {
        assert(name_before(one[i], one[j]));
    }
    assert forall|i: int, j: int| 0 <= i < j < other_pairs.len() implies #[trigger] pair_before(
        other_pairs[i],
        other_pairs[j],
    ) by {
        assert(name_before(other[i], other[j]));
    }
    assert forall|pair: (Seq<char>, Seq<char>)| #[trigger]
        pairs.contains(pair) <==> other_pairs.contains(pair) by {
        if pairs.contains(pair) {
            let i = pairs.index_of(pair);
            assert(one.contains(one[i]));
            let j = other.index_of(one[i]);
            assert(other_pairs[j] == pair);
        }
        if other_pairs.contains(pair) {
            let i = other_pairs.index_of(pair);
            assert(other.contains(other[i]));
            assert(one.contains(other[i]));
            let j = one.index_of(other[i]);
            assert(pairs[j] == pair);
        }
    }
    lemma_ordered_pairs_are_unique(pairs, other_pairs);
    assert forall|i: int| 0 <= i < one.len() implies one[i] == other[i] by {
        assert(pairs[i] == other_pairs[i]);
    }
    assert(one.len() == pairs.len() && other.len() == other_pairs.len());
    assert(one =~= other);
}

/// Which dependency of a member is missing, and who refers to it, is settled by the
/// registry and the package.
pub proof fn missing_dependencies_are_unique<B: Backend>(
    before: RegistryView<B>,
    members: Map<Seq<char>, PackageMember<B::Source>>,
    member: Seq<char>,
    fault: TemplateUpdateMemberError,
    other_fault: TemplateUpdateMemberError,
)
    requires
        is_missing_dependency(before, members, member, fault),
        is_missing_dependency(before, members, member, other_fault),
    ensures
        same_fault(fault, other_fault),
{
    let name = fault->name;
    let other_name = other_fault->name;
    assert(before.unresolved(members, member, name@));
    assert(before.unresolved(members, member, other_name@));
    if name@ != other_name@ {
        name_order_is_transitive(name@, other_name@, name@);
        name_order_is_irreflexive(name@);
    }
    let referrers = texts(fault->referenced_by@);
    let other_referrers = texts(other_fault->referenced_by@);
    assert forall|other: Seq<char>| #[trigger]
        referrers.contains(other) <==> other_referrers.contains(other) by {
        assert(referrers.contains(other) <==> before.unresolved(members, other, name@));
        assert(other_referrers.contains(other) <==> before.unresolved(members, other, name@));
    }
    lemma_ordered_names_are_unique(referrers, other_referrers);
}

/// The members of an update that reports member by member may be submitted in any
/// order too: it is accepted or refused all the same, for the same members and for the
/// same faults of each, and leaves the registry in the same state.
pub proof fn update_outcomes_do_not_depend_on_order<B: Backend>(
    before: RegistryView<B>,
    one: Seq<Submission<B::Source>>,
    other: Seq<Submission<B::Source>>,
    result: Result<(), TemplateUpdateError>,
    after: RegistryView<B>,
    other_result: Result<(), TemplateUpdateError>,
    other_after: RegistryView<B>,
)
    requires
        reordered(one, other),
        update_applied(before, one, result, after),
        update_applied(before, other, other_result, other_after),
    ensures
        after == other_after,
        match result {
            Ok(()) => other_result is Ok,
            Err(error) => {
                &&& other_result matches Err(other_error)
                &&& error.members@.dom() == other_error.members@.dom()
                &&& forall|name: Seq<char>| #[trigger]
                    error.members@.contains_key(name) ==> same_fault(
                        error.members@[name],
                        other_error.members@[name],
                    )
            },
        },
{
    assert forall|name: Seq<char>| at_fault(one, name) <==> #[trigger] at_fault(other, name) by {
        if at_fault(one, name) {
            lemma_faults_in_any_order(one, other, name);
        }
        if at_fault(other, name) {
            lemma_faults_in_any_order(other, one, name);
        }
    }
    if exists|name: Seq<char>| at_fault(one, name) {
        let name = choose|name: Seq<char>| at_fault(one, name);
        assert(at_fault(other, name));
        let error = result->Err_0;
        let other_error = other_result->Err_0;
        assert forall|name: Seq<char>| #[trigger] error.members@.contains_key(name) implies (
        other_error.members@.contains_key(name) && same_fault(
            error.members@[name],
            other_error.members@[name],
        )) by {
            assert(at_fault(other, name));
            assert(other_error.members@.contains_key(name));
            lemma_same_fault_in_any_order(
                one,
                other,
                name,
                error.members@[name],
                other_error.members@[name],
            );
        }
        assert forall|name: Seq<char>| #[trigger]
            other_error.members@.contains_key(name) implies error.members@.contains_key(name) by {
            assert(at_fault(other, name));
            assert(at_fault(one, name));
        }
        assert(error.members@.dom() =~= other_error.members@.dom());
    } else {
        assert forall|name: Seq<char>| !repeated(one, name) && !repeated(other, name) by {
            assert(!at_fault(one, name));
            assert(!at_fault(other, name));
        }
        lemma_reordered_are_same(one, other);
        submission_order_does_not_matter(one, other);
        let members = compiled_members(one);
        if !before.closes(members) {
            let error = result->Err_0;
            let other_error = other_result->Err_0;
            assert forall|name: Seq<char>| #[trigger]
                error.members@.contains_key(name) == other_error.members@.contains_key(name) by {
            }
            assert(error.members@.dom() =~= other_error.members@.dom());
            assert forall|name: Seq<char>| #[trigger]
                error.members@.contains_key(name) implies same_fault(
                error.members@[name],
                other_error.members@[name],
            ) by {
                assert(other_error.members@.contains_key(name));
                missing_dependencies_are_unique(
                    before,
                    members,
                    name,
                    error.members@[name],
                    other_error.members@[name],
                );
            }
        }
    }
}

} // verus!
