//! What holds of two calls with the same input, where the backend answers in one way.
use vstd::prelude::*;

use crate::backend::{
    compile_reply, compiles_in_one_way, holds_text, load_reply, loads_in_one_way, same_reading,
    source_reply, Backend,
};
use crate::error::{IoError, RenderError, TemplateError, TemplatePackageError, TemplateUpdateError};
use crate::laws::packages::{
    files_and_texts_agree, package_update_is_idempotent, without_sources,
};
use crate::laws::reports::{
    alike, has_like, lemma_compile_error, package_outcomes_do_not_depend_on_order,
    reports_are_unique, same_package_result, unresolved_lists_are_unique,
};
use crate::registry::package::{
    compile_errors, compiled_members, lists_unresolved, named_pairs, package_committed,
    package_files_registered, package_registered, Submission,
};
use crate::registry::render::Found;
use crate::registry::update::{
    at_fault, members_updated, repeated, update_applied, TemplateSource,
};
use crate::registry::{string_registered, RegistryView};
use crate::template::Template;

verus! {

/// A partial is registered just as a template: the same text under the same name gives
/// the same result and the same registry. Where it is accepted, it is what a lookup of
/// the name answers, whatever was there before.
pub proof fn partials_are_registered_as_templates<B: Backend>(
    before: RegistryView<B>,
    name: Seq<char>,
    text: Seq<char>,
    partial_result: Result<(), TemplateError>,
    after_partial: RegistryView<B>,
    template_result: Result<(), TemplateError>,
    after_template: RegistryView<B>,
    reply: Option<Result<Found<Template>, RenderError>>,
)
    requires
        compiles_in_one_way(before.backend),
        string_registered(before, name, text, partial_result, after_partial),
        string_registered(before, name, text, template_result, after_template),
        after_partial.looks_up(name, reply),
    ensures
        partial_result == template_result,
        after_partial == after_template,
        partial_result is Ok ==> {
            &&& after_partial.templates.contains_key(name)
            &&& reply == Some(
                Ok::<Found<Template>, RenderError>(
                    Found::Registered(&after_partial.templates[name]),
                ),
            )
            &&& compile_reply(
                before.backend,
                text,
                Some(name),
                before.prevent_indent,
                Ok::<Template, TemplateError>(after_partial.templates[name]),
            )
        },
{
}

proof fn lemma_same_outcome<S>(one: Seq<Submission<S>>, other: Seq<Submission<S>>)
    requires
        one.len() == other.len(),
        forall|i: int| 0 <= i < one.len() ==> alike(#[trigger] one[i], other[i]),
    ensures
        compiled_members(one) == compiled_members(other),
        compile_errors(one) == compile_errors(other),
    decreases one.len(),
{
    if one.len() > 0 {
        let front = one.drop_last();
        let other_front = other.drop_last();
        assert forall|i: int| 0 <= i < front.len() implies alike(
            #[trigger] front[i],
            other_front[i],
        ) by {
            assert(alike(one[i], other[i]));
        }
        lemma_same_outcome(front, other_front);
        assert(alike(one[one.len() - 1], other[one.len() - 1]));
    }
}

proof fn lemma_texts_submitted_alike<B: Backend>(
    one: RegistryView<B>,
    other: RegistryView<B>,
    texts: Seq<(Seq<char>, Seq<char>)>,
    submitted: Seq<Submission<B::Source>>,
    other_submitted: Seq<Submission<B::Source>>,
)
    requires
        compiles_in_one_way(one.backend),
        one.backend == other.backend,
        one.prevent_indent == other.prevent_indent,
        one.submits_texts(texts, submitted),
        other.submits_texts(texts, other_submitted),
    ensures
        compiled_members(submitted) == compiled_members(other_submitted),
        compile_errors(submitted) == compile_errors(other_submitted),
{
    assert forall|i: int| 0 <= i < submitted.len() implies alike(
        #[trigger] submitted[i],
        other_submitted[i],
    ) by {
        assert(one.submits_text(texts[i].0, texts[i].1, submitted[i]));
        assert(other.submits_text(texts[i].0, texts[i].1, other_submitted[i]));
    }
    lemma_same_outcome(submitted, other_submitted);
}

/// Registering the same package twice is idempotent: once it has been accepted, a second
/// call with the same texts succeeds and leaves the registry as it is.
pub proof fn registering_a_package_is_idempotent<B: Backend>(
    before: RegistryView<B>,
    texts: Seq<(Seq<char>, Seq<char>)>,
    after: RegistryView<B>,
    result: Result<(), TemplatePackageError>,
    again: RegistryView<B>,
)
    requires
        compiles_in_one_way(before.backend),
        package_registered(before, texts, Ok(()), after),
        package_registered(after, texts, result, again),
    ensures
        result is Ok,
        again == after,
{
    let first = choose|submitted: Seq<Submission<B::Source>>|
        {
            &&& #[trigger] before.submits_texts(texts, submitted)
            &&& package_committed(
                before,
                compiled_members(submitted),
                compile_errors(submitted),
                Ok(()),
                after,
            )
        };
    let second = choose|submitted: Seq<Submission<B::Source>>|
        {
            &&& #[trigger] after.submits_texts(texts, submitted)
            &&& package_committed(
                after,
                compiled_members(submitted),
                compile_errors(submitted),
                result,
                again,
            )
        };
    lemma_texts_submitted_alike(before, after, texts, first, second);
    assert(compile_errors(first) =~= Seq::empty());
    package_update_is_idempotent(before, compiled_members(first), after, result, again);
}

/// Two calls with one source and one name have the same outcome: the same template, or
/// errors that say the same.
pub proof fn sources_come_out_in_one_way<B: Backend>(
    backend: B,
    source: B::Source,
    name: Seq<char>,
    failed_as: Seq<char>,
    prevent_indent: bool,
    one: Result<Template, TemplateError>,
    other: Result<Template, TemplateError>,
)
    requires
        compiles_in_one_way(backend),
        loads_in_one_way(backend),
        source_reply(backend, source, name, failed_as, prevent_indent, one),
        source_reply(backend, source, name, failed_as, prevent_indent, other),
    ensures
        match (one, other) {
            (Ok(template), Ok(other_template)) => template == other_template,
            (Err(error), Err(other_error)) => error.says_same(other_error),
            _ => false,
        },
{
    let loaded = choose|loaded: Result<String, IoError>|
        {
            &&& #[trigger] load_reply(backend, source, loaded)
            &&& match loaded {
                Ok(text) => compile_reply(backend, text@, Some(name), prevent_indent, one),
                Err(err) => one matches Err(failure) && failure.is_load_failure(err, failed_as),
            }
        };
    let other_loaded = choose|loaded: Result<String, IoError>|
        {
            &&& #[trigger] load_reply(backend, source, loaded)
            &&& match loaded {
                Ok(text) => compile_reply(backend, text@, Some(name), prevent_indent, other),
                Err(err) => other matches Err(failure) && failure.is_load_failure(err, failed_as),
            }
        };
    assert(same_reading(loaded, other_loaded));
}

proof fn lemma_all_compiled<S>(submitted: Seq<Submission<S>>, i: int)
    requires
        compile_errors(submitted).len() == 0,
        0 <= i < submitted.len(),
    ensures
        submitted[i].compiled is Ok,
{
    if let Err(error) = submitted[i].compiled {
        lemma_compile_error(submitted, error);
        assert(compile_errors(submitted).contains(error));
    }
}

proof fn lemma_accepted_file_submitted_alike<B: Backend>(
    one: RegistryView<B>,
    other: RegistryView<B>,
    name: Seq<char>,
    source: B::Source,
    submission: Submission<B::Source>,
    other_submission: Submission<B::Source>,
)
    requires
        compiles_in_one_way(one.backend),
        loads_in_one_way(one.backend),
        one.backend == other.backend,
        one.prevent_indent == other.prevent_indent,
        one.submits_file(name, source, submission),
        other.submits_file(name, source, other_submission),
        submission.compiled is Ok,
    ensures
        alike(submission, other_submission),
{
    sources_come_out_in_one_way(
        one.backend,
        source,
        name,
        name,
        one.prevent_indent,
        submission.compiled,
        other_submission.compiled,
    );
}

/// Registering the same package of files twice is idempotent too, as long as the files
/// stay as they are.
pub proof fn registering_package_files_is_idempotent<B: Backend>(
    before: RegistryView<B>,
    files: Seq<(Seq<char>, B::Source)>,
    after: RegistryView<B>,
    result: Result<(), TemplatePackageError>,
    again: RegistryView<B>,
)
    requires
        compiles_in_one_way(before.backend),
        loads_in_one_way(before.backend),
        package_files_registered(before, files, Ok(()), after),
        package_files_registered(after, files, result, again),
    ensures
        result is Ok,
        again == after,
{
    let first = choose|submitted: Seq<Submission<B::Source>>|
        {
            &&& #[trigger] before.submits_files(files, submitted)
            &&& package_committed(
                before,
                compiled_members(submitted),
                compile_errors(submitted),
                Ok(()),
                after,
            )
        };
    let second = choose|submitted: Seq<Submission<B::Source>>|
        {
            &&& #[trigger] after.submits_files(files, submitted)
            &&& package_committed(
                after,
                compiled_members(submitted),
                compile_errors(submitted),
                result,
                again,
            )
        };
    assert forall|i: int| 0 <= i < first.len() implies alike(#[trigger] first[i], second[i]) by {
        lemma_all_compiled(first, i);
        assert(before.submits_file(files[i].0, files[i].1, first[i]));
        assert(after.submits_file(files[i].0, files[i].1, second[i]));
        lemma_accepted_file_submitted_alike(
            before,
            after,
            files[i].0,
            files[i].1,
            first[i],
            second[i],
        );
    }
    lemma_same_outcome(first, second);
    assert(compile_errors(first) =~= Seq::empty());
    package_update_is_idempotent(before, compiled_members(first), after, result, again);
}

/// Replaying an update is idempotent: once it has been accepted, a second call with the
/// same members succeeds and leaves the registry as it is.
pub proof fn replaying_an_update_is_idempotent<B: Backend>(
    before: RegistryView<B>,
    members: Seq<(Seq<char>, TemplateSource<B::Source>)>,
    after: RegistryView<B>,
    result: Result<(), TemplateUpdateError>,
    again: RegistryView<B>,
)
    requires
        compiles_in_one_way(before.backend),
        loads_in_one_way(before.backend),
        members_updated(before, members, Ok(()), after),
        members_updated(after, members, result, again),
    ensures
        result is Ok,
        again == after,
{
    let first = choose|submitted: Seq<Submission<B::Source>>|
        {
            &&& #[trigger] before.submits_members(members, submitted)
            &&& update_applied(before, submitted, Ok(()), after)
        };
    let second = choose|submitted: Seq<Submission<B::Source>>|
        {
            &&& #[trigger] after.submits_members(members, submitted)
            &&& update_applied(after, submitted, result, again)
        };
    assert forall|i: int| 0 <= i < first.len() implies alike(#[trigger] first[i], second[i]) by {
        assert(!at_fault(first, first[i].name@));
        assert(first[i].compiled is Ok);
        assert(before.submits_member(members[i].0, members[i].1, first[i]));
        assert(after.submits_member(members[i].0, members[i].1, second[i]));
        if let TemplateSource::File(source) = members[i].1 {
            lemma_accepted_file_submitted_alike(
                before,
                after,
                members[i].0,
                source,
                first[i],
                second[i],
            );
        }
    }
    lemma_same_outcome(first, second);
    assert forall|name: Seq<char>| !#[trigger] at_fault(second, name) by {
        assert(!at_fault(first, name));
        if repeated(second, name) {
            let (i, j) = choose|i: int, j: int|
                0 <= i < j < second.len() && #[trigger] second[i].name@ == name
                    && #[trigger] second[j].name@ == name;
            assert(alike(first[i], second[i]) && alike(first[j], second[j]));
            assert(repeated(first, name));
        }
        if at_fault(second, name) {
            let i = choose|i: int|
                0 <= i < second.len() && #[trigger] second[i].name@ == name
                    && second[i].compiled is Err;
            assert(alike(first[i], second[i]));
        }
    }
    let package = compiled_members(first);
    assert forall|member: Seq<char>, partial: Seq<char>| !#[trigger] after.unresolved(
        package,
        member,
        partial,
    ) by {
        assert(!before.unresolved(package, member, partial));
    }
    assert(after.closes(package));
    assert(after.with_package(package).templates =~= after.templates);
    assert(after.with_package(package).template_sources =~= after.template_sources);
    assert(after.with_package(package).package =~= after.package);
}

/// Whether no two texts of a package are answered with errors that carry the same name.
pub open spec fn texts_tell_apart<B: Backend>(
    before: RegistryView<B>,
    texts: Seq<(Seq<char>, Seq<char>)>,
) -> bool {
    forall|i: int, j: int, error: TemplateError, other_error: TemplateError|
        0 <= i < j < texts.len() && #[trigger] compile_reply(
            before.backend,
            texts[i].1,
            Some(texts[i].0),
            before.prevent_indent,
            Err::<Template, TemplateError>(error),
        ) && #[trigger] compile_reply(
            before.backend,
            texts[j].1,
            Some(texts[j].0),
            before.prevent_indent,
            Err::<Template, TemplateError>(other_error),
        ) ==> error.name_spec() != other_error.name_spec()
}

proof fn lemma_no_repetition<B: Backend>(
    before: RegistryView<B>,
    texts: Seq<(Seq<char>, Seq<char>)>,
    submitted: Seq<Submission<B::Source>>,
    name: Seq<char>,
)
    requires
        before.submits_texts(texts, submitted),
        forall|i: int, j: int|
            0 <= i < j < texts.len() ==> (#[trigger] texts[i]).0 != (#[trigger] texts[j]).0,
    ensures
        !repeated(submitted, name),
{
    if repeated(submitted, name) {
        let (i, j) = choose|i: int, j: int|
            0 <= i < j < submitted.len() && #[trigger] submitted[i].name@ == name
                && #[trigger] submitted[j].name@ == name;
        assert(before.submits_text(texts[i].0, texts[i].1, submitted[i]));
        assert(before.submits_text(texts[j].0, texts[j].1, submitted[j]));
        assert(texts[i].0 != texts[j].0);
    }
}

proof fn lemma_text_submitted_by_both<B: Backend>(
    before: RegistryView<B>,
    texts: Seq<(Seq<char>, Seq<char>)>,
    other_texts: Seq<(Seq<char>, Seq<char>)>,
    submitted: Seq<Submission<B::Source>>,
    other_submitted: Seq<Submission<B::Source>>,
    i: int,
)
    requires
        compiles_in_one_way(before.backend),
        before.submits_texts(texts, submitted),
        before.submits_texts(other_texts, other_submitted),
        0 <= i < submitted.len(),
        other_texts.contains(texts[i]),
    ensures
        has_like(other_submitted, submitted[i]),
{
    let j = other_texts.index_of(texts[i]);
    assert(before.submits_text(texts[i].0, texts[i].1, submitted[i]));
    assert(before.submits_text(other_texts[j].0, other_texts[j].1, other_submitted[j]));
    assert(alike(submitted[i], other_submitted[j]));
}

/// The members of a package may be given in any order: a permutation of the texts gives
/// the same result, down to the report on a refused package, and the same registry. That
/// is so where no name is given twice and no two errors carry the same name.
pub proof fn packages_may_be_given_in_any_order<B: Backend>(
    before: RegistryView<B>,
    texts: Seq<(Seq<char>, Seq<char>)>,
    other_texts: Seq<(Seq<char>, Seq<char>)>,
    result: Result<(), TemplatePackageError>,
    after: RegistryView<B>,
    other_result: Result<(), TemplatePackageError>,
    other_after: RegistryView<B>,
)
    requires
        compiles_in_one_way(before.backend),
        texts.to_multiset() == other_texts.to_multiset(),
        forall|i: int, j: int|
            0 <= i < j < texts.len() ==> (#[trigger] texts[i]).0 != (#[trigger] texts[j]).0,
        texts_tell_apart(before, texts),
        package_registered(before, texts, result, after),
        package_registered(before, other_texts, other_result, other_after),
    ensures
        after == other_after,
        same_package_result(result, other_result),
{
    broadcast use vstd::seq_lib::to_multiset_contains;

    let one = choose|submitted: Seq<Submission<B::Source>>|
        {
            &&& #[trigger] before.submits_texts(texts, submitted)
            &&& package_committed(
                before,
                compiled_members(submitted),
                compile_errors(submitted),
                result,
                after,
            )
        };
    let other = choose|submitted: Seq<Submission<B::Source>>|
        {
            &&& #[trigger] before.submits_texts(other_texts, submitted)
            &&& package_committed(
                before,
                compiled_members(submitted),
                compile_errors(submitted),
                other_result,
                other_after,
            )
        };
    assert forall|pair: (Seq<char>, Seq<char>)| #[trigger]
        texts.contains(pair) <==> other_texts.contains(pair) by {
        assert(texts.to_multiset().count(pair) == other_texts.to_multiset().count(pair));
    }
    assert(texts.no_duplicates());
    texts.lemma_multiset_has_no_duplicates();
    other_texts.lemma_multiset_has_no_duplicates_conv();
    assert forall|i: int, j: int| 0 <= i < j < other_texts.len() implies (
    #[trigger] other_texts[i]).0 != (#[trigger] other_texts[j]).0 by {
        assert(texts.contains(other_texts[i]) && texts.contains(other_texts[j]));
        let a = texts.index_of(other_texts[i]);
        let b = texts.index_of(other_texts[j]);
        assert(texts[a] != texts[b]);
        if a < b {
            assert(texts[a].0 != texts[b].0);
        } else {
            assert(texts[b].0 != texts[a].0);
        }
    }
    assert forall|name: Seq<char>| !repeated(one, name) && !repeated(other, name) by {
        lemma_no_repetition(before, texts, one, name);
        lemma_no_repetition(before, other_texts, other, name);
    }
    assert forall|i: int| 0 <= i < one.len() implies has_like(other, #[trigger] one[i]) by {
        assert(texts.contains(texts[i]));
        lemma_text_submitted_by_both(before, texts, other_texts, one, other, i);
    }
    assert forall|i: int| 0 <= i < other.len() implies has_like(one, #[trigger] other[i]) by {
        assert(other_texts.contains(other_texts[i]));
        lemma_text_submitted_by_both(before, other_texts, texts, other, one, i);
    }
    assert forall|i: int, j: int|
        0 <= i < j < one.len() && (#[trigger] one[i]).compiled is Err && (
        #[trigger] one[j]).compiled is Err implies one[i].compiled->Err_0.name_spec()
        != one[j].compiled->Err_0.name_spec() by {
        assert(before.submits_text(texts[i].0, texts[i].1, one[i]));
        assert(before.submits_text(texts[j].0, texts[j].1, one[j]));
        let error = one[i].compiled->Err_0;
        let other_error = one[j].compiled->Err_0;
        assert(one[i].compiled == Err::<Template, TemplateError>(error));
        assert(one[j].compiled == Err::<Template, TemplateError>(other_error));
    }
    package_outcomes_do_not_depend_on_order(
        before,
        one,
        other,
        result,
        after,
        other_result,
        other_after,
    );
}

proof fn lemma_files_submitted_as_texts<S>(
    files: Seq<Submission<S>>,
    texts: Seq<Submission<S>>,
)
    requires
        files.len() == texts.len(),
        forall|i: int|
            0 <= i < files.len() ==> (#[trigger] files[i]).name@ == texts[i].name@
                && files[i].compiled == texts[i].compiled && texts[i].source is None,
    ensures
        compiled_members(texts) == without_sources(compiled_members(files)),
        compile_errors(texts) == compile_errors(files),
    decreases files.len(),
{
    if files.len() > 0 {
        let front = files.drop_last();
        let other_front = texts.drop_last();
        assert forall|i: int| 0 <= i < front.len() implies (#[trigger] front[i]).name@
            == other_front[i].name@ && front[i].compiled == other_front[i].compiled
            && other_front[i].source is None by {
            assert(files[i].name@ == texts[i].name@);
        }
        lemma_files_submitted_as_texts(front, other_front);
        assert(files[files.len() - 1].name@ == texts[files.len() - 1].name@);
    }
    assert(compiled_members(texts) =~= without_sources(compiled_members(files)));
}

/// Registering a package of files behaves just as registering a package of the texts
/// that the files hold: it gives the same result, down to the report on a refused
/// package. Outside dev mode it leaves the same registry, and in dev mode the same but
/// for the sources.
pub proof fn package_files_are_registered_as_texts<B: Backend>(
    before: RegistryView<B>,
    files: Seq<(Seq<char>, B::Source)>,
    texts: Seq<(Seq<char>, Seq<char>)>,
    result: Result<(), TemplatePackageError>,
    after: RegistryView<B>,
    text_result: Result<(), TemplatePackageError>,
    after_texts: RegistryView<B>,
)
    requires
        compiles_in_one_way(before.backend),
        files.len() == texts.len(),
        forall|i: int|
            0 <= i < files.len() ==> (#[trigger] files[i]).0 == texts[i].0 && holds_text(
                before.backend,
                files[i].1,
                texts[i].1,
            ),
        package_files_registered(before, files, result, after),
        package_registered(before, texts, text_result, after_texts),
    ensures
        same_package_result(result, text_result),
        !before.dev_mode ==> after == after_texts,
        after_texts == (RegistryView {
            template_sources: after_texts.template_sources,
            ..after
        }),
{
    let one = choose|submitted: Seq<Submission<B::Source>>|
        {
            &&& #[trigger] before.submits_files(files, submitted)
            &&& package_committed(
                before,
                compiled_members(submitted),
                compile_errors(submitted),
                result,
                after,
            )
        };
    let other = choose|submitted: Seq<Submission<B::Source>>|
        {
            &&& #[trigger] before.submits_texts(texts, submitted)
            &&& package_committed(
                before,
                compiled_members(submitted),
                compile_errors(submitted),
                text_result,
                after_texts,
            )
        };
    assert forall|i: int| 0 <= i < one.len() implies (#[trigger] one[i]).name@ == other[i].name@
        && one[i].compiled == other[i].compiled && other[i].source is None by {
        let (name, source) = files[i];
        let text = texts[i].1;
        assert(files[i].0 == texts[i].0);
        assert(before.submits_file(files[i].0, files[i].1, one[i]));
        assert(before.submits_text(texts[i].0, texts[i].1, other[i]));
        let loaded = choose|loaded: Result<String, IoError>|
            {
                &&& #[trigger] load_reply(before.backend, source, loaded)
                &&& match loaded {
                    Ok(t) => compile_reply(
                        before.backend,
                        t@,
                        Some(name),
                        before.prevent_indent,
                        one[i].compiled,
                    ),
                    Err(err) => one[i].compiled matches Err(failure) && failure.is_load_failure(
                        err,
                        name,
                    ),
                }
            };
        assert(loaded is Ok && loaded->Ok_0@ == text);
    }
    lemma_files_submitted_as_texts(one, other);
    let members = compiled_members(one);
    let text_members = compiled_members(other);
    files_and_texts_agree(before, members);
    if compile_errors(one).len() > 0 {
        reports_are_unique(
            compile_errors(one),
            result->Err_0->Compile_0@,
            text_result->Err_0->Compile_0@,
        );
    } else if !before.closes(members) {
        let list = named_pairs(result->Err_0->UnresolvedPartials_0@);
        assert forall|member: Seq<char>, partial: Seq<char>|
            list.contains((member, partial)) <==> #[trigger] before.unresolved(
                text_members,
                member,
                partial,
            ) by {
            assert(list.contains((member, partial)) <==> before.unresolved(
                members,
                member,
                partial,
            ));
            assert(before.provides(members, partial) == before.provides(text_members, partial));
        }
        assert(lists_unresolved(before, text_members, list));
        unresolved_lists_are_unique(
            before,
            text_members,
            list,
            named_pairs(text_result->Err_0->UnresolvedPartials_0@),
        );
    }
}

} // verus!
