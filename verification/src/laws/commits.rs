//! What comes of package updates, member by member.
use vstd::prelude::*;

use crate::backend::{compile_reply, source_reply, Backend};
use crate::error::{
    TemplateError, TemplatePackageError, TemplateUpdateError, TemplateUpdateMemberError,
};
use crate::laws::reports::lemma_compile_error;
use crate::names::{in_name_order, name_before};
use crate::registry::package::{
    compile_errors, compiled_members, errors_of, named_files, named_pairs, named_texts,
    package_committed, package_files_registered, package_registered, pair_before, reported_before,
    PackageMember, Submission,
};
use crate::registry::update::{
    at_fault, is_fault, is_missing_dependency, members_updated, named_members, repeated,
    update_applied, TemplateSource,
};
use crate::registry::RegistryView;
use crate::template::{required_partials, Template};
use crate::text::texts;

verus! {

/// Whether a member of a package requires a partial that is neither a member itself nor
/// registered outside the package that is installed.
pub open spec fn is_missing<B: Backend>(
    before: RegistryView<B>,
    members: Map<Seq<char>, PackageMember<B::Source>>,
    member: Seq<char>,
    partial: Seq<char>,
) -> bool {
    &&& members.contains_key(member)
    &&& required_partials(members[member].template).contains(partial)
    &&& !members.contains_key(partial)
    &&& !before.templates.contains_key(partial) || before.package.contains(partial)
}

proof fn lemma_closes<B: Backend>(
    before: RegistryView<B>,
    members: Map<Seq<char>, PackageMember<B::Source>>,
)
    ensures
        before.closes(members) <==> forall|member: Seq<char>, partial: Seq<char>|
            !#[trigger] is_missing(before, members, member, partial),
{
    assert forall|member: Seq<char>, partial: Seq<char>|
        #![trigger is_missing(before, members, member, partial)]
        #![trigger before.unresolved(members, member, partial)]
        is_missing(before, members, member, partial) == before.unresolved(
            members,
            member,
            partial,
        ) by {}
    if before.closes(members) {
        assert forall|member: Seq<char>, partial: Seq<char>| !#[trigger] is_missing(
            before,
            members,
            member,
            partial,
        ) by {
            assert(!before.unresolved(members, member, partial));
        }
    }
    if forall|member: Seq<char>, partial: Seq<char>|
        !#[trigger] is_missing(before, members, member, partial) {
        assert forall|member: Seq<char>, partial: Seq<char>| !#[trigger] before.unresolved(
            members,
            member,
            partial,
        ) by {
            assert(!is_missing(before, members, member, partial));
        }
    }
}

/// A package is accepted exactly if all members compile and every partial that a member
/// requires is a member of the package, that member itself included, or is registered
/// outside the package that is installed.
pub proof fn packages_are_accepted_if_their_partials_are_there<B: Backend>(
    before: RegistryView<B>,
    members: Map<Seq<char>, PackageMember<B::Source>>,
    errors: Seq<TemplateError>,
    result: Result<(), TemplatePackageError>,
    after: RegistryView<B>,
)
    requires
        package_committed(before, members, errors, result, after),
    ensures
        result is Ok <==> {
            &&& errors.len() == 0
            &&& forall|member: Seq<char>, partial: Seq<char>|
                members.contains_key(member) && #[trigger] required_partials(
                    members[member].template,
                ).contains(partial) ==> members.contains_key(partial)
                    || before.templates.contains_key(partial) && !before.package.contains(partial)
        },
{
    lemma_closes(before, members);
    if before.closes(members) {
        assert forall|member: Seq<char>, partial: Seq<char>|
            members.contains_key(member) && #[trigger] required_partials(
                members[member].template,
            ).contains(partial) implies members.contains_key(partial)
            || before.templates.contains_key(partial) && !before.package.contains(partial) by {
            assert(!is_missing(before, members, member, partial));
        }
    } else {
        let (member, partial) = choose|member: Seq<char>, partial: Seq<char>| #[trigger]
            is_missing(before, members, member, partial);
        assert(required_partials(members[member].template).contains(partial));
    }
}

/// What is under a name once a package is in place of the one that is installed: the
/// member of that name, with its source in dev mode; or what was there, unless it was a
/// member of the previous package.
pub open spec fn is_replaced<B: Backend>(
    before: RegistryView<B>,
    members: Map<Seq<char>, PackageMember<B::Source>>,
    name: Seq<char>,
    after: RegistryView<B>,
) -> bool {
    if members.contains_key(name) {
        &&& after.templates.contains_key(name)
        &&& after.templates[name] == members[name].template
        &&& after.template_sources.contains_key(name) <==> before.dev_mode
            && members[name].source is Some
        &&& before.dev_mode && members[name].source is Some ==> after.template_sources[name]
            == members[name].source->0
        &&& after.package.contains(name)
    } else if before.package.contains(name) {
        &&& !after.templates.contains_key(name)
        &&& !after.template_sources.contains_key(name)
        &&& !after.package.contains(name)
    } else {
        &&& after.templates.contains_key(name) == before.templates.contains_key(name)
        &&& before.templates.contains_key(name) ==> after.templates[name]
            == before.templates[name]
        &&& after.template_sources.contains_key(name) == before.template_sources.contains_key(name)
        &&& before.template_sources.contains_key(name) ==> after.template_sources[name]
            == before.template_sources[name]
        &&& !after.package.contains(name)
    }
}

/// An accepted package is in place of the previous one, name by name. Nothing else
/// changes. A refused package changes nothing.
pub proof fn accepted_packages_replace_the_previous_one<B: Backend>(
    before: RegistryView<B>,
    members: Map<Seq<char>, PackageMember<B::Source>>,
    errors: Seq<TemplateError>,
    result: Result<(), TemplatePackageError>,
    after: RegistryView<B>,
    name: Seq<char>,
)
    requires
        package_committed(before, members, errors, result, after),
    ensures
        result is Ok ==> {
            &&& is_replaced(before, members, name, after)
            &&& after == (RegistryView {
                templates: after.templates,
                template_sources: after.template_sources,
                package: after.package,
                ..before
            })
        },
        result is Err ==> after == before,
{
}

/// A package with members that do not compile is refused with a report on exactly their
/// errors. Those without a name come first, the others follow in the order of their
/// names, and errors of one name keep their order.
pub proof fn broken_packages_are_refused_with_all_errors<B: Backend>(
    before: RegistryView<B>,
    members: Map<Seq<char>, PackageMember<B::Source>>,
    errors: Seq<TemplateError>,
    result: Result<(), TemplatePackageError>,
    after: RegistryView<B>,
    error: TemplateError,
    name: Option<Seq<char>>,
    i: int,
    j: int,
)
    requires
        package_committed(before, members, errors, result, after),
        errors.len() > 0,
    ensures
        result is Err,
        result->Err_0 is Compile,
        ({
            let report = result->Err_0->Compile_0@;
            &&& report.contains(error) <==> errors.contains(error)
            &&& report.filter(|e: TemplateError| e.name_spec() == name) == errors.filter(
                |e: TemplateError| e.name_spec() == name,
            )
            &&& 0 <= i < j < report.len() ==> {
                &&& report[j].template_name is None ==> report[i].template_name is None
                &&& report[i].template_name is Some && report[j].template_name is Some
                    ==> !name_before(report[j].template_name->0@, report[i].template_name->0@)
            }
        }),
{
    let report = result->Err_0->Compile_0@;
    assert(errors_of(report, name) == errors_of(errors, name));
    let its = error.name_spec();
    let pred = |e: TemplateError| e.name_spec() == its;
    assert(errors_of(report, its) == errors_of(errors, its));
    if report.contains(error) {
        report.lemma_filter_contains(pred, report.index_of(error));
        errors.lemma_filter_contains_rev(pred, error);
    }
    if errors.contains(error) {
        errors.lemma_filter_contains(pred, errors.index_of(error));
        report.lemma_filter_contains_rev(pred, error);
    }
    if 0 <= i < j < report.len() {
        assert(!reported_before(report[j].name_spec(), report[i].name_spec()));
    }
}

/// The name of an error is the name that it carries.
pub proof fn errors_carry_their_names(error: TemplateError)
    ensures
        error.template_name is None ==> error.name_spec() is None,
        error.template_name is Some ==> error.name_spec() == Some(error.template_name->0@),
{
}

/// A package whose members compile and require partials that are not there is refused
/// with exactly those, once each, in the order of the members and then of the partials.
pub proof fn open_packages_are_refused_with_all_references<B: Backend>(
    before: RegistryView<B>,
    members: Map<Seq<char>, PackageMember<B::Source>>,
    errors: Seq<TemplateError>,
    result: Result<(), TemplatePackageError>,
    after: RegistryView<B>,
    member: Seq<char>,
    partial: Seq<char>,
    i: int,
    j: int,
)
    requires
        package_committed(before, members, errors, result, after),
        errors.len() == 0,
        result is Err,
    ensures
        result->Err_0 is UnresolvedPartials,
        ({
            let list = result->Err_0->UnresolvedPartials_0@;
            &&& is_missing(before, members, member, partial) <==> exists|k: int|
                0 <= k < list.len() && (#[trigger] list[k]).0@ == member && list[k].1@ == partial
            &&& 0 <= i < j < list.len() ==> {
                ||| name_before(list[i].0@, list[j].0@)
                ||| list[i].0@ == list[j].0@ && name_before(list[i].1@, list[j].1@)
            }
        }),
{
    let list = result->Err_0->UnresolvedPartials_0@;
    let pairs = named_pairs(list);
    assert(pairs.contains((member, partial)) <==> before.unresolved(members, member, partial));
    if pairs.contains((member, partial)) {
        let k = pairs.index_of((member, partial));
        assert(list[k].0@ == member && list[k].1@ == partial);
    }
    if exists|k: int|
        0 <= k < list.len() && (#[trigger] list[k]).0@ == member && list[k].1@ == partial {
        let k = choose|k: int|
            0 <= k < list.len() && (#[trigger] list[k]).0@ == member && list[k].1@ == partial;
        assert(pairs[k] == (member, partial));
    }
    if 0 <= i < j < list.len() {
        assert(pair_before(pairs[i], pairs[j]));
    }
}

/// The members of a package are those submissions that compiled. Of several under one
/// name the last that compiled counts.
pub proof fn the_last_submission_of_a_name_counts<S>(
    submitted: Seq<Submission<S>>,
    name: Seq<char>,
)
    ensures
        compiled_members(submitted).contains_key(name) <==> exists|i: int|
            0 <= i < submitted.len() && #[trigger] submitted[i].name@ == name
                && submitted[i].compiled is Ok,
        forall|i: int|
            {
                &&& 0 <= i < submitted.len()
                &&& #[trigger] submitted[i].name@ == name
                &&& submitted[i].compiled is Ok
                &&& forall|j: int|
                    i < j < submitted.len() && #[trigger] submitted[j].name@ == name
                        ==> submitted[j].compiled is Err
            } ==> compiled_members(submitted)[name] == (PackageMember {
                template: submitted[i].compiled->Ok_0,
                source: submitted[i].source,
            }),
    decreases submitted.len(),
{
    if submitted.len() > 0 {
        let front = submitted.drop_last();
        let last = submitted.len() - 1;
        the_last_submission_of_a_name_counts(front, name);
        let here = submitted[last].name@ == name && submitted[last].compiled is Ok;
        if compiled_members(submitted).contains_key(name) && !here {
            assert(compiled_members(front).contains_key(name));
            let i = choose|i: int|
                0 <= i < front.len() && #[trigger] front[i].name@ == name
                    && front[i].compiled is Ok;
            assert(submitted[i].name@ == name);
        }
        if exists|i: int|
            0 <= i < submitted.len() && #[trigger] submitted[i].name@ == name
                && submitted[i].compiled is Ok {
            let i = choose|i: int|
                0 <= i < submitted.len() && #[trigger] submitted[i].name@ == name
                    && submitted[i].compiled is Ok;
            if i < last {
                assert(front[i].name@ == name);
            }
        }
        assert forall|i: int|
            {
                &&& 0 <= i < submitted.len()
                &&& #[trigger] submitted[i].name@ == name
                &&& submitted[i].compiled is Ok
                &&& forall|j: int|
                    i < j < submitted.len() && #[trigger] submitted[j].name@ == name
                        ==> submitted[j].compiled is Err
            } implies compiled_members(submitted)[name] == (PackageMember {
            template: submitted[i].compiled->Ok_0,
            source: submitted[i].source,
        }) by {
            if i < last {
                assert(front[i].name@ == name);
                assert(submitted[last].name@ == name ==> submitted[last].compiled is Err);
                assert forall|j: int|
                    i < j < front.len() && #[trigger] front[j].name@ == name implies front[j].compiled is Err by {
                    assert(submitted[j].name@ == name);
                }
            }
        }
    }
}

/// The errors of a package are those of the submissions that did not compile, in their
/// order.
pub proof fn errors_are_listed_in_the_order_of_submissions<S>(
    submitted: Seq<Submission<S>>,
    next: Submission<S>,
)
    ensures
        compile_errors(Seq::<Submission<S>>::empty()).len() == 0,
        compile_errors(submitted.push(next)) == match next.compiled {
            Ok(_) => compile_errors(submitted),
            Err(error) => compile_errors(submitted).push(error),
        },
{
    assert(submitted.push(next).drop_last() =~= submitted);
}

proof fn lemma_all_compiled<S>(submitted: Seq<Submission<S>>)
    requires
        compile_errors(submitted).len() == 0,
    ensures
        forall|i: int| 0 <= i < submitted.len() ==> (#[trigger] submitted[i]).compiled is Ok,
{
    assert forall|i: int| 0 <= i < submitted.len() implies (
    #[trigger] submitted[i]).compiled is Ok by {
        if let Err(error) = submitted[i].compiled {
            lemma_compile_error(submitted, error);
            assert(compile_errors(submitted).contains(error));
        }
    }
}

/// Where nothing failed, the last submission of a name is the member of that name.
proof fn lemma_last_is_member<S>(submitted: Seq<Submission<S>>, i: int)
    requires
        compile_errors(submitted).len() == 0,
        0 <= i < submitted.len(),
        forall|j: int| i < j < submitted.len() ==> #[trigger] submitted[j].name@
            != submitted[i].name@,
    ensures
        submitted[i].compiled is Ok,
        compiled_members(submitted).contains_key(submitted[i].name@),
        compiled_members(submitted)[submitted[i].name@] == (PackageMember {
            template: submitted[i].compiled->Ok_0,
            source: submitted[i].source,
        }),
{
    lemma_all_compiled(submitted);
    the_last_submission_of_a_name_counts(submitted, submitted[i].name@);
}

/// A package of template strings that is accepted holds under each name what the compiler
/// has answered for the last text of that name, without a source. Its names are those of
/// the texts and no others.
pub proof fn accepted_texts_are_installed<B: Backend>(
    before: RegistryView<B>,
    texts: Seq<(Seq<char>, Seq<char>)>,
    after: RegistryView<B>,
    i: int,
    name: Seq<char>,
)
    requires
        package_registered(before, texts, Ok(()), after),
        0 <= i < texts.len(),
        forall|j: int| i < j < texts.len() ==> (#[trigger] texts[j]).0 != texts[i].0,
    ensures
        after.templates.contains_key(texts[i].0),
        compile_reply(
            before.backend,
            texts[i].1,
            Some(texts[i].0),
            before.prevent_indent,
            Ok::<Template, TemplateError>(after.templates[texts[i].0]),
        ),
        !after.template_sources.contains_key(texts[i].0),
        after.package.contains(name) <==> exists|k: int|
            0 <= k < texts.len() && (#[trigger] texts[k]).0 == name,
{
    let submitted = choose|submitted: Seq<Submission<B::Source>>|
        {
            &&& #[trigger] before.submits_texts(texts, submitted)
            &&& package_committed(
                before,
                compiled_members(submitted),
                compile_errors(submitted),
                Ok(()),
                after,
            )
        };
    let members = compiled_members(submitted);
    assert(before.submits_text(texts[i].0, texts[i].1, submitted[i]));
    assert forall|j: int| i < j < submitted.len() implies #[trigger] submitted[j].name@
        != submitted[i].name@ by {
        assert(before.submits_text(texts[j].0, texts[j].1, submitted[j]));
        assert(texts[j].0 != texts[i].0);
    }
    lemma_last_is_member(submitted, i);
    lemma_all_compiled(submitted);
    accepted_packages_replace_the_previous_one(
        before,
        members,
        compile_errors(submitted),
        Ok(()),
        after,
        texts[i].0,
    );
    accepted_packages_replace_the_previous_one(
        before,
        members,
        compile_errors(submitted),
        Ok(()),
        after,
        name,
    );
    the_last_submission_of_a_name_counts(submitted, name);
    if members.contains_key(name) {
        let k = choose|k: int|
            0 <= k < submitted.len() && #[trigger] submitted[k].name@ == name
                && submitted[k].compiled is Ok;
        assert(before.submits_text(texts[k].0, texts[k].1, submitted[k]));
        assert(texts[k].0 == name);
    }
    if exists|k: int| 0 <= k < texts.len() && (#[trigger] texts[k]).0 == name {
        let k = choose|k: int| 0 <= k < texts.len() && (#[trigger] texts[k]).0 == name;
        assert(before.submits_text(texts[k].0, texts[k].1, submitted[k]));
        assert(submitted[k].name@ == name);
    }
}

/// A package of files that is accepted holds under each name what has come of the last
/// file of that name, and in dev mode the file as its source. Its names are those of the
/// files and no others.
pub proof fn accepted_files_are_installed<B: Backend>(
    before: RegistryView<B>,
    files: Seq<(Seq<char>, B::Source)>,
    after: RegistryView<B>,
    i: int,
    name: Seq<char>,
)
    requires
        package_files_registered(before, files, Ok(()), after),
        0 <= i < files.len(),
        forall|j: int| i < j < files.len() ==> (#[trigger] files[j]).0 != files[i].0,
    ensures
        after.templates.contains_key(files[i].0),
        source_reply(
            before.backend,
            files[i].1,
            files[i].0,
            files[i].0,
            before.prevent_indent,
            Ok::<Template, TemplateError>(after.templates[files[i].0]),
        ),
        after.template_sources.contains_key(files[i].0) == before.dev_mode,
        before.dev_mode ==> after.template_sources[files[i].0] == files[i].1,
        after.package.contains(name) <==> exists|k: int|
            0 <= k < files.len() && (#[trigger] files[k]).0 == name,
{
    let submitted = choose|submitted: Seq<Submission<B::Source>>|
        {
            &&& #[trigger] before.submits_files(files, submitted)
            &&& package_committed(
                before,
                compiled_members(submitted),
                compile_errors(submitted),
                Ok(()),
                after,
            )
        };
    let members = compiled_members(submitted);
    assert(before.submits_file(files[i].0, files[i].1, submitted[i]));
    assert forall|j: int| i < j < submitted.len() implies #[trigger] submitted[j].name@
        != submitted[i].name@ by {
        assert(before.submits_file(files[j].0, files[j].1, submitted[j]));
        assert(files[j].0 != files[i].0);
    }
    lemma_last_is_member(submitted, i);
    lemma_all_compiled(submitted);
    accepted_packages_replace_the_previous_one(
        before,
        members,
        compile_errors(submitted),
        Ok(()),
        after,
        files[i].0,
    );
    accepted_packages_replace_the_previous_one(
        before,
        members,
        compile_errors(submitted),
        Ok(()),
        after,
        name,
    );
    the_last_submission_of_a_name_counts(submitted, name);
    if members.contains_key(name) {
        let k = choose|k: int|
            0 <= k < submitted.len() && #[trigger] submitted[k].name@ == name
                && submitted[k].compiled is Ok;
        assert(before.submits_file(files[k].0, files[k].1, submitted[k]));
        assert(files[k].0 == name);
    }
    if exists|k: int| 0 <= k < files.len() && (#[trigger] files[k]).0 == name {
        let k = choose|k: int| 0 <= k < files.len() && (#[trigger] files[k]).0 == name;
        assert(before.submits_file(files[k].0, files[k].1, submitted[k]));
        assert(submitted[k].name@ == name);
    }
}

/// A package of template strings is refused for a compile error only where the compiler
/// has answered one of the texts with it.
pub proof fn compile_errors_come_from_the_texts<B: Backend>(
    before: RegistryView<B>,
    texts: Seq<(Seq<char>, Seq<char>)>,
    report: Vec<TemplateError>,
    after: RegistryView<B>,
    k: int,
)
    requires
        package_registered(
            before,
            texts,
            Err(TemplatePackageError::Compile(report)),
            after,
        ),
        0 <= k < report@.len(),
    ensures
        exists|i: int|
            0 <= i < texts.len() && compile_reply(
                before.backend,
                (#[trigger] texts[i]).1,
                Some(texts[i].0),
                before.prevent_indent,
                Err::<Template, TemplateError>(report@[k]),
            ),
{
    let result = Err::<(), TemplatePackageError>(TemplatePackageError::Compile(report));
    let submitted = choose|submitted: Seq<Submission<B::Source>>|
        {
            &&& #[trigger] before.submits_texts(texts, submitted)
            &&& package_committed(
                before,
                compiled_members(submitted),
                compile_errors(submitted),
                result,
                after,
            )
        };
    let errors = compile_errors(submitted);
    assert(report@.contains(report@[k]));
    broken_packages_are_refused_with_all_errors(
        before,
        compiled_members(submitted),
        errors,
        result,
        after,
        report@[k],
        None,
        0,
        0,
    );
    lemma_compile_error(submitted, report@[k]);
    let i = choose|i: int|
        0 <= i < submitted.len() && (#[trigger] submitted[i]).compiled == Err::<
            Template,
            TemplateError,
        >(report@[k]);
    assert(before.submits_text(texts[i].0, texts[i].1, submitted[i]));
    assert(texts[i].0 == submitted[i].name@);
}

/// The texts, files and members of a call are taken as they are given, in their order.
pub proof fn inputs_are_taken_as_given<S>(
    given_texts: Seq<(&str, &str)>,
    given_files: Seq<(&str, S)>,
    given_members: Seq<(&str, TemplateSource<S>)>,
    i: int,
)
    ensures
        named_texts(given_texts).len() == given_texts.len(),
        0 <= i < given_texts.len() ==> named_texts(given_texts)[i] == (
            given_texts[i].0@,
            given_texts[i].1@,
        ),
        named_files(given_files).len() == given_files.len(),
        0 <= i < given_files.len() ==> named_files(given_files)[i] == (
            given_files[i].0@,
            given_files[i].1,
        ),
        named_members(given_members).len() == given_members.len(),
        0 <= i < given_members.len() ==> named_members(given_members)[i] == (
            given_members[i].0@,
            given_members[i].1,
        ),
{
}

/// An update is accepted exactly if no name is there twice, all members compile, and
/// every partial that a member requires is a member of the update, that member itself
/// included, or is registered outside the package that is installed.
pub proof fn updates_are_accepted_if_their_partials_are_there<B: Backend>(
    before: RegistryView<B>,
    submitted: Seq<Submission<B::Source>>,
    result: Result<(), TemplateUpdateError>,
    after: RegistryView<B>,
)
    requires
        update_applied(before, submitted, result, after),
    ensures
        result is Ok <==> {
            &&& forall|i: int, j: int|
                0 <= i < j < submitted.len() ==> #[trigger] submitted[i].name@
                    != #[trigger] submitted[j].name@
            &&& forall|i: int| 0 <= i < submitted.len() ==> (#[trigger] submitted[i]).compiled is Ok
            &&& forall|member: Seq<char>, partial: Seq<char>|
                compiled_members(submitted).contains_key(member) && #[trigger] required_partials(
                    compiled_members(submitted)[member].template,
                ).contains(partial) ==> compiled_members(submitted).contains_key(partial)
                    || before.templates.contains_key(partial) && !before.package.contains(partial)
        },
{
    let members = compiled_members(submitted);
    lemma_closes(before, members);
    if exists|name: Seq<char>| at_fault(submitted, name) {
        let name = choose|name: Seq<char>| at_fault(submitted, name);
        if repeated(submitted, name) {
            let (i, j) = choose|i: int, j: int|
                0 <= i < j < submitted.len() && #[trigger] submitted[i].name@ == name
                    && #[trigger] submitted[j].name@ == name;
            assert(submitted[i].name@ == submitted[j].name@);
        } else {
            let i = choose|i: int|
                0 <= i < submitted.len() && #[trigger] submitted[i].name@ == name
                    && submitted[i].compiled is Err;
            assert(submitted[i].compiled is Err);
        }
    } else {
        assert forall|i: int, j: int|
            0 <= i < j < submitted.len() implies #[trigger] submitted[i].name@
            != #[trigger] submitted[j].name@ by {
            assert(!at_fault(submitted, submitted[i].name@));
            assert(!repeated(submitted, submitted[i].name@));
        }
        assert forall|i: int| 0 <= i < submitted.len() implies (
        #[trigger] submitted[i]).compiled is Ok by {
            assert(!at_fault(submitted, submitted[i].name@));
            assert(submitted[i].name@ == submitted[i].name@);
        }
        if before.closes(members) {
            assert forall|member: Seq<char>, partial: Seq<char>|
                members.contains_key(member) && #[trigger] required_partials(
                    members[member].template,
                ).contains(partial) implies members.contains_key(partial)
                || before.templates.contains_key(partial) && !before.package.contains(partial) by {
                assert(!is_missing(before, members, member, partial));
            }
        } else {
            let (member, partial) = choose|member: Seq<char>, partial: Seq<char>| #[trigger]
                is_missing(before, members, member, partial);
            assert(required_partials(members[member].template).contains(partial));
        }
    }
}

/// An accepted update is in place of the previous package, name by name. Nothing else
/// changes. A refused update changes nothing.
pub proof fn accepted_updates_replace_the_previous_package<B: Backend>(
    before: RegistryView<B>,
    submitted: Seq<Submission<B::Source>>,
    result: Result<(), TemplateUpdateError>,
    after: RegistryView<B>,
    name: Seq<char>,
)
    requires
        update_applied(before, submitted, result, after),
    ensures
        result is Ok ==> {
            &&& is_replaced(before, compiled_members(submitted), name, after)
            &&& after == (RegistryView {
                templates: after.templates,
                template_sources: after.template_sources,
                package: after.package,
                ..before
            })
        },
        result is Err ==> after == before,
{
}

/// An update with a repeated name is refused, and reports the name as repeated.
pub proof fn repeated_names_are_reported<B: Backend>(
    before: RegistryView<B>,
    submitted: Seq<Submission<B::Source>>,
    result: Result<(), TemplateUpdateError>,
    after: RegistryView<B>,
    i: int,
    j: int,
)
    requires
        update_applied(before, submitted, result, after),
        0 <= i < j < submitted.len(),
        submitted[i].name@ == submitted[j].name@,
    ensures
        result is Err,
        result->Err_0.members@.contains_key(submitted[i].name@),
        result->Err_0.members@[submitted[i].name@] is DuplicateName,
        after == before,
{
    assert(repeated(submitted, submitted[i].name@));
    assert(at_fault(submitted, submitted[i].name@));
    assert(result->Err_0.members@.contains_key(submitted[i].name@));
}

/// An update with a member that did not compile is refused, and reports the error of a
/// member whose name is there once.
pub proof fn errors_of_members_are_reported<B: Backend>(
    before: RegistryView<B>,
    submitted: Seq<Submission<B::Source>>,
    result: Result<(), TemplateUpdateError>,
    after: RegistryView<B>,
    i: int,
)
    requires
        update_applied(before, submitted, result, after),
        0 <= i < submitted.len(),
        submitted[i].compiled is Err,
    ensures
        result is Err,
        result->Err_0.members@.contains_key(submitted[i].name@),
        (forall|j: int|
            0 <= j < submitted.len() && j != i ==> #[trigger] submitted[j].name@
                != submitted[i].name@) ==> result->Err_0.members@[submitted[i].name@]
            == TemplateUpdateMemberError::Template(submitted[i].compiled->Err_0),
        after == before,
{
    let name = submitted[i].name@;
    assert(at_fault(submitted, name));
    assert(result->Err_0.members@.contains_key(name));
    if forall|j: int|
        0 <= j < submitted.len() && j != i ==> #[trigger] submitted[j].name@
            != submitted[i].name@ {
        assert(!repeated(submitted, name)) by {
            if repeated(submitted, name) {
                let (a, b) = choose|a: int, b: int|
                    0 <= a < b < submitted.len() && #[trigger] submitted[a].name@ == name
                        && #[trigger] submitted[b].name@ == name;
                assert(a == i && b == i);
            }
        }
    }
}

/// Where members are repeated or did not compile, an update reports no others.
pub proof fn members_without_fault_are_not_reported<B: Backend>(
    before: RegistryView<B>,
    submitted: Seq<Submission<B::Source>>,
    result: Result<(), TemplateUpdateError>,
    after: RegistryView<B>,
    name: Seq<char>,
    bad: int,
)
    requires
        update_applied(before, submitted, result, after),
        0 <= bad < submitted.len(),
        submitted[bad].compiled is Err || exists|j: int|
            0 <= j < submitted.len() && j != bad && #[trigger] submitted[j].name@
                == submitted[bad].name@,
        forall|i: int|
            0 <= i < submitted.len() && #[trigger] submitted[i].name@ == name
                ==> submitted[i].compiled is Ok,
        forall|i: int, j: int|
            0 <= i < j < submitted.len() && #[trigger] submitted[i].name@ == name
                ==> #[trigger] submitted[j].name@ != name,
    ensures
        result is Err,
        !result->Err_0.members@.contains_key(name),
{
    if submitted[bad].compiled is Ok {
        let j = choose|j: int|
            0 <= j < submitted.len() && j != bad && #[trigger] submitted[j].name@
                == submitted[bad].name@;
        assert(submitted[bad].name@ == submitted[j].name@);
        assert(repeated(submitted, submitted[bad].name@));
    }
    assert(at_fault(submitted, submitted[bad].name@));
    assert(!at_fault(submitted, name)) by {
        if repeated(submitted, name) {
            let (i, j) = choose|i: int, j: int|
                0 <= i < j < submitted.len() && #[trigger] submitted[i].name@ == name
                    && #[trigger] submitted[j].name@ == name;
            assert(submitted[j].name@ != name);
        }
    }
    if result->Err_0.members@.contains_key(name) {
        assert(at_fault(submitted, name));
    }
}

/// An update whose members compile and require partials that are not there is refused
/// for exactly those members. Each is reported with the first by name of the partials
/// that it lacks, and with all members that lack it, once each and in order.
pub proof fn missing_dependencies_are_reported<B: Backend>(
    before: RegistryView<B>,
    submitted: Seq<Submission<B::Source>>,
    result: Result<(), TemplateUpdateError>,
    after: RegistryView<B>,
    member: Seq<char>,
    partial: Seq<char>,
)
    requires
        update_applied(before, submitted, result, after),
        forall|i: int, j: int|
            0 <= i < j < submitted.len() ==> #[trigger] submitted[i].name@
                != #[trigger] submitted[j].name@,
        forall|i: int| 0 <= i < submitted.len() ==> (#[trigger] submitted[i]).compiled is Ok,
        result is Err,
    ensures
        ({
            let members = compiled_members(submitted);
            let report = result->Err_0.members@;
            &&& is_missing(before, members, member, partial) ==> {
                &&& report.contains_key(member)
                &&& report[member] is MissingDependency
                &&& report[member]->name@ == partial || name_before(report[member]->name@, partial)
            }
            &&& report.contains_key(member) ==> {
                &&& report[member] is MissingDependency
                &&& is_missing(before, members, member, report[member]->name@)
                &&& in_name_order(texts(report[member]->referenced_by@))
                &&& forall|other: Seq<char>| #[trigger]
                    texts(report[member]->referenced_by@).contains(other) <==> is_missing(
                        before,
                        members,
                        other,
                        report[member]->name@,
                    )
            }
        }),
{
    let members = compiled_members(submitted);
    let report = result->Err_0.members@;
    assert forall|name: Seq<char>| !at_fault(submitted, name) by {
        if repeated(submitted, name) {
            let (i, j) = choose|i: int, j: int|
                0 <= i < j < submitted.len() && #[trigger] submitted[i].name@ == name
                    && #[trigger] submitted[j].name@ == name;
            assert(submitted[i].name@ != submitted[j].name@);
        }
    }
    if is_missing(before, members, member, partial) {
        assert(before.unresolved(members, member, partial));
        assert(report.contains_key(member));
        assert(is_missing_dependency(before, members, member, report[member]));
    }
    if report.contains_key(member) {
        assert(is_missing_dependency(before, members, member, report[member]));
        assert(before.unresolved(members, member, report[member]->name@));
        assert forall|other: Seq<char>| #[trigger]
            texts(report[member]->referenced_by@).contains(other) <==> is_missing(
            before,
            members,
            other,
            report[member]->name@,
        ) by {
            assert(texts(report[member]->referenced_by@).contains(other) <==> before.unresolved(
                members,
                other,
                report[member]->name@,
            ));
        }
    }
}

/// A member of an accepted update is what has come of its text or of its source, and in
/// dev mode it is tracked by its source. The names of the package are those of the
/// members and no others.
pub proof fn accepted_members_are_installed<B: Backend>(
    before: RegistryView<B>,
    members: Seq<(Seq<char>, TemplateSource<B::Source>)>,
    after: RegistryView<B>,
    i: int,
    name: Seq<char>,
)
    requires
        members_updated(before, members, Ok(()), after),
        0 <= i < members.len(),
    ensures
        after.templates.contains_key(members[i].0),
        match members[i].1 {
            TemplateSource::String(text) => {
                &&& compile_reply(
                    before.backend,
                    text@,
                    Some(members[i].0),
                    before.prevent_indent,
                    Ok::<Template, TemplateError>(after.templates[members[i].0]),
                )
                &&& !after.template_sources.contains_key(members[i].0)
            },
            TemplateSource::File(source) => {
                &&& source_reply(
                    before.backend,
                    source,
                    members[i].0,
                    members[i].0,
                    before.prevent_indent,
                    Ok::<Template, TemplateError>(after.templates[members[i].0]),
                )
                &&& after.template_sources.contains_key(members[i].0) == before.dev_mode
                &&& before.dev_mode ==> after.template_sources[members[i].0] == source
            },
        },
        after.package.contains(name) <==> exists|k: int|
            0 <= k < members.len() && (#[trigger] members[k]).0 == name,
{
    let submitted = choose|submitted: Seq<Submission<B::Source>>|
        {
            &&& #[trigger] before.submits_members(members, submitted)
            &&& update_applied(before, submitted, Ok(()), after)
        };
    let package = compiled_members(submitted);
    updates_are_accepted_if_their_partials_are_there(before, submitted, Ok(()), after);
    assert(before.submits_member(members[i].0, members[i].1, submitted[i]));
    assert forall|j: int| 0 <= j < submitted.len() implies #[trigger] submitted[j].name@
        == members[j].0 by {
        assert(before.submits_member(members[j].0, members[j].1, submitted[j]));
    }
    assert(submitted[i].compiled is Ok);
    the_last_submission_of_a_name_counts(submitted, members[i].0);
    assert(submitted[i].name@ == members[i].0);
    assert(package.contains_key(members[i].0));
    assert(package[members[i].0] == (PackageMember {
        template: submitted[i].compiled->Ok_0,
        source: submitted[i].source,
    }));
    accepted_updates_replace_the_previous_package(before, submitted, Ok(()), after, members[i].0);
    accepted_updates_replace_the_previous_package(before, submitted, Ok(()), after, name);
    the_last_submission_of_a_name_counts(submitted, name);
    if package.contains_key(name) {
        let k = choose|k: int|
            0 <= k < submitted.len() && #[trigger] submitted[k].name@ == name
                && submitted[k].compiled is Ok;
        assert(members[k].0 == name);
    }
    if exists|k: int| 0 <= k < members.len() && (#[trigger] members[k]).0 == name {
        let k = choose|k: int| 0 <= k < members.len() && (#[trigger] members[k]).0 == name;
        assert(submitted[k].name@ == name);
        assert(submitted[k].compiled is Ok);
    }
}

/// Whether a template requires only partials that are among some names or are registered
/// outside the package that is installed.
pub open spec fn finds_its_partials<B: Backend>(
    before: RegistryView<B>,
    names: Set<Seq<char>>,
    template: Template,
) -> bool {
    forall|partial: Seq<char>| #[trigger]
        required_partials(template).contains(partial) ==> names.contains(partial)
            || before.templates.contains_key(partial) && !before.package.contains(partial)
}

proof fn lemma_good_submissions_are_accepted<B: Backend>(
    before: RegistryView<B>,
    submitted: Seq<Submission<B::Source>>,
    names: Set<Seq<char>>,
)
    requires
        forall|i: int|
            0 <= i < submitted.len() ==> (#[trigger] submitted[i]).compiled is Ok
                && finds_its_partials(before, names, submitted[i].compiled->Ok_0),
        forall|name: Seq<char>| #[trigger]
            names.contains(name) ==> exists|i: int|
                0 <= i < submitted.len() && #[trigger] submitted[i].name@ == name,
    ensures
        compile_errors(submitted).len() == 0,
        before.closes(compiled_members(submitted)),
{
    let members = compiled_members(submitted);
    let errors = compile_errors(submitted);
    if errors.len() > 0 {
        lemma_compile_error(submitted, errors[0]);
        assert(errors.contains(errors[0]));
    }
    lemma_closes(before, members);
    assert forall|member: Seq<char>, partial: Seq<char>| !#[trigger] is_missing(
        before,
        members,
        member,
        partial,
    ) by {
        if is_missing(before, members, member, partial) {
            lemma_member_was_submitted(submitted, member);
            let i = choose|i: int|
                0 <= i < submitted.len() && (#[trigger] submitted[i]).compiled is Ok
                    && members[member].template == submitted[i].compiled->Ok_0;
            assert(finds_its_partials(before, names, submitted[i].compiled->Ok_0));
            assert(names.contains(partial));
            let k = choose|k: int|
                0 <= k < submitted.len() && #[trigger] submitted[k].name@ == partial;
            assert(submitted[k].compiled is Ok);
            the_last_submission_of_a_name_counts(submitted, partial);
        }
    }
}

proof fn lemma_member_was_submitted<S>(submitted: Seq<Submission<S>>, member: Seq<char>)
    requires
        compiled_members(submitted).contains_key(member),
    ensures
        exists|i: int|
            0 <= i < submitted.len() && (#[trigger] submitted[i]).compiled is Ok
                && compiled_members(submitted)[member].template == submitted[i].compiled->Ok_0,
    decreases submitted.len(),
{
    if submitted.len() > 0 {
        let front = submitted.drop_last();
        let last = submitted.len() - 1;
        if submitted[last].name@ == member && submitted[last].compiled is Ok {
            assert(submitted[last].compiled is Ok);
        } else {
            lemma_member_was_submitted(front, member);
            let i = choose|i: int|
                0 <= i < front.len() && (#[trigger] front[i]).compiled is Ok
                    && compiled_members(front)[member].template == front[i].compiled->Ok_0;
            assert(submitted[i].compiled is Ok);
        }
    }
}

/// A package of template strings is accepted whenever the compiler takes every text and
/// every partial that a text requires is given in the package, by the text itself
/// included, or is registered outside the package that is installed.
pub proof fn good_texts_are_accepted<B: Backend>(
    before: RegistryView<B>,
    texts: Seq<(Seq<char>, Seq<char>)>,
    names: Set<Seq<char>>,
    result: Result<(), TemplatePackageError>,
    after: RegistryView<B>,
)
    requires
        package_registered(before, texts, result, after),
        forall|name: Seq<char>| #[trigger]
            names.contains(name) ==> exists|i: int|
                0 <= i < texts.len() && (#[trigger] texts[i]).0 == name,
        forall|i: int, reply: Result<Template, TemplateError>|
            0 <= i < texts.len() && #[trigger] compile_reply(
                before.backend,
                texts[i].1,
                Some(texts[i].0),
                before.prevent_indent,
                reply,
            ) ==> reply is Ok && finds_its_partials(before, names, reply->Ok_0),
    ensures
        result is Ok,
{
    let submitted = choose|submitted: Seq<Submission<B::Source>>|
        {
            &&& #[trigger] before.submits_texts(texts, submitted)
            &&& package_committed(
                before,
                compiled_members(submitted),
                compile_errors(submitted),
                result,
                after,
            )
        };
    assert forall|i: int| 0 <= i < submitted.len() implies (#[trigger] submitted[i]).compiled is Ok
        && finds_its_partials(before, names, submitted[i].compiled->Ok_0) by {
        assert(before.submits_text(texts[i].0, texts[i].1, submitted[i]));
    }
    assert forall|name: Seq<char>| #[trigger] names.contains(name) implies exists|i: int|
        0 <= i < submitted.len() && #[trigger] submitted[i].name@ == name by {
        let i = choose|i: int| 0 <= i < texts.len() && (#[trigger] texts[i]).0 == name;
        assert(before.submits_text(texts[i].0, texts[i].1, submitted[i]));
        assert(submitted[i].name@ == name);
    }
    lemma_good_submissions_are_accepted(before, submitted, names);
}

/// A package of files is accepted whenever every file can be read and compiled, and every
/// partial that one requires is given in the package or is registered outside the package
/// that is installed.
pub proof fn good_files_are_accepted<B: Backend>(
    before: RegistryView<B>,
    files: Seq<(Seq<char>, B::Source)>,
    names: Set<Seq<char>>,
    result: Result<(), TemplatePackageError>,
    after: RegistryView<B>,
)
    requires
        package_files_registered(before, files, result, after),
        forall|name: Seq<char>| #[trigger]
            names.contains(name) ==> exists|i: int|
                0 <= i < files.len() && (#[trigger] files[i]).0 == name,
        forall|i: int, reply: Result<Template, TemplateError>|
            0 <= i < files.len() && #[trigger] source_reply(
                before.backend,
                files[i].1,
                files[i].0,
                files[i].0,
                before.prevent_indent,
                reply,
            ) ==> reply is Ok && finds_its_partials(before, names, reply->Ok_0),
    ensures
        result is Ok,
{
    let submitted = choose|submitted: Seq<Submission<B::Source>>|
        {
            &&& #[trigger] before.submits_files(files, submitted)
            &&& package_committed(
                before,
                compiled_members(submitted),
                compile_errors(submitted),
                result,
                after,
            )
        };
    assert forall|i: int| 0 <= i < submitted.len() implies (#[trigger] submitted[i]).compiled is Ok
        && finds_its_partials(before, names, submitted[i].compiled->Ok_0) by {
        assert(before.submits_file(files[i].0, files[i].1, submitted[i]));
    }
    assert forall|name: Seq<char>| #[trigger] names.contains(name) implies exists|i: int|
        0 <= i < submitted.len() && #[trigger] submitted[i].name@ == name by {
        let i = choose|i: int| 0 <= i < files.len() && (#[trigger] files[i]).0 == name;
        assert(before.submits_file(files[i].0, files[i].1, submitted[i]));
        assert(submitted[i].name@ == name);
    }
    lemma_good_submissions_are_accepted(before, submitted, names);
}

/// An update is accepted whenever no name is given twice, every text and source comes out
/// as a template, and every partial that one requires is given in the update or is
/// registered outside the package that is installed.
pub proof fn good_members_are_accepted<B: Backend>(
    before: RegistryView<B>,
    members: Seq<(Seq<char>, TemplateSource<B::Source>)>,
    names: Set<Seq<char>>,
    result: Result<(), TemplateUpdateError>,
    after: RegistryView<B>,
)
    requires
        members_updated(before, members, result, after),
        forall|i: int, j: int|
            0 <= i < j < members.len() ==> (#[trigger] members[i]).0 != (#[trigger] members[j]).0,
        forall|name: Seq<char>| #[trigger]
            names.contains(name) ==> exists|i: int|
                0 <= i < members.len() && (#[trigger] members[i]).0 == name,
        forall|i: int, reply: Result<Template, TemplateError>|
            0 <= i < members.len() && members[i].1 is String && #[trigger] compile_reply(
                before.backend,
                members[i].1->String_0@,
                Some(members[i].0),
                before.prevent_indent,
                reply,
            ) ==> reply is Ok && finds_its_partials(before, names, reply->Ok_0),
        forall|i: int, reply: Result<Template, TemplateError>|
            0 <= i < members.len() && members[i].1 is File && #[trigger] source_reply(
                before.backend,
                members[i].1->File_0,
                members[i].0,
                members[i].0,
                before.prevent_indent,
                reply,
            ) ==> reply is Ok && finds_its_partials(before, names, reply->Ok_0),
    ensures
        result is Ok,
{
    let submitted = choose|submitted: Seq<Submission<B::Source>>|
        {
            &&& #[trigger] before.submits_members(members, submitted)
            &&& update_applied(before, submitted, result, after)
        };
    assert forall|i: int| 0 <= i < submitted.len() implies #[trigger] submitted[i].name@
        == members[i].0 by {
        assert(before.submits_member(members[i].0, members[i].1, submitted[i]));
    }
    assert forall|i: int| 0 <= i < submitted.len() implies (#[trigger] submitted[i]).compiled is Ok
        && finds_its_partials(before, names, submitted[i].compiled->Ok_0) by {
        assert(before.submits_member(members[i].0, members[i].1, submitted[i]));
        match members[i].1 {
            TemplateSource::String(text) => {
                assert(compile_reply(
                    before.backend,
                    members[i].1->String_0@,
                    Some(members[i].0),
                    before.prevent_indent,
                    submitted[i].compiled,
                ));
            },
            TemplateSource::File(source) => {
                assert(source_reply(
                    before.backend,
                    members[i].1->File_0,
                    members[i].0,
                    members[i].0,
                    before.prevent_indent,
                    submitted[i].compiled,
                ));
            },
        }
    }
    assert forall|name: Seq<char>| #[trigger] names.contains(name) implies exists|i: int|
        0 <= i < submitted.len() && #[trigger] submitted[i].name@ == name by {
        let i = choose|i: int| 0 <= i < members.len() && (#[trigger] members[i]).0 == name;
        assert(submitted[i].name@ == name);
    }
    lemma_good_submissions_are_accepted(before, submitted, names);
    assert forall|name: Seq<char>| !at_fault(submitted, name) by {
        if repeated(submitted, name) {
            let (i, j) = choose|i: int, j: int|
                0 <= i < j < submitted.len() && #[trigger] submitted[i].name@ == name
                    && #[trigger] submitted[j].name@ == name;
            assert(members[i].0 != members[j].0);
        }
    }
}

/// A package of files is refused for an error only where reading and compiling one of the
/// files has come out with it.
pub proof fn compile_errors_come_from_the_files<B: Backend>(
    before: RegistryView<B>,
    files: Seq<(Seq<char>, B::Source)>,
    report: Vec<TemplateError>,
    after: RegistryView<B>,
    k: int,
)
    requires
        package_files_registered(
            before,
            files,
            Err(TemplatePackageError::Compile(report)),
            after,
        ),
        0 <= k < report@.len(),
    ensures
        exists|i: int|
            0 <= i < files.len() && source_reply(
                before.backend,
                (#[trigger] files[i]).1,
                files[i].0,
                files[i].0,
                before.prevent_indent,
                Err::<Template, TemplateError>(report@[k]),
            ),
{
    let result = Err::<(), TemplatePackageError>(TemplatePackageError::Compile(report));
    let submitted = choose|submitted: Seq<Submission<B::Source>>|
        {
            &&& #[trigger] before.submits_files(files, submitted)
            &&& package_committed(
                before,
                compiled_members(submitted),
                compile_errors(submitted),
                result,
                after,
            )
        };
    assert(report@.contains(report@[k]));
    broken_packages_are_refused_with_all_errors(
        before,
        compiled_members(submitted),
        compile_errors(submitted),
        result,
        after,
        report@[k],
        None,
        0,
        0,
    );
    lemma_compile_error(submitted, report@[k]);
    let i = choose|i: int|
        0 <= i < submitted.len() && (#[trigger] submitted[i]).compiled == Err::<
            Template,
            TemplateError,
        >(report@[k]);
    assert(before.submits_file(files[i].0, files[i].1, submitted[i]));
    assert(files[i].0 == submitted[i].name@);
}

/// An update reports a template error for a name only where a member of that name has
/// come out with it.
pub proof fn member_errors_come_from_the_members<B: Backend>(
    before: RegistryView<B>,
    members: Seq<(Seq<char>, TemplateSource<B::Source>)>,
    refused: TemplateUpdateError,
    after: RegistryView<B>,
    name: Seq<char>,
)
    requires
        members_updated(before, members, Err(refused), after),
        refused.members@.contains_key(name),
        refused.members@[name] is Template,
    ensures
        exists|i: int|
            0 <= i < members.len() && (#[trigger] members[i]).0 == name && match members[i].1 {
                TemplateSource::String(text) => compile_reply(
                    before.backend,
                    text@,
                    Some(name),
                    before.prevent_indent,
                    Err::<Template, TemplateError>(refused.members@[name]->Template_0),
                ),
                TemplateSource::File(source) => source_reply(
                    before.backend,
                    source,
                    name,
                    name,
                    before.prevent_indent,
                    Err::<Template, TemplateError>(refused.members@[name]->Template_0),
                ),
            },
{
    let result = Err::<(), TemplateUpdateError>(refused);
    let submitted = choose|submitted: Seq<Submission<B::Source>>|
        {
            &&& #[trigger] before.submits_members(members, submitted)
            &&& update_applied(before, submitted, result, after)
        };
    let fault = refused.members@[name];
    assert(update_applied(before, submitted, result, after));
    assert(result->Err_0.members@.contains_key(name));
    if exists|n: Seq<char>| at_fault(submitted, n) {
        assert(is_fault(submitted, name, fault));
        let i = choose|i: int|
            0 <= i < submitted.len() && #[trigger] submitted[i].name@ == name && {
                &&& submitted[i].compiled matches Err(error)
                &&& fault == TemplateUpdateMemberError::Template(error)
            };
        assert(before.submits_member(members[i].0, members[i].1, submitted[i]));
        assert(members[i].0 == name);
    } else {
        assert(is_missing_dependency(before, compiled_members(submitted), name, fault));
    }
}

} // verus!
