//! What holds of package updates.
use vstd::prelude::*;

use crate::backend::Backend;
use crate::error::{RenderError, TemplateError, TemplatePackageError, TemplateUpdateError};
use crate::registry::package::{
    compile_errors, compiled_members, package_committed, PackageMember, Submission,
};
use crate::registry::render::Found;
use crate::registry::update::{at_fault, update_applied};
use crate::registry::RegistryView;
use crate::template::{required_partials, Template};

verus! {

/// Submitting the same package twice is idempotent: once a package has been accepted,
/// it is accepted again, and the registry stays as it is.
pub proof fn package_update_is_idempotent<B: Backend>(
    before: RegistryView<B>,
    members: Map<Seq<char>, PackageMember<B::Source>>,
    after: RegistryView<B>,
    result: Result<(), TemplatePackageError>,
    again: RegistryView<B>,
)
    requires
        package_committed(before, members, Seq::empty(), Ok(()), after),
        package_committed(after, members, Seq::empty(), result, again),
    ensures
        result is Ok,
        again == after,
{
    let twice = after.with_package(members);
    assert forall|member: Seq<char>, partial: Seq<char>| !#[trigger] after.unresolved(
        members,
        member,
        partial,
    ) by {
        assert(!before.unresolved(members, member, partial));
    }
    assert(after.closes(members));
    assert(twice.templates =~= after.templates);
    assert(twice.template_sources =~= after.template_sources);
    assert(twice.package =~= after.package);
}

/// Templates from outside the package are not affected by a package update, unless
/// their names collide with package members.
pub proof fn package_update_keeps_other_templates<B: Backend>(
    before: RegistryView<B>,
    members: Map<Seq<char>, PackageMember<B::Source>>,
    name: Seq<char>,
)
    requires
        !members.contains_key(name),
        !before.package.contains(name),
    ensures
        ({
            let after = before.with_package(members);
            &&& after.templates.contains_key(name) == before.templates.contains_key(name)
            &&& before.templates.contains_key(name) ==> after.templates[name]
                == before.templates[name]
            &&& after.template_sources.contains_key(name) == before.template_sources.contains_key(
                name,
            )
            &&& before.template_sources.contains_key(name) ==> after.template_sources[name]
                == before.template_sources[name]
            &&& !after.package.contains(name)
        }),
{
}

/// A package update changes nothing but templates: helpers, decorators, the *escape
/// fn*, scripts and all modes stay as they are.
pub proof fn package_update_keeps_everything_else<B: Backend>(
    before: RegistryView<B>,
    members: Map<Seq<char>, PackageMember<B::Source>>,
)
    ensures
        ({
            let after = before.with_package(members);
            after == (RegistryView {
                templates: after.templates,
                template_sources: after.template_sources,
                package: after.package,
                ..before
            })
        }),
{
}

/// A member of the previous package that the new one lacks is gone, and dev mode
/// cannot resurrect it from a stale source: no lookup finds it.
pub proof fn dropped_members_are_gone<B: Backend>(
    before: RegistryView<B>,
    members: Map<Seq<char>, PackageMember<B::Source>>,
    name: Seq<char>,
    reply: Option<Result<Found<Template>, RenderError>>,
)
    requires
        before.package.contains(name),
        !members.contains_key(name),
        before.with_package(members).looks_up(name, reply),
    ensures
        !before.with_package(members).templates.contains_key(name),
        !before.with_package(members).template_sources.contains_key(name),
        reply is None,
{
}

/// Every member of a package is registered by its update. A member that was given as
/// text is served as it was compiled, in dev mode too: no stale source of its name
/// is left.
pub proof fn members_are_installed<B: Backend>(
    before: RegistryView<B>,
    members: Map<Seq<char>, PackageMember<B::Source>>,
    name: Seq<char>,
    reply: Option<Result<Found<Template>, RenderError>>,
)
    requires
        members.contains_key(name),
        before.with_package(members).looks_up(name, reply),
    ensures
        before.with_package(members).templates.contains_key(name),
        before.with_package(members).templates[name] == members[name].template,
        before.with_package(members).package.contains(name),
        members[name].source is None || !before.dev_mode ==> reply == Some(
            Ok::<Found<Template>, RenderError>(Found::Registered(&members[name].template)),
        ),
{
}

/// In dev mode a member that was read from a source is tracked by it.
pub proof fn member_sources_are_tracked_in_dev_mode<B: Backend>(
    before: RegistryView<B>,
    members: Map<Seq<char>, PackageMember<B::Source>>,
    name: Seq<char>,
)
    requires
        members.contains_key(name),
        members[name].source is Some,
        before.dev_mode,
    ensures
        before.with_package(members).template_sources.contains_key(name),
        before.with_package(members).template_sources[name] == members[name].source->0,
{
}

/// After an update that was accepted, every partial that a package member refers to
/// by a fixed name and does not define itself is registered.
pub proof fn installed_packages_are_closed<B: Backend>(
    before: RegistryView<B>,
    members: Map<Seq<char>, PackageMember<B::Source>>,
    member: Seq<char>,
    partial: Seq<char>,
)
    requires
        before.closes(members),
        members.contains_key(member),
        required_partials(members[member].template).contains(partial),
    ensures
        before.with_package(members).templates.contains_key(partial),
{
    assert(!before.unresolved(members, member, partial));
}

/// A refused package leaves the registry as it was; an accepted one is installed as
/// a whole. There is nothing between.
pub proof fn package_updates_are_atomic<B: Backend>(
    before: RegistryView<B>,
    members: Map<Seq<char>, PackageMember<B::Source>>,
    errors: Seq<TemplateError>,
    result: Result<(), TemplatePackageError>,
    after: RegistryView<B>,
)
    requires
        package_committed(before, members, errors, result, after),
    ensures
        result is Ok <==> errors.len() == 0 && before.closes(members),
        result is Ok ==> after == before.with_package(members),
        result is Err ==> after == before,
{
}

/// The same for updates that report member by member.
pub proof fn member_updates_are_atomic<B: Backend>(
    before: RegistryView<B>,
    submitted: Seq<Submission<B::Source>>,
    result: Result<(), TemplateUpdateError>,
    after: RegistryView<B>,
)
    requires
        update_applied(before, submitted, result, after),
    ensures
        result is Ok <==> (forall|name: Seq<char>| !at_fault(submitted, name)) && before.closes(
            compiled_members(submitted),
        ),
        result is Ok ==> after == before.with_package(compiled_members(submitted)),
        result is Err ==> after == before,
{
}

proof fn lemma_no_errors<S>(submitted: Seq<Submission<S>>)
    requires
        forall|i: int| 0 <= i < submitted.len() ==> (#[trigger] submitted[i]).compiled is Ok,
    ensures
        compile_errors(submitted).len() == 0,
    decreases submitted.len(),
{
    if submitted.len() > 0 {
        assert(submitted.last().compiled is Ok);
        assert forall|i: int| 0 <= i < submitted.drop_last().len() implies (
        #[trigger] submitted.drop_last()[i]).compiled is Ok by {
            assert(submitted[i].compiled is Ok);
        }
        lemma_no_errors(submitted.drop_last());
    }
}

/// What an update that reports member by member accepts, a package update accepts
/// too, with the same outcome.
pub proof fn both_updates_agree<B: Backend>(
    before: RegistryView<B>,
    submitted: Seq<Submission<B::Source>>,
    after: RegistryView<B>,
)
    requires
        update_applied(before, submitted, Ok(()), after),
    ensures
        package_committed(
            before,
            compiled_members(submitted),
            compile_errors(submitted),
            Ok(()),
            after,
        ),
{
    assert forall|i: int| 0 <= i < submitted.len() implies (
    #[trigger] submitted[i]).compiled is Ok by {
        assert(!at_fault(submitted, submitted[i].name@));
    }
    lemma_no_errors(submitted);
}

/// The members of a package as if they had been given as text.
pub open spec fn without_sources<S>(members: Map<Seq<char>, PackageMember<S>>) -> Map<
    Seq<char>,
    PackageMember<S>,
> {
    members.map_values(
        |member: PackageMember<S>| PackageMember { template: member.template, source: None },
    )
}

/// A package from files is accepted exactly if the same package from texts is, and
/// outside dev mode it leaves the registry in the same state. In dev mode it does so
/// but for the sources.
pub proof fn files_and_texts_agree<B: Backend>(
    before: RegistryView<B>,
    members: Map<Seq<char>, PackageMember<B::Source>>,
)
    ensures
        before.closes(members) == before.closes(without_sources(members)),
        before.with_package(without_sources(members)) == (RegistryView {
            template_sources: before.with_package(without_sources(members)).template_sources,
            ..before.with_package(members)
        }),
        !before.dev_mode ==> before.with_package(without_sources(members))
            == before.with_package(members),
{
    let texts = without_sources(members);
    assert forall|member: Seq<char>, partial: Seq<char>|
        before.unresolved(members, member, partial) == #[trigger] before.unresolved(
            texts,
            member,
            partial,
        ) by {
        assert(before.provides(members, partial) == before.provides(texts, partial));
    }
    if before.closes(texts) {
        assert forall|member: Seq<char>, partial: Seq<char>| !#[trigger] before.unresolved(
            members,
            member,
            partial,
        ) by {
            assert(!before.unresolved(texts, member, partial));
        }
    }
    if before.closes(members) {
        assert forall|member: Seq<char>, partial: Seq<char>| !#[trigger] before.unresolved(
            texts,
            member,
            partial,
        ) by {
            assert(!before.unresolved(members, member, partial));
        }
    }
    let from_files = before.with_package(members);
    let from_texts = before.with_package(texts);
    assert(from_texts.templates =~= from_files.templates);
    assert(from_texts.package =~= from_files.package);
    if !before.dev_mode {
        assert(from_texts.template_sources =~= from_files.template_sources);
    }
}

} // verus!
