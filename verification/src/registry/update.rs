//! Package updates that report what is wrong member by member.
use vstd::prelude::*;

use crate::backend::Backend;
use crate::error::{TemplateUpdateError, TemplateUpdateMemberError};
use crate::names::{
    in_name_order, name_before, name_order_is_irreflexive, order_names, NameMap, NameOrder,
    NameSet,
};
use crate::registry::package::{
    compiled_members, lemma_contains_after_push, named_pairs, pair_before, PackageMember,
    Submission,
};
use crate::registry::{Registry, RegistryView};
use crate::text::texts;

verus! {

/// Where a member of an update comes from.
pub enum TemplateSource<S> {
    /// The text of the template.
    String(String),
    /// A source that holds the template.
    File(S),
}

/// Whether an update holds a name more than once.
pub open spec fn repeated<S>(submitted: Seq<Submission<S>>, name: Seq<char>) -> bool {
    exists|i: int, j: int|
        0 <= i < j < submitted.len() && #[trigger] submitted[i].name@ == name
            && #[trigger] submitted[j].name@ == name
}

/// Whether something is wrong with a member of an update on its own: it is there
/// more than once, or it could not be had.
pub open spec fn at_fault<S>(submitted: Seq<Submission<S>>, name: Seq<char>) -> bool {
    ||| repeated(submitted, name)
    ||| exists|i: int|
        0 <= i < submitted.len() && #[trigger] submitted[i].name@ == name
            && submitted[i].compiled is Err
}

/// What is wrong with a member of an update on its own.
pub open spec fn is_fault<S>(
    submitted: Seq<Submission<S>>,
    name: Seq<char>,
    fault: TemplateUpdateMemberError,
) -> bool {
    if repeated(submitted, name) {
        fault is DuplicateName
    } else {
        exists|i: int|
            0 <= i < submitted.len() && #[trigger] submitted[i].name@ == name && {
                &&& submitted[i].compiled matches Err(error)
                &&& fault == TemplateUpdateMemberError::Template(error)
            }
    }
}

/// Which dependency of a member is missing: the first by name of its unresolved
/// partials, with all members that refer to it, in order.
pub open spec fn is_missing_dependency<B: Backend>(
    before: RegistryView<B>,
    members: Map<Seq<char>, PackageMember<B::Source>>,
    member: Seq<char>,
    fault: TemplateUpdateMemberError,
) -> bool {
    &&& fault matches TemplateUpdateMemberError::MissingDependency { name, referenced_by }
    &&& before.unresolved(members, member, name@)
    &&& forall|partial: Seq<char>| #[trigger]
        before.unresolved(members, member, partial) ==> partial == name@ || name_before(
            name@,
            partial,
        )
    &&& in_name_order(texts(referenced_by@))
    &&& forall|other: Seq<char>| #[trigger]
        texts(referenced_by@).contains(other) <==> before.unresolved(members, other, name@)
}

/// What comes of an update with these submissions.
pub open spec fn update_applied<B: Backend>(
    before: RegistryView<B>,
    submitted: Seq<Submission<B::Source>>,
    result: Result<(), TemplateUpdateError>,
    after: RegistryView<B>,
) -> bool {
    let members = compiled_members(submitted);
    if exists|name: Seq<char>| at_fault(submitted, name) {
        &&& after == before
        &&& result matches Err(error)
        &&& forall|name: Seq<char>| #[trigger]
            error.members@.contains_key(name) <==> at_fault(submitted, name)
        &&& forall|name: Seq<char>| #[trigger]
            error.members@.contains_key(name) ==> is_fault(submitted, name, error.members@[name])
    } else if !before.closes(members) {
        &&& after == before
        &&& result matches Err(error)
        &&& forall|name: Seq<char>| #[trigger]
            error.members@.contains_key(name) <==> exists|partial: Seq<char>|
                before.unresolved(members, name, partial)
        &&& forall|name: Seq<char>| #[trigger]
            error.members@.contains_key(name) ==> is_missing_dependency(
                before,
                members,
                name,
                error.members@[name],
            )
    } else {
        &&& after == before.with_package(members)
        &&& result is Ok
    }
}

impl<B: Backend> RegistryView<B> {
    /// Whether a submission is what comes of a member of an update.
    pub open spec fn submits_member(
        self,
        name: Seq<char>,
        origin: TemplateSource<B::Source>,
        submission: Submission<B::Source>,
    ) -> bool {
        match origin {
            TemplateSource::String(text) => self.submits_text(name, text@, submission),
            TemplateSource::File(source) => self.submits_file(name, source, submission),
        }
    }

    /// Whether submissions are what comes of the members of an update.
    pub open spec fn submits_members(
        self,
        members: Seq<(Seq<char>, TemplateSource<B::Source>)>,
        submitted: Seq<Submission<B::Source>>,
    ) -> bool {
        &&& submitted.len() == members.len()
        &&& forall|i: int|
            0 <= i < submitted.len() ==> self.submits_member(
                members[i].0,
                members[i].1,
                #[trigger] submitted[i],
            )
    }
}

/// The names and origins of the members of an update.
pub open spec fn named_members<S>(members: Seq<(&str, TemplateSource<S>)>) -> Seq<
    (Seq<char>, TemplateSource<S>),
> {
    Seq::new(members.len(), |i: int| (members[i].0@, members[i].1))
}

/// What comes of an update with these members.
pub open spec fn members_updated<B: Backend>(
    before: RegistryView<B>,
    members: Seq<(Seq<char>, TemplateSource<B::Source>)>,
    result: Result<(), TemplateUpdateError>,
    after: RegistryView<B>,
) -> bool {
    exists|submitted: Seq<Submission<B::Source>>|
        {
            &&& #[trigger] before.submits_members(members, submitted)
            &&& update_applied(before, submitted, result, after)
        }
}

/// The members that refer to a partial, out of the unresolved references.
fn referrers(unresolved: &Vec<(String, String)>, partial: &str) -> (members: Vec<String>)
    requires
        forall|i: int, j: int|
            0 <= i < j < unresolved@.len() ==> #[trigger] pair_before(
                named_pairs(unresolved@)[i],
                named_pairs(unresolved@)[j],
            ),
    ensures
        in_name_order(texts(members@)),
        forall|m: Seq<char>| #[trigger]
            texts(members@).contains(m) <==> named_pairs(unresolved@).contains((m, partial@)),
{
    let ghost pairs = named_pairs(unresolved@);
    let mut members: Vec<String> = Vec::new();
    let mut i: usize = 0;
    assert(pairs.take(0) =~= Seq::empty());
    assert(texts(members@) =~= Seq::empty());
    while i < unresolved.len()
        invariant
            pairs == named_pairs(unresolved@),
            i <= unresolved@.len(),
            forall|a: int, b: int|
                0 <= a < b < pairs.len() ==> #[trigger] pair_before(pairs[a], pairs[b]),
            in_name_order(texts(members@)),
            forall|m: Seq<char>| #[trigger]
                texts(members@).contains(m) <==> pairs.take(i as int).contains((m, partial@)),
        decreases unresolved@.len() - i,
    {
        let ghost earlier = texts(members@);
        let (member, wanted) = &unresolved[i];
        assert(pairs.take(i + 1) =~= pairs.take(i as int).push((member@, wanted@)));
        assert forall|m: Seq<char>| #[trigger]
            pairs.take(i + 1).contains((m, partial@)) <==> (pairs.take(i as int).contains(
            (m, partial@),
        ) || (m, partial@) == (member@, wanted@)) by {
            lemma_contains_after_push(pairs.take(i as int), (member@, wanted@), (m, partial@));
        }
        if order_names(wanted.as_str(), partial) == NameOrder::Same {
            proof {
                assert forall|a: int| 0 <= a < earlier.len() implies name_before(
                    #[trigger] earlier[a],
                    member@,
                ) by {
                    assert(earlier.contains(earlier[a]));
                    let k = pairs.take(i as int).index_of((earlier[a], partial@));
                    assert(pairs.take(i as int).contains((earlier[a], partial@)));
                    assert(pairs[k] == (earlier[a], partial@));
                    assert(pair_before(pairs[k], pairs[i as int]));
                    name_order_is_irreflexive(partial@);
                }
            }
            members.push(member.clone());
            assert(texts(members@) =~= earlier.push(member@));
            assert forall|m: Seq<char>| #[trigger]
                texts(members@).contains(m) <==> (earlier.contains(m) || m == member@) by {
                lemma_contains_after_push(earlier, member@, m);
            }
        }
        i += 1;
    }
    assert(pairs.take(i as int) =~= pairs);
    members
}

/// For each member with unresolved references, the first of them.
fn missing_dependencies(unresolved: &Vec<(String, String)>) -> (faults: NameMap<
    TemplateUpdateMemberError,
>)
    requires
        forall|i: int, j: int|
            0 <= i < j < unresolved@.len() ==> #[trigger] pair_before(
                named_pairs(unresolved@)[i],
                named_pairs(unresolved@)[j],
            ),
    ensures
        forall|m: Seq<char>| #[trigger]
            faults@.contains_key(m) <==> exists|p: Seq<char>|
                named_pairs(unresolved@).contains((m, p)),
        forall|m: Seq<char>| #[trigger]
            faults@.contains_key(m) ==> lists_missing(named_pairs(unresolved@), m, faults@[m]),
{
    let ghost pairs = named_pairs(unresolved@);
    let mut faults: NameMap<TemplateUpdateMemberError> = NameMap::new();
    let mut i: usize = 0;
    while i < unresolved.len()
        invariant
            pairs == named_pairs(unresolved@),
            i <= unresolved@.len(),
            forall|a: int, b: int|
                0 <= a < b < pairs.len() ==> #[trigger] pair_before(pairs[a], pairs[b]),
            forall|m: Seq<char>| #[trigger]
                faults@.contains_key(m) <==> exists|k: int|
                    0 <= k < i && (#[trigger] pairs[k]).0 == m,
            forall|m: Seq<char>| #[trigger]
                faults@.contains_key(m) ==> lists_missing(pairs, m, faults@[m]),
        decreases unresolved@.len() - i,
    {
        let (member, partial) = &unresolved[i];
        assert(pairs[i as int] == (member@, partial@));
        let ghost before = faults@;
        if !faults.contains_key(member.as_str()) {
            let referenced_by = referrers(unresolved, partial.as_str());
            let fault = TemplateUpdateMemberError::MissingDependency {
                name: partial.clone(),
                referenced_by,
            };
            proof {
                assert(pairs.contains(pairs[i as int]));
                assert forall|p: Seq<char>| #[trigger] pairs.contains((member@, p)) implies p
                    == partial@ || name_before(partial@, p) by {
                    let k = pairs.index_of((member@, p));
                    assert(pairs[k].0 == member@);
                    if k < i {
                        assert(before.contains_key(member@));
                    } else if k > i {
                        assert(pair_before(pairs[i as int], pairs[k]));
                        name_order_is_irreflexive(member@);
                    }
                }
                assert(lists_missing(pairs, member@, fault));
            }
            faults.insert(member.clone(), fault);
        }
        i += 1;
        proof {
            assert forall|m: Seq<char>| #[trigger]
                faults@.contains_key(m) <==> exists|k: int|
                    0 <= k < i && (#[trigger] pairs[k]).0 == m by {
                if faults@.contains_key(m) && m == member@ {
                    assert(pairs[i - 1].0 == m);
                }
                if faults@.contains_key(m) && m != member@ {
                    assert(before.contains_key(m));
                }
                if exists|k: int| 0 <= k < i && (#[trigger] pairs[k]).0 == m {
                    let k = choose|k: int| 0 <= k < i && (#[trigger] pairs[k]).0 == m;
                    if k < i - 1 {
                        assert(before.contains_key(m));
                    }
                }
            }
        }
    }
    proof {
        assert forall|m: Seq<char>| #[trigger]
            faults@.contains_key(m) <==> exists|p: Seq<char>| pairs.contains((m, p)) by {
            if faults@.contains_key(m) {
                let k = choose|k: int| 0 <= k < i && (#[trigger] pairs[k]).0 == m;
                assert(pairs[k] == (m, pairs[k].1));
                assert(pairs.contains((m, pairs[k].1)));
            }
            if exists|p: Seq<char>| pairs.contains((m, p)) {
                let p = choose|p: Seq<char>| pairs.contains((m, p));
                let k = pairs.index_of((m, p));
                assert(pairs[k].0 == m);
            }
        }
    }
    faults
}

/// What [`is_missing_dependency`] says, over a list of all unresolved references.
spec fn lists_missing(
    pairs: Seq<(Seq<char>, Seq<char>)>,
    member: Seq<char>,
    fault: TemplateUpdateMemberError,
) -> bool {
    &&& fault matches TemplateUpdateMemberError::MissingDependency { name, referenced_by }
    &&& pairs.contains((member, name@))
    &&& forall|p: Seq<char>| #[trigger]
        pairs.contains((member, p)) ==> p == name@ || name_before(name@, p)
    &&& in_name_order(texts(referenced_by@))
    &&& forall|m: Seq<char>| #[trigger]
        texts(referenced_by@).contains(m) <==> pairs.contains((m, name@))
}

/// The names that an update holds more than once.
fn repeated_names<S>(submitted: &Vec<Submission<S>>) -> (names: NameSet)
    ensures
        forall|n: Seq<char>| #[trigger] names@.contains(n) <==> repeated(submitted@, n),
{
    let mut seen = NameSet::new();
    let mut names = NameSet::new();
    let mut i: usize = 0;
    while i < submitted.len()
        invariant
            i <= submitted@.len(),
            forall|n: Seq<char>| #[trigger]
                seen@.contains(n) <==> exists|k: int|
                    0 <= k < i && #[trigger] submitted@[k].name@ == n,
            forall|n: Seq<char>| #[trigger]
                names@.contains(n) <==> repeated(submitted@.take(i as int), n),
        decreases submitted@.len() - i,
    {
        let name = &submitted[i].name;
        let ghost before = submitted@.take(i as int);
        let ghost after = submitted@.take(i + 1);
        let again = seen.contains(name.as_str());
        proof {
            assert forall|n: Seq<char>|
                #![trigger repeated(after, n)]
                repeated(after, n) <==> (repeated(before, n) || again && n == name@) by {
                if repeated(before, n) {
                    let (a, b) = choose|a: int, b: int|
                        0 <= a < b < before.len() && #[trigger] before[a].name@ == n
                            && #[trigger] before[b].name@ == n;
                    assert(after[a].name@ == n && after[b].name@ == n);
                }
                if again && n == name@ {
                    let k = choose|k: int| 0 <= k < i && #[trigger] submitted@[k].name@ == n;
                    assert(after[k].name@ == n && after[i as int].name@ == n);
                }
                if repeated(after, n) {
                    let (a, b) = choose|a: int, b: int|
                        0 <= a < b < after.len() && #[trigger] after[a].name@ == n
                            && #[trigger] after[b].name@ == n;
                    if b < i {
                        assert(before[a].name@ == n && before[b].name@ == n);
                    } else {
                        assert(submitted@[a].name@ == n);
                    }
                }
            }
        }
        let ghost known = seen@;
        if again {
            names.insert(name.clone());
        } else {
            seen.insert(name.clone());
        }
        i += 1;
        proof {
            assert forall|n: Seq<char>| #[trigger]
                seen@.contains(n) <==> exists|k: int|
                    0 <= k < i && #[trigger] submitted@[k].name@ == n by {
                if seen@.contains(n) {
                    if n == name@ {
                        assert(submitted@[i - 1].name@ == n);
                    } else {
                        assert(known.contains(n));
                    }
                }
                if exists|k: int| 0 <= k < i && #[trigger] submitted@[k].name@ == n {
                    let k = choose|k: int| 0 <= k < i && #[trigger] submitted@[k].name@ == n;
                    if k < i - 1 {
                        assert(known.contains(n));
                    }
                }
            }
        }
    }
    assert(submitted@.take(i as int) =~= submitted@);
    names
}

impl<B: Backend> Registry<B> {
    /// Replaces the template package by these submissions, or says what is wrong with
    /// them.
    pub fn apply_update(&mut self, submitted: Vec<Submission<B::Source>>) -> (result: Result<
        (),
        TemplateUpdateError,
    >)
        ensures
            update_applied(old(self)@, submitted@, result, final(self)@),
            result is Err ==> *final(self) == *old(self),
            old(self)@.valid() ==> final(self)@.valid(),
    {
        let repeats = repeated_names(&submitted);
        let mut faults: NameMap<TemplateUpdateMemberError> = NameMap::new();
        let mut compiled: NameMap<PackageMember<B::Source>> = NameMap::new();
        let ghost all = submitted@;
        for submission in it: submitted
            invariant
                *self == *old(self),
                it.seq() == all,
                forall|n: Seq<char>| #[trigger] repeats@.contains(n) <==> repeated(all, n),
                forall|n: Seq<char>| #[trigger]
                    faults@.contains_key(n) <==> exists|k: int|
                        0 <= k < it.index() && #[trigger] all[k].name@ == n && (repeated(all, n)
                            || all[k].compiled is Err),
                forall|n: Seq<char>| #[trigger]
                    faults@.contains_key(n) ==> is_fault(all, n, faults@[n]),
                faults@ == Map::<Seq<char>, TemplateUpdateMemberError>::empty() ==> compiled@
                    == compiled_members(all.take(it.index() as int)),
        {
            let ghost at = it.index() as int;
            let ghost before = faults@;
            assert(submission == all[at]);
            assert(all.take(at + 1).drop_last() =~= all.take(at));
            let ghost name_here = submission.name@;
            let Submission { name, source, compiled: reply } = submission;
            if repeats.contains(name.as_str()) {
                faults.insert(name, TemplateUpdateMemberError::DuplicateName);
                assert(faults@.contains_key(name_here));
            } else {
                match reply {
                    Ok(template) => {
                        compiled.insert(name, PackageMember { template, source });
                    },
                    Err(error) => {
                        faults.insert(name, TemplateUpdateMemberError::Template(error));
                        assert(faults@.contains_key(name_here));
                    },
                }
            }
            proof {
                assert forall|n: Seq<char>| #[trigger]
                    faults@.contains_key(n) <==> exists|k: int|
                        0 <= k < at + 1 && #[trigger] all[k].name@ == n && (repeated(all, n)
                            || all[k].compiled is Err) by {
                    if faults@.contains_key(n) {
                        if before.contains_key(n) {
                            let k = choose|k: int|
                                0 <= k < at && #[trigger] all[k].name@ == n && (repeated(all, n)
                                    || all[k].compiled is Err);
                            assert(0 <= k < at + 1 && all[k].name@ == n);
                        } else {
                            assert(all[at].name@ == n);
                        }
                    }
                    if exists|k: int|
                        0 <= k < at + 1 && #[trigger] all[k].name@ == n && (repeated(all, n)
                            || all[k].compiled is Err) {
                        let k = choose|k: int|
                            0 <= k < at + 1 && #[trigger] all[k].name@ == n && (repeated(all, n)
                                || all[k].compiled is Err);
                        if k < at {
                            assert(before.contains_key(n));
                        }
                    }
                }
            }
        }
        assert(all.take(all.len() as int) =~= all);
        proof {
            assert forall|n: Seq<char>| #[trigger]
                faults@.contains_key(n) <==> at_fault(all, n) by {
                if repeated(all, n) {
                    let (a, b) = choose|a: int, b: int|
                        0 <= a < b < all.len() && #[trigger] all[a].name@ == n
                            && #[trigger] all[b].name@ == n;
                    assert(all[a].name@ == n);
                }
            }
        }
        if faults.len() > 0 {
            proof {
                let n = faults.names()[0];
                assert(faults.names().to_set().contains(n));
                assert(at_fault(all, n));
            }
            return Err(TemplateUpdateError { members: faults });
        }
        proof {
            assert forall|n: Seq<char>| !#[trigger] at_fault(all, n) && !faults@.contains_key(
                n,
            ) by {
                if faults@.contains_key(n) {
                    assert(faults@.dom().contains(n));
                    assert(faults.names().to_set().contains(n));
                }
            }
            assert(faults@ =~= Map::<Seq<char>, TemplateUpdateMemberError>::empty());
        }
        let unresolved = self.unresolved_partials(&compiled);
        if unresolved.len() > 0 {
            let members = missing_dependencies(&unresolved);
            proof {
                let pairs = named_pairs(unresolved@);
                let view = self@;
                assert forall|n: Seq<char>| #[trigger]
                    members@.contains_key(n) <==> exists|p: Seq<char>|
                        view.unresolved(compiled@, n, p) by {
                    if members@.contains_key(n) {
                        let p = choose|p: Seq<char>| pairs.contains((n, p));
                        assert(view.unresolved(compiled@, n, p));
                    }
                    if exists|p: Seq<char>| view.unresolved(compiled@, n, p) {
                        let p = choose|p: Seq<char>| view.unresolved(compiled@, n, p);
                        assert(pairs.contains((n, p)));
                    }
                }
                assert forall|n: Seq<char>| #[trigger]
                    members@.contains_key(n) implies is_missing_dependency(
                    view,
                    compiled@,
                    n,
                    members@[n],
                ) by {
                    assert(lists_missing(pairs, n, members@[n]));
                    let name = members@[n]->name;
                    assert(view.unresolved(compiled@, n, name@));
                    assert forall|p: Seq<char>| #[trigger]
                        view.unresolved(compiled@, n, p) implies p == name@ || name_before(
                        name@,
                        p,
                    ) by {
                        assert(pairs.contains((n, p)));
                    }
                }
            }
            return Err(TemplateUpdateError { members });
        }
        self.install_package(compiled);
        Ok(())
    }

    /// Atomically replaces the template package by the given members, like
    /// [`Registry::register_template_package`] and
    /// [`Registry::register_template_package_files`]. A member can be a text or a
    /// source. An update that is refused says of each bad member what is wrong with
    /// it, and changes nothing:
    ///
    /// * A name that is there more than once is refused.
    /// * So is a member that cannot be read or compiled.
    /// * Once there are no such members, a member is refused for a partial that it
    ///   refers to and that neither the update nor a template from outside the
    ///   package provides.
    pub fn update_templates(
        &mut self,
        templates: Vec<(&str, TemplateSource<B::Source>)>,
    ) -> (result: Result<(), TemplateUpdateError>)
        ensures
            members_updated(old(self)@, named_members(templates@), result, final(self)@),
            result is Err ==> *final(self) == *old(self),
            old(self)@.valid() ==> final(self)@.valid(),
    {
        let mut submitted: Vec<Submission<B::Source>> = Vec::new();
        for member in it: templates
            invariant
                *self == *old(self),
                it.seq() == templates@,
                submitted@.len() == it.index(),
                forall|i: int|
                    0 <= i < submitted@.len() ==> old(self)@.submits_member(
                        templates@[i].0@,
                        templates@[i].1,
                        #[trigger] submitted@[i],
                    ),
        {
            assert(member == templates@[it.index() as int]);
            let (name, origin) = member;
            let submission = match origin {
                TemplateSource::String(text) => self.submit_text(name, text.as_str()),
                TemplateSource::File(source) => self.submit_file(name, source),
            };
            submitted.push(submission);
        }
        assert(old(self)@.submits_members(named_members(templates@), submitted@));
        self.apply_update(submitted)
    }
}

} // verus!
