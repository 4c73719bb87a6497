//! Template packages: groups of templates that are replaced as a whole.
use std::sync::Arc;

use vstd::prelude::*;

use crate::backend::{compile_reply, source_reply, Backend};
use crate::error::{TemplateError, TemplatePackageError};
use crate::names::{
    in_name_order, name_before, name_order_is_irreflexive, name_order_is_total,
    name_order_is_transitive, order_names, NameMap, NameOrder, NameSet,
};
use crate::registry::{Registry, RegistryView};
use crate::template::{collect_partial_refs, mentioned, required_partials, Mention, Template};

verus! {

broadcast use crate::shared::group_pointees;

/// A compiled member of a template package, with the source that it was read from.
pub struct PackageMember<S> {
    pub template: Template,
    pub source: Option<S>,
}

/// A submitted member of a template package: its name, the source that it was read
/// from, and what has come of compiling it.
pub struct Submission<S> {
    pub name: String,
    pub source: Option<S>,
    pub compiled: Result<Template, TemplateError>,
}

/// The members that compiled. Of several under one name the last one counts.
pub open spec fn compiled_members<S>(submitted: Seq<Submission<S>>) -> Map<
    Seq<char>,
    PackageMember<S>,
>
    decreases submitted.len(),
{
    if submitted.len() == 0 {
        Map::empty()
    } else {
        let earlier = compiled_members(submitted.drop_last());
        let last = submitted.last();
        match last.compiled {
            Ok(template) => earlier.insert(
                last.name@,
                PackageMember { template, source: last.source },
            ),
            Err(_) => earlier,
        }
    }
}

/// The errors of those that did not compile.
pub open spec fn compile_errors<S>(submitted: Seq<Submission<S>>) -> Seq<TemplateError>
    decreases submitted.len(),
{
    if submitted.len() == 0 {
        Seq::empty()
    } else {
        let earlier = compile_errors(submitted.drop_last());
        match submitted.last().compiled {
            Ok(_) => earlier,
            Err(error) => earlier.push(error),
        }
    }
}

impl<B: Backend> RegistryView<B> {
    /// Whether a submission is what comes of a template string.
    pub open spec fn submits_text(
        self,
        name: Seq<char>,
        text: Seq<char>,
        submission: Submission<B::Source>,
    ) -> bool {
        &&& submission.name@ == name
        &&& submission.source is None
        &&& compile_reply(
            self.backend,
            text,
            Some(name),
            self.prevent_indent,
            submission.compiled,
        )
    }

    /// Whether a submission is what comes of a source.
    pub open spec fn submits_file(
        self,
        name: Seq<char>,
        source: B::Source,
        submission: Submission<B::Source>,
    ) -> bool {
        &&& submission.name@ == name
        &&& submission.source == Some(source)
        &&& source_reply(
            self.backend,
            source,
            name,
            name,
            self.prevent_indent,
            submission.compiled,
        )
    }

    /// Whether submissions are what comes of the template strings of a package.
    pub open spec fn submits_texts(
        self,
        texts: Seq<(Seq<char>, Seq<char>)>,
        submitted: Seq<Submission<B::Source>>,
    ) -> bool {
        &&& submitted.len() == texts.len()
        &&& forall|i: int|
            0 <= i < submitted.len() ==> self.submits_text(
                texts[i].0,
                texts[i].1,
                #[trigger] submitted[i],
            )
    }

    /// Whether submissions are what comes of the sources of a package.
    pub open spec fn submits_files(
        self,
        files: Seq<(Seq<char>, B::Source)>,
        submitted: Seq<Submission<B::Source>>,
    ) -> bool {
        &&& submitted.len() == files.len()
        &&& forall|i: int|
            0 <= i < submitted.len() ==> self.submits_file(
                files[i].0,
                files[i].1,
                #[trigger] submitted[i],
            )
    }

    /// Whether a template of this name is there once a package has replaced the
    /// one that is installed: a member, or a template from outside the package.
    pub open spec fn provides(
        self,
        members: Map<Seq<char>, PackageMember<B::Source>>,
        name: Seq<char>,
    ) -> bool {
        ||| members.contains_key(name)
        ||| self.templates.contains_key(name) && !self.package.contains(name)
    }

    /// Whether a member of a package refers to a partial that nobody would provide.
    pub open spec fn unresolved(
        self,
        members: Map<Seq<char>, PackageMember<B::Source>>,
        member: Seq<char>,
        partial: Seq<char>,
    ) -> bool {
        &&& members.contains_key(member)
        &&& required_partials(members[member].template).contains(partial)
        &&& !self.provides(members, partial)
    }

    /// Whether all partials that the members of a package refer to would be there.
    pub open spec fn closes(self, members: Map<Seq<char>, PackageMember<B::Source>>) -> bool {
        forall|member: Seq<char>, partial: Seq<char>|
            !#[trigger] self.unresolved(members, member, partial)
    }

    /// The registry with a package in place of the one that is installed. The
    /// sources of members are kept in dev mode.
    pub open spec fn with_package(
        self,
        members: Map<Seq<char>, PackageMember<B::Source>>,
    ) -> Self {
        RegistryView {
            templates: Map::new(
                |name: Seq<char>| self.provides(members, name),
                |name: Seq<char>|
                    if members.contains_key(name) {
                        members[name].template
                    } else {
                        self.templates[name]
                    },
            ),
            template_sources: Map::new(
                |name: Seq<char>|
                    if members.contains_key(name) {
                        self.dev_mode && members[name].source is Some
                    } else {
                        self.template_sources.contains_key(name) && !self.package.contains(name)
                    },
                |name: Seq<char>|
                    if members.contains_key(name) {
                        members[name].source->0
                    } else {
                        self.template_sources[name]
                    },
            ),
            package: members.dom(),
            ..self
        }
    }
}

/// The order of error reports by name, those without a name first.
pub open spec fn reported_before(a: Option<Seq<char>>, b: Option<Seq<char>>) -> bool {
    match (a, b) {
        (None, Some(_)) => true,
        (Some(x), Some(y)) => name_before(x, y),
        _ => false,
    }
}

/// The errors that concern one name, in the order of the list.
pub open spec fn errors_of(errors: Seq<TemplateError>, name: Option<Seq<char>>) -> Seq<
    TemplateError,
> {
    errors.filter(|error: TemplateError| error.name_spec() == name)
}

/// Whether a report holds all errors, in the order of their names. Those of one name
/// keep their order.
pub open spec fn reports(errors: Seq<TemplateError>, report: Seq<TemplateError>) -> bool {
    &&& forall|i: int, j: int|
        0 <= i < j < report.len() ==> !#[trigger] reported_before(
            report[j].name_spec(),
            report[i].name_spec(),
        )
    &&& forall|name: Option<Seq<char>>| #[trigger]
        errors_of(report, name) == errors_of(errors, name)
}

/// The order of unresolved references: by member, then by partial.
pub open spec fn pair_before(a: (Seq<char>, Seq<char>), b: (Seq<char>, Seq<char>)) -> bool {
    ||| name_before(a.0, b.0)
    ||| a.0 == b.0 && name_before(a.1, b.1)
}

/// The names in a list of pairs.
pub open spec fn named_pairs(list: Seq<(String, String)>) -> Seq<(Seq<char>, Seq<char>)> {
    Seq::new(list.len(), |i: int| (list[i].0@, list[i].1@))
}

/// Whether a list holds exactly the unresolved references of a package, each once
/// and in order.
pub open spec fn lists_unresolved<B: Backend>(
    before: RegistryView<B>,
    members: Map<Seq<char>, PackageMember<B::Source>>,
    list: Seq<(Seq<char>, Seq<char>)>,
) -> bool {
    &&& forall|i: int, j: int|
        0 <= i < j < list.len() ==> #[trigger] pair_before(list[i], list[j])
    &&& forall|member: Seq<char>, partial: Seq<char>|
        list.contains((member, partial)) <==> #[trigger] before.unresolved(
            members,
            member,
            partial,
        )
}

/// What comes of a package update with these compiled members and compile errors.
pub open spec fn package_committed<B: Backend>(
    before: RegistryView<B>,
    members: Map<Seq<char>, PackageMember<B::Source>>,
    errors: Seq<TemplateError>,
    result: Result<(), TemplatePackageError>,
    after: RegistryView<B>,
) -> bool {
    if errors.len() > 0 {
        &&& after == before
        &&& result matches Err(TemplatePackageError::Compile(report))
        &&& reports(errors, report@)
    } else if !before.closes(members) {
        &&& after == before
        &&& result matches Err(TemplatePackageError::UnresolvedPartials(list))
        &&& lists_unresolved(before, members, named_pairs(list@))
    } else {
        &&& after == before.with_package(members)
        &&& result is Ok
    }
}

/// The names and texts of a list of template strings.
pub open spec fn named_texts(texts: Seq<(&str, &str)>) -> Seq<(Seq<char>, Seq<char>)> {
    Seq::new(texts.len(), |i: int| (texts[i].0@, texts[i].1@))
}

/// The names and sources of a list of files.
pub open spec fn named_files<S>(files: Seq<(&str, S)>) -> Seq<(Seq<char>, S)> {
    Seq::new(files.len(), |i: int| (files[i].0@, files[i].1))
}

/// What comes of registering a package of template strings.
pub open spec fn package_registered<B: Backend>(
    before: RegistryView<B>,
    texts: Seq<(Seq<char>, Seq<char>)>,
    result: Result<(), TemplatePackageError>,
    after: RegistryView<B>,
) -> bool {
    exists|submitted: Seq<Submission<B::Source>>|
        {
            &&& #[trigger] before.submits_texts(texts, submitted)
            &&& package_committed(
                before,
                compiled_members(submitted),
                compile_errors(submitted),
                result,
                after,
            )
        }
}

/// What comes of registering a package of files.
pub open spec fn package_files_registered<B: Backend>(
    before: RegistryView<B>,
    files: Seq<(Seq<char>, B::Source)>,
    result: Result<(), TemplatePackageError>,
    after: RegistryView<B>,
) -> bool {
    exists|submitted: Seq<Submission<B::Source>>|
        {
            &&& #[trigger] before.submits_files(files, submitted)
            &&& package_committed(
                before,
                compiled_members(submitted),
                compile_errors(submitted),
                result,
                after,
            )
        }
}

proof fn lemma_filter_after_insert<A>(s: Seq<A>, at: int, a: A, pred: spec_fn(A) -> bool)
    requires
        0 <= at <= s.len(),
        pred(a) ==> forall|i: int| at <= i < s.len() ==> !pred(#[trigger] s[i]),
    ensures
        s.insert(at, a).filter(pred) == s.push(a).filter(pred),
{
    let front = s.take(at);
    let back = s.skip(at);
    let one = seq![a];
    assert(s.insert(at, a) =~= front + one + back);
    assert(s.push(a) =~= front + back + one);
    Seq::filter_distributes_over_add(front + one, back, pred);
    Seq::filter_distributes_over_add(front, one, pred);
    Seq::filter_distributes_over_add(front + back, one, pred);
    Seq::filter_distributes_over_add(front, back, pred);
    if pred(a) {
        assert forall|i: int| 0 <= i < back.len() implies !pred(#[trigger] back[i]) by {
            assert(back[i] == s[at + i]);
        }
        back.lemma_all_neg_filter_empty(pred);
    } else {
        one.lemma_all_neg_filter_empty(pred);
    }
    assert(s.insert(at, a).filter(pred) =~= s.push(a).filter(pred));
}

/// Whether one error is reported before another.
fn is_reported_before(a: &TemplateError, b: &TemplateError) -> (before: bool)
    ensures
        before == reported_before(a.name_spec(), b.name_spec()),
{
    match (a.name(), b.name()) {
        (None, Some(_)) => true,
        (Some(x), Some(y)) => order_names(x, y) == NameOrder::Before,
        _ => false,
    }
}

proof fn lemma_report_order_is_transitive(
    a: Option<Seq<char>>,
    b: Option<Seq<char>>,
    c: Option<Seq<char>>,
)
    requires
        !reported_before(b, a),
        !reported_before(c, b),
    ensures
        !reported_before(c, a),
{
    if reported_before(c, a) {
        match (a, b, c) {
            (Some(x), Some(y), Some(z)) => {
                name_order_is_total(x, y);
                name_order_is_total(y, z);
                if x == y {
                } else if y == z {
                } else {
                    name_order_is_transitive(x, y, z);
                    name_order_is_transitive(x, z, x);
                    name_order_is_irreflexive(x);
                }
            },
            _ => {},
        }
    }
}

/// Puts errors into the order of their names. Errors of one name keep their order.
pub fn sort_errors(errors: Vec<TemplateError>) -> (report: Vec<TemplateError>)
    ensures
        reports(errors@, report@),
        report@.len() == errors@.len(),
{
    let mut report: Vec<TemplateError> = Vec::new();
    assert(errors@.take(0) =~= Seq::empty());
    for error in it: errors
        invariant
            it.seq() == errors@,
            report@.len() == it.index(),
            reports(errors@.take(it.index() as int), report@),
    {
        let ghost taken = it.index() as int;
        let ghost before = report@;
        let mut at: usize = report.len();
        while at > 0 && is_reported_before(&error, &report[at - 1])
            invariant
                at <= report@.len(),
                report@ == before,
                forall|i: int|
                    at <= i < report@.len() ==> reported_before(
                        error.name_spec(),
                        (#[trigger] report@[i]).name_spec(),
                    ),
            decreases at,
        {
            at -= 1;
        }
        proof {
            let now = before.insert(at as int, error);
            assert(errors@.take(taken + 1) =~= errors@.take(taken).push(error));
            assert forall|name: Option<Seq<char>>| #[trigger]
                errors_of(now, name) == errors_of(errors@.take(taken + 1), name) by {
                let pred = |e: TemplateError| e.name_spec() == name;
                assert(errors_of(before, name) == errors_of(errors@.take(taken), name));
                assert forall|i: int| pred(error) && at <= i < before.len() implies !pred(
                    #[trigger] before[i],
                ) by {
                    if let Some(n) = name {
                        name_order_is_irreflexive(n);
                    }
                }
                lemma_filter_after_insert(before, at as int, error, pred);
                before.lemma_filter_push(error, pred);
                errors@.take(taken).lemma_filter_push(error, pred);
            }
            assert forall|i: int, j: int|
                0 <= i < j < now.len() implies !#[trigger] reported_before(
                now[j].name_spec(),
                now[i].name_spec(),
            ) by {
                let p = if i < at { i } else { i - 1 };
                let q = if j < at { j } else { j - 1 };
                if i != at && j != at {
                    assert(!reported_before(before[q].name_spec(), before[p].name_spec()));
                } else if i == at {
                    assert(reported_before(error.name_spec(), before[q].name_spec()));
                    lemma_report_order_is_asymmetric(error.name_spec(), before[q].name_spec());
                } else {
                    assert(!reported_before(error.name_spec(), before[at - 1].name_spec()));
                    if p < at - 1 {
                        assert(!reported_before(
                            before[at - 1].name_spec(),
                            before[p].name_spec(),
                        ));
                        lemma_report_order_is_transitive(
                            before[p].name_spec(),
                            before[at - 1].name_spec(),
                            error.name_spec(),
                        );
                    }
                }
            }
        }
        report.insert(at, error);
    }
    assert(errors@.take(errors@.len() as int) =~= errors@);
    report
}

proof fn lemma_report_order_is_asymmetric(a: Option<Seq<char>>, b: Option<Seq<char>>)
    requires
        reported_before(a, b),
    ensures
        !reported_before(b, a),
{
    if let (Some(x), Some(y)) = (a, b) {
        if name_before(y, x) {
            name_order_is_transitive(x, y, x);
            name_order_is_irreflexive(x);
        }
    }
}

/// Whether a list holds exactly the unresolved references of the members that have
/// been looked at, each once and in order.
spec fn lists_up_to<B: Backend>(
    before: RegistryView<B>,
    members: Map<Seq<char>, PackageMember<B::Source>>,
    looked_at: Seq<Seq<char>>,
    list: Seq<(Seq<char>, Seq<char>)>,
) -> bool {
    &&& forall|i: int, j: int|
        0 <= i < j < list.len() ==> #[trigger] pair_before(list[i], list[j])
    &&& forall|member: Seq<char>, partial: Seq<char>| #[trigger]
        list.contains((member, partial)) <==> {
            &&& before.unresolved(members, member, partial)
            &&& looked_at.contains(member)
        }
}

impl<B: Backend> Registry<B> {
    /// The partials that members of a package refer to and that nobody would provide
    /// once the package is installed.
    pub fn unresolved_partials(&self, compiled: &NameMap<PackageMember<B::Source>>) -> (unresolved:
        Vec<(String, String)>)
        ensures
            lists_unresolved(self@, compiled@, named_pairs(unresolved@)),
            unresolved@.len() == 0 <==> self@.closes(compiled@),
    {
        let mut unresolved: Vec<(String, String)> = Vec::new();
        let count: usize = compiled.len();
        let ghost members = compiled.names();
        let mut i: usize = 0;
        assert(named_pairs(unresolved@) =~= Seq::empty());
        assert(members.take(0) =~= Seq::empty());
        while i < count
            invariant
                count == members.len(),
                members == compiled.names(),
                in_name_order(members),
                i <= count,
                lists_up_to(
                    self@,
                    compiled@,
                    members.take(i as int),
                    named_pairs(unresolved@),
                ),
            decreases count - i,
        {
            let member = compiled.name_at(i);
            let template = &compiled.value_at(i).template;
            let mut refs = NameSet::new();
            let mut inlines = NameSet::new();
            collect_partial_refs(template, &mut refs, &mut inlines);
            assert(refs@ =~= mentioned(Mention::Called, *template));
            assert(inlines@ =~= mentioned(Mention::Defined, *template));
            let total: usize = refs.len();
            let ghost partials = refs.names();
            let ghost done = named_pairs(unresolved@);
            let mut j: usize = 0;
            while j < total
                invariant
                    total == partials.len(),
                    partials == refs.names(),
                    in_name_order(partials),
                    refs@ == mentioned(Mention::Called, *template),
                    inlines@ == mentioned(Mention::Defined, *template),
                    member@ == members[i as int],
                    compiled@.contains_key(member@),
                    *template == compiled@[member@].template,
                    i < count,
                    count == members.len(),
                    in_name_order(members),
                    j <= total,
                    forall|a: int, b: int|
                        0 <= a < b < unresolved@.len() ==> #[trigger] pair_before(
                            named_pairs(unresolved@)[a],
                            named_pairs(unresolved@)[b],
                        ),
                    forall|m: Seq<char>, p: Seq<char>| #[trigger]
                        named_pairs(unresolved@).contains((m, p)) <==> {
                            &&& self@.unresolved(compiled@, m, p)
                            &&& members.take(i as int).contains(m) || m == member@
                                && partials.take(j as int).contains(p)
                        },
                decreases total - j,
            {
                let reference = refs.name_at(j);
                let ghost earlier = named_pairs(unresolved@);
                let ghost seen = partials.take(j as int);
                assert(partials.take(j + 1) =~= seen.push(reference@));
                if !inlines.contains(reference) && !self.visible_after_update(compiled, reference) {
                    let ghost found = (member@, reference@);
                    assert(self@.unresolved(compiled@, member@, reference@));
                    proof {
                        assert forall|a: int| 0 <= a < earlier.len() implies pair_before(
                            #[trigger] earlier[a],
                            found,
                        ) by {
                            let (m, p) = earlier[a];
                            assert(earlier.contains((m, p)));
                            if members.take(i as int).contains(m) {
                                let k = members.take(i as int).index_of(m);
                                assert(name_before(members[k], members[i as int]));
                            } else {
                                let k = seen.index_of(p);
                                assert(name_before(partials[k], partials[j as int]));
                            }
                        }
                    }
                    unresolved.push((member.to_owned(), reference.to_owned()));
                    assert(named_pairs(unresolved@) =~= earlier.push(found));
                    proof {
                        assert forall|m: Seq<char>, p: Seq<char>| #[trigger]
                            named_pairs(unresolved@).contains((m, p)) <==> (earlier.contains(
                            (m, p),
                        ) || (m, p) == found) by {
                            lemma_contains_after_push(earlier, found, (m, p));
                        }
                        assert forall|p: Seq<char>| #[trigger]
                            partials.take(j + 1).contains(p) <==> (seen.contains(p) || p
                                == reference@) by {
                            lemma_contains_after_push(seen, reference@, p);
                        }
                    }
                } else {
                    assert(!self@.unresolved(compiled@, member@, reference@));
                    assert forall|p: Seq<char>| #[trigger]
                        partials.take(j + 1).contains(p) <==> (seen.contains(p) || p
                            == reference@) by {
                        lemma_contains_after_push(seen, reference@, p);
                    }
                }
                j += 1;
            }
            proof {
                assert(partials.take(total as int) =~= partials);
                assert(members.take(i + 1) =~= members.take(i as int).push(member@));
                assert forall|m: Seq<char>, p: Seq<char>| #[trigger]
                    named_pairs(unresolved@).contains((m, p)) <==> {
                        &&& self@.unresolved(compiled@, m, p)
                        &&& members.take(i + 1).contains(m)
                    } by {
                    lemma_contains_after_push(members.take(i as int), member@, m);
                    if m == member@ && self@.unresolved(compiled@, m, p) {
                        assert(refs@.contains(p));
                        assert(partials.to_set().contains(p));
                    }
                }
            }
            i += 1;
        }
        proof {
            assert(members.take(count as int) =~= members);
            let list = named_pairs(unresolved@);
            assert forall|m: Seq<char>, p: Seq<char>|
                list.contains((m, p)) <==> #[trigger] self@.unresolved(compiled@, m, p) by {
                if self@.unresolved(compiled@, m, p) {
                    assert(compiled@.dom().contains(m));
                    assert(members.to_set().contains(m));
                }
            }
            if unresolved@.len() > 0 {
                assert(list.contains(list[0]));
                assert(self@.unresolved(compiled@, list[0].0, list[0].1));
            }
        }
        unresolved
    }

    /// Puts a package in place of the one that is installed. Nothing can fail here.
    pub(super) fn install_package(&mut self, compiled: NameMap<PackageMember<B::Source>>)
        ensures
            final(self)@ == old(self)@.with_package(compiled@),
            old(self)@.valid() ==> final(self)@.valid(),
    {
        let ghost start = old(self)@;
        let ghost members = compiled@;
        let mut leaving = NameSet::new();
        std::mem::swap(&mut self.package_templates, &mut leaving);
        loop
            invariant
                leaving@.subset_of(start.package),
                self@ == (RegistryView {
                    templates: self@.templates,
                    template_sources: self@.template_sources,
                    package: Set::empty(),
                    ..start
                }),
                forall|n: Seq<char>| #[trigger]
                    self@.templates.contains_key(n) <==> start.templates.contains_key(n) && (
                    !start.package.contains(n) || leaving@.contains(n)),
                forall|n: Seq<char>| #[trigger]
                    self@.templates.contains_key(n) ==> self@.templates[n] == start.templates[n],
                forall|n: Seq<char>| #[trigger]
                    self@.template_sources.contains_key(n) <==> start.template_sources.contains_key(
                        n,
                    ) && (!start.package.contains(n) || leaving@.contains(n)),
                forall|n: Seq<char>| #[trigger]
                    self@.template_sources.contains_key(n) ==> self@.template_sources[n]
                        == start.template_sources[n],
            ensures
                leaving@ == Set::<Seq<char>>::empty(),
            decreases leaving.names().len(),
        {
            match leaving.pop() {
                Some(old_name) => {
                    self.templates.remove(old_name.as_str());
                    self.template_sources.remove(old_name.as_str());
                },
                None => {
                    break;
                },
            }
        }
        let ghost kept = self@;
        let mut entering = compiled;
        loop
            invariant
                forall|n: Seq<char>| #[trigger]
                    entering@.contains_key(n) ==> members.contains_key(n) && members[n]
                        == entering@[n],
                start.dev_mode == kept.dev_mode,
                self@ == (RegistryView {
                    templates: self@.templates,
                    template_sources: self@.template_sources,
                    package: self@.package,
                    ..start
                }),
                forall|n: Seq<char>| #[trigger]
                    self@.package.contains(n) <==> members.contains_key(n)
                        && !entering@.contains_key(n),
                forall|n: Seq<char>| #[trigger]
                    self@.templates.contains_key(n) <==> kept.templates.contains_key(n)
                        || self@.package.contains(n),
                forall|n: Seq<char>| #[trigger]
                    self@.templates.contains_key(n) ==> self@.templates[n] == if self@.package.contains(
                        n,
                    ) {
                        members[n].template
                    } else {
                        kept.templates[n]
                    },
                forall|n: Seq<char>| #[trigger]
                    self@.template_sources.contains_key(n) <==> if self@.package.contains(n) {
                        start.dev_mode && members[n].source is Some
                    } else {
                        kept.template_sources.contains_key(n)
                    },
                forall|n: Seq<char>| #[trigger]
                    self@.template_sources.contains_key(n) ==> self@.template_sources[n]
                        == if self@.package.contains(n) {
                        members[n].source->0
                    } else {
                        kept.template_sources[n]
                    },
            ensures
                entering@ == Map::<Seq<char>, PackageMember<B::Source>>::empty(),
            decreases entering.names().len(),
        {
            match entering.pop() {
                Some((name, member)) => {
                    let ghost key = name@;
                    assert(members.contains_key(key) && members[key] == member);
                    let PackageMember { template, source } = member;
                    self.templates.insert(name.clone(), Arc::new(template));
                    match source {
                        Some(source) => {
                            if self.dev_mode {
                                self.template_sources.insert(name.clone(), Arc::new(source));
                            } else {
                                self.template_sources.remove(name.as_str());
                            }
                        },
                        None => {
                            // A string-backed package member must not keep a stale
                            // dev-mode source registered under the same name.
                            self.template_sources.remove(name.as_str());
                        },
                    }
                    self.package_templates.insert(name);
                },
                None => {
                    break;
                },
            }
        }
        proof {
            let goal = start.with_package(members);
            assert(self@.templates =~= goal.templates);
            assert(self@.template_sources =~= goal.template_sources);
            assert(self@.package =~= goal.package);
            if start.valid() {
                if !start.dev_mode {
                    assert(goal.template_sources =~= Map::<Seq<char>, B::Source>::empty());
                }
                assert(goal.template_sources.dom().subset_of(goal.templates.dom()));
            }
        }
    }

    /// Whether a template of this name is there once a package has been installed.
    fn visible_after_update(
        &self,
        compiled: &NameMap<PackageMember<B::Source>>,
        name: &str,
    ) -> (visible: bool)
        ensures
            visible == self@.provides(compiled@, name@),
    {
        compiled.contains_key(name) || (self.templates.contains_key(name)
            && !self.package_templates.contains(name))
    }
}

/// Adds a submission to the compiled members or to the errors.
fn sort_in<S>(
    submission: Submission<S>,
    compiled: &mut NameMap<PackageMember<S>>,
    errors: &mut Vec<TemplateError>,
)
    ensures
        match submission.compiled {
            Ok(template) => {
                &&& final(compiled)@ == old(compiled)@.insert(
                    submission.name@,
                    PackageMember { template, source: submission.source },
                )
                &&& final(errors)@ == old(errors)@
            },
            Err(error) => {
                &&& final(compiled)@ == old(compiled)@
                &&& final(errors)@ == old(errors)@.push(error)
            },
        },
{
    let Submission { name, source, compiled: reply } = submission;
    match reply {
        Ok(template) => {
            compiled.insert(name, PackageMember { template, source });
        },
        Err(error) => {
            errors.push(error);
        },
    }
}

impl<B: Backend> Registry<B> {
    /// Has a template string compiled for a package.
    pub(super) fn submit_text(&self, name: &str, text: &str) -> (submission: Submission<B::Source>)
        ensures
            self@.submits_text(name@, text@, submission),
    {
        let compiled = self.compile(name, text);
        Submission { name: name.to_owned(), source: None, compiled }
    }

    /// Has a source read and compiled for a package.
    pub(super) fn submit_file(&self, name: &str, source: B::Source) -> (submission: Submission<B::Source>)
        ensures
            self@.submits_file(name@, source, submission),
    {
        let compiled = self.compile_source(name, name, &source);
        Submission { name: name.to_owned(), source: Some(source), compiled }
    }

    /// Commit point of a template package update.
    ///
    /// `compiled` holds every package member that compiled successfully and
    /// `errors` every compilation failure. When this function returns an
    /// error, no registry state has been modified; when it returns `Ok`, the
    /// whole package has been installed and the previous package removed.
    pub fn commit_template_package(
        &mut self,
        compiled: NameMap<PackageMember<B::Source>>,
        errors: Vec<TemplateError>,
    ) -> (result: Result<(), TemplatePackageError>)
        ensures
            package_committed(old(self)@, compiled@, errors@, result, final(self)@),
            result is Err ==> *final(self) == *old(self),
            old(self)@.valid() ==> final(self)@.valid(),
    {
        if errors.len() > 0 {
            // Report every failed member in a stable order, independent of
            // the caller's iteration order.
            return Err(TemplatePackageError::Compile(sort_errors(errors)));
        }
        // Check dependency closure against the post-update view: package
        // members plus everything registered outside the package.
        let unresolved = self.unresolved_partials(&compiled);
        if unresolved.len() > 0 {
            return Err(TemplatePackageError::UnresolvedPartials(unresolved));
        }
        self.install_package(compiled);
        Ok(())
    }

    /// Atomically replace the registry's template package.
    ///
    /// A *template package* is a group of named templates and partials that
    /// are deployed together and may reference each other via `{{> name}}`.
    /// This method installs the given package as a whole:
    ///
    /// * Every submitted template is compiled first. If any of them fails,
    ///   a [`TemplatePackageError`] listing **all** failed members (sorted by
    ///   name) is returned and nothing changes.
    /// * Statically resolvable partial references are checked against the
    ///   state the registry would have after the update: every referenced
    ///   name must be either a member of the submitted package or a template
    ///   registered outside the package. Otherwise an
    ///   [`TemplatePackageError::UnresolvedPartials`] listing every missing
    ///   reference is returned and nothing changes. References that are only
    ///   computable at render time (for example `{{> (lookup . "which")}}`)
    ///   cannot be checked statically and are ignored.
    /// * Only when the whole package compiles and its dependencies are
    ///   closed is it committed: templates installed by the *previous*
    ///   package update but absent from this one are removed (including
    ///   their dev-mode sources, so dev mode cannot resurrect them from
    ///   stale files), and the new members are installed.
    ///
    /// Templates registered through the other `register_*` methods are not
    /// affected, unless their names collide with package members.
    ///
    /// Submitting the same package twice is idempotent: the second call
    /// succeeds and leaves the visible state unchanged.
    ///
    /// # Atomicity
    ///
    /// All fallible work (compilation and dependency checks) happens before
    /// any registry state is touched. The commit point is a short,
    /// infallible sequence of map replacements performed while this method
    /// holds `&mut self`, so no render can observe a mixture of old and new
    /// package members: renders either completed before the update and saw
    /// the old package, or start after it and see the new one. On failure
    /// the registry is left as it was before the call, so there is never a
    /// half-installed package visible.
    pub fn register_template_package(&mut self, templates: &[(&str, &str)]) -> (result: Result<
        (),
        TemplatePackageError,
    >)
        ensures
            package_registered(old(self)@, named_texts(templates@), result, final(self)@),
            result is Err ==> *final(self) == *old(self),
            old(self)@.valid() ==> final(self)@.valid(),
    {
        let mut compiled: NameMap<PackageMember<B::Source>> = NameMap::new();
        let mut errors: Vec<TemplateError> = Vec::new();
        let ghost mut submitted: Seq<Submission<B::Source>> = Seq::empty();
        let mut i: usize = 0;
        while i < templates.len()
            invariant
                *self == *old(self),
                i <= templates@.len(),
                submitted.len() == i,
                forall|j: int|
                    0 <= j < i ==> old(self)@.submits_text(
                        templates@[j].0@,
                        templates@[j].1@,
                        #[trigger] submitted[j],
                    ),
                compiled@ == compiled_members(submitted),
                errors@ == compile_errors(submitted),
            decreases templates@.len() - i,
        {
            let (name, tpl_str) = templates[i];
            let submission = self.submit_text(name, tpl_str);
            proof {
                let earlier = submitted;
                submitted = submitted.push(submission);
                assert(submitted.drop_last() =~= earlier);
            }
            sort_in(submission, &mut compiled, &mut errors);
            i += 1;
        }
        assert(old(self)@.submits_texts(named_texts(templates@), submitted));
        self.commit_template_package(compiled, errors)
    }

    /// Atomically replace the registry's template package with templates
    /// loaded from files.
    ///
    /// Behaves exactly like [`Registry::register_template_package`], except
    /// that templates are read from the given sources. When dev mode is
    /// enabled, the files are tracked as dev-mode sources (like
    /// [`Registry::register_template_file`]) and reloaded on every render;
    /// members dropped by a later package update have their sources removed,
    /// so dev mode will not load them from the old files again.
    pub fn register_template_package_files(&mut self, templates: Vec<(&str, B::Source)>) -> (result:
        Result<(), TemplatePackageError>)
        ensures
            package_files_registered(old(self)@, named_files(templates@), result, final(self)@),
            result is Err ==> *final(self) == *old(self),
            old(self)@.valid() ==> final(self)@.valid(),
    {
        let mut compiled: NameMap<PackageMember<B::Source>> = NameMap::new();
        let mut errors: Vec<TemplateError> = Vec::new();
        let ghost mut submitted: Seq<Submission<B::Source>> = Seq::empty();
        for file in it: templates
            invariant
                *self == *old(self),
                it.seq() == templates@,
                submitted.len() == it.index(),
                forall|j: int|
                    0 <= j < submitted.len() ==> old(self)@.submits_file(
                        templates@[j].0@,
                        templates@[j].1,
                        #[trigger] submitted[j],
                    ),
                compiled@ == compiled_members(submitted),
                errors@ == compile_errors(submitted),
        {
            assert(file == templates@[it.index() as int]);
            let (name, source) = file;
            let submission = self.submit_file(name, source);
            proof {
                let earlier = submitted;
                submitted = submitted.push(submission);
                assert(submitted.drop_last() =~= earlier);
            }
            sort_in(submission, &mut compiled, &mut errors);
        }
        assert(old(self)@.submits_files(named_files(templates@), submitted));
        self.commit_template_package(compiled, errors)
    }
}

pub(crate) proof fn lemma_contains_after_push<A>(s: Seq<A>, last: A, a: A)
    ensures
        s.push(last).contains(a) <==> s.contains(a) || a == last,
{
    if s.contains(a) {
        let i = s.index_of(a);
        assert(s.push(last)[i] == a);
    }
    if a == last {
        assert(s.push(last)[s.len() as int] == a);
    }
    if s.push(last).contains(a) && a != last {
        let i = s.push(last).index_of(a);
        assert(s[i] == a);
    }
}

} // verus!
