//! What holds of names and texts.
use std::sync::Arc;

use vstd::prelude::*;

use crate::error::{
    carried_names, distinct, spelled_names, TemplateError, TemplatePackageError,
};
use crate::names::{in_name_order, name_before, name_order_is_irreflexive};
use crate::registry::package::lemma_contains_after_push;
use crate::shared::pointees;
use crate::text::{ends_with, joined, spelled, starts_with, stripped, texts};

verus! {

/// Of two names that differ, the one with the smaller character at the first difference
/// stands first, or the one that the other starts with.
pub proof fn names_are_ordered_at_their_first_difference(a: Seq<char>, b: Seq<char>, at: int)
    requires
        0 <= at <= a.len(),
        at <= b.len(),
        forall|i: int| 0 <= i < at ==> a[i] == b[i],
        at < a.len() && at < b.len() ==> a[at] != b[at],
    ensures
        at < a.len() && at < b.len() ==> name_before(a, b) == (a[at] < b[at]),
        at == a.len() ==> name_before(a, b) == (a.len() < b.len()),
        at == b.len() ==> !name_before(a, b),
    decreases at,
{
    if at > 0 {
        names_are_ordered_at_their_first_difference(a.drop_first(), b.drop_first(), at - 1);
    }
}

/// Names in order stand each before all that follow, and none of them occurs twice.
pub proof fn names_in_order_stand_before_one_another(names: Seq<Seq<char>>, i: int, j: int)
    requires
        in_name_order(names),
        0 <= i < j < names.len(),
    ensures
        name_before(names[i], names[j]),
        names[i] != names[j],
{
    name_order_is_irreflexive(names[i]);
}

/// Shared values are under the names of their pointers.
pub proof fn shared_values_keep_their_names<V>(map: Map<Seq<char>, Arc<V>>, name: Seq<char>)
    ensures
        pointees(map).contains_key(name) == map.contains_key(name),
        map.contains_key(name) ==> pointees(map)[name] == *map[name],
{
}

/// Bytes spell exactly the text that they encode, and bytes that encode none spell none.
pub proof fn bytes_spell_what_they_encode(bytes: Seq<u8>, text: Seq<char>)
    ensures
        spelled(bytes) == Some(text) <==> vstd::utf8::encode_utf8(text) == bytes,
        spelled(bytes) is None <==> !vstd::utf8::valid_utf8(bytes),
{
    vstd::utf8::encode_utf8_valid_utf8(text);
    vstd::utf8::encode_utf8_decode_utf8(text);
    if vstd::utf8::valid_utf8(bytes) {
        vstd::utf8::decode_utf8_encode_utf8(bytes);
    }
}

/// A text starts with a character exactly if that character and a rest make the text.
pub proof fn texts_start_with_their_first_character(text: Seq<char>, first: char)
    ensures
        starts_with(text, first) <==> exists|rest: Seq<char>| text == #[trigger] (seq![first] + rest),
{
    if starts_with(text, first) {
        assert(text =~= seq![first] + text.drop_first());
    }
}

/// A text ends with a suffix exactly if some front and the suffix make the text. Taking
/// the suffix off leaves that front; a text that does not end with it stays whole.
pub proof fn suffixes_are_taken_off_the_end(text: Seq<char>, suffix: Seq<char>)
    ensures
        ends_with(text, suffix) <==> exists|front: Seq<char>| text == #[trigger] (front + suffix),
        ends_with(text, suffix) ==> text == stripped(text, suffix) + suffix,
        !ends_with(text, suffix) ==> stripped(text, suffix) == text,
{
    if ends_with(text, suffix) {
        assert(text =~= text.take(text.len() - suffix.len()) + suffix);
    }
    if exists|front: Seq<char>| text == #[trigger] (front + suffix) {
        let front = choose|front: Seq<char>| text == #[trigger] (front + suffix);
        assert(text.skip(text.len() - suffix.len()) =~= suffix);
    }
}

/// Joining puts a separator between each two parts, and nothing before the first or after
/// the last.
pub proof fn parts_are_joined_one_by_one(
    parts: Seq<Seq<char>>,
    next: Seq<char>,
    separator: Seq<char>,
)
    ensures
        joined(Seq::<Seq<char>>::empty(), separator) == Seq::<char>::empty(),
        parts.len() == 0 ==> joined(parts.push(next), separator) == next,
        parts.len() > 0 ==> joined(parts.push(next), separator) == joined(parts, separator)
            + separator + next,
{
    assert(parts.push(next).drop_last() =~= parts);
}

/// The texts of strings stand in their order.
pub proof fn texts_are_listed_in_order(parts: Seq<String>, i: int)
    ensures
        texts(parts).len() == parts.len(),
        0 <= i < parts.len() ==> texts(parts)[i] == parts[i]@,
{
}

/// A list of distinct names holds the names of a list once each, in the order in which
/// they first occur.
pub proof fn distinct_names_occur_once(names: Seq<Seq<char>>, name: Seq<char>)
    ensures
        distinct(names).no_duplicates(),
        distinct(names).contains(name) <==> names.contains(name),
        names.contains(name) ==> distinct(names.push(name)) == distinct(names),
        !names.contains(name) ==> distinct(names.push(name)) == distinct(names).push(name),
    decreases names.len(),
{
    assert(names.push(name).drop_last() =~= names);
    if names.len() > 0 {
        let front = names.drop_last();
        let last = names.last();
        distinct_names_occur_once(front, name);
        distinct_names_occur_once(front, last);
        assert(names =~= front.push(last));
        lemma_contains_after_push(front, last, name);
        lemma_contains_after_push(distinct(front), last, name);
        if !distinct(front).contains(last) {
            assert forall|i: int, j: int|
                0 <= i < distinct(names).len() && 0 <= j < distinct(names).len() && i
                    != j implies distinct(names)[i] != distinct(names)[j] by {
                if i < distinct(front).len() {
                    assert(distinct(front).contains(distinct(front)[i]));
                }
                if j < distinct(front).len() {
                    assert(distinct(front).contains(distinct(front)[j]));
                }
            }
        }
    }
}

/// A refused package names each template that it is refused for once, and no other: the
/// templates that errors carry, or the members with unresolved references.
pub proof fn refused_packages_name_their_templates(error: TemplatePackageError, name: Seq<char>)
    ensures
        error.names().no_duplicates(),
        error.names().contains(name) <==> match error {
            TemplatePackageError::Compile(errors) => exists|i: int|
                0 <= i < errors@.len() && (#[trigger] errors@[i]).template_name is Some
                    && errors@[i].template_name->0@ == name,
            TemplatePackageError::UnresolvedPartials(list) => exists|i: int|
                0 <= i < list@.len() && (#[trigger] list@[i]).0@ == name,
        },
{
    match error {
        TemplatePackageError::Compile(errors) => {
            distinct_names_occur_once(carried_names(errors@), name);
            lemma_carried(errors@, name);
        },
        TemplatePackageError::UnresolvedPartials(list) => {
            let members = Seq::new(list@.len(), |i: int| list@[i].0@);
            distinct_names_occur_once(members, name);
            if members.contains(name) {
                let i = members.index_of(name);
                assert(list@[i].0@ == name);
            }
            if exists|i: int| 0 <= i < list@.len() && (#[trigger] list@[i]).0@ == name {
                let i = choose|i: int| 0 <= i < list@.len() && (#[trigger] list@[i]).0@ == name;
                assert(members[i] == name);
            }
        },
    }
}

proof fn lemma_carried(errors: Seq<TemplateError>, name: Seq<char>)
    ensures
        carried_names(errors).contains(name) <==> exists|i: int|
            0 <= i < errors.len() && (#[trigger] errors[i]).template_name is Some
                && errors[i].template_name->0@ == name,
    decreases errors.len(),
{
    if errors.len() > 0 {
        let front = errors.drop_last();
        let last = errors.len() - 1;
        lemma_carried(front, name);
        if let Some(n) = errors[last].name_spec() {
            lemma_contains_after_push(carried_names(front), n, name);
        }
        if carried_names(front).contains(name) {
            let i = choose|i: int|
                0 <= i < front.len() && (#[trigger] front[i]).template_name is Some
                    && front[i].template_name->0@ == name;
            assert(errors[i].template_name is Some);
        }
        if exists|i: int|
            0 <= i < errors.len() && (#[trigger] errors[i]).template_name is Some
                && errors[i].template_name->0@ == name {
            let i = choose|i: int|
                0 <= i < errors.len() && (#[trigger] errors[i]).template_name is Some
                    && errors[i].template_name->0@ == name;
            if i < last {
                assert(front[i].template_name is Some);
            }
        }
    }
}

/// The names that errors carry are listed in the order of the errors.
pub proof fn carried_names_keep_the_order_of_errors(
    errors: Seq<TemplateError>,
    next: TemplateError,
)
    ensures
        carried_names(Seq::<TemplateError>::empty()).len() == 0,
        carried_names(errors.push(next)) == match next.template_name {
            Some(name) => carried_names(errors).push(name@),
            None => carried_names(errors),
        },
{
    assert(errors.push(next).drop_last() =~= errors);
}

/// A list of names is read in its order.
pub proof fn listed_names_are_read_in_order(names: Seq<&str>, i: int)
    ensures
        spelled_names(names).len() == names.len(),
        0 <= i < names.len() ==> spelled_names(names)[i] == names[i]@,
{
}

} // verus!
