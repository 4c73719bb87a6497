//! What holds of the names of templates that come from files.
use vstd::prelude::*;

use crate::backend::{source_reply, Backend};
use crate::directory::{DirectoryEntry, DirectorySourceOptions};
use crate::error::TemplateError;
use crate::laws::texts::suffixes_are_taken_off_the_end;
use crate::registry::files::{
    directory_templates, embedded_templates, files_registered, named_sources,
};
use crate::registry::RegistryView;
use crate::template::Template;
use crate::text::{ends_with, joined, starts_with, stripped, texts};

verus! {

/// A text that ends with an extension is its stripped name and the extension.
pub proof fn stripping_undoes_appending(text: Seq<char>, extension: Seq<char>)
    ensures
        ends_with(text, extension) ==> stripped(text, extension) + extension == text,
        stripped(text + extension, extension) == text,
{
    if ends_with(text, extension) {
        assert(stripped(text, extension) + extension =~= text);
    }
    assert((text + extension).skip(text.len() as int) =~= extension);
    assert((text + extension).take(text.len() as int) =~= text);
}

/// With an empty extension every embedded file is a template under its own name.
pub proof fn empty_extension_takes_all<S>(files: Seq<(String, S)>)
    ensures
        embedded_templates(Seq::empty(), files) == named_sources(files),
    decreases files.len(),
{
    if files.len() > 0 {
        empty_extension_takes_all(files.drop_last());
        let name = files.last().0@;
        assert(name.skip(name.len() as int) =~= Seq::empty());
        assert(name.take(name.len() as int) =~= name);
        assert(named_sources(files) =~= named_sources(files.drop_last()).push(
            (name, files.last().1),
        ));
    } else {
        assert(named_sources(files) =~= Seq::empty());
    }
}

/// Hidden and temporary files hold no template unless the options ask for them.
pub proof fn ignored_files_hold_no_template(
    options: DirectorySourceOptions,
    entry: DirectoryEntry,
)
    requires
        entry.file_stem is Some,
        ({
            ||| !options.hidden && starts_with(entry.file_stem->0@, '.')
            ||| !options.temporary && starts_with(entry.file_stem->0@, '#')
        }),
    ensures
        options.names_template(entry) is None,
{
}

/// A template is called by its path below the directory without the extension.
pub proof fn templates_are_called_by_their_path(
    options: DirectorySourceOptions,
    entry: DirectoryEntry,
)
    requires
        options.names_template(entry) is Some,
        ends_with(joined(texts(entry.components->0@), "/"@), options.tpl_extension@),
    ensures
        options.names_template(entry)->0 + options.tpl_extension@ == joined(
            texts(entry.components->0@),
            "/"@,
        ),
{
    stripping_undoes_appending(
        joined(texts(entry.components->0@), "/"@),
        options.tpl_extension@,
    );
}

/// A file holds a template exactly if its path ends with the extension, it has a name
/// that is not ignored, and it lies below the directory.
pub proof fn files_with_the_extension_hold_templates(
    options: DirectorySourceOptions,
    entry: DirectoryEntry,
)
    ensures
        options.names_template(entry) is Some <==> {
            &&& entry.file_stem is Some
            &&& entry.components is Some
            &&& exists|front: Seq<char>| entry.path@ == #[trigger] (front + options.tpl_extension@)
            &&& options.hidden || entry.file_stem->0@.len() == 0 || entry.file_stem->0@[0] != '.'
            &&& options.temporary || entry.file_stem->0@.len() == 0 || entry.file_stem->0@[0] != '#'
        },
        options.names_template(entry) is Some ==> options.names_template(entry)->0 == stripped(
            joined(texts(entry.components->0@), "/"@),
            options.tpl_extension@,
        ),
{
    suffixes_are_taken_off_the_end(entry.path@, options.tpl_extension@);
}

/// Whether a file name is left out: hidden files and temporary files are, unless the
/// options ask for them.
pub proof fn hidden_and_temporary_files_are_left_out(
    options: DirectorySourceOptions,
    name: Seq<char>,
)
    ensures
        options.ignores(name) <==> {
            ||| !options.hidden && name.len() > 0 && name[0] == '.'
            ||| !options.temporary && name.len() > 0 && name[0] == '#'
        },
{
}

/// The files of a directory are gone through in the order of the walk. Those that hold a
/// template are registered under its name.
pub proof fn directories_are_gone_through_in_order<S>(
    options: DirectorySourceOptions,
    entries: Seq<(DirectoryEntry, S)>,
    next: (DirectoryEntry, S),
)
    ensures
        directory_templates(options, Seq::<(DirectoryEntry, S)>::empty()).len() == 0,
        directory_templates(options, entries.push(next)) == match options.names_template(next.0) {
            Some(name) => directory_templates(options, entries).push((name, next.1)),
            None => directory_templates(options, entries),
        },
{
    assert(entries.push(next).drop_last() =~= entries);
}

/// Embedded files are gone through in their order. A file whose name is some front and
/// the extension is a template of that front; any other file is none.
pub proof fn embedded_files_are_gone_through_in_order<S>(
    tpl_extension: Seq<char>,
    files: Seq<(String, S)>,
    next: (String, S),
    front: Seq<char>,
)
    ensures
        embedded_templates(tpl_extension, Seq::<(String, S)>::empty()).len() == 0,
        next.0@ == front + tpl_extension ==> embedded_templates(tpl_extension, files.push(next))
            == embedded_templates(tpl_extension, files).push((front, next.1)),
        (forall|some_front: Seq<char>| next.0@ != #[trigger] (some_front + tpl_extension))
            ==> embedded_templates(tpl_extension, files.push(next)) == embedded_templates(
            tpl_extension,
            files,
        ),
{
    assert(files.push(next).drop_last() =~= files);
    suffixes_are_taken_off_the_end(next.0@, tpl_extension);
    if next.0@ == front + tpl_extension {
        assert(next.0@.take(next.0@.len() - tpl_extension.len()) =~= front);
    }
}

/// After files have been registered, the registry holds under each name the template of
/// the last file of that name that was registered, whatever was there before, with that
/// file as its source in dev mode and without one outside it. A name of none of those
/// files keeps what it had, and nothing but templates and sources changes.
pub proof fn the_last_file_of_a_name_is_registered<B: Backend>(
    before: RegistryView<B>,
    files: Seq<(Seq<char>, B::Source)>,
    failed_as: Option<Seq<char>>,
    templates: Seq<Template>,
    result: Result<(), TemplateError>,
    after: RegistryView<B>,
    i: int,
    name: Seq<char>,
)
    requires
        files_registered(before, files, failed_as, templates, result, after),
    ensures
        0 <= i < templates.len() && files[i].0 == name && (forall|j: int|
            i < j < templates.len() ==> (#[trigger] files[j]).0 != name) ==> {
            &&& after.templates.contains_key(name)
            &&& after.templates[name] == templates[i]
            &&& after.template_sources.contains_key(name) == before.dev_mode
            &&& before.dev_mode ==> after.template_sources[name] == files[i].1
        },
        (forall|j: int| 0 <= j < templates.len() ==> (#[trigger] files[j]).0 != name) ==> {
            &&& after.templates.contains_key(name) == before.templates.contains_key(name)
            &&& before.templates.contains_key(name) ==> after.templates[name]
                == before.templates[name]
            &&& after.template_sources.contains_key(name)
                == before.template_sources.contains_key(name)
            &&& before.template_sources.contains_key(name) ==> after.template_sources[name]
                == before.template_sources[name]
        },
        after == (RegistryView {
            templates: after.templates,
            template_sources: after.template_sources,
            ..before
        }),
{
    let done = files.take(templates.len() as int);
    lemma_all_loaded(before, done, templates, i, name);
    if 0 <= i < templates.len() && files[i].0 == name && (forall|j: int|
        i < j < templates.len() ==> (#[trigger] files[j]).0 != name) {
        assert forall|j: int| i < j < done.len() implies (#[trigger] done[j]).0 != name by {
            assert(files[j].0 != name);
        }
    }
    if forall|j: int| 0 <= j < templates.len() ==> (#[trigger] files[j]).0 != name {
        assert forall|j: int| 0 <= j < done.len() implies (#[trigger] done[j]).0 != name by {
            assert(files[j].0 != name);
        }
    }
}

proof fn lemma_all_loaded<B: Backend>(
    before: RegistryView<B>,
    files: Seq<(Seq<char>, B::Source)>,
    templates: Seq<Template>,
    i: int,
    name: Seq<char>,
)
    requires
        files.len() == templates.len(),
    ensures
        ({
            let after = before.with_all_loaded(files, templates);
            &&& 0 <= i < files.len() && files[i].0 == name && (forall|j: int|
                i < j < files.len() ==> (#[trigger] files[j]).0 != name) ==> {
                &&& after.templates.contains_key(name)
                &&& after.templates[name] == templates[i]
                &&& after.template_sources.contains_key(name) == before.dev_mode
                &&& before.dev_mode ==> after.template_sources[name] == files[i].1
            }
            &&& (forall|j: int| 0 <= j < files.len() ==> (#[trigger] files[j]).0 != name) ==> {
                &&& after.templates.contains_key(name) == before.templates.contains_key(name)
                &&& before.templates.contains_key(name) ==> after.templates[name]
                    == before.templates[name]
                &&& after.template_sources.contains_key(name)
                    == before.template_sources.contains_key(name)
                &&& before.template_sources.contains_key(name) ==> after.template_sources[name]
                    == before.template_sources[name]
            }
            &&& after == (RegistryView {
                templates: after.templates,
                template_sources: after.template_sources,
                ..before
            })
        }),
    decreases files.len(),
{
    if files.len() > 0 {
        let front = files.drop_last();
        let last = files.len() - 1;
        lemma_all_loaded(before, front, templates.drop_last(), i, name);
        if 0 <= i < last && (forall|j: int| i < j < files.len() ==> (#[trigger] files[j]).0 != name) {
            assert(files[last].0 != name);
            assert forall|j: int| i < j < front.len() implies (#[trigger] front[j]).0 != name by {
                assert(files[j].0 != name);
            }
        }
        if forall|j: int| 0 <= j < files.len() ==> (#[trigger] files[j]).0 != name {
            assert(files[last].0 != name);
            assert forall|j: int| 0 <= j < front.len() implies (#[trigger] front[j]).0 != name by {
                assert(files[j].0 != name);
            }
        }
    }
}

/// Files are registered one after the other: each template is what has come of its file.
/// All of them are registered exactly if the call succeeds; otherwise the error is that
/// of the first file that is not. A file that cannot be read is reported by its own name
/// or by the one for all files.
pub proof fn files_are_registered_up_to_the_first_that_fails<B: Backend>(
    before: RegistryView<B>,
    files: Seq<(Seq<char>, B::Source)>,
    failed_as: Option<Seq<char>>,
    templates: Seq<Template>,
    result: Result<(), TemplateError>,
    after: RegistryView<B>,
    i: int,
)
    requires
        files_registered(before, files, failed_as, templates, result, after),
    ensures
        templates.len() <= files.len(),
        result is Ok <==> templates.len() == files.len(),
        0 <= i < templates.len() ==> source_reply(
            before.backend,
            files[i].1,
            files[i].0,
            if failed_as is Some {
                failed_as->0
            } else {
                files[i].0
            },
            before.prevent_indent,
            Ok::<Template, TemplateError>(templates[i]),
        ),
        result is Err ==> source_reply(
            before.backend,
            files[templates.len() as int].1,
            files[templates.len() as int].0,
            if failed_as is Some {
                failed_as->0
            } else {
                files[templates.len() as int].0
            },
            before.prevent_indent,
            Err::<Template, TemplateError>(result->Err_0),
        ),
{
    if 0 <= i < templates.len() {
        assert(templates[i] == templates[i]);
    }
}

/// Files that are registered are taken as they are given, in their order.
pub proof fn files_are_taken_as_given<S>(files: Seq<(String, S)>, i: int)
    ensures
        named_sources(files).len() == files.len(),
        0 <= i < files.len() ==> named_sources(files)[i] == (files[i].0@, files[i].1),
{
}

} // verus!
