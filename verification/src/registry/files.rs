//! Registering the templates of a directory and of embedded files.
use vstd::prelude::*;

use crate::backend::{source_reply, Backend};
use crate::directory::{DirectoryEntry, DirectorySourceOptions};
use crate::error::TemplateError;
use crate::registry::{Registry, RegistryView};
use crate::template::Template;
use crate::text::{ends_with, has_suffix, read_utf8, spelled, stripped, without_suffix};

verus! {

/// The name under which an embedded file that cannot be read is reported.
pub const EMBED_LOAD_ERROR: &'static str = "Template load error";

/// The templates among the files of a directory, with their names.
pub open spec fn directory_templates<S>(
    options: DirectorySourceOptions,
    entries: Seq<(DirectoryEntry, S)>,
) -> Seq<(Seq<char>, S)>
    decreases entries.len(),
{
    if entries.len() == 0 {
        Seq::empty()
    } else {
        let earlier = directory_templates(options, entries.drop_last());
        match options.names_template(entries.last().0) {
            Some(name) => earlier.push((name, entries.last().1)),
            None => earlier,
        }
    }
}

/// The templates among embedded files: those with the extension, which their names
/// do without.
pub open spec fn embedded_templates<S>(
    tpl_extension: Seq<char>,
    files: Seq<(String, S)>,
) -> Seq<(Seq<char>, S)>
    decreases files.len(),
{
    if files.len() == 0 {
        Seq::empty()
    } else {
        let earlier = embedded_templates(tpl_extension, files.drop_last());
        if ends_with(files.last().0@, tpl_extension) {
            earlier.push((stripped(files.last().0@, tpl_extension), files.last().1))
        } else {
            earlier
        }
    }
}

/// The name under which a file that cannot be read is reported: its own, or one for
/// all files.
pub open spec fn reported_as(name: Seq<char>, failed_as: Option<Seq<char>>) -> Seq<char> {
    match failed_as {
        Some(n) => n,
        None => name,
    }
}

spec fn text_of(name: Option<&str>) -> Option<Seq<char>> {
    match name {
        Some(n) => Some(n@),
        None => None,
    }
}

/// What comes of registering files one after the other: all of them, or those before
/// the first that fails, and its error. `templates` are those that were registered.
pub open spec fn files_registered<B: Backend>(
    before: RegistryView<B>,
    files: Seq<(Seq<char>, B::Source)>,
    failed_as: Option<Seq<char>>,
    templates: Seq<Template>,
    result: Result<(), TemplateError>,
    after: RegistryView<B>,
) -> bool {
    let done = templates.len();
    &&& done <= files.len()
    &&& forall|i: int|
        0 <= i < done ==> source_reply(
            before.backend,
            files[i].1,
            files[i].0,
            reported_as(files[i].0, failed_as),
            before.prevent_indent,
            Ok(#[trigger] templates[i]),
        )
    &&& after == before.with_all_loaded(files.take(done as int), templates)
    &&& match result {
        Ok(()) => done == files.len(),
        Err(error) => done < files.len() && source_reply(
            before.backend,
            files[done as int].1,
            files[done as int].0,
            reported_as(files[done as int].0, failed_as),
            before.prevent_indent,
            Err(error),
        ),
    }
}

/// The names and sources of files that are to be registered.
pub open spec fn named_sources<S>(files: Seq<(String, S)>) -> Seq<(Seq<char>, S)> {
    Seq::new(files.len(), |i: int| (files[i].0@, files[i].1))
}

impl<B: Backend> Registry<B> {
    /// Registers files one after the other, up to the first that fails.
    fn register_files(&mut self, files: Vec<(String, B::Source)>, failed_as: Option<&str>) -> (result:
        Result<(), TemplateError>)
        ensures
            exists|templates: Seq<Template>| #[trigger]
                files_registered(
                    old(self)@,
                    named_sources(files@),
                    text_of(failed_as),
                    templates,
                    result,
                    final(self)@,
                ),
            old(self)@.valid() ==> final(self)@.valid(),
    {
        let ghost all = named_sources(files@);
        let ghost label = text_of(failed_as);
        let ghost mut templates: Seq<Template> = Seq::empty();
        assert(all.take(0) =~= Seq::empty());
        for file in it: files
            invariant
                it.seq() == files@,
                all == named_sources(files@),
                templates.len() == it.index(),
                label == text_of(failed_as),
                self@.backend == old(self)@.backend,
                self@.prevent_indent == old(self)@.prevent_indent,
                forall|i: int|
                    0 <= i < templates.len() ==> source_reply(
                        old(self)@.backend,
                        all[i].1,
                        all[i].0,
                        reported_as(all[i].0, label),
                        old(self)@.prevent_indent,
                        Ok(#[trigger] templates[i]),
                    ),
                self@ == old(self)@.with_all_loaded(all.take(templates.len() as int), templates),
                old(self)@.valid() ==> self@.valid(),
        {
            let ghost done = templates.len() as int;
            assert(all[done] == (file.0@, file.1));
            let (name, source) = file;
            let reply = match failed_as {
                Some(label) => self.compile_source(name.as_str(), label, &source),
                None => self.compile_source(name.as_str(), name.as_str(), &source),
            };
            match reply {
                Ok(template) => {
                    proof {
                        let earlier = templates;
                        templates = templates.push(template);
                        assert(templates.drop_last() =~= earlier);
                        assert(all.take(done + 1).drop_last() =~= all.take(done));
                    }
                    let _ = self.register_loaded(name.as_str(), source, Ok(template));
                },
                Err(error) => {
                    assert(files_registered(
                        old(self)@,
                        all,
                        label,
                        templates,
                        Err::<(), TemplateError>(error),
                        self@,
                    ));
                    return Err(error);
                },
            }
        }
        assert(files_registered(old(self)@, all, label, templates, Ok(()), self@));
        Ok(())
    }

    /// Register templates from a directory
    ///
    /// `entries` are the files that a walk of the directory meets, with their
    /// sources. Hidden files and tempfile (starts with `#`) will be ignored by default.
    /// Set `DirectorySourceOptions` to something other than `DirectorySourceOptions::default()`
    /// to adjust this. All registered templates will use their relative path to determine
    /// their template name. For example, when the directory is `templates/` and
    /// `DirectorySourceOptions.tpl_extension` is `.hbs`, the file
    /// `templates/some/path/file.hbs` will be registered as `some/path/file`.
    ///
    /// When dev_mode is enabled, like with `register_template_file`, templates are reloaded
    /// from the file system every time they're visited.
    pub fn register_templates_directory(
        &mut self,
        entries: Vec<(DirectoryEntry, B::Source)>,
        options: DirectorySourceOptions,
    ) -> (result: Result<(), TemplateError>)
        ensures
            exists|templates: Seq<Template>| #[trigger]
                files_registered(
                    old(self)@,
                    directory_templates(options, entries@),
                    None,
                    templates,
                    result,
                    final(self)@,
                ),
            old(self)@.valid() ==> final(self)@.valid(),
    {
        let mut files: Vec<(String, B::Source)> = Vec::new();
        for met in it: entries
            invariant
                it.seq() == entries@,
                named_sources(files@) == directory_templates(
                    options,
                    entries@.take(it.index() as int),
                ),
        {
            let ghost done = it.index() as int;
            let ghost earlier = files@;
            assert(entries@.take(done + 1).drop_last() =~= entries@.take(done));
            let (entry, source) = met;
            if let Some(name) = options.template_name(&entry) {
                files.push((name, source));
                assert(named_sources(files@) =~= named_sources(earlier).push((name@, source)));
            }
        }
        assert(entries@.take(entries@.len() as int) =~= entries@);
        self.register_files(files, None)
    }

    /// Register embedded files as templates
    /// Calls register_embed_templates_with_extension with empty extension.
    ///
    /// File names are used as template name.
    pub fn register_embed_templates(&mut self, files: Vec<(String, B::Source)>) -> (result: Result<
        (),
        TemplateError,
    >)
        ensures
            exists|templates: Seq<Template>| #[trigger]
                files_registered(
                    old(self)@,
                    embedded_templates(Seq::empty(), files@),
                    Some(EMBED_LOAD_ERROR@),
                    templates,
                    result,
                    final(self)@,
                ),
            old(self)@.valid() ==> final(self)@.valid(),
    {
        proof {
            reveal_strlit("");
            assert(""@ =~= Seq::empty());
        }
        self.register_embed_templates_with_extension(files, "")
    }

    /// Register embedded files as templates
    /// * `tpl_extension`: the template file extension
    ///
    /// File names are used as template name, but extension is stripped.
    ///
    /// When dev_mode enabled templates is reloaded
    /// from the embedded files every time it's visited.
    pub fn register_embed_templates_with_extension(
        &mut self,
        files: Vec<(String, B::Source)>,
        tpl_extension: &str,
    ) -> (result: Result<(), TemplateError>)
        ensures
            exists|templates: Seq<Template>| #[trigger]
                files_registered(
                    old(self)@,
                    embedded_templates(tpl_extension@, files@),
                    Some(EMBED_LOAD_ERROR@),
                    templates,
                    result,
                    final(self)@,
                ),
            old(self)@.valid() ==> final(self)@.valid(),
    {
        let mut chosen: Vec<(String, B::Source)> = Vec::new();
        for file in it: files
            invariant
                it.seq() == files@,
                named_sources(chosen@) == embedded_templates(
                    tpl_extension@,
                    files@.take(it.index() as int),
                ),
        {
            let ghost done = it.index() as int;
            let ghost earlier = chosen@;
            assert(files@.take(done + 1).drop_last() =~= files@.take(done));
            let (file_name, source) = file;
            if has_suffix(file_name.as_str(), tpl_extension) {
                let tpl_name = without_suffix(file_name.as_str(), tpl_extension);
                chosen.push((tpl_name, source));
                assert(named_sources(chosen@) =~= named_sources(earlier).push(
                    (tpl_name@, source),
                ));
            }
        }
        assert(files@.take(files@.len() as int) =~= files@);
        self.register_files(chosen, Some(EMBED_LOAD_ERROR))
    }
}

/// The text of an embedded file, if there is such a file and it is UTF-8.
pub fn embedded_text(data: Option<Vec<u8>>) -> (text: Option<String>)
    ensures
        match text {
            Some(t) => data is Some && spelled(data->0@) == Some(t@),
            None => data is None || spelled(data->0@) is None,
        },
{
    match data {
        Some(bytes) => read_utf8(bytes),
        None => None,
    }
}

} // verus!
