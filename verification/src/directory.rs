//! Which files of a directory are templates, and what they are called.
use vstd::prelude::*;

use crate::text::{
    ends_with, has_first, has_suffix, join, joined, starts_with, stripped, texts, without_suffix,
};

verus! {

/// Options for importing template files from a directory.
#[non_exhaustive]
#[derive(Debug)]
pub struct DirectorySourceOptions {
    /// The name extension for template files
    pub tpl_extension: String,
    /// Whether to include hidden files (file name that starts with `.`)
    pub hidden: bool,
    /// Whether to include temporary files (file name that starts with `#`)
    pub temporary: bool,
}

/// A file that was met in a directory.
#[derive(Debug)]
pub struct DirectoryEntry {
    /// The whole path of the file.
    pub path: String,
    /// The file name without its last extension, if the path ends in a file name.
    pub file_stem: Option<String>,
    /// The components of the path below the directory, if it lies below it.
    pub components: Option<Vec<String>>,
}

impl DirectorySourceOptions {
    /// Whether a file of this name is left out.
    pub open spec fn ignores(self, name: Seq<char>) -> bool {
        ||| !self.hidden && starts_with(name, '.')
        ||| !self.temporary && starts_with(name, '#')
    }

    /// The name of the template that a file holds, if it holds one.
    pub open spec fn names_template(self, entry: DirectoryEntry) -> Option<Seq<char>> {
        match (entry.file_stem, entry.components) {
            (Some(stem), Some(components)) => if ends_with(entry.path@, self.tpl_extension@)
                && !self.ignores(stem@) {
                Some(stripped(joined(texts(components@), "/"@), self.tpl_extension@))
            } else {
                None
            },
            _ => None,
        }
    }

    /// Whether a file of this name is left out.
    pub fn ignore_file(&self, name: &str) -> (ignored: bool)
        ensures
            ignored == self.ignores(name@),
    {
        self.ignored_as_hidden_file(name) || self.ignored_as_temporary_file(name)
    }

    /// Whether a file of this name is left out because it is hidden.
    pub fn ignored_as_hidden_file(&self, name: &str) -> (ignored: bool)
        ensures
            ignored == (!self.hidden && starts_with(name@, '.')),
    {
        !self.hidden && has_first(name, '.')
    }

    /// Whether a file of this name is left out because it is temporary.
    pub fn ignored_as_temporary_file(&self, name: &str) -> (ignored: bool)
        ensures
            ignored == (!self.temporary && starts_with(name@, '#')),
    {
        !self.temporary && has_first(name, '#')
    }

    /// The name of the template that a file holds: its path below the directory,
    /// with `/` between the components and without the extension. Files with
    /// another extension and ignored files hold none.
    pub fn template_name(&self, entry: &DirectoryEntry) -> (name: Option<String>)
        ensures
            match name {
                Some(n) => self.names_template(*entry) == Some(n@),
                None => self.names_template(*entry) is None,
            },
    {
        if !has_suffix(entry.path.as_str(), self.tpl_extension.as_str()) {
            return None;
        }
        match (&entry.file_stem, &entry.components) {
            (Some(stem), Some(components)) => {
                if self.ignore_file(stem.as_str()) {
                    None
                } else {
                    let path = join(components, "/");
                    Some(without_suffix(path.as_str(), self.tpl_extension.as_str()))
                }
            },
            _ => None,
        }
    }
}

impl Default for DirectorySourceOptions {
    fn default() -> (options: Self)
        ensures
            options.tpl_extension@ == ".hbs"@,
            !options.hidden,
            !options.temporary,
    {
        DirectorySourceOptions {
            tpl_extension: ".hbs".to_owned(),
            hidden: false,
            temporary: false,
        }
    }
}

} // verus!
