//! What the registry is built on: a template compiler and a way to read sources.
use vstd::prelude::*;

use crate::error::{IoError, TemplateError};
use crate::template::{Template, TemplateOptions};

verus! {

/// The template compiler and the readers of sources that a registry works with, and
/// the things that it keeps for their users.
pub trait Backend {
    /// A place that a template or script is read from, such as a file.
    type Source;

    /// A helper of the user's.
    type Helper;

    /// A decorator of the user's.
    type Decorator;

    /// An *escape fn* of the user's.
    type Escape;

    /// Compiles the text of a template.
    fn compile(&self, text: &str, options: &TemplateOptions) -> Result<Template, TemplateError>;

    /// Reads a source.
    fn load(&self, source: &Self::Source) -> Result<String, IoError>;
}

/// That the backend has answered the text of a template with `reply`, when it was to
/// compile it as a template called `name`.
pub open spec fn compile_reply<B: Backend>(
    backend: B,
    text: Seq<char>,
    name: Option<Seq<char>>,
    prevent_indent: bool,
    reply: Result<Template, TemplateError>,
) -> bool {
    exists|handed: &str, options: TemplateOptions|
        {
            &&& handed@ == text
            &&& options.name_spec() == name
            &&& !options.is_partial
            &&& options.prevent_indent == prevent_indent
            &&& #[trigger] call_ensures(B::compile, (&backend, handed, &options), reply)
        }
}

/// That the backend has answered the reading of a source with `reply`.
pub open spec fn load_reply<B: Backend>(
    backend: B,
    source: B::Source,
    reply: Result<String, IoError>,
) -> bool {
    call_ensures(B::load, (&backend, &source), reply)
}

/// That reading a source and compiling what it holds as a template called `name` has
/// come out as `reply`. A source that cannot be read is reported as `failed_as`.
pub open spec fn source_reply<B: Backend>(
    backend: B,
    source: B::Source,
    name: Seq<char>,
    failed_as: Seq<char>,
    prevent_indent: bool,
    reply: Result<Template, TemplateError>,
) -> bool {
    exists|loaded: Result<String, IoError>|
        {
            &&& #[trigger] load_reply(backend, source, loaded)
            &&& match loaded {
                Ok(text) => compile_reply(backend, text@, Some(name), prevent_indent, reply),
                Err(err) => reply matches Err(failure) && failure.is_load_failure(err, failed_as),
            }
        }
}

/// That the backend compiles one text in one way.
pub open spec fn compiles_in_one_way<B: Backend>(backend: B) -> bool {
    forall|
        text: Seq<char>,
        name: Option<Seq<char>>,
        prevent_indent: bool,
        one: Result<Template, TemplateError>,
        other: Result<Template, TemplateError>,
    |
        #[trigger] compile_reply(backend, text, name, prevent_indent, one)
            && #[trigger] compile_reply(backend, text, name, prevent_indent, other) ==> one
            == other
}

/// That two readings of a source have come out alike: with the same text, or with the
/// same error.
pub open spec fn same_reading(
    one: Result<String, IoError>,
    other: Result<String, IoError>,
) -> bool {
    match (one, other) {
        (Ok(text), Ok(other_text)) => text@ == other_text@,
        (Err(err), Err(other_err)) => err == other_err,
        _ => false,
    }
}

/// That the backend reads one source in one way.
pub open spec fn loads_in_one_way<B: Backend>(backend: B) -> bool {
    forall|source: B::Source, one: Result<String, IoError>, other: Result<String, IoError>|
        #[trigger] load_reply(backend, source, one) && #[trigger] load_reply(
            backend,
            source,
            other,
        ) ==> same_reading(one, other)
}

/// That a source can be read and holds a text.
pub open spec fn holds_text<B: Backend>(backend: B, source: B::Source, text: Seq<char>) -> bool {
    forall|loaded: Result<String, IoError>| #[trigger]
        load_reply(backend, source, loaded) ==> loaded is Ok && loaded->Ok_0@ == text
}

} // verus!
