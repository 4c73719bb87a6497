//! What the backend is handed, and what becomes of its answers.
use vstd::prelude::*;

use crate::backend::{compile_reply, source_reply, Backend};
use crate::error::{IoError, TemplateError, TemplateErrorReason};
use crate::template::{Template, TemplateOptions};

verus! {

/// The compiler is handed the whole text, the name of the template where it has one, and
/// the indent option of the registry. Nothing is compiled as a partial.
pub proof fn the_compiler_is_handed_the_text<B: Backend>(
    backend: B,
    text: Seq<char>,
    name: Option<Seq<char>>,
    prevent_indent: bool,
    reply: Result<Template, TemplateError>,
)
    requires
        compile_reply(backend, text, name, prevent_indent, reply),
    ensures
        exists|handed: &str, options: TemplateOptions|
            {
                &&& handed@ == text
                &&& options.name is Some <==> name is Some
                &&& name is Some ==> options.name->0@ == name->0
                &&& options.is_partial == false
                &&& options.prevent_indent == prevent_indent
                &&& #[trigger] call_ensures(B::compile, (&backend, handed, &options), reply)
            },
{
    let (handed, options) = choose|handed: &str, options: TemplateOptions|
        {
            &&& handed@ == text
            &&& options.name_spec() == name
            &&& !options.is_partial
            &&& options.prevent_indent == prevent_indent
            &&& #[trigger] call_ensures(B::compile, (&backend, handed, &options), reply)
        };
    assert(call_ensures(B::compile, (&backend, handed, &options), reply));
}

/// A source is read once, and what it holds is compiled under the name. A source that
/// cannot be read is answered with the error of the reading and the name that it is
/// reported as, and with no place in a text.
pub proof fn sources_are_read_and_compiled<B: Backend>(
    backend: B,
    source: B::Source,
    name: Seq<char>,
    failed_as: Seq<char>,
    prevent_indent: bool,
    reply: Result<Template, TemplateError>,
)
    requires
        source_reply(backend, source, name, failed_as, prevent_indent, reply),
    ensures
        exists|loaded: Result<String, IoError>|
            {
                &&& #[trigger] call_ensures(B::load, (&backend, &source), loaded)
                &&& match loaded {
                    Ok(text) => compile_reply(backend, text@, Some(name), prevent_indent, reply),
                    Err(err) => {
                        &&& reply is Err
                        &&& reply->Err_0.reason == TemplateErrorReason::IoError(err)
                        &&& reply->Err_0.template_name is Some
                        &&& reply->Err_0.template_name->0@ == failed_as
                        &&& reply->Err_0.line_no is None
                        &&& reply->Err_0.column_no is None
                    },
                }
            },
{
}

} // verus!
