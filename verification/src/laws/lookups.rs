//! What holds of registering, removing and finding.
use vstd::prelude::*;

use crate::backend::{load_reply, source_reply, Backend};
use crate::error::{IoError, RenderError, TemplateError};
use crate::helpers::Helper;
use crate::registry::render::{rendered, script_served, served, Found, RenderContext};
use crate::registry::{Registry, RegistryView};
use crate::script::script_outcome;
use crate::template::Template;

verus! {

/// In a valid registry a rendering finds a template of exactly the names that are
/// registered.
pub proof fn lookups_find_registered_names<B: Backend>(
    registry: RegistryView<B>,
    name: Seq<char>,
    reply: Option<Result<Found<Template>, RenderError>>,
)
    requires
        registry.valid(),
        registry.looks_up(name, reply),
    ensures
        reply is Some <==> registry.templates.contains_key(name),
{
}

/// Outside dev mode a lookup answers with the registered template and reads nothing.
pub proof fn lookups_read_nothing_outside_dev_mode<B: Backend>(
    registry: RegistryView<B>,
    name: Seq<char>,
    reply: Option<Result<Found<Template>, RenderError>>,
)
    requires
        !registry.dev_mode,
        registry.looks_up(name, reply),
    ensures
        reply == if registry.templates.contains_key(name) {
            Some(Ok::<Found<Template>, RenderError>(Found::Registered(&registry.templates[name])))
        } else {
            None
        },
{
}

/// A registered template is what a lookup of its name answers, in dev mode too. It takes
/// the place of the one that was there, and no other template changes, nor its source.
pub proof fn registered_templates_are_found<B: Backend>(
    before: RegistryView<B>,
    name: Seq<char>,
    template: Template,
    other: Seq<char>,
    reply: Option<Result<Found<Template>, RenderError>>,
)
    requires
        before.with_template(name, template).looks_up(name, reply),
    ensures
        reply == Some(Ok::<Found<Template>, RenderError>(Found::Registered(&template))),
        other != name ==> before.with_template(name, template).templates.contains_key(other)
            == before.templates.contains_key(other),
        other != name && before.templates.contains_key(other) ==> before.with_template(
            name,
            template,
        ).templates[other] == before.templates[other],
        other != name ==> before.with_template(name, template).template_sources.contains_key(other)
            == before.template_sources.contains_key(other),
        other != name && before.template_sources.contains_key(other) ==> before.with_template(
            name,
            template,
        ).template_sources[other] == before.template_sources[other],
{
}

/// A template that was removed is not found, in dev mode neither.
pub proof fn unregistered_templates_are_gone<B: Backend>(
    before: RegistryView<B>,
    name: Seq<char>,
    reply: Option<Result<Found<Template>, RenderError>>,
)
    requires
        before.without_template(name).looks_up(name, reply),
    ensures
        reply is None,
{
}

/// A template that is registered and removed again leaves no trace where there was
/// none of its name.
pub proof fn unregistering_undoes_registering<B: Backend>(
    before: RegistryView<B>,
    name: Seq<char>,
    template: Template,
)
    requires
        before.valid(),
        !before.templates.contains_key(name),
    ensures
        before.with_template(name, template).without_template(name) == before,
{
    let after = before.with_template(name, template).without_template(name);
    assert(after.templates =~= before.templates);
    assert(after.template_sources =~= before.template_sources);
    assert(after.package =~= before.package);
}

/// Once all templates are removed, no lookup finds one, in dev mode neither.
pub proof fn cleared_registries_find_nothing<B: Backend>(
    before: RegistryView<B>,
    name: Seq<char>,
    reply: Option<Result<Found<Template>, RenderError>>,
)
    requires
        before.without_templates().looks_up(name, reply),
    ensures
        reply is None,
{
}

/// A template that was registered from a source in dev mode is read again from it by
/// every lookup.
pub proof fn dev_mode_reads_sources_again<B: Backend>(
    before: RegistryView<B>,
    name: Seq<char>,
    template: Template,
    source: B::Source,
    reply: Option<Result<Found<Template>, RenderError>>,
)
    requires
        before.dev_mode,
        before.with_loaded(name, template, source).looks_up(name, reply),
    ensures
        exists|loaded: Result<Template, TemplateError>|
            {
                &&& #[trigger] source_reply(
                    before.backend,
                    source,
                    name,
                    name,
                    before.prevent_indent,
                    loaded,
                )
                &&& reply is Some
                &&& served(loaded, reply->0)
            },
{
}

/// Dev mode has to be enabled before templates are added: one that was registered
/// from a source outside dev mode is not read again when dev mode is enabled later.
pub proof fn dev_mode_has_no_effect_on_earlier_templates<B: Backend>(
    before: RegistryView<B>,
    name: Seq<char>,
    template: Template,
    source: B::Source,
    reply: Option<Result<Found<Template>, RenderError>>,
)
    requires
        before.valid(),
        !before.dev_mode,
        before.with_loaded(name, template, source).with_dev_mode(true).looks_up(name, reply),
    ensures
        reply == Some(Ok::<Found<Template>, RenderError>(Found::Registered(&template))),
{
}

/// Disabling dev mode drops all sources of templates: enabling it again does not
/// bring them back.
pub proof fn disabling_dev_mode_drops_sources<B: Backend>(
    before: RegistryView<B>,
    name: Seq<char>,
    reply: Option<Result<Found<Template>, RenderError>>,
)
    requires
        before.with_dev_mode(false).with_dev_mode(true).looks_up(name, reply),
    ensures
        reply == if before.templates.contains_key(name) {
            Some(Ok::<Found<Template>, RenderError>(Found::Registered(&before.templates[name])))
        } else {
            None
        },
{
}

/// A registered helper is what a lookup of its name answers, unless dev mode has a
/// script file for the name.
pub proof fn registered_helpers_are_found<B: Backend>(
    before: RegistryView<B>,
    name: Seq<char>,
    helper: Helper<B::Helper>,
    reply: Result<Option<Found<Helper<B::Helper>>>, RenderError>,
)
    requires
        !before.dev_mode || !before.script_sources.contains_key(name),
        before.with_helper(name, helper).looks_up_helper(name, reply),
    ensures
        reply == Ok::<Option<Found<Helper<B::Helper>>>, RenderError>(
            Some(Found::Registered(&helper)),
        ),
{
}

/// In dev mode a script file goes on being served when another helper is registered
/// under its name.
pub proof fn script_files_go_on_being_served<B: Backend>(
    before: RegistryView<B>,
    name: Seq<char>,
    helper: Helper<B::Helper>,
    reply: Result<Option<Found<Helper<B::Helper>>>, RenderError>,
)
    requires
        before.dev_mode,
        before.script_sources.contains_key(name),
        before.with_helper(name, helper).looks_up_helper(name, reply),
    ensures
        before.looks_up_helper(name, reply),
{
}

/// A helper that is registered once the name was unregistered is what a lookup answers,
/// whatever was there before, in dev mode too.
pub proof fn helpers_are_found_after_unregistering<B: Backend>(
    before: RegistryView<B>,
    name: Seq<char>,
    helper: Helper<B::Helper>,
    reply: Result<Option<Found<Helper<B::Helper>>>, RenderError>,
)
    requires
        before.without_helper(name).with_helper(name, helper).looks_up_helper(name, reply),
    ensures
        reply == Ok::<Option<Found<Helper<B::Helper>>>, RenderError>(
            Some(Found::Registered(&helper)),
        ),
{
}

/// A helper that was removed is not found, in dev mode neither.
pub proof fn unregistered_helpers_are_gone<B: Backend>(
    before: RegistryView<B>,
    name: Seq<char>,
    reply: Result<Option<Found<Helper<B::Helper>>>, RenderError>,
)
    requires
        before.without_helper(name).looks_up_helper(name, reply),
    ensures
        reply == Ok::<Option<Found<Helper<B::Helper>>>, RenderError>(None),
{
}

/// In dev mode the script of a helper with a source is read and compiled again by
/// every lookup.
pub proof fn dev_mode_reads_scripts_again<B: Backend>(
    before: RegistryView<B>,
    name: Seq<char>,
    source: B::Source,
    reply: Result<Option<Found<Helper<B::Helper>>>, RenderError>,
)
    requires
        before.dev_mode,
        before.with_script_source(name, source).looks_up_helper(name, reply),
        reply is Ok,
    ensures
        exists|text: String, outcome: Result<rhai::AST, rhai::ParseError>|
            {
                &&& load_reply(before.backend, source, Ok::<String, IoError>(text))
                &&& #[trigger] script_outcome(before.engine, text@, outcome)
                &&& script_served(outcome, reply)
            },
{
    let registry = before.with_script_source(name, source);
    let loaded = choose|loaded: Result<String, IoError>|
        {
            &&& #[trigger] load_reply(registry.backend, registry.script_sources[name], loaded)
            &&& match loaded {
                Ok(text) => exists|outcome: Result<rhai::AST, rhai::ParseError>|
                    {
                        &&& #[trigger] script_outcome(registry.engine, text@, outcome)
                        &&& script_served(outcome, reply)
                    },
                Err(_) => reply is Err,
            }
        };
    assert(load_reply(before.backend, source, Ok::<String, IoError>(loaded->Ok_0)));
}

/// Rendering a template that is not registered fails with the name of the template.
pub proof fn missing_templates_are_reported<
    B: Backend,
    X,
    O,
    R: FnOnce(&Registry<B>, &Template, &X, RenderContext<'_>) -> Result<O, RenderError>,
>(registry: Registry<B>, name: Seq<char>, ctx: X, renderer: R, result: Result<O, RenderError>)
    requires
        registry@.valid(),
        !registry@.templates.contains_key(name),
        registry.renders(name, ctx, renderer, result),
    ensures
        result is Err,
        result->Err_0.is_not_found(name),
{
}

/// Outside dev mode a rendering hands the registry and the registered template to the
/// renderer, and answers what the renderer answers.
pub proof fn registered_templates_are_rendered<
    B: Backend,
    X,
    O,
    R: FnOnce(&Registry<B>, &Template, &X, RenderContext<'_>) -> Result<O, RenderError>,
>(registry: Registry<B>, name: Seq<char>, ctx: X, renderer: R, result: Result<O, RenderError>)
    requires
        !registry@.dev_mode,
        registry@.templates.contains_key(name),
        registry.renders(name, ctx, renderer, result),
    ensures
        rendered(
            renderer,
            registry,
            registry@.templates[name],
            ctx,
            registry@.recursive_lookup,
            None,
            result,
        ),
{
}

} // verus!
