//! What lookups answer, and what a renderer is handed.
use vstd::prelude::*;

use crate::backend::{compile_reply, load_reply, source_reply, Backend};
use crate::error::{IoError, RenderError, RenderErrorReason, ScriptError, TemplateError};
use crate::helpers::Helper;
use crate::names::{name_before, NameMap};
use crate::registry::render::{
    at_hand, collected, gathered_map, is_collected_from, is_plain_error, is_text_of, known_as,
    name_of, rendered, script_served, served, Found, RenderContext,
};
use crate::registry::{Registry, RegistryView};
use crate::script::{script_outcome, ScriptHelper};
use crate::template::Template;

verus! {

/// Whether a render error is nothing but a reason: it names no template and no place.
pub open spec fn is_bare(error: RenderError) -> bool {
    &&& error.template_name is None
    &&& error.line_no is None
    &&& error.column_no is None
}

/// Whether dev mode tracks the template of a name by a source.
pub open spec fn is_tracked<B: Backend>(registry: RegistryView<B>, name: Seq<char>) -> bool {
    registry.dev_mode && registry.template_sources.contains_key(name)
}

/// What was found is the value that was registered or loaded.
pub proof fn found_values_are_the_values<'a, T>(found: Found<'a, T>)
    ensures
        found is Registered ==> found.value() == *found->Registered_0,
        found is Loaded ==> found.value() == found->Loaded_0,
{
}

/// A template that dev mode tracks is read from its source by each lookup, and never
/// served as it was registered. Any other template is served as it was registered, and a
/// name without one is answered with nothing.
pub proof fn template_lookups_answer<B: Backend>(
    registry: RegistryView<B>,
    name: Seq<char>,
    reply: Option<Result<Found<Template>, RenderError>>,
)
    requires
        registry.looks_up(name, reply),
    ensures
        is_tracked(registry, name) ==> exists|loaded: Result<Template, TemplateError>|
            {
                &&& #[trigger] source_reply(
                    registry.backend,
                    registry.template_sources[name],
                    name,
                    name,
                    registry.prevent_indent,
                    loaded,
                )
                &&& reply is Some
                &&& match loaded {
                    Ok(template) => {
                        &&& reply->0 is Ok
                        &&& reply->0->Ok_0 is Loaded
                        &&& reply->0->Ok_0->Loaded_0 == template
                    },
                    Err(error) => {
                        &&& reply->0 is Err
                        &&& reply->0->Err_0.reason == RenderErrorReason::TemplateError(error)
                        &&& is_bare(reply->0->Err_0)
                    },
                }
            },
        !is_tracked(registry, name) ==> {
            &&& reply is Some <==> registry.templates.contains_key(name)
            &&& reply is Some ==> {
                &&& reply->0 is Ok
                &&& reply->0->Ok_0 is Registered
                &&& *reply->0->Ok_0->Registered_0 == registry.templates[name]
            }
        },
{
}

/// A lookup that must find something answers as any lookup does, and says by its name
/// which template is not there.
pub proof fn lookups_that_must_find_report_the_name<B: Backend>(
    registry: RegistryView<B>,
    name: Seq<char>,
    reply: Result<Found<Template>, RenderError>,
)
    requires
        registry.must_look_up(name, reply),
    ensures
        is_tracked(registry, name) || registry.templates.contains_key(name) ==> registry.looks_up(
            name,
            Some(reply),
        ),
        !is_tracked(registry, name) && !registry.templates.contains_key(name) ==> {
            &&& reply is Err
            &&& reply->Err_0.reason is TemplateNotFound
            &&& reply->Err_0.reason->TemplateNotFound_0@ == name
            &&& is_bare(reply->Err_0)
        },
{
}

/// The script of a helper that dev mode tracks is read and compiled by each lookup, and
/// never served as it was registered. Any other helper is served as it was registered,
/// and a name without one is answered with nothing.
pub proof fn helper_lookups_answer<B: Backend>(
    registry: RegistryView<B>,
    name: Seq<char>,
    reply: Result<Option<Found<Helper<B::Helper>>>, RenderError>,
)
    requires
        registry.looks_up_helper(name, reply),
    ensures
        registry.dev_mode && registry.script_sources.contains_key(name) ==> exists|
            loaded: Result<String, IoError>,
        |
            {
                &&& #[trigger] call_ensures(
                    B::load,
                    (&registry.backend, &registry.script_sources[name]),
                    loaded,
                )
                &&& match loaded {
                    Ok(text) => match reply {
                        Ok(found) => {
                            &&& found is Some
                            &&& found->0 is Loaded
                            &&& found->0->Loaded_0 is Script
                            &&& script_outcome(
                                registry.engine,
                                text@,
                                Ok::<rhai::AST, rhai::ParseError>(
                                    found->0->Loaded_0->Script_0.script,
                                ),
                            )
                        },
                        Err(error) => {
                            &&& is_bare(error)
                            &&& error.reason is ScriptError
                            &&& error.reason->ScriptError_0 is ParseError
                            &&& script_outcome(
                                registry.engine,
                                text@,
                                Err::<rhai::AST, rhai::ParseError>(
                                    error.reason->ScriptError_0->ParseError_0,
                                ),
                            )
                        },
                    },
                    Err(err) => {
                        &&& reply is Err
                        &&& reply->Err_0.reason == RenderErrorReason::ScriptError(
                            ScriptError::IoError(err),
                        )
                        &&& is_bare(reply->Err_0)
                    },
                }
            },
        !registry.dev_mode || !registry.script_sources.contains_key(name) ==> {
            &&& reply is Ok
            &&& reply->Ok_0 is Some <==> registry.helpers.contains_key(name)
            &&& reply->Ok_0 is Some ==> {
                &&& reply->Ok_0->0 is Registered
                &&& *reply->Ok_0->0->Registered_0 == registry.helpers[name]
            }
        },
{
    if registry.dev_mode && registry.script_sources.contains_key(name) {
        let loaded = choose|loaded: Result<String, IoError>|
            {
                &&& #[trigger] load_reply(
                    registry.backend,
                    registry.script_sources[name],
                    loaded,
                )
                &&& match loaded {
                    Ok(text) => exists|outcome: Result<rhai::AST, rhai::ParseError>|
                        {
                            &&& #[trigger] script_outcome(registry.engine, text@, outcome)
                            &&& script_served(outcome, reply)
                        },
                    Err(err) => reply is Err && is_plain_error(
                        reply->Err_0,
                        RenderErrorReason::ScriptError(ScriptError::IoError(err)),
                    ),
                }
            };
        assert(call_ensures(
            B::load,
            (&registry.backend, &registry.script_sources[name]),
            loaded,
        ));
    }
}

/// Gathering in dev mode reads every tracked template but the one at hand from its
/// source, and adds the one at hand.
pub proof fn gathering_reads_all_tracked_templates<'a, B: Backend>(
    registry: RegistryView<B>,
    prebound: Option<(Seq<char>, Found<'a, Template>)>,
    found: Map<Seq<char>, Found<'a, Template>>,
    name: Seq<char>,
)
    requires
        registry.dev_mode,
        registry.gathers(prebound, Ok(found)),
    ensures
        found.contains_key(name) <==> registry.template_sources.contains_key(name) || prebound
            is Some && (prebound->0).0 == name,
        prebound is Some && (prebound->0).0 == name ==> found[name] == (prebound->0).1,
        registry.template_sources.contains_key(name) && !(prebound is Some && (prebound->0).0
            == name) ==> {
            &&& found[name] is Loaded
            &&& source_reply(
                registry.backend,
                registry.template_sources[name],
                name,
                name,
                registry.prevent_indent,
                Ok::<Template, TemplateError>(found[name]->Loaded_0),
            )
        },
{
    assert(found.contains_key(name) <==> registry.reads_again(name, name_of(prebound))
        || name_of(prebound) == Some(name));
    if registry.reads_again(name, name_of(prebound)) {
        assert(registry.must_look_up(name, Ok(found[name])));
        template_lookups_answer(registry, name, Some(Ok(found[name])));
    }
}

/// Gathering fails only where a tracked template other than the one at hand cannot be
/// had, and with the error of the first by name of those.
pub proof fn gathering_fails_at_the_first_template_that_does<'a, B: Backend>(
    registry: RegistryView<B>,
    prebound: Option<(Seq<char>, Found<'a, Template>)>,
    error: RenderError,
)
    requires
        registry.dev_mode,
        registry.gathers(prebound, Err(error)),
    ensures
        is_bare(error),
        error.reason is TemplateError,
        exists|failed: Seq<char>|
            {
                &&& registry.template_sources.contains_key(failed)
                &&& !(prebound is Some && (prebound->0).0 == failed)
                &&& #[trigger] source_reply(
                    registry.backend,
                    registry.template_sources[failed],
                    failed,
                    failed,
                    registry.prevent_indent,
                    Err::<Template, TemplateError>(error.reason->TemplateError_0),
                )
                &&& forall|n: Seq<char>|
                    (#[trigger] registry.template_sources.contains_key(n)) && name_before(
                        n,
                        failed,
                    ) && !(prebound is Some && (prebound->0).0 == n) ==> exists|template: Template|
                        source_reply(
                            registry.backend,
                            registry.template_sources[n],
                            n,
                            n,
                            registry.prevent_indent,
                            Ok::<Template, TemplateError>(template),
                        )
            },
{
    let at_hand_name = name_of(prebound);
    let failed = choose|failed: Seq<char>|
        {
            &&& registry.reads_again(failed, at_hand_name)
            &&& #[trigger] registry.must_look_up(failed, Err(error))
            &&& forall|n: Seq<char>|
                (#[trigger] registry.reads_again(n, at_hand_name)) && name_before(n, failed)
                    ==> exists|template: Found<Template>|
                    registry.must_look_up(n, Ok(template))
        };
    template_lookups_answer(registry, failed, Some(Err(error)));
    assert forall|n: Seq<char>|
        (#[trigger] registry.template_sources.contains_key(n)) && name_before(n, failed) && !(
        prebound is Some && (prebound->0).0 == n) implies exists|template: Template|
        source_reply(
            registry.backend,
            registry.template_sources[n],
            n,
            n,
            registry.prevent_indent,
            Ok::<Template, TemplateError>(template),
        ) by {
        assert(registry.reads_again(n, at_hand_name));
        let found = choose|found: Found<Template>| registry.must_look_up(n, Ok(found));
        template_lookups_answer(registry, n, Some(Ok(found)));
        assert(source_reply(
            registry.backend,
            registry.template_sources[n],
            n,
            n,
            registry.prevent_indent,
            Ok::<Template, TemplateError>(found->Loaded_0),
        ));
    }
}

/// What a call of gathering is given and answers is taken as it is.
pub proof fn gatherings_are_taken_as_given<'a>(
    prebound: Option<(&str, Found<'a, Template>)>,
    reply: Result<NameMap<Found<'a, Template>>, RenderError>,
)
    ensures
        prebound is Some ==> at_hand(prebound) == Some(((prebound->0).0@, (prebound->0).1)),
        prebound is None ==> at_hand(prebound) is None,
        reply is Ok ==> gathered_map(reply) == Ok::<
            Map<Seq<char>, Found<'a, Template>>,
            RenderError,
        >(reply->Ok_0@),
        reply is Err ==> gathered_map(reply) == Err::<
            Map<Seq<char>, Found<'a, Template>>,
            RenderError,
        >(reply->Err_0),
{
}

/// Whether a render context carries what the registry and the template say: the lookup
/// mode of the registry, in dev mode and outside it, the name of the template, and
/// templates that were read again in dev mode only.
pub open spec fn carries_settings<'a, B: Backend>(
    registry: RegistryView<B>,
    template: Template,
    rc: RenderContext<'a>,
) -> bool {
    &&& rc.recursive_lookup == registry.recursive_lookup
    &&& rc.root_template is Some <==> template.name is Some
    &&& template.name is Some ==> rc.root_template->0@ == template.name->0@
    &&& rc.dev_mode_templates is Some <==> registry.dev_mode
}

/// Whether a render context carries every tracked template as it was just read, and the
/// template that is rendered where the registry knows it by a name.
pub open spec fn carries_readings<'a, B: Backend>(
    registry: RegistryView<B>,
    name: Option<Seq<char>>,
    template: Template,
    rc: RenderContext<'a>,
) -> bool {
    let found = rc.dev_mode_templates->0@;
    &&& forall|n: Seq<char>| #[trigger]
        found.contains_key(n) <==> registry.template_sources.contains_key(n) || name == Some(n)
    &&& name is Some ==> found[name->0].value() == template
    &&& forall|n: Seq<char>| #[trigger]
        found.contains_key(n) && name != Some(n) ==> {
            &&& found[n] is Loaded
            &&& source_reply(
                registry.backend,
                registry.template_sources[n],
                n,
                n,
                registry.prevent_indent,
                Ok::<Template, TemplateError>(found[n]->Loaded_0),
            )
        }
}

/// Every render context that a renderer is handed carries the lookup mode, the name of
/// the template and the gathered templates as they are given, for a rendering in dev mode
/// and outside it. The renderer is handed the registry, the template and the data
/// themselves.
pub proof fn renderers_are_handed_what_is_given<
    'a,
    B: Backend,
    X,
    O,
    R: FnOnce(&Registry<B>, &Template, &X, RenderContext<'_>) -> Result<O, RenderError>,
>(
    renderer: R,
    registry: Registry<B>,
    template: Template,
    ctx: X,
    recursive_lookup: bool,
    dev_mode_templates: Option<Map<Seq<char>, Found<'a, Template>>>,
    result: Result<O, RenderError>,
)
    requires
        rendered(
            renderer,
            registry,
            template,
            ctx,
            recursive_lookup,
            dev_mode_templates,
            result,
        ),
    ensures
        exists|rc: RenderContext|
            {
                &&& rc.recursive_lookup == recursive_lookup
                &&& rc.root_template is Some <==> template.name is Some
                &&& template.name is Some ==> rc.root_template->0@ == template.name->0@
                &&& rc.dev_mode_templates is Some <==> dev_mode_templates is Some
                &&& dev_mode_templates is Some ==> rc.dev_mode_templates->0@
                    == dev_mode_templates->0
                &&& #[trigger] call_ensures(renderer, (&registry, &template, &ctx, rc), result)
            },
{
    let rc = choose|rc: RenderContext|
        {
            &&& rc.is_for(template, recursive_lookup, dev_mode_templates)
            &&& #[trigger] call_ensures(renderer, (&registry, &template, &ctx, rc), result)
        };
    assert(call_ensures(renderer, (&registry, &template, &ctx, rc), result));
}

/// Whether a tracked template other than the one of `name` could not be had, and the
/// result says why.
pub open spec fn fails_to_gather<B: Backend, O>(
    registry: RegistryView<B>,
    name: Option<Seq<char>>,
    result: Result<O, RenderError>,
) -> bool {
    &&& registry.dev_mode
    &&& result is Err
    &&& is_bare(result->Err_0)
    &&& result->Err_0.reason is TemplateError
    &&& exists|failed: Seq<char>|
        registry.template_sources.contains_key(failed) && name != Some(failed)
            && #[trigger] source_reply(
            registry.backend,
            registry.template_sources[failed],
            failed,
            failed,
            registry.prevent_indent,
            Err::<Template, TemplateError>(result->Err_0.reason->TemplateError_0),
        )
}

/// Whether the result is what the renderer has answered, when it was handed the registry,
/// the template and the data with a context that carries the settings, and in dev mode
/// the readings.
pub open spec fn is_answered<
    B: Backend,
    X,
    O,
    R: FnOnce(&Registry<B>, &Template, &X, RenderContext<'_>) -> Result<O, RenderError>,
>(
    registry: Registry<B>,
    name: Option<Seq<char>>,
    template: Template,
    ctx: X,
    renderer: R,
    result: Result<O, RenderError>,
) -> bool {
    exists|rc: RenderContext|
        {
            &&& carries_settings(registry@, template, rc)
            &&& registry@.dev_mode ==> carries_readings(registry@, name, template, rc)
            &&& #[trigger] call_ensures(renderer, (&registry, &template, &ctx, rc), result)
        }
}

/// A template at hand is rendered by the renderer, with the settings of the registry. In
/// dev mode the renderer gets all tracked templates as they were just read; where one of
/// them cannot be had, its error is the result.
pub proof fn templates_at_hand_are_rendered<
    'a,
    B: Backend,
    X,
    O,
    R: FnOnce(&Registry<B>, &Template, &X, RenderContext<'_>) -> Result<O, RenderError>,
>(
    registry: Registry<B>,
    name: Option<Seq<char>>,
    template: Found<'a, Template>,
    ctx: X,
    renderer: R,
    result: Result<O, RenderError>,
)
    requires
        registry.renders_resolved(name, template, ctx, renderer, result),
    ensures
        is_answered(registry, name, template.value(), ctx, renderer, result)
            || fails_to_gather::<B, O>(registry@, name, result),
{
    if !registry@.dev_mode {
        renderers_are_handed_what_is_given(
            renderer,
            registry,
            template.value(),
            ctx,
            registry@.recursive_lookup,
            None,
            result,
        );
        let rc = choose|rc: RenderContext|
            {
                &&& rc.recursive_lookup == registry@.recursive_lookup
                &&& rc.root_template is Some <==> template.value().name is Some
                &&& template.value().name is Some ==> rc.root_template->0@
                    == template.value().name->0@
                &&& rc.dev_mode_templates is None
                &&& #[trigger] call_ensures(
                    renderer,
                    (&registry, &template.value(), &ctx, rc),
                    result,
                )
            };
        assert(carries_settings(registry@, template.value(), rc));
    } else {
        let prebound = known_as(name, template);
        let gathered = choose|gathered: Result<Map<Seq<char>, Found<Template>>, RenderError>|
            {
                &&& #[trigger] registry@.gathers(prebound, gathered)
                &&& match gathered {
                    Ok(found) => rendered(
                        renderer,
                        registry,
                        template.value(),
                        ctx,
                        registry@.recursive_lookup,
                        Some(found),
                        result,
                    ),
                    Err(error) => result == Err::<O, RenderError>(error),
                }
            };
        match gathered {
            Ok(found) => {
                renderers_are_handed_what_is_given(
                    renderer,
                    registry,
                    template.value(),
                    ctx,
                    registry@.recursive_lookup,
                    Some(found),
                    result,
                );
                let rc = choose|rc: RenderContext|
                    {
                        &&& rc.recursive_lookup == registry@.recursive_lookup
                        &&& rc.root_template is Some <==> template.value().name is Some
                        &&& template.value().name is Some ==> rc.root_template->0@
                            == template.value().name->0@
                        &&& rc.dev_mode_templates is Some
                        &&& rc.dev_mode_templates->0@ == found
                        &&& #[trigger] call_ensures(
                            renderer,
                            (&registry, &template.value(), &ctx, rc),
                            result,
                        )
                    };
                assert forall|n: Seq<char>| #[trigger]
                    found.contains_key(n) <==> registry@.template_sources.contains_key(n) || name
                        == Some(n) by {
                    gathering_reads_all_tracked_templates(registry@, prebound, found, n);
                }
                assert forall|n: Seq<char>| #[trigger]
                    found.contains_key(n) && name != Some(n) implies {
                    &&& found[n] is Loaded
                    &&& source_reply(
                        registry@.backend,
                        registry@.template_sources[n],
                        n,
                        n,
                        registry@.prevent_indent,
                        Ok::<Template, TemplateError>(found[n]->Loaded_0),
                    )
                } by {
                    gathering_reads_all_tracked_templates(registry@, prebound, found, n);
                }
                if let Some(n) = name {
                    gathering_reads_all_tracked_templates(registry@, prebound, found, n);
                }
                assert(carries_settings(registry@, template.value(), rc));
                assert(carries_readings(registry@, name, template.value(), rc));
            },
            Err(error) => {
                gathering_fails_at_the_first_template_that_does(registry@, prebound, error);
            },
        }
    }
}

/// Rendering a name has the renderer render the template of that name: the registered
/// one, or in dev mode a tracked one as it was just read. A name without a template is
/// reported, and so is a tracked template that cannot be had.
pub proof fn names_are_rendered<
    B: Backend,
    X,
    O,
    R: FnOnce(&Registry<B>, &Template, &X, RenderContext<'_>) -> Result<O, RenderError>,
>(
    registry: Registry<B>,
    name: Seq<char>,
    ctx: X,
    renderer: R,
    result: Result<O, RenderError>,
)
    requires
        registry.renders(name, ctx, renderer, result),
    ensures
        !is_tracked(registry@, name) && registry@.templates.contains_key(name) ==> {
            ||| is_answered(
                registry,
                Some(name),
                registry@.templates[name],
                ctx,
                renderer,
                result,
            )
            ||| fails_to_gather::<B, O>(registry@, Some(name), result)
        },
        !is_tracked(registry@, name) && !registry@.templates.contains_key(name) ==> {
            &&& result is Err
            &&& result->Err_0.reason is TemplateNotFound
            &&& result->Err_0.reason->TemplateNotFound_0@ == name
            &&& is_bare(result->Err_0)
        },
        is_tracked(registry@, name) ==> exists|loaded: Result<Template, TemplateError>|
            {
                &&& #[trigger] source_reply(
                    registry@.backend,
                    registry@.template_sources[name],
                    name,
                    name,
                    registry@.prevent_indent,
                    loaded,
                )
                &&& match loaded {
                    Ok(template) => {
                        ||| is_answered(registry, Some(name), template, ctx, renderer, result)
                        ||| fails_to_gather::<B, O>(registry@, Some(name), result)
                    },
                    Err(error) => {
                        &&& result is Err
                        &&& result->Err_0.reason == RenderErrorReason::TemplateError(error)
                        &&& is_bare(result->Err_0)
                    },
                }
            },
{
    let reply = choose|reply: Result<Found<Template>, RenderError>|
        {
            &&& #[trigger] registry@.must_look_up(name, reply)
            &&& match reply {
                Ok(template) => registry.renders_resolved(
                    Some(name),
                    template,
                    ctx,
                    renderer,
                    result,
                ),
                Err(error) => result == Err::<O, RenderError>(error),
            }
        };
    lookups_that_must_find_report_the_name(registry@, name, reply);
    if let Ok(template) = reply {
        templates_at_hand_are_rendered(registry, Some(name), template, ctx, renderer, result);
    }
    if is_tracked(registry@, name) || registry@.templates.contains_key(name) {
        template_lookups_answer(registry@, name, Some(reply));
    }
}

/// Rendering a text has it compiled without a name and has the renderer render what the
/// compiler has answered, or reports the error of the compiler.
pub proof fn texts_are_rendered<
    B: Backend,
    X,
    O,
    R: FnOnce(&Registry<B>, &Template, &X, RenderContext<'_>) -> Result<O, RenderError>,
>(
    registry: Registry<B>,
    text: Seq<char>,
    ctx: X,
    renderer: R,
    result: Result<O, RenderError>,
)
    requires
        registry.renders_text(text, ctx, renderer, result),
    ensures
        exists|reply: Result<Template, TemplateError>|
            {
                &&& #[trigger] compile_reply(
                    registry@.backend,
                    text,
                    None,
                    registry@.prevent_indent,
                    reply,
                )
                &&& match reply {
                    Ok(template) => {
                        ||| is_answered(registry, None, template, ctx, renderer, result)
                        ||| fails_to_gather::<B, O>(registry@, None, result)
                    },
                    Err(error) => {
                        &&& result is Err
                        &&& result->Err_0.reason == RenderErrorReason::TemplateError(error)
                        &&& is_bare(result->Err_0)
                    },
                }
            },
{
    let reply = choose|reply: Result<Template, TemplateError>|
        {
            &&& #[trigger] compile_reply(
                registry@.backend,
                text,
                None,
                registry@.prevent_indent,
                reply,
            )
            &&& match reply {
                Ok(template) => registry.renders_resolved(
                    None,
                    Found::Loaded(template),
                    ctx,
                    renderer,
                    result,
                ),
                Err(error) => result is Err && is_plain_error(
                    result->Err_0,
                    RenderErrorReason::TemplateError(error),
                ),
            }
        };
    if let Ok(template) = reply {
        templates_at_hand_are_rendered(
            registry,
            None,
            Found::Loaded(template),
            ctx,
            renderer,
            result,
        );
    }
}

/// A string is made of exactly the bytes that were rendered: it is there where they are
/// UTF-8, and it is spelled by them all. Other bytes are an error, and so is a failed
/// rendering.
pub proof fn strings_are_spelled_by_all_bytes(
    output: Result<Vec<u8>, RenderError>,
    result: Result<String, RenderError>,
)
    requires
        is_text_of(output, result),
    ensures
        match output {
            Ok(bytes) => match result {
                Ok(text) => vstd::utf8::encode_utf8(text@) == bytes@,
                Err(error) => {
                    &&& !vstd::utf8::valid_utf8(bytes@)
                    &&& error.reason is Utf8Error
                    &&& is_bare(error)
                },
            },
            Err(error) => result == Err::<String, RenderError>(error),
        },
{
    if let Ok(bytes) = output {
        if vstd::utf8::valid_utf8(bytes@) {
            vstd::utf8::decode_utf8_encode_utf8(bytes@);
        }
    }
}

/// A collected string is made of exactly the bytes that were written where they are
/// UTF-8, and is empty where they are not. A failed rendering is an error.
pub proof fn collected_strings_are_spelled_by_all_bytes(
    output: Result<Vec<u8>, RenderError>,
    result: Result<String, RenderError>,
)
    requires
        is_collected_from(output, result),
    ensures
        match output {
            Ok(bytes) => {
                &&& result is Ok
                &&& vstd::utf8::valid_utf8(bytes@) ==> vstd::utf8::encode_utf8(result->Ok_0@)
                    == bytes@
                &&& !vstd::utf8::valid_utf8(bytes@) ==> result->Ok_0@.len() == 0
            },
            Err(error) => result == Err::<String, RenderError>(error),
        },
{
    if let Ok(bytes) = output {
        collected_texts_are_spelled_by_all_bytes(bytes@);
    }
}

/// The text that is collected from bytes encodes them all where they are UTF-8, and is
/// empty where they are not.
pub proof fn collected_texts_are_spelled_by_all_bytes(bytes: Seq<u8>)
    ensures
        vstd::utf8::valid_utf8(bytes) ==> vstd::utf8::encode_utf8(collected(bytes)) == bytes,
        !vstd::utf8::valid_utf8(bytes) ==> collected(bytes).len() == 0,
{
    if vstd::utf8::valid_utf8(bytes) {
        vstd::utf8::decode_utf8_encode_utf8(bytes);
    }
}

/// A string that a rendering of a name returns is spelled by exactly the bytes that a
/// rendering of that name into bytes returns.
pub proof fn rendered_strings_are_spelled_by_the_rendered_bytes<
    B: Backend,
    X,
    R: FnOnce(&Registry<B>, &Template, &X, RenderContext<'_>) -> Result<Vec<u8>, RenderError>,
>(registry: Registry<B>, name: Seq<char>, ctx: X, renderer: R, text: String)
    requires
        registry.renders_string(name, ctx, renderer, Ok(text)),
    ensures
        exists|bytes: Vec<u8>|
            {
                &&& #[trigger] registry.renders(
                    name,
                    ctx,
                    renderer,
                    Ok::<Vec<u8>, RenderError>(bytes),
                )
                &&& vstd::utf8::encode_utf8(text@) == bytes@
            },
{
    let result = Ok::<String, RenderError>(text);
    let output = choose|output: Result<Vec<u8>, RenderError>|
        #[trigger] registry.renders(name, ctx, renderer, output) && is_text_of(output, result);
    strings_are_spelled_by_all_bytes(output, result);
    assert(registry.renders(
        name,
        ctx,
        renderer,
        Ok::<Vec<u8>, RenderError>(output->Ok_0),
    ));
}

/// A string that a rendering of a registered template returns outside dev mode is spelled
/// by exactly the bytes that the renderer has answered, for that template and with the
/// settings of the registry.
pub proof fn rendered_strings_are_what_the_renderer_writes<
    B: Backend,
    X,
    R: FnOnce(&Registry<B>, &Template, &X, RenderContext<'_>) -> Result<Vec<u8>, RenderError>,
>(registry: Registry<B>, name: Seq<char>, ctx: X, renderer: R, text: String)
    requires
        registry.renders_string(name, ctx, renderer, Ok(text)),
        !registry@.dev_mode,
    ensures
        registry@.templates.contains_key(name),
        exists|rc: RenderContext, bytes: Vec<u8>|
            {
                &&& vstd::utf8::encode_utf8(text@) == bytes@
                &&& carries_settings(registry@, registry@.templates[name], rc)
                &&& #[trigger] call_ensures(
                    renderer,
                    (&registry, &registry@.templates[name], &ctx, rc),
                    Ok::<Vec<u8>, RenderError>(bytes),
                )
            },
{
    rendered_strings_are_spelled_by_the_rendered_bytes(registry, name, ctx, renderer, text);
    let bytes = choose|bytes: Vec<u8>|
        {
            &&& #[trigger] registry.renders(
                name,
                ctx,
                renderer,
                Ok::<Vec<u8>, RenderError>(bytes),
            )
            &&& vstd::utf8::encode_utf8(text@) == bytes@
        };
    let result = Ok::<Vec<u8>, RenderError>(bytes);
    names_are_rendered(registry, name, ctx, renderer, result);
    let template = registry@.templates[name];
    let rc = choose|rc: RenderContext|
        {
            &&& carries_settings(registry@, template, rc)
            &&& #[trigger] call_ensures(renderer, (&registry, &template, &ctx, rc), result)
        };
    assert(call_ensures(
        renderer,
        (&registry, &registry@.templates[name], &ctx, rc),
        Ok::<Vec<u8>, RenderError>(bytes),
    ));
}

/// A string that a rendering of a text returns is spelled by exactly the bytes that a
/// rendering of that text into bytes returns. One that is collected is, where they are
/// UTF-8.
pub proof fn rendered_texts_are_spelled_by_the_rendered_bytes<
    B: Backend,
    X,
    R: FnOnce(&Registry<B>, &Template, &X, RenderContext<'_>) -> Result<Vec<u8>, RenderError>,
>(registry: Registry<B>, source: Seq<char>, ctx: X, renderer: R, text: String, collected_text: String)
    requires
        registry.renders_text_string(source, ctx, renderer, Ok(text)),
        registry.renders_text_collected(source, ctx, renderer, Ok(collected_text)),
    ensures
        exists|bytes: Vec<u8>|
            {
                &&& #[trigger] registry.renders_text(
                    source,
                    ctx,
                    renderer,
                    Ok::<Vec<u8>, RenderError>(bytes),
                )
                &&& vstd::utf8::encode_utf8(text@) == bytes@
            },
        exists|bytes: Vec<u8>|
            {
                &&& #[trigger] registry.renders_text(
                    source,
                    ctx,
                    renderer,
                    Ok::<Vec<u8>, RenderError>(bytes),
                )
                &&& vstd::utf8::valid_utf8(bytes@) ==> vstd::utf8::encode_utf8(collected_text@)
                    == bytes@
                &&& !vstd::utf8::valid_utf8(bytes@) ==> collected_text@.len() == 0
            },
{
    let result = Ok::<String, RenderError>(text);
    let output = choose|output: Result<Vec<u8>, RenderError>|
        #[trigger] registry.renders_text(source, ctx, renderer, output) && is_text_of(
            output,
            result,
        );
    strings_are_spelled_by_all_bytes(output, result);
    assert(registry.renders_text(
        source,
        ctx,
        renderer,
        Ok::<Vec<u8>, RenderError>(output->Ok_0),
    ));
    let other_result = Ok::<String, RenderError>(collected_text);
    let other_output = choose|output: Result<Vec<u8>, RenderError>|
        #[trigger] registry.renders_text(source, ctx, renderer, output) && is_collected_from(
            output,
            other_result,
        );
    collected_strings_are_spelled_by_all_bytes(other_output, other_result);
    assert(registry.renders_text(
        source,
        ctx,
        renderer,
        Ok::<Vec<u8>, RenderError>(other_output->Ok_0),
    ));
}

/// Rendering into a string fails only where the rendering into bytes does, with the same
/// error, or where its bytes are not UTF-8.
pub proof fn strings_fail_only_where_bytes_do<
    B: Backend,
    X,
    R: FnOnce(&Registry<B>, &Template, &X, RenderContext<'_>) -> Result<Vec<u8>, RenderError>,
>(registry: Registry<B>, name: Seq<char>, ctx: X, renderer: R, error: RenderError)
    requires
        registry.renders_string(name, ctx, renderer, Err(error)),
    ensures
        exists|output: Result<Vec<u8>, RenderError>|
            {
                &&& #[trigger] registry.renders(name, ctx, renderer, output)
                &&& match output {
                    Ok(bytes) => !vstd::utf8::valid_utf8(bytes@) && error.reason is Utf8Error,
                    Err(e) => e == error,
                }
            },
{
    let result = Err::<String, RenderError>(error);
    let output = choose|output: Result<Vec<u8>, RenderError>|
        #[trigger] registry.renders(name, ctx, renderer, output) && is_text_of(output, result);
    strings_are_spelled_by_all_bytes(output, result);
}

/// What has come of reading a template again is served as it is, and an error is wrapped
/// with nothing added.
pub proof fn readings_are_served_as_they_are<'a>(
    loaded: Result<Template, TemplateError>,
    reply: Result<Found<'a, Template>, RenderError>,
)
    requires
        served(loaded, reply),
    ensures
        match loaded {
            Ok(template) => {
                &&& reply is Ok
                &&& reply->Ok_0 is Loaded
                &&& reply->Ok_0->Loaded_0 == template
            },
            Err(error) => {
                &&& reply is Err
                &&& reply->Err_0.reason == RenderErrorReason::TemplateError(error)
                &&& is_bare(reply->Err_0)
            },
        },
{
}

/// What has come of compiling a script again is served as a helper, and an error is
/// wrapped with nothing added.
pub proof fn scripts_are_served_as_they_are<'a, H>(
    outcome: Result<rhai::AST, rhai::ParseError>,
    reply: Result<Option<Found<'a, Helper<H>>>, RenderError>,
)
    requires
        script_served(outcome, reply),
    ensures
        match outcome {
            Ok(script) => {
                &&& reply is Ok
                &&& reply->Ok_0 is Some
                &&& reply->Ok_0->0 is Loaded
                &&& reply->Ok_0->0->Loaded_0 == Helper::<H>::Script(ScriptHelper { script })
            },
            Err(error) => {
                &&& reply is Err
                &&& reply->Err_0.reason == RenderErrorReason::ScriptError(
                    ScriptError::ParseError(error),
                )
                &&& is_bare(reply->Err_0)
            },
        },
{
}

} // verus!
