//! What holds of two renderings of one template, where backend and renderer answer in
//! one way.
use vstd::prelude::*;

use crate::backend::{
    compile_reply, compiles_in_one_way, loads_in_one_way, source_reply, Backend,
};
use crate::error::{RenderError, RenderErrorReason, TemplateError};
use crate::laws::calls::sources_come_out_in_one_way;
use crate::names::{name_before, name_order_is_total};
use crate::registry::render::{
    is_collected_from, is_plain_error, is_text_of, known_as, name_of, rendered, served, Found,
    RenderContext,
};
use crate::registry::{Registry, RegistryView};
use crate::template::Template;

verus! {

/// Whether two results are the same, or errors that say the same.
pub open spec fn same_result<T>(one: Result<T, RenderError>, other: Result<T, RenderError>) -> bool {
    match (one, other) {
        (Ok(value), Ok(other_value)) => value == other_value,
        (Err(error), Err(other_error)) => error.says_same(other_error),
        _ => false,
    }
}

/// That a renderer answers one template of a registry with one context in one way.
pub open spec fn renders_in_one_way<
    B: Backend,
    X,
    O,
    R: FnOnce(&Registry<B>, &Template, &X, RenderContext<'_>) -> Result<O, RenderError>,
>(renderer: R, registry: Registry<B>, ctx: X) -> bool {
    forall|
        template: Template,
        recursive_lookup: bool,
        dev_mode_templates: Option<Map<Seq<char>, Found<Template>>>,
        one: Result<O, RenderError>,
        other: Result<O, RenderError>,
    |
        #[trigger] rendered(
            renderer,
            registry,
            template,
            ctx,
            recursive_lookup,
            dev_mode_templates,
            one,
        ) && #[trigger] rendered(
            renderer,
            registry,
            template,
            ctx,
            recursive_lookup,
            dev_mode_templates,
            other,
        ) ==> one == other
}

/// Two lookups of one name answer the same.
pub proof fn lookups_answer_in_one_way<'a, B: Backend>(
    registry: RegistryView<B>,
    name: Seq<char>,
    one: Result<Found<'a, Template>, RenderError>,
    other: Result<Found<'a, Template>, RenderError>,
)
    requires
        compiles_in_one_way(registry.backend),
        loads_in_one_way(registry.backend),
        registry.must_look_up(name, one),
        registry.must_look_up(name, other),
    ensures
        same_result(one, other),
{
    if registry.dev_mode && registry.template_sources.contains_key(name) {
        let source = registry.template_sources[name];
        let loaded = choose|loaded: Result<Template, TemplateError>|
            #[trigger] source_reply(
                registry.backend,
                source,
                name,
                name,
                registry.prevent_indent,
                loaded,
            ) && served(loaded, one);
        let other_loaded = choose|loaded: Result<Template, TemplateError>|
            #[trigger] source_reply(
                registry.backend,
                source,
                name,
                name,
                registry.prevent_indent,
                loaded,
            ) && served(loaded, other);
        sources_come_out_in_one_way(
            registry.backend,
            source,
            name,
            name,
            registry.prevent_indent,
            loaded,
            other_loaded,
        );
    }
}

proof fn lemma_gathered_in_one_way<'a, B: Backend>(
    registry: RegistryView<B>,
    prebound: Option<(Seq<char>, Found<'a, Template>)>,
    one: Result<Map<Seq<char>, Found<'a, Template>>, RenderError>,
    other: Result<Map<Seq<char>, Found<'a, Template>>, RenderError>,
)
    requires
        compiles_in_one_way(registry.backend),
        loads_in_one_way(registry.backend),
        registry.gathers(prebound, one),
        registry.gathers(prebound, other),
    ensures
        same_result(one, other),
{
    let at_hand = name_of(prebound);
    match (one, other) {
        (Ok(found), Ok(other_found)) => {
            assert forall|n: Seq<char>| #[trigger] found.contains_key(n) implies found[n]
                == other_found[n] by {
                if registry.reads_again(n, at_hand) {
                    lookups_answer_in_one_way(registry, n, Ok(found[n]), Ok(other_found[n]));
                }
            }
            assert(found =~= other_found);
        },
        (Ok(found), Err(error)) => {
            lemma_gathering_does_not_fail(registry, prebound, found, error);
        },
        (Err(error), Ok(found)) => {
            lemma_gathering_does_not_fail(registry, prebound, found, error);
        },
        (Err(error), Err(other_error)) => {
            let failed = choose|failed: Seq<char>|
                {
                    &&& registry.reads_again(failed, at_hand)
                    &&& #[trigger] registry.must_look_up(failed, Err(error))
                    &&& forall|n: Seq<char>|
                        (#[trigger] registry.reads_again(n, at_hand)) && name_before(
                            n,
                            failed,
                        ) ==> exists|template: Found<Template>|
                            registry.must_look_up(n, Ok(template))
                };
            let other_failed = choose|failed: Seq<char>|
                {
                    &&& registry.reads_again(failed, at_hand)
                    &&& #[trigger] registry.must_look_up(failed, Err(other_error))
                    &&& forall|n: Seq<char>|
                        (#[trigger] registry.reads_again(n, at_hand)) && name_before(
                            n,
                            failed,
                        ) ==> exists|template: Found<Template>|
                            registry.must_look_up(n, Ok(template))
                };
            name_order_is_total(failed, other_failed);
            if name_before(failed, other_failed) {
                assert(registry.reads_again(failed, at_hand));
                let template = choose|template: Found<Template>|
                    registry.must_look_up(failed, Ok(template));
                lookups_answer_in_one_way(registry, failed, Ok(template), Err(error));
            } else if name_before(other_failed, failed) {
                assert(registry.reads_again(other_failed, at_hand));
                let template = choose|template: Found<Template>|
                    registry.must_look_up(other_failed, Ok(template));
                lookups_answer_in_one_way(registry, other_failed, Ok(template), Err(other_error));
            } else {
                lookups_answer_in_one_way(registry, failed, Err(error), Err(other_error));
            }
        },
    }
}

proof fn lemma_gathering_does_not_fail<'a, B: Backend>(
    registry: RegistryView<B>,
    prebound: Option<(Seq<char>, Found<'a, Template>)>,
    found: Map<Seq<char>, Found<'a, Template>>,
    error: RenderError,
)
    requires
        compiles_in_one_way(registry.backend),
        loads_in_one_way(registry.backend),
        registry.gathers(prebound, Ok(found)),
    ensures
        !registry.gathers(prebound, Err(error)),
{
    assert forall|failed: Seq<char>|
        registry.reads_again(failed, name_of(prebound)) implies !#[trigger] registry.must_look_up(
        failed,
        Err(error),
    ) by {
        if registry.must_look_up(failed, Err(error)) {
            lookups_answer_in_one_way(registry, failed, Ok(found[failed]), Err(error));
        }
    }
}

proof fn lemma_rendered_in_one_way<
    'a,
    B: Backend,
    X,
    O,
    R: FnOnce(&Registry<B>, &Template, &X, RenderContext<'_>) -> Result<O, RenderError>,
>(
    registry: Registry<B>,
    name: Option<Seq<char>>,
    template: Found<'a, Template>,
    ctx: X,
    renderer: R,
    one: Result<O, RenderError>,
    other: Result<O, RenderError>,
)
    requires
        compiles_in_one_way(registry@.backend),
        loads_in_one_way(registry@.backend),
        renders_in_one_way(renderer, registry, ctx),
        registry.renders_resolved(name, template, ctx, renderer, one),
        registry.renders_resolved(name, template, ctx, renderer, other),
    ensures
        same_result(one, other),
{
    if registry@.dev_mode {
        let gathered = choose|gathered: Result<Map<Seq<char>, Found<Template>>, RenderError>|
            {
                &&& #[trigger] registry@.gathers(known_as(name, template), gathered)
                &&& match gathered {
                    Ok(found) => rendered(
                        renderer,
                        registry,
                        template.value(),
                        ctx,
                        registry@.recursive_lookup,
                        Some(found),
                        one,
                    ),
                    Err(error) => one == Err::<O, RenderError>(error),
                }
            };
        let other_gathered = choose|gathered: Result<Map<Seq<char>, Found<Template>>, RenderError>|
            {
                &&& #[trigger] registry@.gathers(known_as(name, template), gathered)
                &&& match gathered {
                    Ok(found) => rendered(
                        renderer,
                        registry,
                        template.value(),
                        ctx,
                        registry@.recursive_lookup,
                        Some(found),
                        other,
                    ),
                    Err(error) => other == Err::<O, RenderError>(error),
                }
            };
        lemma_gathered_in_one_way(registry@, known_as(name, template), gathered, other_gathered);
    }
}

/// Two renderings of one name with one context and one renderer have the same result.
pub proof fn renderings_come_out_in_one_way<
    B: Backend,
    X,
    O,
    R: FnOnce(&Registry<B>, &Template, &X, RenderContext<'_>) -> Result<O, RenderError>,
>(
    registry: Registry<B>,
    name: Seq<char>,
    ctx: X,
    renderer: R,
    one: Result<O, RenderError>,
    other: Result<O, RenderError>,
)
    requires
        compiles_in_one_way(registry@.backend),
        loads_in_one_way(registry@.backend),
        renders_in_one_way(renderer, registry, ctx),
        registry.renders(name, ctx, renderer, one),
        registry.renders(name, ctx, renderer, other),
    ensures
        same_result(one, other),
{
    let reply = choose|reply: Result<Found<Template>, RenderError>|
        {
            &&& #[trigger] registry@.must_look_up(name, reply)
            &&& match reply {
                Ok(template) => registry.renders_resolved(
                    Some(name),
                    template,
                    ctx,
                    renderer,
                    one,
                ),
                Err(error) => one == Err::<O, RenderError>(error),
            }
        };
    let other_reply = choose|reply: Result<Found<Template>, RenderError>|
        {
            &&& #[trigger] registry@.must_look_up(name, reply)
            &&& match reply {
                Ok(template) => registry.renders_resolved(
                    Some(name),
                    template,
                    ctx,
                    renderer,
                    other,
                ),
                Err(error) => other == Err::<O, RenderError>(error),
            }
        };
    lookups_answer_in_one_way(registry@, name, reply, other_reply);
    if let Ok(template) = reply {
        lemma_rendered_in_one_way(registry, Some(name), template, ctx, renderer, one, other);
    }
}

/// Whether a string is the text of the bytes that were written, or both failed and say
/// the same.
pub open spec fn is_text_of_written(
    written: Result<Vec<u8>, RenderError>,
    result: Result<String, RenderError>,
) -> bool {
    match written {
        Ok(_) => is_text_of(written, result),
        Err(error) => result matches Err(other_error) && error.says_same(other_error),
    }
}

/// Rendering a template into a string and writing it give the same: the string is the
/// text of the bytes that are written, and one fails if the other does. A template that
/// is not registered is reported by both.
pub proof fn strings_are_what_is_written<
    B: Backend,
    X,
    R: FnOnce(&Registry<B>, &Template, &X, RenderContext<'_>) -> Result<Vec<u8>, RenderError>,
>(
    registry: Registry<B>,
    name: Seq<char>,
    ctx: X,
    renderer: R,
    written: Result<Vec<u8>, RenderError>,
    result: Result<String, RenderError>,
)
    requires
        compiles_in_one_way(registry@.backend),
        loads_in_one_way(registry@.backend),
        renders_in_one_way(renderer, registry, ctx),
        registry.renders(name, ctx, renderer, written),
        registry.renders_string(name, ctx, renderer, result),
    ensures
        is_text_of_written(written, result),
        registry@.valid() && !registry@.templates.contains_key(name) ==> {
            &&& written is Err && written->Err_0.is_not_found(name)
            &&& result is Err && result->Err_0.is_not_found(name)
        },
{
    let output = choose|output: Result<Vec<u8>, RenderError>|
        #[trigger] registry.renders(name, ctx, renderer, output) && is_text_of(output, result);
    renderings_come_out_in_one_way(registry, name, ctx, renderer, written, output);
}

/// Two renderings of one text with one context and one renderer have the same result.
pub proof fn renderings_of_texts_come_out_in_one_way<
    B: Backend,
    X,
    O,
    R: FnOnce(&Registry<B>, &Template, &X, RenderContext<'_>) -> Result<O, RenderError>,
>(
    registry: Registry<B>,
    text: Seq<char>,
    ctx: X,
    renderer: R,
    one: Result<O, RenderError>,
    other: Result<O, RenderError>,
)
    requires
        compiles_in_one_way(registry@.backend),
        loads_in_one_way(registry@.backend),
        renders_in_one_way(renderer, registry, ctx),
        registry.renders_text(text, ctx, renderer, one),
        registry.renders_text(text, ctx, renderer, other),
    ensures
        same_result(one, other),
{
    let reply = choose|reply: Result<Template, TemplateError>|
        {
            &&& #[trigger] compile_reply(
                registry@.backend,
                text,
                None,
                registry@.prevent_indent,
                reply,
            )
            &&& match reply {
                Ok(template) => registry.renders_resolved(
                    None,
                    Found::Loaded(template),
                    ctx,
                    renderer,
                    one,
                ),
                Err(error) => one matches Err(e) && is_plain_error(
                    e,
                    RenderErrorReason::TemplateError(error),
                ),
            }
        };
    if let Ok(template) = reply {
        lemma_rendered_in_one_way(
            registry,
            None,
            Found::Loaded(template),
            ctx,
            renderer,
            one,
            other,
        );
    }
}

/// Rendering the text of a template that is not registered into a string and writing it
/// give the same, with a reused context and without. Without one, the string is empty
/// where the bytes are not UTF-8.
pub proof fn strings_of_texts_are_what_is_written<
    B: Backend,
    X,
    R: FnOnce(&Registry<B>, &Template, &X, RenderContext<'_>) -> Result<Vec<u8>, RenderError>,
>(
    registry: Registry<B>,
    text: Seq<char>,
    ctx: X,
    renderer: R,
    written: Result<Vec<u8>, RenderError>,
    result: Result<String, RenderError>,
    collected_result: Result<String, RenderError>,
)
    requires
        compiles_in_one_way(registry@.backend),
        loads_in_one_way(registry@.backend),
        renders_in_one_way(renderer, registry, ctx),
        registry.renders_text(text, ctx, renderer, written),
        registry.renders_text_string(text, ctx, renderer, result),
        registry.renders_text_collected(text, ctx, renderer, collected_result),
    ensures
        is_text_of_written(written, result),
        match written {
            Ok(_) => is_collected_from(written, collected_result),
            Err(error) => collected_result is Err && error.says_same(collected_result->Err_0),
        },
{
    let output = choose|output: Result<Vec<u8>, RenderError>|
        #[trigger] registry.renders_text(text, ctx, renderer, output) && is_text_of(
            output,
            result,
        );
    renderings_of_texts_come_out_in_one_way(registry, text, ctx, renderer, written, output);
    let other_output = choose|output: Result<Vec<u8>, RenderError>|
        #[trigger] registry.renders_text(text, ctx, renderer, output) && is_collected_from(
            output,
            collected_result,
        );
    renderings_of_texts_come_out_in_one_way(registry, text, ctx, renderer, written, other_output);
}

} // verus!
