//! Finding what is to be rendered, and handing it to a renderer.
use vstd::prelude::*;

use crate::backend::{compile_reply, load_reply, source_reply, Backend};
use crate::error::{IoError, RenderError, RenderErrorReason, ScriptError, TemplateError};
use crate::helpers::Helper;
use crate::names::{
    in_name_order, name_before, name_order_is_irreflexive, name_order_is_transitive, order_names,
    NameMap, NameOrder,
};
use crate::registry::package::lemma_contains_after_push;
use crate::registry::{Registry, RegistryView};
use crate::script::{compile_script, script_outcome, ScriptHelper};
use crate::template::Template;
use crate::text::{read_utf8, spelled};

verus! {

broadcast use crate::shared::group_pointees;

/// Something that was found in the registry, or was read again from its source.
pub enum Found<'a, T> {
    Registered(&'a T),
    Loaded(T),
}

impl<'a, T> Found<'a, T> {
    /// What was found.
    pub open spec fn value(self) -> T {
        match self {
            Found::Registered(t) => *t,
            Found::Loaded(t) => t,
        }
    }

    /// What was found.
    pub fn get(&self) -> (value: &T)
        ensures
            *value == self.value(),
    {
        match self {
            Found::Registered(t) => *t,
            Found::Loaded(t) => t,
        }
    }
}

/// What a template is rendered with, besides the data.
pub struct RenderContext<'a> {
    /// The name of the template that the rendering starts with.
    pub root_template: Option<&'a str>,
    /// Whether variables are looked up in the enclosing scopes too.
    pub recursive_lookup: bool,
    /// In dev mode, the templates as they were just read from their sources.
    pub dev_mode_templates: Option<&'a NameMap<Found<'a, Template>>>,
}

/// What comes of reading a template again: it, or a render error that says why not.
pub open spec fn served(
    loaded: Result<Template, TemplateError>,
    reply: Result<Found<Template>, RenderError>,
) -> bool {
    match loaded {
        Ok(template) => reply == Ok::<Found<Template>, RenderError>(Found::Loaded(template)),
        Err(error) => reply matches Err(e) && is_plain_error(
            e,
            RenderErrorReason::TemplateError(error),
        ),
    }
}

/// Turns what has come of reading a template again into what a rendering works with.
pub fn serve<'a>(loaded: Result<Template, TemplateError>) -> (reply: Result<
    Found<'a, Template>,
    RenderError,
>)
    ensures
        served(loaded, reply),
{
    match loaded {
        Ok(template) => Ok(Found::Loaded(template)),
        Err(error) => Err(RenderError::from(error)),
    }
}

impl<B: Backend> RegistryView<B> {
    /// What a template lookup answers. A template with a source is read again in dev
    /// mode; any other is the registered one, if there is one.
    pub open spec fn looks_up(
        self,
        name: Seq<char>,
        reply: Option<Result<Found<Template>, RenderError>>,
    ) -> bool {
        if self.dev_mode && self.template_sources.contains_key(name) {
            exists|loaded: Result<Template, TemplateError>|
                {
                    &&& #[trigger] source_reply(
                        self.backend,
                        self.template_sources[name],
                        name,
                        name,
                        self.prevent_indent,
                        loaded,
                    )
                    &&& reply matches Some(r)
                    &&& served(loaded, r)
                }
        } else if self.templates.contains_key(name) {
            reply == Some(
                Ok::<Found<Template>, RenderError>(Found::Registered(&self.templates[name])),
            )
        } else {
            reply is None
        }
    }

    /// What a lookup answers that must find something.
    pub open spec fn must_look_up(
        self,
        name: Seq<char>,
        reply: Result<Found<Template>, RenderError>,
    ) -> bool {
        ||| self.looks_up(name, Some(reply))
        ||| self.looks_up(name, None) && (reply matches Err(e) && e.is_not_found(name))
    }
}

impl<B: Backend> Registry<B> {
    /// Finds a template for a rendering, if there is one.
    pub fn get_or_load_template_optional(&self, name: &str) -> (reply: Option<
        Result<Found<'_, Template>, RenderError>,
    >)
        ensures
            self@.looks_up(name@, reply),
    {
        if self.dev_mode {
            if let Some(source) = self.template_sources.get(name) {
                assert(self@.template_sources[name@] == **source);
                let loaded = self.compile_source(name, name, source);
                return Some(serve(loaded));
            }
        }
        match self.templates.get(name) {
            Some(template) => Some(Ok(Found::Registered(template))),
            None => None,
        }
    }

    /// Finds a template for a rendering.
    pub fn get_or_load_template(&self, name: &str) -> (reply: Result<
        Found<'_, Template>,
        RenderError,
    >)
        ensures
            self@.must_look_up(name@, reply),
    {
        match self.get_or_load_template_optional(name) {
            Some(reply) => reply,
            None => Err(RenderError::from(RenderErrorReason::TemplateNotFound(name.to_owned()))),
        }
    }
}

/// Whether an error is nothing but this reason.
pub open spec fn is_plain_error(error: RenderError, reason: RenderErrorReason) -> bool {
    &&& error.reason == reason
    &&& error.template_name is None
    &&& error.line_no is None
    &&& error.column_no is None
}

/// What comes of compiling the script of a helper again.
pub open spec fn script_served<H>(
    outcome: Result<rhai::AST, rhai::ParseError>,
    reply: Result<Option<Found<Helper<H>>>, RenderError>,
) -> bool {
    match outcome {
        Ok(script) => reply == Ok::<Option<Found<Helper<H>>>, RenderError>(
            Some(Found::Loaded(Helper::Script(ScriptHelper { script }))),
        ),
        Err(error) => reply matches Err(e) && is_plain_error(
            e,
            RenderErrorReason::ScriptError(ScriptError::ParseError(error)),
        ),
    }
}

/// Turns what has come of compiling the script of a helper again into the helper.
pub fn serve_script<'a, H>(compiled: Result<rhai::AST, rhai::ParseError>) -> (reply: Result<
    Option<Found<'a, Helper<H>>>,
    RenderError,
>)
    ensures
        script_served(compiled, reply),
{
    match compiled {
        Ok(script) => Ok(Some(Found::Loaded(Helper::Script(ScriptHelper { script })))),
        Err(error) => Err(
            RenderError::from(RenderErrorReason::ScriptError(ScriptError::ParseError(error))),
        ),
    }
}

impl<B: Backend> RegistryView<B> {
    /// What a helper lookup answers. A script with a source is read again in dev mode;
    /// any other helper is the registered one, if there is one.
    pub open spec fn looks_up_helper(
        self,
        name: Seq<char>,
        reply: Result<Option<Found<Helper<B::Helper>>>, RenderError>,
    ) -> bool {
        if self.dev_mode && self.script_sources.contains_key(name) {
            exists|loaded: Result<String, IoError>|
                {
                    &&& #[trigger] load_reply(self.backend, self.script_sources[name], loaded)
                    &&& match loaded {
                        Ok(text) => exists|outcome: Result<rhai::AST, rhai::ParseError>|
                            {
                                &&& #[trigger] script_outcome(self.engine, text@, outcome)
                                &&& script_served(outcome, reply)
                            },
                        Err(err) => reply matches Err(e) && is_plain_error(
                            e,
                            RenderErrorReason::ScriptError(ScriptError::IoError(err)),
                        ),
                    }
                }
        } else if self.helpers.contains_key(name) {
            reply == Ok::<Option<Found<Helper<B::Helper>>>, RenderError>(
                Some(Found::Registered(&self.helpers[name])),
            )
        } else {
            reply == Ok::<Option<Found<Helper<B::Helper>>>, RenderError>(None)
        }
    }

    /// Whether a name is among the templates that a rendering in dev mode reads again.
    pub open spec fn reads_again(self, name: Seq<char>, prebound: Option<Seq<char>>) -> bool {
        self.template_sources.contains_key(name) && prebound != Some(name)
    }

    /// What comes of reading all templates with a source again, except for the one
    /// that is already at hand: all of them and that one, or the error of the first
    /// in name order that fails.
    pub open spec fn gathers(
        self,
        prebound: Option<(Seq<char>, Found<Template>)>,
        reply: Result<Map<Seq<char>, Found<Template>>, RenderError>,
    ) -> bool {
        let name_at_hand = name_of(prebound);
        match reply {
            Ok(found) => {
                &&& forall|n: Seq<char>| #[trigger]
                    found.contains_key(n) <==> self.reads_again(n, name_at_hand) || name_at_hand
                        == Some(n)
                &&& forall|n: Seq<char>| #[trigger]
                    self.reads_again(n, name_at_hand) ==> self.must_look_up(n, Ok(found[n]))
                &&& prebound matches Some((n, template)) ==> found[n] == template
            },
            Err(error) => exists|failed: Seq<char>|
                {
                    &&& self.reads_again(failed, name_at_hand)
                    &&& #[trigger] self.must_look_up(failed, Err(error))
                    &&& forall|n: Seq<char>|
                        (#[trigger] self.reads_again(n, name_at_hand)) && name_before(n, failed)
                            ==> exists|template: Found<Template>|
                            self.must_look_up(n, Ok(template))
                },
        }
    }
}

/// The name of something that is already at hand.
pub open spec fn name_of<'a>(prebound: Option<(Seq<char>, Found<'a, Template>)>) -> Option<
    Seq<char>,
> {
    match prebound {
        Some((name, _)) => Some(name),
        None => None,
    }
}

/// A template that is already at hand, where the registry knows it by a name.
pub open spec fn known_as<'a>(name: Option<Seq<char>>, template: Found<'a, Template>) -> Option<
    (Seq<char>, Found<'a, Template>),
> {
    match name {
        Some(n) => Some((n, template)),
        None => None,
    }
}

/// The contents of a gathering.
pub open spec fn gathered_map<'a>(
    reply: Result<NameMap<Found<'a, Template>>, RenderError>,
) -> Result<Map<Seq<char>, Found<'a, Template>>, RenderError> {
    match reply {
        Ok(found) => Ok(found@),
        Err(error) => Err(error),
    }
}

/// The name and the template of something that is already at hand.
pub open spec fn at_hand<'a>(
    prebound: Option<(&str, Found<'a, Template>)>,
) -> Option<(Seq<char>, Found<'a, Template>)> {
    match prebound {
        Some((name, template)) => Some((name@, template)),
        None => None,
    }
}

impl<B: Backend> Registry<B> {
    /// Return a registered helper
    pub fn get_or_load_helper(&self, name: &str) -> (reply: Result<
        Option<Found<'_, Helper<B::Helper>>>,
        RenderError,
    >)
        ensures
            self@.looks_up_helper(name@, reply),
    {
        if self.dev_mode {
            if let Some(source) = self.script_sources.get(name) {
                assert(self@.script_sources[name@] == **source);
                let loaded = self.backend.load(source);
                assert(load_reply(self@.backend, **source, loaded));
                match loaded {
                    Ok(text) => {
                        let compiled = compile_script(&self.engine, text.as_str());
                        assert(script_outcome(self@.engine, text@, compiled));
                        return serve_script(compiled);
                    },
                    Err(err) => {
                        let reason = RenderErrorReason::ScriptError(ScriptError::IoError(err));
                        return Err(RenderError::from(reason));
                    },
                }
            }
        }
        match self.helpers.get(name) {
            Some(helper) => Ok(Some(Found::Registered(helper))),
            None => Ok(None),
        }
    }

    /// Reads all templates with a source again, except for the one that is already at
    /// hand.
    pub fn gather_dev_mode_templates<'a>(
        &'a self,
        prebound: Option<(&str, Found<'a, Template>)>,
    ) -> (reply: Result<NameMap<Found<'a, Template>>, RenderError>)
        ensures
            self@.gathers(at_hand(prebound), gathered_map(reply)),
    {
        let prebound_name = match &prebound {
            Some((name, _)) => Some(*name),
            None => None,
        };
        let ghost name_at_hand = name_of(at_hand(prebound));
        let mut res: NameMap<Found<'a, Template>> = NameMap::new();
        let count: usize = self.template_sources.len();
        let ghost names = self.template_sources.names();
        let mut i: usize = 0;
        while i < count
            invariant
                count == names.len(),
                names == self.template_sources.names(),
                in_name_order(names),
                names.to_set() == self@.template_sources.dom(),
                i <= count,
                name_at_hand == name_of(at_hand(prebound)),
                name_at_hand == (match prebound_name {
                    Some(n) => Some(n@),
                    None => None,
                }),
                forall|n: Seq<char>| #[trigger]
                    res@.contains_key(n) <==> names.take(i as int).contains(n) && name_at_hand
                        != Some(n),
                forall|n: Seq<char>| #[trigger]
                    res@.contains_key(n) ==> self@.must_look_up(n, Ok(res@[n])),
            decreases count - i,
        {
            let name = self.template_sources.name_at(i);
            let ghost before = res@;
            assert(names.take(i + 1) =~= names.take(i as int).push(name@));
            assert forall|n: Seq<char>| #[trigger]
                names.take(i + 1).contains(n) <==> (names.take(i as int).contains(n) || n
                    == name@) by {
                lemma_contains_after_push(names.take(i as int), name@, n);
            }
            let skip = match prebound_name {
                Some(n) => order_names(n, name) == NameOrder::Same,
                None => false,
            };
            if !skip {
                match self.get_or_load_template(name) {
                    Ok(template) => {
                        res.insert(name.to_owned(), template);
                    },
                    Err(error) => {
                        proof {
                            assert(names.to_set().contains(names[i as int]));
                            assert(self@.reads_again(name@, name_at_hand));
                            assert forall|n: Seq<char>|
                                (#[trigger] self@.reads_again(n, name_at_hand)) && name_before(
                                    n,
                                    name@,
                                ) implies exists|template: Found<Template>|
                                self@.must_look_up(n, Ok(template)) by {
                                assert(names.to_set().contains(n));
                                let k = names.index_of(n);
                                if k >= i {
                                    name_order_is_irreflexive(n);
                                    if k > i {
                                        assert(name_before(names[i as int], names[k]));
                                        name_order_is_transitive(n, name@, n);
                                    }
                                }
                                assert(names.take(i as int)[k] == n);
                                assert(res@.contains_key(n));
                                assert(self@.must_look_up(n, Ok(res@[n])));
                            }
                            assert(self@.must_look_up(name@, Err(error)));
                        }
                        return Err(error);
                    },
                }
            }
            i += 1;
        }
        proof {
            assert(names.take(i as int) =~= names);
            assert forall|n: Seq<char>| #[trigger]
                res@.contains_key(n) <==> self@.reads_again(n, name_at_hand) by {
                assert(names.to_set().contains(n) <==> names.contains(n));
            }
        }
        let ghost read = res@;
        if let Some((name, template)) = prebound {
            res.insert(name.to_owned(), template);
        }
        proof {
            assert forall|n: Seq<char>| #[trigger]
                self@.reads_again(n, name_at_hand) implies self@.must_look_up(
                n,
                Ok(res@[n]),
            ) by {
                assert(read.contains_key(n));
            }
            assert forall|n: Seq<char>| #[trigger]
                res@.contains_key(n) <==> self@.reads_again(n, name_at_hand) || name_at_hand
                    == Some(n) by {
                assert(read.contains_key(n) <==> self@.reads_again(n, name_at_hand));
            }
        }
        Ok(res)
    }
}

/// The name of a template.
pub open spec fn template_name(template: Template) -> Option<Seq<char>> {
    match template.name {
        Some(name) => Some(name@),
        None => None,
    }
}

impl<'a> RenderContext<'a> {
    /// Whether this is what a template is rendered with.
    pub open spec fn is_for(
        self,
        template: Template,
        recursive_lookup: bool,
        dev_mode_templates: Option<Map<Seq<char>, Found<'a, Template>>>,
    ) -> bool {
        &&& match self.root_template {
            Some(name) => template_name(template) == Some(name@),
            None => template_name(template) is None,
        }
        &&& self.recursive_lookup == recursive_lookup
        &&& match self.dev_mode_templates {
            Some(found) => dev_mode_templates == Some(found@),
            None => dev_mode_templates is None,
        }
    }

    /// What a template is rendered with.
    fn new(
        template: &'a Template,
        recursive_lookup: bool,
        dev_mode_templates: Option<&'a NameMap<Found<'a, Template>>>,
    ) -> (context: RenderContext<'a>)
        ensures
            context.is_for(
                *template,
                recursive_lookup,
                match dev_mode_templates {
                    Some(found) => Some(found@),
                    None => None,
                },
            ),
    {
        RenderContext {
            root_template: match &template.name {
                Some(name) => Some(name.as_str()),
                None => None,
            },
            recursive_lookup,
            dev_mode_templates,
        }
    }
}

/// That a renderer has answered a registry, a template and data with `result`, when the
/// rest was as it stands here.
pub open spec fn rendered<
    B: Backend,
    X,
    O,
    R: FnOnce(&Registry<B>, &Template, &X, RenderContext<'_>) -> Result<O, RenderError>,
>(
    renderer: R,
    registry: Registry<B>,
    template: Template,
    ctx: X,
    recursive_lookup: bool,
    dev_mode_templates: Option<Map<Seq<char>, Found<Template>>>,
    result: Result<O, RenderError>,
) -> bool {
    exists|rc: RenderContext|
        {
            &&& rc.is_for(template, recursive_lookup, dev_mode_templates)
            &&& #[trigger] call_ensures(renderer, (&registry, &template, &ctx, rc), result)
        }
}

impl<B: Backend> Registry<B> {
    /// What comes of rendering a template that is at hand, which the registry knows by
    /// `name` or does not know. In dev mode all other templates are read again first.
    pub open spec fn renders_resolved<
        X,
        O,
        R: FnOnce(&Registry<B>, &Template, &X, RenderContext<'_>) -> Result<O, RenderError>,
    >(
        self,
        name: Option<Seq<char>>,
        template: Found<Template>,
        ctx: X,
        renderer: R,
        result: Result<O, RenderError>,
    ) -> bool {
        if !self@.dev_mode {
            rendered(renderer, self, template.value(), ctx, self@.recursive_lookup, None, result)
        } else {
            exists|gathered: Result<Map<Seq<char>, Found<Template>>, RenderError>|
                {
                    &&& #[trigger] self@.gathers(known_as(name, template), gathered)
                    &&& match gathered {
                        Ok(found) => rendered(
                            renderer,
                            self,
                            template.value(),
                            ctx,
                            self@.recursive_lookup,
                            Some(found),
                            result,
                        ),
                        Err(error) => result == Err::<O, RenderError>(error),
                    }
                }
        }
    }

    /// What comes of rendering the text of a template that is not registered.
    pub open spec fn renders_text<
        X,
        O,
        R: FnOnce(&Registry<B>, &Template, &X, RenderContext<'_>) -> Result<O, RenderError>,
    >(
        self,
        text: Seq<char>,
        ctx: X,
        renderer: R,
        result: Result<O, RenderError>,
    ) -> bool {
        exists|reply: Result<Template, TemplateError>|
            {
                &&& #[trigger] compile_reply(self@.backend, text, None, self@.prevent_indent, reply)
                &&& match reply {
                    Ok(template) => self.renders_resolved(
                        None,
                        Found::Loaded(template),
                        ctx,
                        renderer,
                        result,
                    ),
                    Err(error) => result matches Err(e) && is_plain_error(
                        e,
                        RenderErrorReason::TemplateError(error),
                    ),
                }
            }
    }

    /// What comes of rendering the template of a name.
    pub open spec fn renders<
        X,
        O,
        R: FnOnce(&Registry<B>, &Template, &X, RenderContext<'_>) -> Result<O, RenderError>,
    >(
        self,
        name: Seq<char>,
        ctx: X,
        renderer: R,
        result: Result<O, RenderError>,
    ) -> bool {
        exists|reply: Result<Found<Template>, RenderError>|
            {
                &&& #[trigger] self@.must_look_up(name, reply)
                &&& match reply {
                    Ok(template) => self.renders_resolved(
                        Some(name),
                        template,
                        ctx,
                        renderer,
                        result,
                    ),
                    Err(error) => result == Err::<O, RenderError>(error),
                }
            }
    }

    /// What comes of rendering the template of a name into a string.
    pub open spec fn renders_string<
        X,
        R: FnOnce(&Registry<B>, &Template, &X, RenderContext<'_>) -> Result<Vec<u8>, RenderError>,
    >(self, name: Seq<char>, ctx: X, renderer: R, result: Result<String, RenderError>) -> bool {
        exists|output: Result<Vec<u8>, RenderError>|
            {
                &&& #[trigger] self.renders(name, ctx, renderer, output)
                &&& is_text_of(output, result)
            }
    }

    /// What comes of rendering the text of a template that is not registered into a
    /// string.
    pub open spec fn renders_text_string<
        X,
        R: FnOnce(&Registry<B>, &Template, &X, RenderContext<'_>) -> Result<Vec<u8>, RenderError>,
    >(self, text: Seq<char>, ctx: X, renderer: R, result: Result<String, RenderError>) -> bool {
        exists|output: Result<Vec<u8>, RenderError>|
            {
                &&& #[trigger] self.renders_text(text, ctx, renderer, output)
                &&& is_text_of(output, result)
            }
    }

    /// What comes of rendering the text of a template that is not registered and
    /// collecting what is written.
    pub open spec fn renders_text_collected<
        X,
        R: FnOnce(&Registry<B>, &Template, &X, RenderContext<'_>) -> Result<Vec<u8>, RenderError>,
    >(self, text: Seq<char>, ctx: X, renderer: R, result: Result<String, RenderError>) -> bool {
        exists|output: Result<Vec<u8>, RenderError>|
            {
                &&& #[trigger] self.renders_text(text, ctx, renderer, output)
                &&& is_collected_from(output, result)
            }
    }
}

impl<B: Backend> Registry<B> {
    /// Renders a template that is at hand.
    pub fn render_resolved_template_to_output<
        X,
        O,
        R: FnOnce(&Registry<B>, &Template, &X, RenderContext<'_>) -> Result<O, RenderError>,
    >(&self, name: Option<&str>, template: Found<'_, Template>, ctx: &X, renderer: R) -> (result:
        Result<O, RenderError>)
        requires
            forall|t: &Template, rc: RenderContext| call_requires(renderer, (self, t, ctx, rc)),
        ensures
            self.renders_resolved(
                match name {
                    Some(n) => Some(n@),
                    None => None,
                },
                template,
                *ctx,
                renderer,
                result,
            ),
    {
        if !self.dev_mode {
            let target = template.get();
            let render_context = RenderContext::new(target, self.recursive_lookup, None);
            return renderer(self, target, ctx, render_context);
        }
        match name {
            Some(name) => {
                let gathered = self.gather_dev_mode_templates(Some((name, template)));
                assert(self@.gathers(known_as(Some(name@), template), gathered_map(gathered)));
                match gathered {
                    Ok(dev_mode_templates) => {
                        match dev_mode_templates.get(name) {
                            Some(found) => {
                                let target = found.get();
                                let render_context = RenderContext::new(
                                    target,
                                    self.recursive_lookup,
                                    Some(&dev_mode_templates),
                                );
                                renderer(self, target, ctx, render_context)
                            },
                            // The template at hand is always among the gathered ones.
                            None => vstd::pervasive::unreached(),
                        }
                    },
                    Err(error) => Err(error),
                }
            },
            None => {
                let gathered = self.gather_dev_mode_templates(None);
                assert(self@.gathers(known_as(None, template), gathered_map(gathered)));
                match gathered {
                    Ok(dev_mode_templates) => {
                        let target = template.get();
                        let render_context = RenderContext::new(
                            target,
                            self.recursive_lookup,
                            Some(&dev_mode_templates),
                        );
                        renderer(self, target, ctx, render_context)
                    },
                    Err(error) => Err(error),
                }
            },
        }
    }

    /// Renders the template of a name.
    pub fn render_to_output<
        X,
        O,
        R: FnOnce(&Registry<B>, &Template, &X, RenderContext<'_>) -> Result<O, RenderError>,
    >(&self, name: &str, ctx: &X, renderer: R) -> (result: Result<O, RenderError>)
        requires
            forall|t: &Template, rc: RenderContext| call_requires(renderer, (self, t, ctx, rc)),
        ensures
            self.renders(name@, *ctx, renderer, result),
    {
        let reply = self.get_or_load_template(name);
        assert(self@.must_look_up(name@, reply));
        match reply {
            Ok(template) => self.render_resolved_template_to_output(
                Some(name),
                template,
                ctx,
                renderer,
            ),
            Err(error) => Err(error),
        }
    }

    /// Render a registered template with some data into a string
    ///
    /// * `name` is the template name you registered previously
    /// * `context` is what has come of turning the data into a context
    ///
    /// Returns rendered string or a struct with error information
    pub fn render<
        X,
        R: FnOnce(&Registry<B>, &Template, &X, RenderContext<'_>) -> Result<Vec<u8>, RenderError>,
    >(&self, name: &str, context: Result<X, RenderError>, renderer: R) -> (result: Result<
        String,
        RenderError,
    >)
        requires
            context matches Ok(ctx) ==> forall|t: &Template, rc: RenderContext|
                call_requires(renderer, (self, t, &ctx, rc)),
        ensures
            match context {
                Ok(ctx) => self.renders_string(name@, ctx, renderer, result),
                Err(error) => result == Err::<String, RenderError>(error),
            },
    {
        match context {
            Ok(ctx) => self.render_with_context(name, &ctx, renderer),
            Err(error) => Err(error),
        }
    }

    /// Render a registered template with reused context
    pub fn render_with_context<
        X,
        R: FnOnce(&Registry<B>, &Template, &X, RenderContext<'_>) -> Result<Vec<u8>, RenderError>,
    >(&self, name: &str, ctx: &X, renderer: R) -> (result: Result<String, RenderError>)
        requires
            forall|t: &Template, rc: RenderContext| call_requires(renderer, (self, t, ctx, rc)),
        ensures
            self.renders_string(name@, *ctx, renderer, result),
    {
        let output = self.render_to_output(name, ctx, renderer);
        into_string(output)
    }

    /// Render a registered template and write data to a writer, which the renderer
    /// holds
    pub fn render_to_write<
        X,
        O,
        R: FnOnce(&Registry<B>, &Template, &X, RenderContext<'_>) -> Result<O, RenderError>,
    >(&self, name: &str, context: Result<X, RenderError>, renderer: R) -> (result: Result<
        O,
        RenderError,
    >)
        requires
            context matches Ok(ctx) ==> forall|t: &Template, rc: RenderContext|
                call_requires(renderer, (self, t, &ctx, rc)),
        ensures
            match context {
                Ok(ctx) => self.renders(name@, ctx, renderer, result),
                Err(error) => result == Err::<O, RenderError>(error),
            },
    {
        match context {
            Ok(ctx) => self.render_to_output(name, &ctx, renderer),
            Err(error) => Err(error),
        }
    }

    /// Render a registered template using reusable context, and write data to a
    /// writer, which the renderer holds
    pub fn render_with_context_to_write<
        X,
        O,
        R: FnOnce(&Registry<B>, &Template, &X, RenderContext<'_>) -> Result<O, RenderError>,
    >(&self, name: &str, ctx: &X, renderer: R) -> (result: Result<O, RenderError>)
        requires
            forall|t: &Template, rc: RenderContext| call_requires(renderer, (self, t, ctx, rc)),
        ensures
            self.renders(name@, *ctx, renderer, result),
    {
        self.render_to_output(name, ctx, renderer)
    }

    /// Render a template string using current registry without registering it
    ///
    /// What is written is collected: the string is empty where it is not UTF-8.
    pub fn render_template<
        X,
        R: FnOnce(&Registry<B>, &Template, &X, RenderContext<'_>) -> Result<
            Vec<u8>,
            RenderError,
        >,
    >(
        &self,
        template_string: &str,
        context: Result<X, RenderError>,
        renderer: R,
    ) -> (result: Result<String, RenderError>)
        requires
            context matches Ok(ctx) ==> forall|t: &Template, rc: RenderContext|
                call_requires(renderer, (self, t, &ctx, rc)),
        ensures
            match context {
                Ok(ctx) => self.renders_text_collected(template_string@, ctx, renderer, result),
                Err(error) => result == Err::<String, RenderError>(error),
            },
    {
        match self.render_template_to_write(template_string, context, renderer) {
            Ok(bytes) => Ok(collected_text(bytes)),
            Err(error) => Err(error),
        }
    }

    /// Render a template string using reusable context data
    pub fn render_template_with_context<
        X,
        R: FnOnce(&Registry<B>, &Template, &X, RenderContext<'_>) -> Result<Vec<u8>, RenderError>,
    >(&self, template_string: &str, ctx: &X, renderer: R) -> (result: Result<
        String,
        RenderError,
    >)
        requires
            forall|t: &Template, rc: RenderContext| call_requires(renderer, (self, t, ctx, rc)),
        ensures
            self.renders_text_string(template_string@, *ctx, renderer, result),
    {
        let output = self.render_template_with_context_to_write(template_string, ctx, renderer);
        into_string(output)
    }

    /// Render a template string using reusable context, and write data into a writer,
    /// which the renderer holds
    pub fn render_template_with_context_to_write<
        X,
        O,
        R: FnOnce(&Registry<B>, &Template, &X, RenderContext<'_>) -> Result<O, RenderError>,
    >(&self, template_string: &str, ctx: &X, renderer: R) -> (result: Result<
        O,
        RenderError,
    >)
        requires
            forall|t: &Template, rc: RenderContext| call_requires(renderer, (self, t, ctx, rc)),
        ensures
            self.renders_text(template_string@, *ctx, renderer, result),
    {
        match self.compile_unnamed(template_string) {
            Ok(tpl) => self.render_resolved_template_to_output(
                None,
                Found::Loaded(tpl),
                ctx,
                renderer,
            ),
            Err(error) => Err(RenderError::from(error)),
        }
    }

    /// Render a template string using current registry without registering it
    pub fn render_template_to_write<
        X,
        O,
        R: FnOnce(&Registry<B>, &Template, &X, RenderContext<'_>) -> Result<O, RenderError>,
    >(
        &self,
        template_string: &str,
        context: Result<X, RenderError>,
        renderer: R,
    ) -> (result: Result<O, RenderError>)
        requires
            context matches Ok(ctx) ==> forall|t: &Template, rc: RenderContext|
                call_requires(renderer, (self, t, &ctx, rc)),
        ensures
            match context {
                Ok(ctx) => self.renders_text(template_string@, ctx, renderer, result),
                Err(error) => result == Err::<O, RenderError>(error),
            },
    {
        match context {
            Ok(ctx) => self.render_template_with_context_to_write(template_string, &ctx, renderer),
            Err(error) => Err(error),
        }
    }
}

/// What becomes of rendered bytes: the text that they spell, or an error if they
/// spell none.
pub open spec fn is_text_of(
    output: Result<Vec<u8>, RenderError>,
    result: Result<String, RenderError>,
) -> bool {
    match output {
        Ok(bytes) => match spelled(bytes@) {
            Some(text) => result matches Ok(t) && t@ == text,
            None => result matches Err(e) && is_plain_error(e, RenderErrorReason::Utf8Error),
        },
        Err(error) => result == Err::<String, RenderError>(error),
    }
}

/// Turns rendered bytes into a string.
pub fn into_string(output: Result<Vec<u8>, RenderError>) -> (result: Result<String, RenderError>)
    ensures
        is_text_of(output, result),
{
    match output {
        Ok(bytes) => match read_utf8(bytes) {
            Some(text) => Ok(text),
            None => Err(RenderError::from(RenderErrorReason::Utf8Error)),
        },
        Err(error) => Err(error),
    }
}

/// The text of bytes that were written. It is empty where they spell none.
pub open spec fn collected(bytes: Seq<u8>) -> Seq<char> {
    match spelled(bytes) {
        Some(text) => text,
        None => Seq::empty(),
    }
}

/// What becomes of bytes that were written: their text, or the error of the rendering.
pub open spec fn is_collected_from(
    output: Result<Vec<u8>, RenderError>,
    result: Result<String, RenderError>,
) -> bool {
    match output {
        Ok(bytes) => result matches Ok(text) && text@ == collected(bytes@),
        Err(error) => result == Err::<String, RenderError>(error),
    }
}

/// The text of bytes that were written. It is empty where they spell none.
pub fn collected_text(bytes: Vec<u8>) -> (text: String)
    ensures
        text@ == collected(bytes@),
{
    match read_utf8(bytes) {
        Some(text) => text,
        None => String::new(),
    }
}

} // verus!
