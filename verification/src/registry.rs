//! The registry.
pub mod files;
pub mod package;
pub mod render;
pub mod update;

use std::sync::Arc;

use vstd::prelude::*;

use crate::backend::{compile_reply, load_reply, source_reply, Backend};
use crate::error::{IoError, ScriptError, TemplateError};
use crate::escape::EscapeFn;
use crate::helpers::{BuiltinHelper, Decorator, Helper};
use crate::names::{NameMap, NameSet};
use crate::script::{compile_script, engine_is_new, rhai_engine, script_outcome, ScriptHelper};
use crate::shared::{pointees, share};
use crate::template::{Template, TemplateOptions};

verus! {

broadcast use crate::shared::group_pointees;

/// The single entry point of your Handlebars templates
///
/// It maintains compiled templates and registered helpers.
pub struct Registry<B: Backend> {
    backend: Arc<B>,
    templates: NameMap<Arc<Template>>,
    helpers: NameMap<Arc<Helper<B::Helper>>>,
    decorators: NameMap<Arc<Decorator<B::Decorator>>>,
    escape_fn: Arc<EscapeFn<B::Escape>>,
    strict_mode: bool,
    dev_mode: bool,
    recursive_lookup: bool,
    prevent_indent: bool,
    /// Names installed by the latest template package update. A package
    /// update replaces exactly this set of names.
    package_templates: NameSet,
    engine: Arc<rhai::Engine>,
    template_sources: NameMap<Arc<B::Source>>,
    script_sources: NameMap<Arc<B::Source>>,
}

/// What a registry holds.
#[verifier::reject_recursive_types(B)]
#[verifier::ext_equal]
pub struct RegistryView<B: Backend> {
    pub backend: B,
    /// The templates, by name.
    pub templates: Map<Seq<char>, Template>,
    /// Where templates are read again from in dev mode.
    pub template_sources: Map<Seq<char>, B::Source>,
    /// The names that the latest package update installed.
    pub package: Set<Seq<char>>,
    pub helpers: Map<Seq<char>, Helper<B::Helper>>,
    pub decorators: Map<Seq<char>, Decorator<B::Decorator>>,
    /// Where script helpers are read again from in dev mode.
    pub script_sources: Map<Seq<char>, B::Source>,
    pub engine: rhai::Engine,
    pub escape_fn: EscapeFn<B::Escape>,
    pub strict_mode: bool,
    pub dev_mode: bool,
    pub recursive_lookup: bool,
    pub prevent_indent: bool,
}

impl<B: Backend> View for Registry<B> {
    type V = RegistryView<B>;

    closed spec fn view(&self) -> RegistryView<B> {
        RegistryView {
            backend: *self.backend,
            templates: pointees(self.templates@),
            template_sources: pointees(self.template_sources@),
            package: self.package_templates@,
            helpers: pointees(self.helpers@),
            decorators: pointees(self.decorators@),
            script_sources: pointees(self.script_sources@),
            engine: *self.engine,
            escape_fn: *self.escape_fn,
            strict_mode: self.strict_mode,
            dev_mode: self.dev_mode,
            recursive_lookup: self.recursive_lookup,
            prevent_indent: self.prevent_indent,
        }
    }
}

/// The helpers of a new registry.
pub open spec fn builtin_helpers<H>() -> Map<Seq<char>, Helper<H>> {
    Map::empty()
        .insert("if"@, Helper::Builtin(BuiltinHelper::If))
        .insert("unless"@, Helper::Builtin(BuiltinHelper::Unless))
        .insert("each"@, Helper::Builtin(BuiltinHelper::Each))
        .insert("with"@, Helper::Builtin(BuiltinHelper::With))
        .insert("lookup"@, Helper::Builtin(BuiltinHelper::Lookup))
        .insert("raw"@, Helper::Builtin(BuiltinHelper::Raw))
        .insert("log"@, Helper::Builtin(BuiltinHelper::Log))
        .insert("eq"@, Helper::Builtin(BuiltinHelper::Eq))
        .insert("ne"@, Helper::Builtin(BuiltinHelper::Ne))
        .insert("gt"@, Helper::Builtin(BuiltinHelper::Gt))
        .insert("gte"@, Helper::Builtin(BuiltinHelper::Gte))
        .insert("lt"@, Helper::Builtin(BuiltinHelper::Lt))
        .insert("lte"@, Helper::Builtin(BuiltinHelper::Lte))
        .insert("and"@, Helper::Builtin(BuiltinHelper::And))
        .insert("or"@, Helper::Builtin(BuiltinHelper::Or))
        .insert("not"@, Helper::Builtin(BuiltinHelper::Not))
        .insert("len"@, Helper::Builtin(BuiltinHelper::Len))
        .insert("lowerCamelCase"@, Helper::Builtin(BuiltinHelper::LowerCamelCase))
        .insert("upperCamelCase"@, Helper::Builtin(BuiltinHelper::UpperCamelCase))
        .insert("snakeCase"@, Helper::Builtin(BuiltinHelper::SnakeCase))
        .insert("kebabCase"@, Helper::Builtin(BuiltinHelper::KebabCase))
        .insert("shoutySnakeCase"@, Helper::Builtin(BuiltinHelper::ShoutySnakeCase))
        .insert("shoutyKebabCase"@, Helper::Builtin(BuiltinHelper::ShoutyKebabCase))
        .insert("titleCase"@, Helper::Builtin(BuiltinHelper::TitleCase))
        .insert("trainCase"@, Helper::Builtin(BuiltinHelper::TrainCase))
}

impl<B: Backend> RegistryView<B> {
    /// A registry without templates, as it starts out.
    pub open spec fn initial(backend: B, engine: rhai::Engine) -> Self {
        RegistryView {
            backend,
            templates: Map::empty(),
            template_sources: Map::empty(),
            package: Set::empty(),
            helpers: builtin_helpers(),
            decorators: Map::empty().insert("inline"@, Decorator::Inline),
            script_sources: Map::empty(),
            engine,
            escape_fn: EscapeFn::Html,
            strict_mode: false,
            dev_mode: false,
            recursive_lookup: false,
            prevent_indent: false,
        }
    }

    /// What every operation keeps: the package and the sources speak of registered
    /// templates only, and there are sources in dev mode only.
    pub open spec fn valid(self) -> bool {
        &&& self.package.subset_of(self.templates.dom())
        &&& self.template_sources.dom().subset_of(self.templates.dom())
        &&& !self.dev_mode ==> self.template_sources == Map::<Seq<char>, B::Source>::empty()
    }

    /// The registry with a template under a name, in place of the one that was there
    /// and of its source.
    pub open spec fn with_template(self, name: Seq<char>, template: Template) -> Self {
        RegistryView {
            templates: self.templates.insert(name, template),
            template_sources: self.template_sources.remove(name),
            ..self
        }
    }

    /// The registry without the template of a name, and without its source.
    pub open spec fn without_template(self, name: Seq<char>) -> Self {
        RegistryView {
            templates: self.templates.remove(name),
            template_sources: self.template_sources.remove(name),
            package: self.package.remove(name),
            ..self
        }
    }

    /// The registry without any templates.
    pub open spec fn without_templates(self) -> Self {
        RegistryView {
            templates: Map::empty(),
            template_sources: Map::empty(),
            package: Set::empty(),
            ..self
        }
    }

    /// The registry in dev mode or outside it. There are no sources of templates
    /// outside dev mode.
    pub open spec fn with_dev_mode(self, enabled: bool) -> Self {
        RegistryView {
            dev_mode: enabled,
            template_sources: if enabled {
                self.template_sources
            } else {
                Map::empty()
            },
            ..self
        }
    }

    /// The registry with a template that was read from a source. The source is kept
    /// in dev mode.
    pub open spec fn with_loaded(
        self,
        name: Seq<char>,
        template: Template,
        source: B::Source,
    ) -> Self {
        RegistryView {
            templates: self.templates.insert(name, template),
            template_sources: if self.dev_mode {
                self.template_sources.insert(name, source)
            } else {
                self.template_sources.remove(name)
            },
            ..self
        }
    }

    /// The registry with several templates that were read from sources, one after the
    /// other.
    pub open spec fn with_all_loaded(
        self,
        files: Seq<(Seq<char>, B::Source)>,
        templates: Seq<Template>,
    ) -> Self
        decreases files.len(),
    {
        if files.len() == 0 {
            self
        } else {
            self.with_all_loaded(files.drop_last(), templates.drop_last()).with_loaded(
                files.last().0,
                templates.last(),
                files.last().1,
            )
        }
    }

    /// The registry with a helper under a name, in place of the one that was there. The
    /// source of a script under the name stays.
    pub open spec fn with_helper(self, name: Seq<char>, helper: Helper<B::Helper>) -> Self {
        RegistryView { helpers: self.helpers.insert(name, helper), ..self }
    }

    /// The registry without the helper of a name, and without the source of its script.
    pub open spec fn without_helper(self, name: Seq<char>) -> Self {
        RegistryView {
            helpers: self.helpers.remove(name),
            script_sources: self.script_sources.remove(name),
            ..self
        }
    }

    /// The registry with a source for the script of a helper.
    pub open spec fn with_script_source(self, name: Seq<char>, source: B::Source) -> Self {
        RegistryView { script_sources: self.script_sources.insert(name, source), ..self }
    }
}

/// What comes of registering under `name` what the compiler has answered: its
/// template, or its error and nothing else.
pub open spec fn registered<B: Backend>(
    before: RegistryView<B>,
    name: Seq<char>,
    reply: Result<Template, TemplateError>,
    result: Result<(), TemplateError>,
    after: RegistryView<B>,
) -> bool {
    match reply {
        Ok(template) => result == Ok::<(), TemplateError>(()) && after == before.with_template(
            name,
            template,
        ),
        Err(error) => result == Err::<(), TemplateError>(error) && after == before,
    }
}

/// What comes of registering a template string under `name`.
pub open spec fn string_registered<B: Backend>(
    before: RegistryView<B>,
    name: Seq<char>,
    text: Seq<char>,
    result: Result<(), TemplateError>,
    after: RegistryView<B>,
) -> bool {
    exists|reply: Result<Template, TemplateError>|
        {
            &&& #[trigger] compile_reply(
                before.backend,
                text,
                Some(name),
                before.prevent_indent,
                reply,
            )
            &&& registered(before, name, reply, result, after)
        }
}

/// What comes of registering a template from a source under `name`.
pub open spec fn file_registered<B: Backend>(
    before: RegistryView<B>,
    name: Seq<char>,
    source: B::Source,
    result: Result<(), TemplateError>,
    after: RegistryView<B>,
) -> bool {
    exists|reply: Result<Template, TemplateError>|
        {
            &&& #[trigger] source_reply(
                before.backend,
                source,
                name,
                name,
                before.prevent_indent,
                reply,
            )
            &&& match reply {
                Ok(template) => result is Ok && after == before.with_loaded(
                    name,
                    template,
                    source,
                ),
                Err(error) => result == Err::<(), TemplateError>(error) && after == before,
            }
        }
}

/// What comes of registering what has come of compiling a script.
pub open spec fn script_registered<B: Backend>(
    before: RegistryView<B>,
    name: Seq<char>,
    outcome: Result<rhai::AST, rhai::ParseError>,
    result: Result<(), ScriptError>,
    after: RegistryView<B>,
) -> bool {
    match outcome {
        Ok(script) => result is Ok && after == before.with_helper(
            name,
            Helper::Script(ScriptHelper { script }),
        ),
        Err(error) => result == Err::<(), ScriptError>(ScriptError::ParseError(error)) && after
            == before,
    }
}

/// What comes of registering what has come of compiling a script that was read from
/// a source. The source is kept, whatever has come of the script.
pub open spec fn script_file_registered<B: Backend>(
    before: RegistryView<B>,
    name: Seq<char>,
    source: B::Source,
    outcome: Result<rhai::AST, rhai::ParseError>,
    result: Result<(), ScriptError>,
    after: RegistryView<B>,
) -> bool {
    match outcome {
        Ok(script) => result is Ok && after == before.with_helper(
            name,
            Helper::Script(ScriptHelper { script }),
        ).with_script_source(name, source),
        Err(error) => result == Err::<(), ScriptError>(ScriptError::ParseError(error)) && after
            == before.with_script_source(name, source),
    }
}

/// What comes of registering a script from a source under `name`.
pub open spec fn script_source_registered<B: Backend>(
    before: RegistryView<B>,
    name: Seq<char>,
    source: B::Source,
    result: Result<(), ScriptError>,
    after: RegistryView<B>,
) -> bool {
    exists|loaded: Result<String, IoError>|
        {
            &&& #[trigger] load_reply(before.backend, source, loaded)
            &&& match loaded {
                Ok(text) => exists|outcome: Result<rhai::AST, rhai::ParseError>|
                    {
                        &&& #[trigger] script_outcome(before.engine, text@, outcome)
                        &&& script_file_registered(before, name, source, outcome, result, after)
                    },
                Err(err) => result == Err::<(), ScriptError>(ScriptError::IoError(err)) && after
                    == before,
            }
        }
}

impl<B: Backend> Registry<B> {
    /// A registry with the built-in helpers and decorators and no templates.
    pub fn new(backend: B) -> (registry: Self)
        ensures
            engine_is_new(registry@.engine),
            registry@ == RegistryView::initial(backend, registry@.engine),
            registry@.valid(),
    {
        let registry = Registry {
            backend: Arc::new(backend),
            templates: NameMap::new(),
            helpers: NameMap::new(),
            decorators: NameMap::new(),
            escape_fn: Arc::new(EscapeFn::Html),
            strict_mode: false,
            dev_mode: false,
            recursive_lookup: false,
            prevent_indent: false,
            package_templates: NameSet::new(),
            engine: Arc::new(rhai_engine()),
            template_sources: NameMap::new(),
            script_sources: NameMap::new(),
        };
        assert(registry@.helpers.union_prefer_right(builtin_helpers()) =~= builtin_helpers());
        registry.setup_builtins()
    }

    fn setup_builtins(self) -> (registry: Self)
        ensures
            registry@ == (RegistryView {
                helpers: self@.helpers.union_prefer_right(builtin_helpers()),
                decorators: self@.decorators.insert("inline"@, Decorator::Inline),
                ..self@
            }),
    {
        let mut registry = self;
        registry.register_builtin("if", BuiltinHelper::If);
        registry.register_builtin("unless", BuiltinHelper::Unless);
        registry.register_builtin("each", BuiltinHelper::Each);
        registry.register_builtin("with", BuiltinHelper::With);
        registry.register_builtin("lookup", BuiltinHelper::Lookup);
        registry.register_builtin("raw", BuiltinHelper::Raw);
        registry.register_builtin("log", BuiltinHelper::Log);

        registry.register_builtin("eq", BuiltinHelper::Eq);
        registry.register_builtin("ne", BuiltinHelper::Ne);
        registry.register_builtin("gt", BuiltinHelper::Gt);
        registry.register_builtin("gte", BuiltinHelper::Gte);
        registry.register_builtin("lt", BuiltinHelper::Lt);
        registry.register_builtin("lte", BuiltinHelper::Lte);
        registry.register_builtin("and", BuiltinHelper::And);
        registry.register_builtin("or", BuiltinHelper::Or);
        registry.register_builtin("not", BuiltinHelper::Not);
        registry.register_builtin("len", BuiltinHelper::Len);

        registry.register_string_helpers();

        registry.decorators.insert("inline".to_owned(), Arc::new(Decorator::Inline));
        registry
    }

    fn register_string_helpers(&mut self)
        ensures
            final(self)@ == (RegistryView {
                helpers: old(self)@.helpers
                    .insert("lowerCamelCase"@, Helper::Builtin(BuiltinHelper::LowerCamelCase))
                    .insert("upperCamelCase"@, Helper::Builtin(BuiltinHelper::UpperCamelCase))
                    .insert("snakeCase"@, Helper::Builtin(BuiltinHelper::SnakeCase))
                    .insert("kebabCase"@, Helper::Builtin(BuiltinHelper::KebabCase))
                    .insert("shoutySnakeCase"@, Helper::Builtin(BuiltinHelper::ShoutySnakeCase))
                    .insert("shoutyKebabCase"@, Helper::Builtin(BuiltinHelper::ShoutyKebabCase))
                    .insert("titleCase"@, Helper::Builtin(BuiltinHelper::TitleCase))
                    .insert("trainCase"@, Helper::Builtin(BuiltinHelper::TrainCase)),
                ..old(self)@
            }),
    {
        self.register_builtin("lowerCamelCase", BuiltinHelper::LowerCamelCase);
        self.register_builtin("upperCamelCase", BuiltinHelper::UpperCamelCase);
        self.register_builtin("snakeCase", BuiltinHelper::SnakeCase);
        self.register_builtin("kebabCase", BuiltinHelper::KebabCase);
        self.register_builtin("shoutySnakeCase", BuiltinHelper::ShoutySnakeCase);
        self.register_builtin("shoutyKebabCase", BuiltinHelper::ShoutyKebabCase);
        self.register_builtin("titleCase", BuiltinHelper::TitleCase);
        self.register_builtin("trainCase", BuiltinHelper::TrainCase);
    }

    fn register_builtin(&mut self, name: &str, helper: BuiltinHelper)
        ensures
            final(self)@ == old(self)@.with_helper(name@, Helper::Builtin(helper)),
    {
        self.helpers.insert(name.to_owned(), Arc::new(Helper::Builtin(helper)));
    }

    /// What the registry is built on.
    pub fn backend(&self) -> (backend: &B)
        ensures
            *backend == self@.backend,
    {
        &self.backend
    }

    /// Enable or disable recursive variable resolution mode
    ///
    /// By default variable resolution is performed directly
    /// within the current scope.
    ///
    /// For certain legacy use cases it may be desirable for variable
    /// resolution to walk up through the enclosing scopes until
    /// a matching variable is found.
    pub fn set_recursive_lookup(&mut self, enabled: bool)
        ensures
            final(self)@ == (RegistryView { recursive_lookup: enabled, ..old(self)@ }),
            old(self)@.valid() ==> final(self)@.valid(),
    {
        self.recursive_lookup = enabled;
    }

    /// Return recursive lookup state, default is false.
    pub fn recursive_lookup(&self) -> (enabled: bool)
        ensures
            enabled == self@.recursive_lookup,
    {
        self.recursive_lookup
    }

    /// Enable or disable handlebars strict mode
    ///
    /// By default, handlebars renders empty string for value that
    /// undefined or never exists. In strict mode, if you were to render a
    /// value that doesn't exist, a `RenderError` will be raised.
    pub fn set_strict_mode(&mut self, enabled: bool)
        ensures
            final(self)@ == (RegistryView { strict_mode: enabled, ..old(self)@ }),
            old(self)@.valid() ==> final(self)@.valid(),
    {
        self.strict_mode = enabled;
    }

    /// Return strict mode state, default is false.
    pub fn strict_mode(&self) -> (enabled: bool)
        ensures
            enabled == self@.strict_mode,
    {
        self.strict_mode
    }

    /// Return dev mode state, default is false
    ///
    /// With dev mode turned on, handlebars enables a set of development
    /// friendly features, that may affect its performance.
    pub fn dev_mode(&self) -> (enabled: bool)
        ensures
            enabled == self@.dev_mode,
    {
        self.dev_mode
    }

    /// Enable or disable dev mode
    ///
    /// With dev mode turned on, handlebars enables a set of development
    /// friendly features, that may affect its performance.
    ///
    /// **Note that you have to enable dev mode before adding templates to
    /// the registry**. Otherwise it won't take effect at all.
    pub fn set_dev_mode(&mut self, enabled: bool)
        ensures
            final(self)@ == old(self)@.with_dev_mode(enabled),
            old(self)@.valid() ==> final(self)@.valid(),
    {
        self.dev_mode = enabled;
        // clear template source when disabling dev mode
        if !enabled {
            self.template_sources.clear();
        }
    }

    /// Enable or disable indent for partial include tag `{{>}}`
    ///
    /// By default handlebars keeps indent whitespaces for partial
    /// include tag, to change this behaviour, set this toggle to `true`.
    pub fn set_prevent_indent(&mut self, enable: bool)
        ensures
            final(self)@ == (RegistryView { prevent_indent: enable, ..old(self)@ }),
            old(self)@.valid() ==> final(self)@.valid(),
    {
        self.prevent_indent = enable;
    }

    /// Return state for `prevent_indent` option, default to `false`.
    pub fn prevent_indent(&self) -> (enabled: bool)
        ensures
            enabled == self@.prevent_indent,
    {
        self.prevent_indent
    }

    /// Has the backend compile a text as a template of a name.
    fn compile(&self, name: &str, text: &str) -> (reply: Result<Template, TemplateError>)
        ensures
            compile_reply(self@.backend, text@, Some(name@), self@.prevent_indent, reply),
    {
        let options = TemplateOptions {
            name: Some(name.to_owned()),
            is_partial: false,
            prevent_indent: self.prevent_indent,
        };
        self.backend.compile(text, &options)
    }

    /// Has the backend compile a text as a template without a name.
    fn compile_unnamed(&self, text: &str) -> (reply: Result<Template, TemplateError>)
        ensures
            compile_reply(self@.backend, text@, None, self@.prevent_indent, reply),
    {
        let options = TemplateOptions {
            name: None,
            is_partial: false,
            prevent_indent: self.prevent_indent,
        };
        self.backend.compile(text, &options)
    }

    /// Has the backend read a source and compile what it holds as a template of a
    /// name.
    fn compile_source(&self, name: &str, failed_as: &str, source: &B::Source) -> (reply: Result<
        Template,
        TemplateError,
    >)
        ensures
            source_reply(
                self@.backend,
                *source,
                name@,
                failed_as@,
                self@.prevent_indent,
                reply,
            ),
    {
        let loaded = self.backend.load(source);
        assert(load_reply(self@.backend, *source, loaded));
        match loaded {
            Ok(text) => self.compile(name, text.as_str()),
            Err(err) => Err(TemplateError::from((err, failed_as.to_owned()))),
        }
    }

    /// Register a `Template`
    ///
    /// This is infallible since the template has already been parsed and
    /// insert cannot fail. If there is an existing template with this name it
    /// will be overwritten.
    ///
    /// Dev mode doesn't apply for pre-compiled template because it's lifecycle
    /// is not managed by the registry: a source that dev mode has under the name
    /// is dropped.
    pub fn register_template(&mut self, name: &str, tpl: Template)
        ensures
            final(self)@ == old(self)@.with_template(name@, tpl),
            old(self)@.valid() ==> final(self)@.valid(),
    {
        self.templates.insert(name.to_owned(), Arc::new(tpl));
        // A source of the template that was there must not be served in its place.
        self.template_sources.remove(name);
        assert(old(self)@.template_sources == Map::<Seq<char>, B::Source>::empty()
            ==> self@.template_sources =~= Map::<Seq<char>, B::Source>::empty());
    }

    /// Register what the compiler has answered for a template string.
    pub fn register_compiled(
        &mut self,
        name: &str,
        compiled: Result<Template, TemplateError>,
    ) -> (result: Result<(), TemplateError>)
        ensures
            registered(old(self)@, name@, compiled, result, final(self)@),
            old(self)@.valid() ==> final(self)@.valid(),
    {
        match compiled {
            Ok(template) => {
                self.register_template(name, template);
                Ok(())
            },
            Err(error) => Err(error),
        }
    }

    /// Register a template string
    ///
    /// Returns `TemplateError` if there is syntax error on parsing the template.
    pub fn register_template_string(&mut self, name: &str, tpl_str: &str) -> (result: Result<
        (),
        TemplateError,
    >)
        ensures
            string_registered(old(self)@, name@, tpl_str@, result, final(self)@),
            old(self)@.valid() ==> final(self)@.valid(),
    {
        let reply = self.compile(name, tpl_str);
        self.register_compiled(name, reply)
    }

    /// Register a partial string
    ///
    /// A named partial will be added to the registry. It will overwrite template with
    /// same name. Currently a registered partial is just identical to a template.
    pub fn register_partial(&mut self, name: &str, partial_str: &str) -> (result: Result<
        (),
        TemplateError,
    >)
        ensures
            string_registered(old(self)@, name@, partial_str@, result, final(self)@),
            old(self)@.valid() ==> final(self)@.valid(),
    {
        self.register_template_string(name, partial_str)
    }

    /// Register what has come of reading and compiling a source.
    pub fn register_loaded(
        &mut self,
        name: &str,
        source: B::Source,
        compiled: Result<Template, TemplateError>,
    ) -> (result: Result<(), TemplateError>)
        ensures
            match compiled {
                Ok(template) => result is Ok && final(self)@ == old(self)@.with_loaded(
                    name@,
                    template,
                    source,
                ),
                Err(error) => result == Err::<(), TemplateError>(error) && *final(self) == *old(
                    self,
                ),
            },
            old(self)@.valid() ==> final(self)@.valid(),
    {
        match compiled {
            Ok(template) => {
                self.register_template(name, template);
                if self.dev_mode {
                    self.template_sources.insert(name.to_owned(), Arc::new(source));
                }
                Ok(())
            },
            Err(error) => Err(error),
        }
    }

    /// Register a template from a source such as a path on file system
    ///
    /// If dev mode is enabled, the registry will keep reading the template file
    /// from file system every time it's visited.
    pub fn register_template_file(&mut self, name: &str, source: B::Source) -> (result: Result<
        (),
        TemplateError,
    >)
        ensures
            file_registered(old(self)@, name@, source, result, final(self)@),
            result is Err ==> *final(self) == *old(self),
            old(self)@.valid() ==> final(self)@.valid(),
    {
        let reply = self.compile_source(name, name, &source);
        self.register_loaded(name, source, reply)
    }

    /// Remove a template from the registry
    pub fn unregister_template(&mut self, name: &str)
        ensures
            final(self)@ == old(self)@.without_template(name@),
            old(self)@.valid() ==> final(self)@.valid(),
    {
        self.templates.remove(name);
        self.template_sources.remove(name);
        self.package_templates.remove(name);
        assert(old(self)@.template_sources == Map::<Seq<char>, B::Source>::empty()
            ==> self@.template_sources =~= Map::<Seq<char>, B::Source>::empty());
    }

    /// Register a helper
    ///
    /// The script file of a helper that was registered under the name stays: in dev
    /// mode it goes on being served until the helper is unregistered.
    pub fn register_helper(&mut self, name: &str, def: B::Helper)
        ensures
            final(self)@ == old(self)@.with_helper(name@, Helper::Custom(def)),
            old(self)@.valid() ==> final(self)@.valid(),
    {
        self.helpers.insert(name.to_owned(), Arc::new(Helper::Custom(def)));
    }

    /// Unregister a helper
    pub fn unregister_helper(&mut self, name: &str)
        ensures
            final(self)@ == old(self)@.without_helper(name@),
            old(self)@.valid() ==> final(self)@.valid(),
    {
        self.helpers.remove(name);
        self.script_sources.remove(name);
    }

    /// Register what has come of compiling a script as a helper.
    ///
    /// A script file that was registered under the name stays: in dev mode it goes on
    /// being served until the helper is unregistered.
    pub fn register_compiled_script(
        &mut self,
        name: &str,
        compiled: Result<rhai::AST, rhai::ParseError>,
    ) -> (result: Result<(), ScriptError>)
        ensures
            script_registered(old(self)@, name@, compiled, result, final(self)@),
            old(self)@.valid() ==> final(self)@.valid(),
    {
        match compiled {
            Ok(script) => {
                let helper = Helper::Script(ScriptHelper { script });
                self.helpers.insert(name.to_owned(), Arc::new(helper));
                Ok(())
            },
            Err(error) => Err(ScriptError::ParseError(error)),
        }
    }

    /// Register a [rhai](https://docs.rs/rhai/) script as handlebars helper
    ///
    /// Currently only simple helpers are supported. You can do computation or
    /// string formatting with rhai script.
    ///
    /// Helper parameters and hash are available in rhai script as array `params`
    /// and map `hash`. Example script:
    ///
    /// ```handlebars
    /// {{percent 0.34 label="%"}}
    /// ```
    ///
    /// ```rhai
    /// // percent.rhai
    /// let value = params[0];
    /// let label = hash["label"];
    ///
    /// (value * 100).to_string() + label
    /// ```
    ///
    /// A script file that was registered under the name stays: in dev mode it goes on
    /// being served until the helper is unregistered.
    pub fn register_script_helper(&mut self, name: &str, script: &str) -> (result: Result<
        (),
        ScriptError,
    >)
        ensures
            exists|outcome: Result<rhai::AST, rhai::ParseError>|
                {
                    &&& #[trigger] script_outcome(old(self)@.engine, script@, outcome)
                    &&& script_registered(old(self)@, name@, outcome, result, final(self)@)
                },
            old(self)@.valid() ==> final(self)@.valid(),
    {
        let compiled = compile_script(&self.engine, script);
        self.register_compiled_script(name, compiled)
    }

    /// Register a [rhai](https://docs.rs/rhai/) script from a source such as a file
    ///
    /// When dev mode is enable, script file is reloaded from original file
    /// every time it is called.
    pub fn register_script_helper_file(&mut self, name: &str, source: B::Source) -> (result: Result<
        (),
        ScriptError,
    >)
        ensures
            script_source_registered(old(self)@, name@, source, result, final(self)@),
            result matches Err(ScriptError::IoError(_)) ==> *final(self) == *old(self),
            old(self)@.valid() ==> final(self)@.valid(),
    {
        let loaded = self.backend.load(&source);
        assert(load_reply(self@.backend, source, loaded));
        match loaded {
            Ok(text) => {
                let compiled = compile_script(&self.engine, text.as_str());
                assert(script_outcome(old(self)@.engine, text@, compiled));
                let result = self.register_compiled_script(name, compiled);
                self.script_sources.insert(name.to_owned(), Arc::new(source));
                result
            },
            Err(err) => Err(ScriptError::IoError(err)),
        }
    }

    /// Borrow a read-only reference to current rhai engine
    pub fn engine(&self) -> (engine: &rhai::Engine)
        ensures
            *engine == self@.engine,
    {
        &self.engine
    }

    /// Set a custom rhai engine for the registry.
    ///
    /// *Note that* you need to set custom engine before adding scripts.
    pub fn set_engine(&mut self, engine: rhai::Engine)
        ensures
            final(self)@ == (RegistryView { engine, ..old(self)@ }),
            old(self)@.valid() ==> final(self)@.valid(),
    {
        self.engine = Arc::new(engine);
    }

    /// Register a decorator
    pub fn register_decorator(&mut self, name: &str, def: B::Decorator)
        ensures
            final(self)@ == (RegistryView {
                decorators: old(self)@.decorators.insert(name@, Decorator::Custom(def)),
                ..old(self)@
            }),
            old(self)@.valid() ==> final(self)@.valid(),
    {
        self.decorators.insert(name.to_owned(), Arc::new(Decorator::Custom(def)));
    }

    /// Register a new *escape fn* to be used from now on by this registry.
    pub fn register_escape_fn(&mut self, escape_fn: B::Escape)
        ensures
            final(self)@ == (RegistryView {
                escape_fn: EscapeFn::Custom(escape_fn),
                ..old(self)@
            }),
            old(self)@.valid() ==> final(self)@.valid(),
    {
        self.escape_fn = Arc::new(EscapeFn::Custom(escape_fn));
    }

    /// Restore the default *escape fn*.
    pub fn unregister_escape_fn(&mut self)
        ensures
            final(self)@ == (RegistryView { escape_fn: EscapeFn::Html, ..old(self)@ }),
            old(self)@.valid() ==> final(self)@.valid(),
    {
        self.escape_fn = Arc::new(EscapeFn::Html);
    }

    /// Get a reference to the current *escape fn*.
    pub fn get_escape_fn(&self) -> (escape_fn: &EscapeFn<B::Escape>)
        ensures
            *escape_fn == self@.escape_fn,
    {
        &self.escape_fn
    }

    /// Return `true` if a template is registered for the given name
    pub fn has_template(&self, name: &str) -> (registered: bool)
        ensures
            registered == self@.templates.contains_key(name@),
    {
        self.get_template(name).is_some()
    }

    /// Return a registered template,
    pub fn get_template(&self, name: &str) -> (template: Option<&Template>)
        ensures
            match template {
                Some(t) => self@.templates.contains_key(name@) && *t == self@.templates[name@],
                None => !self@.templates.contains_key(name@),
            },
    {
        match self.templates.get(name) {
            Some(template) => Some(template),
            None => None,
        }
    }

    /// Return all templates registered
    ///
    /// **Note that** in dev mode, the template returned from this method may
    /// not reflect its latest state. This method doesn't try to reload templates
    /// from its source.
    pub fn get_templates(&self) -> (templates: &NameMap<Arc<Template>>)
        ensures
            pointees(templates@) == self@.templates,
    {
        &self.templates
    }

    /// Unregister all templates
    pub fn clear_templates(&mut self)
        ensures
            final(self)@ == old(self)@.without_templates(),
            final(self)@.valid(),
    {
        self.templates.clear();
        self.template_sources.clear();
        self.package_templates.clear();
    }

    /// Return all helpers registered
    pub fn get_helpers(&self) -> (helpers: &NameMap<Arc<Helper<B::Helper>>>)
        ensures
            pointees(helpers@) == self@.helpers,
    {
        &self.helpers
    }

    /// Return all decorators registered
    pub fn get_decorators(&self) -> (decorators: &NameMap<Arc<Decorator<B::Decorator>>>)
        ensures
            pointees(decorators@) == self@.decorators,
    {
        &self.decorators
    }

    /// Return `true` if a helper is registered for the given name
    pub fn has_helper(&self, name: &str) -> (registered: bool)
        ensures
            registered == self@.helpers.contains_key(name@),
    {
        self.helpers.contains_key(name)
    }

    /// Return a registered decorator
    pub fn get_decorator(&self, name: &str) -> (decorator: Option<&Decorator<B::Decorator>>)
        ensures
            match decorator {
                Some(d) => self@.decorators.contains_key(name@) && *d == self@.decorators[name@],
                None => !self@.decorators.contains_key(name@),
            },
    {
        match self.decorators.get(name) {
            Some(decorator) => Some(decorator),
            None => None,
        }
    }
}

impl<B: Backend> Clone for Registry<B> {
    fn clone(&self) -> (registry: Self)
        ensures
            registry@ == self@,
    {
        Registry {
            backend: share(&self.backend),
            templates: self.templates.clone(),
            helpers: self.helpers.clone(),
            decorators: self.decorators.clone(),
            escape_fn: share(&self.escape_fn),
            strict_mode: self.strict_mode,
            dev_mode: self.dev_mode,
            recursive_lookup: self.recursive_lookup,
            prevent_indent: self.prevent_indent,
            package_templates: self.package_templates.clone(),
            engine: share(&self.engine),
            template_sources: self.template_sources.clone(),
            script_sources: self.script_sources.clone(),
        }
    }
}

impl<B: Backend + Default> Default for Registry<B> {
    fn default() -> (registry: Self)
        ensures
            call_ensures(B::default, (), registry@.backend),
            engine_is_new(registry@.engine),
            registry@ == RegistryView::initial(registry@.backend, registry@.engine),
            registry@.valid(),
    {
        Self::new(B::default())
    }
}

} // verus!
