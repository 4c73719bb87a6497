//! What each operation does to the registry, name by name.
use vstd::prelude::*;

use crate::backend::{compile_reply, load_reply, source_reply, Backend};
use crate::error::{IoError, ScriptError, TemplateError};
use crate::escape::EscapeFn;
use crate::helpers::{BuiltinHelper, Decorator, Helper};
use crate::registry::{
    builtin_helpers, file_registered, script_file_registered, script_registered,
    script_source_registered, string_registered, RegistryView,
};
use crate::script::{script_outcome, ScriptHelper};
use crate::template::Template;

verus! {

/// The name under which templates call a built-in helper.
pub open spec fn helper_name(helper: BuiltinHelper) -> Seq<char> {
    match helper {
        BuiltinHelper::If => "if"@,
        BuiltinHelper::Unless => "unless"@,
        BuiltinHelper::Each => "each"@,
        BuiltinHelper::With => "with"@,
        BuiltinHelper::Lookup => "lookup"@,
        BuiltinHelper::Raw => "raw"@,
        BuiltinHelper::Log => "log"@,
        BuiltinHelper::Eq => "eq"@,
        BuiltinHelper::Ne => "ne"@,
        BuiltinHelper::Gt => "gt"@,
        BuiltinHelper::Gte => "gte"@,
        BuiltinHelper::Lt => "lt"@,
        BuiltinHelper::Lte => "lte"@,
        BuiltinHelper::And => "and"@,
        BuiltinHelper::Or => "or"@,
        BuiltinHelper::Not => "not"@,
        BuiltinHelper::Len => "len"@,
        BuiltinHelper::LowerCamelCase => "lowerCamelCase"@,
        BuiltinHelper::UpperCamelCase => "upperCamelCase"@,
        BuiltinHelper::SnakeCase => "snakeCase"@,
        BuiltinHelper::KebabCase => "kebabCase"@,
        BuiltinHelper::ShoutySnakeCase => "shoutySnakeCase"@,
        BuiltinHelper::ShoutyKebabCase => "shoutyKebabCase"@,
        BuiltinHelper::TitleCase => "titleCase"@,
        BuiltinHelper::TrainCase => "trainCase"@,
    }
}

proof fn lemma_helper_names_differ(one: BuiltinHelper, other: BuiltinHelper)
    ensures
        one != other ==> helper_name(one) != helper_name(other),
{
    reveal_strlit("if");
    reveal_strlit("unless");
    reveal_strlit("each");
    reveal_strlit("with");
    reveal_strlit("lookup");
    reveal_strlit("raw");
    reveal_strlit("log");
    reveal_strlit("eq");
    reveal_strlit("ne");
    reveal_strlit("gt");
    reveal_strlit("gte");
    reveal_strlit("lt");
    reveal_strlit("lte");
    reveal_strlit("and");
    reveal_strlit("or");
    reveal_strlit("not");
    reveal_strlit("len");
    reveal_strlit("lowerCamelCase");
    reveal_strlit("upperCamelCase");
    reveal_strlit("snakeCase");
    reveal_strlit("kebabCase");
    reveal_strlit("shoutySnakeCase");
    reveal_strlit("shoutyKebabCase");
    reveal_strlit("titleCase");
    reveal_strlit("trainCase");
    let x = helper_name(one);
    let y = helper_name(other);
    if x == y {
        assert(x.len() == y.len());
        assert(x[0] == y[0] && x[1] == y[1]);
        if x.len() > 6 {
            assert(x[6] == y[6]);
        }
    }
}

/// A new registry holds every built-in helper under its name, and no other helper.
pub proof fn builtin_helpers_have_their_names<H>(helper: BuiltinHelper, name: Seq<char>)
    ensures
        builtin_helpers::<H>().contains_key(helper_name(helper)),
        builtin_helpers::<H>()[helper_name(helper)] == Helper::<H>::Builtin(helper),
        builtin_helpers::<H>().contains_key(name) ==> exists|h: BuiltinHelper|
            name == #[trigger] helper_name(h),
{
    lemma_helper_names_differ(helper, BuiltinHelper::If);
    lemma_helper_names_differ(helper, BuiltinHelper::Unless);
    lemma_helper_names_differ(helper, BuiltinHelper::Each);
    lemma_helper_names_differ(helper, BuiltinHelper::With);
    lemma_helper_names_differ(helper, BuiltinHelper::Lookup);
    lemma_helper_names_differ(helper, BuiltinHelper::Raw);
    lemma_helper_names_differ(helper, BuiltinHelper::Log);
    lemma_helper_names_differ(helper, BuiltinHelper::Eq);
    lemma_helper_names_differ(helper, BuiltinHelper::Ne);
    lemma_helper_names_differ(helper, BuiltinHelper::Gt);
    lemma_helper_names_differ(helper, BuiltinHelper::Gte);
    lemma_helper_names_differ(helper, BuiltinHelper::Lt);
    lemma_helper_names_differ(helper, BuiltinHelper::Lte);
    lemma_helper_names_differ(helper, BuiltinHelper::And);
    lemma_helper_names_differ(helper, BuiltinHelper::Or);
    lemma_helper_names_differ(helper, BuiltinHelper::Not);
    lemma_helper_names_differ(helper, BuiltinHelper::Len);
    lemma_helper_names_differ(helper, BuiltinHelper::LowerCamelCase);
    lemma_helper_names_differ(helper, BuiltinHelper::UpperCamelCase);
    lemma_helper_names_differ(helper, BuiltinHelper::SnakeCase);
    lemma_helper_names_differ(helper, BuiltinHelper::KebabCase);
    lemma_helper_names_differ(helper, BuiltinHelper::ShoutySnakeCase);
    lemma_helper_names_differ(helper, BuiltinHelper::ShoutyKebabCase);
    lemma_helper_names_differ(helper, BuiltinHelper::TitleCase);
    lemma_helper_names_differ(helper, BuiltinHelper::TrainCase);
    if builtin_helpers::<H>().contains_key(name) {
        let found = builtin_helpers::<H>()[name];
        assert(found is Builtin);
        assert(name == helper_name(found->Builtin_0));
    }
}

/// A new registry has no templates, sources or scripts, one decorator, the default
/// *escape fn* and all modes off.
pub proof fn new_registries_are_empty<B: Backend>(
    backend: B,
    engine: rhai::Engine,
    name: Seq<char>,
)
    ensures
        ({
            let registry = RegistryView::initial(backend, engine);
            &&& registry.backend == backend
            &&& registry.engine == engine
            &&& !registry.templates.contains_key(name)
            &&& !registry.template_sources.contains_key(name)
            &&& !registry.package.contains(name)
            &&& !registry.script_sources.contains_key(name)
            &&& registry.helpers == builtin_helpers::<B::Helper>()
            &&& registry.decorators.contains_key(name) <==> name == "inline"@
            &&& registry.decorators["inline"@] == Decorator::<B::Decorator>::Inline
            &&& registry.escape_fn == EscapeFn::<B::Escape>::Html
            &&& !registry.strict_mode
            &&& !registry.dev_mode
            &&& !registry.recursive_lookup
            &&& !registry.prevent_indent
        }),
{
}

/// A registered template is under its name, without a source. No other name changes, and
/// nothing but templates and sources does.
pub proof fn registering_a_template_changes_its_name_only<B: Backend>(
    before: RegistryView<B>,
    name: Seq<char>,
    template: Template,
    other: Seq<char>,
)
    ensures
        ({
            let after = before.with_template(name, template);
            &&& after.templates.contains_key(name)
            &&& after.templates[name] == template
            &&& !after.template_sources.contains_key(name)
            &&& other != name ==> {
                &&& after.templates.contains_key(other) == before.templates.contains_key(other)
                &&& after.templates[other] == before.templates[other]
                &&& after.template_sources.contains_key(other)
                    == before.template_sources.contains_key(other)
                &&& before.template_sources.contains_key(other) ==> after.template_sources[other]
                    == before.template_sources[other]
            }
            &&& after == (RegistryView {
                templates: after.templates,
                template_sources: after.template_sources,
                ..before
            })
        }),
{
}

/// A template that was read from a source is under its name, with the source in dev mode
/// and without one outside it. No other name changes, and nothing but templates and
/// sources does.
pub proof fn loading_a_template_changes_its_name_only<B: Backend>(
    before: RegistryView<B>,
    name: Seq<char>,
    template: Template,
    source: B::Source,
    other: Seq<char>,
)
    ensures
        ({
            let after = before.with_loaded(name, template, source);
            &&& after.templates.contains_key(name)
            &&& after.templates[name] == template
            &&& after.template_sources.contains_key(name) == before.dev_mode
            &&& before.dev_mode ==> after.template_sources[name] == source
            &&& other != name ==> {
                &&& after.templates.contains_key(other) == before.templates.contains_key(other)
                &&& after.templates[other] == before.templates[other]
                &&& after.template_sources.contains_key(other)
                    == before.template_sources.contains_key(other)
                &&& before.template_sources.contains_key(other) ==> after.template_sources[other]
                    == before.template_sources[other]
            }
            &&& after == (RegistryView {
                templates: after.templates,
                template_sources: after.template_sources,
                ..before
            })
        }),
{
}

/// A template that was removed is under no name, has no source and is part of no
/// package. No other name changes, and nothing but templates, sources and the package
/// does.
pub proof fn removing_a_template_changes_its_name_only<B: Backend>(
    before: RegistryView<B>,
    name: Seq<char>,
    other: Seq<char>,
)
    ensures
        ({
            let after = before.without_template(name);
            &&& !after.templates.contains_key(name)
            &&& !after.template_sources.contains_key(name)
            &&& !after.package.contains(name)
            &&& other != name ==> {
                &&& after.templates.contains_key(other) == before.templates.contains_key(other)
                &&& before.templates.contains_key(other) ==> after.templates[other]
                    == before.templates[other]
                &&& after.template_sources.contains_key(other)
                    == before.template_sources.contains_key(other)
                &&& before.template_sources.contains_key(other) ==> after.template_sources[other]
                    == before.template_sources[other]
                &&& after.package.contains(other) == before.package.contains(other)
            }
            &&& after == (RegistryView {
                templates: after.templates,
                template_sources: after.template_sources,
                package: after.package,
                ..before
            })
        }),
{
}

/// Removing all templates leaves no name, source or package, and changes nothing else.
pub proof fn clearing_leaves_everything_else<B: Backend>(
    before: RegistryView<B>,
    name: Seq<char>,
)
    ensures
        ({
            let after = before.without_templates();
            &&& !after.templates.contains_key(name)
            &&& !after.template_sources.contains_key(name)
            &&& !after.package.contains(name)
            &&& after == (RegistryView {
                templates: after.templates,
                template_sources: after.template_sources,
                package: after.package,
                ..before
            })
        }),
{
}

/// Turning dev mode on changes nothing else. Turning it off drops the sources of all
/// templates, and nothing else: not the templates, and not the sources of scripts.
pub proof fn turning_dev_mode_changes_sources_only<B: Backend>(
    before: RegistryView<B>,
    enabled: bool,
    name: Seq<char>,
)
    ensures
        ({
            let after = before.with_dev_mode(enabled);
            &&& after.dev_mode == enabled
            &&& after.template_sources.contains_key(name) <==> enabled
                && before.template_sources.contains_key(name)
            &&& enabled ==> after.template_sources[name] == before.template_sources[name]
            &&& after == (RegistryView {
                dev_mode: after.dev_mode,
                template_sources: after.template_sources,
                ..before
            })
        }),
{
}

/// A registered helper is under its name. No other helper changes, and nothing but
/// helpers does.
pub proof fn registering_a_helper_changes_its_name_only<B: Backend>(
    before: RegistryView<B>,
    name: Seq<char>,
    helper: Helper<B::Helper>,
    other: Seq<char>,
)
    ensures
        ({
            let after = before.with_helper(name, helper);
            &&& after.helpers.contains_key(name)
            &&& after.helpers[name] == helper
            &&& other != name ==> {
                &&& after.helpers.contains_key(other) == before.helpers.contains_key(other)
                &&& after.helpers[other] == before.helpers[other]
            }
            &&& after == (RegistryView { helpers: after.helpers, ..before })
        }),
{
}

/// A helper that was removed is under no name, and its script has no source. No other
/// helper changes, nor the source of its script, and nothing else does.
pub proof fn removing_a_helper_changes_its_name_only<B: Backend>(
    before: RegistryView<B>,
    name: Seq<char>,
    other: Seq<char>,
)
    ensures
        ({
            let after = before.without_helper(name);
            &&& !after.helpers.contains_key(name)
            &&& !after.script_sources.contains_key(name)
            &&& other != name ==> {
                &&& after.helpers.contains_key(other) == before.helpers.contains_key(other)
                &&& before.helpers.contains_key(other) ==> after.helpers[other]
                    == before.helpers[other]
                &&& after.script_sources.contains_key(other)
                    == before.script_sources.contains_key(other)
                &&& before.script_sources.contains_key(other) ==> after.script_sources[other]
                    == before.script_sources[other]
            }
            &&& after == (RegistryView {
                helpers: after.helpers,
                script_sources: after.script_sources,
                ..before
            })
        }),
{
}

/// A template string that is registered is compiled under its name, with the indent
/// option of the registry. What the compiler answers is registered, in every mode, or
/// its error is the result and nothing changes.
pub proof fn template_strings_are_compiled_and_registered<B: Backend>(
    before: RegistryView<B>,
    name: Seq<char>,
    text: Seq<char>,
    result: Result<(), TemplateError>,
    after: RegistryView<B>,
)
    requires
        string_registered(before, name, text, result, after),
    ensures
        match result {
            Ok(()) => {
                &&& after.templates.contains_key(name)
                &&& compile_reply(
                    before.backend,
                    text,
                    Some(name),
                    before.prevent_indent,
                    Ok::<Template, TemplateError>(after.templates[name]),
                )
                &&& after.templates.dom() == before.templates.dom().insert(name)
                &&& forall|other: Seq<char>|
                    other != name ==> #[trigger] after.templates[other] == before.templates[other]
                &&& after.template_sources == before.template_sources.remove(name)
                &&& after == (RegistryView {
                    templates: after.templates,
                    template_sources: after.template_sources,
                    ..before
                })
            },
            Err(error) => {
                &&& compile_reply(
                    before.backend,
                    text,
                    Some(name),
                    before.prevent_indent,
                    Err::<Template, TemplateError>(error),
                )
                &&& after == before
            },
        },
{
}

/// A template file that is registered is read and compiled under its name. What comes of
/// it is registered, in every mode, and tracked in dev mode; or its error is the result
/// and nothing changes.
pub proof fn template_files_are_read_and_registered<B: Backend>(
    before: RegistryView<B>,
    name: Seq<char>,
    source: B::Source,
    result: Result<(), TemplateError>,
    after: RegistryView<B>,
)
    requires
        file_registered(before, name, source, result, after),
    ensures
        match result {
            Ok(()) => {
                &&& after.templates.contains_key(name)
                &&& source_reply(
                    before.backend,
                    source,
                    name,
                    name,
                    before.prevent_indent,
                    Ok::<Template, TemplateError>(after.templates[name]),
                )
                &&& after.templates.dom() == before.templates.dom().insert(name)
                &&& forall|other: Seq<char>|
                    other != name ==> #[trigger] after.templates[other] == before.templates[other]
                &&& before.dev_mode ==> after.template_sources == before.template_sources.insert(
                    name,
                    source,
                )
                &&& !before.dev_mode ==> after.template_sources == before.template_sources.remove(
                    name,
                )
                &&& after == (RegistryView {
                    templates: after.templates,
                    template_sources: after.template_sources,
                    ..before
                })
            },
            Err(error) => {
                &&& source_reply(
                    before.backend,
                    source,
                    name,
                    name,
                    before.prevent_indent,
                    Err::<Template, TemplateError>(error),
                )
                &&& after == before
            },
        },
{
}

/// A script whose registration succeeds is registered as a helper, in every mode: it is
/// what the engine has compiled. A script that is none changes nothing.
pub proof fn scripts_are_compiled_and_registered<B: Backend>(
    before: RegistryView<B>,
    name: Seq<char>,
    outcome: Result<rhai::AST, rhai::ParseError>,
    result: Result<(), ScriptError>,
    after: RegistryView<B>,
)
    requires
        script_registered(before, name, outcome, result, after),
    ensures
        match result {
            Ok(()) => {
                &&& outcome is Ok
                &&& after.helpers.contains_key(name)
                &&& after.helpers[name] == Helper::<B::Helper>::Script(
                    ScriptHelper { script: outcome->Ok_0 },
                )
                &&& after.helpers.dom() == before.helpers.dom().insert(name)
                &&& forall|other: Seq<char>|
                    other != name ==> #[trigger] after.helpers[other] == before.helpers[other]
                &&& after == (RegistryView { helpers: after.helpers, ..before })
            },
            Err(error) => {
                &&& outcome is Err
                &&& error == ScriptError::ParseError(outcome->Err_0)
                &&& after == before
            },
        },
{
}

/// A script file whose registration succeeds is registered as a helper in every mode: it
/// is the compiled text of the source. The source is tracked whenever it could be read,
/// and no other name changes.
pub proof fn script_files_are_read_and_registered<B: Backend>(
    before: RegistryView<B>,
    name: Seq<char>,
    source: B::Source,
    result: Result<(), ScriptError>,
    after: RegistryView<B>,
)
    requires
        script_source_registered(before, name, source, result, after),
    ensures
        exists|loaded: Result<String, IoError>|
            {
                &&& #[trigger] call_ensures(B::load, (&before.backend, &source), loaded)
                &&& match result {
                    Ok(()) => {
                        &&& loaded is Ok
                        &&& after.helpers.contains_key(name)
                        &&& after.helpers[name] is Script
                        &&& script_outcome(
                            before.engine,
                            loaded->Ok_0@,
                            Ok::<rhai::AST, rhai::ParseError>(after.helpers[name]->Script_0.script),
                        )
                        &&& after.script_sources == before.script_sources.insert(name, source)
                    },
                    Err(ScriptError::ParseError(error)) => {
                        &&& loaded is Ok
                        &&& script_outcome(
                            before.engine,
                            loaded->Ok_0@,
                            Err::<rhai::AST, rhai::ParseError>(error),
                        )
                        &&& after.helpers == before.helpers
                        &&& after.script_sources == before.script_sources.insert(name, source)
                    },
                    Err(ScriptError::IoError(err)) => {
                        &&& loaded == Err::<String, IoError>(err)
                        &&& after == before
                    },
                }
            },
        result is Ok ==> after.helpers.dom() == before.helpers.dom().insert(name),
        forall|other: Seq<char>|
            other != name ==> #[trigger] after.helpers[other] == before.helpers[other],
        after == (RegistryView {
            helpers: after.helpers,
            script_sources: after.script_sources,
            ..before
        }),
{
    let loaded = choose|loaded: Result<String, IoError>|
        {
            &&& #[trigger] load_reply(before.backend, source, loaded)
            &&& match loaded {
                Ok(text) => exists|outcome: Result<rhai::AST, rhai::ParseError>|
                    {
                        &&& #[trigger] script_outcome(before.engine, text@, outcome)
                        &&& script_file_registered(
                            before,
                            name,
                            source,
                            outcome,
                            result,
                            after,
                        )
                    },
                Err(err) => result == Err::<(), ScriptError>(ScriptError::IoError(err)) && after
                    == before,
            }
        };
    assert(call_ensures(B::load, (&before.backend, &source), loaded));
}

} // verus!
