//! The parts of the library, one by one.
use template_registry::directory::DirectoryEntry;
use template_registry::names::{order_names, NameOrder};
use template_registry::registry::package::sort_errors;
use template_registry::registry::render::{collected_text, into_string, serve, serve_script};
use template_registry::template::{
    collect_partial_refs, static_partial_name, INLINE_DECORATOR, PARTIAL_BLOCK,
};
use template_registry::{
    embedded_text, html_escape, no_escape, Backend, BuiltinHelper, DecoratorTemplate,
    DirectorySourceOptions, EscapeFn, Found, Helper, HelperTemplate, IoError, Json, NameMap,
    NameSet, PackageMember, Parameter, Path, Registry, RenderError, RenderErrorReason,
    ScriptError, Subexpression, Submission, Template, TemplateElement, TemplateError,
    TemplateErrorReason, TemplateOptions, TemplatePackageError, TemplateUpdateMemberError,
};

#[derive(Default)]
struct NoBackend;

impl Backend for NoBackend {
    type Source = u32;
    type Helper = &'static str;
    type Decorator = ();
    type Escape = fn(&str) -> String;

    fn compile(&self, text: &str, options: &TemplateOptions) -> Result<Template, TemplateError> {
        Ok(Template {
            name: options.name.clone(),
            elements: vec![TemplateElement::RawString(text.to_owned())],
            mapping: Vec::new(),
        })
    }

    fn load(&self, source: &u32) -> Result<String, IoError> {
        Ok(format!("source {}", source))
    }
}

/// Sources that hold scripts.
struct Scripts;

impl Backend for Scripts {
    type Source = u32;
    type Helper = &'static str;
    type Decorator = ();
    type Escape = fn(&str) -> String;

    fn compile(&self, text: &str, options: &TemplateOptions) -> Result<Template, TemplateError> {
        NoBackend.compile(text, options)
    }

    fn load(&self, source: &u32) -> Result<String, IoError> {
        Ok(source.to_string())
    }
}

fn plain(text: &str) -> Template {
    Template {
        name: None,
        elements: vec![TemplateElement::RawString(text.to_owned())],
        mapping: Vec::new(),
    }
}

fn of(elements: Vec<TemplateElement>) -> Template {
    Template { name: None, elements, mapping: Vec::new() }
}

fn raw(template: &Template) -> &str {
    match &template.elements[0] {
        TemplateElement::RawString(text) => text,
        _ => panic!("not raw"),
    }
}

fn literal(text: &str) -> Parameter {
    Parameter::Literal(Json::String(text.to_owned()))
}

fn call(name: Parameter, template: Option<Template>) -> Box<DecoratorTemplate> {
    Box::new(DecoratorTemplate {
        name,
        params: Vec::new(),
        hash: Vec::new(),
        template,
        indent: None,
    })
}

fn partial(name: &str) -> TemplateElement {
    TemplateElement::PartialExpression(call(Parameter::Name(name.to_owned()), None))
}

fn inline(name: &str, template: Template) -> TemplateElement {
    let mut d = call(Parameter::Name(INLINE_DECORATOR.to_owned()), Some(template));
    d.params.push(literal(name));
    TemplateElement::DecoratorBlock(d)
}

fn member(template: Template) -> PackageMember<u32> {
    PackageMember { template, source: None }
}

fn failure(name: Option<&str>, text: &str) -> TemplateError {
    TemplateError {
        reason: TemplateErrorReason::Syntax(text.to_owned()),
        template_name: name.map(str::to_owned),
        line_no: None,
        column_no: None,
    }
}

fn registry() -> Registry<NoBackend> {
    Registry::new(NoBackend)
}

fn names_of(set: &NameSet) -> Vec<&str> {
    (0..set.len()).map(|i| set.name_at(i)).collect()
}

// Names.

#[test]
fn names_are_ordered_by_their_characters() {
    assert!(order_names("a", "b") == NameOrder::Before);
    assert!(order_names("b", "a") == NameOrder::After);
    assert!(order_names("ab", "ab") == NameOrder::Same);
    assert!(order_names("a", "ab") == NameOrder::Before);
    assert!(order_names("", "a") == NameOrder::Before);
    assert!(order_names("", "") == NameOrder::Same);
    assert!(order_names("Z", "a") == NameOrder::Before);
    assert!(order_names("z", "\u{e9}") == NameOrder::Before);
    for a in ["", "a", "ab", "b", "\u{e9}", "\u{10000}", "\u{ffff}"] {
        for b in ["", "a", "ab", "b", "\u{e9}", "\u{10000}", "\u{ffff}"] {
            assert_eq!(order_names(a, b) == NameOrder::Before, a < b);
            assert_eq!(order_names(a, b) == NameOrder::Same, a == b);
        }
    }
}

#[test]
fn name_maps_hold_the_last_value_of_a_name() {
    let mut map = NameMap::new();
    assert_eq!(map.len(), 0);
    for (name, value) in [("m", 1), ("z", 2), ("a", 3), ("m", 4)] {
        map.insert(name.to_owned(), value);
    }
    assert_eq!(map.len(), 3);
    assert_eq!(map.get("m"), Some(&4));
    assert_eq!(map.get("q"), None);
    assert!(map.contains_key("a"));
    assert_eq!((map.name_at(0), map.value_at(0)), ("a", &3));
    assert_eq!((map.name_at(1), map.value_at(1)), ("m", &4));
    assert_eq!((map.name_at(2), map.value_at(2)), ("z", &2));
    map.remove("m");
    map.remove("not there");
    assert_eq!(map.len(), 2);
    assert!(!map.contains_key("m"));
    assert_eq!(map.pop(), Some(("z".to_owned(), 2)));
    map.clear();
    assert_eq!(map.pop(), None);
}

#[test]
fn name_sets_hold_a_name_once() {
    let mut set = NameSet::new();
    for name in ["b", "a", "b"] {
        set.insert(name.to_owned());
    }
    assert_eq!(names_of(&set), ["a", "b"]);
    let copy = set.clone();
    set.remove("a");
    assert!(!set.contains("a"));
    assert!(set.contains("b"));
    assert_eq!(names_of(&copy), ["a", "b"]);
    assert_eq!(set.pop(), Some("b".to_owned()));
    assert_eq!(set.pop(), None);
    let mut copy = copy;
    copy.clear();
    assert_eq!(copy.len(), 0);
}

// Text.

#[test]
fn html_escape_replaces_four_characters() {
    assert_eq!(html_escape("a&b\"c<d>e"), "a&amp;b&quot;c&lt;d&gt;e");
    assert_eq!(html_escape(""), "");
    assert_eq!(html_escape("plain 'text' = \u{e9}"), "plain 'text' = \u{e9}");
    assert_eq!(html_escape("&amp;"), "&amp;amp;");
    assert_eq!(html_escape("<<&"), format!("{}{}", html_escape("<"), html_escape("<&")));
    assert_ne!(html_escape("<"), html_escape("&lt;"));
}

#[test]
fn no_escape_changes_nothing() {
    assert_eq!(no_escape("a&b\"c<d>e"), "a&b\"c<d>e");
}

#[test]
fn escape_fns_are_applied() {
    let html: EscapeFn<fn(&str) -> String> = EscapeFn::Html;
    assert_eq!(html.apply("<"), "&lt;");
    let custom = EscapeFn::Custom(|s: &str| s.to_uppercase());
    assert_eq!(custom.apply("<a"), "<A");
}

#[test]
fn embedded_files_must_be_text() {
    assert_eq!(embedded_text(None), None);
    assert_eq!(embedded_text(Some(vec![0xe2, 0x82, 0xac])), Some("\u{20ac}".to_owned()));
    assert_eq!(embedded_text(Some(vec![0xe2, 0x82])), None);
    assert_eq!(embedded_text(Some(Vec::new())), Some(String::new()));
}

#[test]
fn rendered_bytes_become_a_string() {
    assert_eq!(into_string(Ok(b"abc".to_vec())).unwrap(), "abc");
    let error = into_string(Ok(vec![0xff])).unwrap_err();
    assert!(matches!(error.reason(), RenderErrorReason::Utf8Error));
    let failed = RenderError::from(RenderErrorReason::Other("no".to_owned()));
    let error = into_string(Err(failed)).unwrap_err();
    assert!(matches!(error.reason(), RenderErrorReason::Other(s) if s == "no"));
}

#[test]
fn written_bytes_that_are_no_text_are_left_out() {
    assert_eq!(collected_text(vec![0xc3, 0xa9]), "\u{e9}");
    assert_eq!(collected_text(vec![b'a', 0xff]), "");
    assert_eq!(collected_text(Vec::new()), "");
}

// Errors.

#[test]
fn errors_are_sorted_by_name_and_keep_their_order() {
    let sorted = sort_errors(vec![
        failure(Some("b"), "1"),
        failure(Some("a"), "2"),
        failure(None, "3"),
        failure(Some("b"), "4"),
        failure(Some("a"), "5"),
        failure(None, "6"),
    ]);
    let texts: Vec<&str> = sorted
        .iter()
        .map(|e| match &e.reason {
            TemplateErrorReason::Syntax(text) => text.as_str(),
            _ => panic!("no syntax error"),
        })
        .collect();
    assert_eq!(texts, ["3", "6", "2", "5", "1", "4"]);
}

#[test]
fn template_names_are_listed_once() {
    let compile = TemplatePackageError::Compile(vec![
        failure(None, ""),
        failure(Some("a"), ""),
        failure(Some("a"), ""),
        failure(Some("b"), ""),
    ]);
    assert_eq!(compile.template_names(), ["a", "b"]);
    let pair = |m: &str, p: &str| (m.to_owned(), p.to_owned());
    let unresolved =
        TemplatePackageError::UnresolvedPartials(vec![pair("m", "x"), pair("m", "y"), pair("n", "x")]);
    assert_eq!(unresolved.template_names(), ["m", "n"]);
}

#[test]
fn load_failures_carry_the_name() {
    let failed = IoError { message: "gone".to_owned() };
    let error = TemplateError::from((failed, "page".to_owned()));
    assert_eq!(error.name(), Some("page"));
    assert!(matches!(&error.reason, TemplateErrorReason::IoError(e) if e.message == "gone"));
    let error = RenderError::from(error);
    assert!(matches!(
        error.reason(),
        RenderErrorReason::TemplateError(e) if e.name() == Some("page")
    ));
    assert!(error.template_name.is_none());
}

// Directories.

fn entry(path: &str, stem: Option<&str>, components: &[&str]) -> DirectoryEntry {
    DirectoryEntry {
        path: path.to_owned(),
        file_stem: stem.map(str::to_owned),
        components: Some(components.iter().map(|c| (*c).to_owned()).collect()),
    }
}

#[test]
fn directory_options_ignore_hidden_and_temporary_files() {
    let mut options = DirectorySourceOptions::default();
    assert_eq!(options.tpl_extension, ".hbs");
    assert!(options.ignore_file(".a"));
    assert!(options.ignore_file("#a"));
    assert!(!options.ignore_file("a.#"));
    assert!(!options.ignore_file(""));
    assert!(options.ignored_as_hidden_file(".a"));
    assert!(!options.ignored_as_hidden_file("#a"));
    assert!(options.ignored_as_temporary_file("#a"));
    options.hidden = true;
    assert!(!options.ignore_file(".a"));
    assert!(options.ignore_file("#a"));
    options.temporary = true;
    assert!(!options.ignore_file("#a"));
}

#[test]
fn templates_are_named_by_their_relative_path() {
    let options = DirectorySourceOptions::default();
    let file = entry("templates/some/path/file.hbs", Some("file"), &["some", "path", "file.hbs"]);
    assert_eq!(options.template_name(&file).as_deref(), Some("some/path/file"));
    let other = entry("templates/file.txt", Some("file"), &["file.txt"]);
    assert_eq!(options.template_name(&other), None);
    let temporary = entry("templates/#file.hbs", Some("#file"), &["#file.hbs"]);
    assert_eq!(options.template_name(&temporary), None);
    let nameless = entry("templates/..hbs", None, &["x.hbs"]);
    assert_eq!(options.template_name(&nameless), None);
    let mut outside = entry("elsewhere/file.hbs", Some("file"), &[]);
    outside.components = None;
    assert_eq!(options.template_name(&outside), None);
}

#[test]
fn empty_extensions_take_every_file() {
    let mut options = DirectorySourceOptions::default();
    options.tpl_extension = String::new();
    let file = entry("d/a.txt", Some("a"), &["a.txt"]);
    assert_eq!(options.template_name(&file).as_deref(), Some("a.txt"));
}

// Partials.

#[test]
fn partial_names_are_fixed_or_dynamic() {
    assert_eq!(static_partial_name(&Parameter::Name("a".to_owned())).as_deref(), Some("a"));
    assert_eq!(static_partial_name(&Parameter::Path(Path::new("a/b"))).as_deref(), Some("a/b"));
    assert_eq!(static_partial_name(&literal("c")).as_deref(), Some("c"));
    assert_eq!(static_partial_name(&Parameter::Literal(Json::Bool(true))), None);
    let element = Box::new(TemplateElement::Comment(String::new()));
    assert_eq!(static_partial_name(&Parameter::Subexpression(Subexpression { element })), None);
}

#[test]
fn references_are_collected_from_nested_blocks() {
    let block = HelperTemplate {
        name: Parameter::Name("if".to_owned()),
        params: Vec::new(),
        hash: Vec::new(),
        block_param: None,
        template: Some(of(vec![partial("then"), inline("local", of(vec![partial("deep")]))])),
        inverse: Some(of(vec![partial("otherwise")])),
    };
    let template = of(vec![
        TemplateElement::HelperBlock(Box::new(block)),
        partial(PARTIAL_BLOCK),
        TemplateElement::PartialBlock(call(literal("layout"), Some(of(vec![partial("content")])))),
        partial("local"),
    ]);
    let mut refs = NameSet::new();
    let mut inlines = NameSet::new();
    collect_partial_refs(&template, &mut refs, &mut inlines);
    assert_eq!(
        names_of(&refs),
        ["content", "deep", "layout", "local", "otherwise", "then"]
    );
    assert_eq!(names_of(&inlines), ["local"]);
}

#[test]
fn only_inline_decorators_define_partials() {
    let mut other = call(Parameter::Name("other".to_owned()), None);
    other.params.push(literal("x"));
    let mut path = call(Parameter::Path(Path::new(INLINE_DECORATOR)), None);
    path.params.push(literal("y"));
    let bare = call(Parameter::Name(INLINE_DECORATOR.to_owned()), None);
    let mut named = call(Parameter::Name(INLINE_DECORATOR.to_owned()), None);
    named.params.push(Parameter::Name("z".to_owned()));
    let template = of(vec![
        TemplateElement::DecoratorExpression(other),
        TemplateElement::DecoratorExpression(path),
        TemplateElement::DecoratorBlock(bare),
        TemplateElement::DecoratorBlock(named),
    ]);
    let mut refs = NameSet::new();
    let mut inlines = NameSet::new();
    collect_partial_refs(&template, &mut refs, &mut inlines);
    assert_eq!(refs.len(), 0);
    assert_eq!(inlines.len(), 0);
}

// The registry.

#[test]
fn new_registries_hold_builtins_only() {
    let r: Registry<NoBackend> = Registry::default();
    assert_eq!(r.get_helpers().len(), 25);
    assert!(matches!(
        r.get_or_load_helper("trainCase"),
        Ok(Some(Found::Registered(Helper::Builtin(BuiltinHelper::TrainCase))))
    ));
    assert!(r.has_helper("each"));
    assert!(r.get_decorator("inline").is_some());
    assert_eq!(r.get_decorators().len(), 1);
    assert_eq!(r.get_templates().len(), 0);
    assert!(!r.strict_mode() && !r.dev_mode() && !r.recursive_lookup() && !r.prevent_indent());
    // an engine with the standard packages
    assert_eq!(r.engine().eval::<i64>("let a = [1, 2]; a.push(3); a.len()").unwrap(), 3);
}

#[test]
fn clones_are_equal_and_independent() {
    let mut r = registry();
    r.register_template("a", plain("A"));
    r.register_helper("h", "helper");
    r.set_strict_mode(true);
    let mut copy = r.clone();
    assert!(copy.strict_mode());
    assert_eq!(raw(copy.get_template("a").unwrap()), "A");
    assert_eq!(copy.get_helpers().len(), 26);
    copy.register_template("a", plain("B"));
    copy.unregister_helper("h");
    assert_eq!(raw(r.get_template("a").unwrap()), "A");
    assert_eq!(raw(copy.get_template("a").unwrap()), "B");
    assert!(r.has_helper("h"));
    assert!(!copy.has_helper("h"));
}

#[test]
fn compiled_templates_are_registered() {
    let mut r = registry();
    r.register_compiled("a", Ok(plain("A"))).unwrap();
    let error = r.register_compiled("b", Err(failure(Some("b"), "bad"))).unwrap_err();
    assert_eq!(error.name(), Some("b"));
    assert!(r.has_template("a"));
    assert!(!r.has_template("b"));
    assert_eq!(raw(r.get_template("a").unwrap()), "A");
}

#[test]
fn loaded_templates_are_tracked_in_dev_mode_only() {
    let mut r = registry();
    r.register_loaded("a", 1, Ok(plain("A"))).unwrap();
    r.set_dev_mode(true);
    r.register_loaded("b", 2, Ok(plain("B"))).unwrap();
    assert!(r.register_loaded("c", 3, Err(failure(None, "bad"))).is_err());
    let found = |name: &str| r.get_or_load_template(name).map(|t| raw(t.get()).to_owned());
    assert_eq!(found("a").unwrap(), "A");
    assert_eq!(found("b").unwrap(), "source 2");
    assert!(matches!(
        found("c").unwrap_err().reason(),
        RenderErrorReason::TemplateNotFound(name) if name == "c"
    ));
}

#[test]
fn registered_templates_take_the_place_of_a_tracked_file() {
    let mut r = registry();
    r.set_dev_mode(true);
    for name in ["a", "b", "c", "d"] {
        r.register_template_file(name, 7).unwrap();
    }
    r.register_template("a", plain("A"));
    r.register_template_string("b", "B").unwrap();
    r.register_partial("c", "C").unwrap();
    let served = |name: &str| raw(r.get_or_load_template(name).unwrap().get()).to_owned();
    assert_eq!(served("a"), "A");
    assert_eq!(served("b"), "B");
    assert_eq!(served("c"), "C");
    assert_eq!(served("d"), "source 7");
    assert_eq!(raw(r.get_template("a").unwrap()), "A");
}

#[test]
fn tracked_scripts_are_served_until_they_are_unregistered() {
    let mut r: Registry<Scripts> = Registry::new(Scripts);
    r.set_dev_mode(true);
    for name in ["kept", "custom", "text", "removed"] {
        r.register_script_helper_file(name, 5).unwrap();
    }
    r.register_helper("custom", "helper");
    r.register_script_helper("text", "1").unwrap();
    r.unregister_helper("removed");
    for name in ["kept", "custom", "text"] {
        match r.get_or_load_helper(name) {
            Ok(Some(Found::Loaded(Helper::Script(helper)))) => {
                assert_eq!(r.engine().eval_ast::<i64>(&helper.script).unwrap(), 5);
            }
            _ => panic!("no script"),
        }
    }
    assert!(matches!(r.get_or_load_helper("removed"), Ok(None)));
    assert!(!r.has_helper("removed"));

    r.unregister_helper("custom");
    r.register_helper("custom", "helper");
    assert!(matches!(
        r.get_or_load_helper("custom"),
        Ok(Some(Found::Registered(Helper::Custom("helper"))))
    ));

    // outside dev mode the registered helper is served
    r.set_dev_mode(false);
    match r.get_or_load_helper("text") {
        Ok(Some(Found::Registered(Helper::Script(helper)))) => {
            assert_eq!(r.engine().eval_ast::<i64>(&helper.script).unwrap(), 1);
        }
        _ => panic!("no script"),
    }
}

#[test]
fn names_leave_from_the_end_of_the_walk() {
    let mut map = NameMap::new();
    let mut set = NameSet::new();
    for name in ["b", "c", "a"] {
        map.insert(name.to_owned(), name.len());
        set.insert(name.to_owned());
    }
    assert_eq!(map.pop(), Some(("c".to_owned(), 1)));
    assert_eq!(set.pop(), Some("c".to_owned()));
    assert_eq!(names_of(&set), ["a", "b"]);
    assert_eq!((map.name_at(0), map.name_at(1)), ("a", "b"));
}

#[test]
fn templates_are_served_or_the_error_is_wrapped() {
    assert!(matches!(serve(Ok(plain("A"))), Ok(Found::Loaded(t)) if raw(&t) == "A"));
    assert!(matches!(
        serve(Err(failure(Some("a"), "bad"))),
        Err(e) if matches!(e.reason(), RenderErrorReason::TemplateError(t) if t.name() == Some("a"))
    ));
}

#[test]
fn scripts_are_served_or_the_error_is_wrapped() {
    let engine = rhai::Engine::new();
    let compiled = engine.compile("40 + 2");
    match serve_script::<()>(compiled) {
        Ok(Some(Found::Loaded(Helper::Script(helper)))) => {
            assert_eq!(engine.eval_ast::<i64>(&helper.script).unwrap(), 42);
        }
        _ => panic!("no script"),
    }
    assert!(matches!(
        serve_script::<()>(engine.compile("let")),
        Err(e) if matches!(
            e.reason(),
            RenderErrorReason::ScriptError(ScriptError::ParseError(_))
        )
    ));
}

#[test]
fn compiled_scripts_are_registered() {
    let mut r = registry();
    let script = r.engine().compile("1");
    r.register_compiled_script("one", script).unwrap();
    assert!(r.has_helper("one"));
    let script = r.engine().compile("(");
    assert!(r.register_compiled_script("two", script).is_err());
    assert!(!r.has_helper("two"));
}

#[test]
fn failed_script_files_keep_their_source() {
    let mut r = registry();
    // "source 1" is not a script
    assert!(matches!(
        r.register_script_helper_file("s", 1),
        Err(ScriptError::ParseError(_))
    ));
    assert!(!r.has_helper("s"));
    assert!(matches!(r.get_or_load_helper("s"), Ok(None)));
    r.set_dev_mode(true);
    assert!(r.get_or_load_helper("s").is_err());
}

#[test]
fn members_replace_the_previous_package() {
    let mut r = registry();
    r.register_template("outside", plain("O"));
    let mut first = NameMap::new();
    first.insert("a".to_owned(), member(of(vec![partial("outside")])));
    first.insert("b".to_owned(), member(plain("B")));
    r.commit_template_package(first, Vec::new()).unwrap();

    let mut second = NameMap::new();
    second.insert("c".to_owned(), member(of(vec![partial("b")])));
    assert_eq!(r.unresolved_partials(&second), [("c".to_owned(), "b".to_owned())]);
    assert!(r.commit_template_package(second, Vec::new()).is_err());
    assert!(r.has_template("a") && r.has_template("b") && !r.has_template("c"));

    let mut third = NameMap::new();
    third.insert("outside".to_owned(), member(plain("taken over")));
    r.commit_template_package(third, Vec::new()).unwrap();
    assert_eq!(r.get_templates().len(), 1);
    assert_eq!(raw(r.get_template("outside").unwrap()), "taken over");

    let failures = vec![failure(Some("x"), "bad")];
    assert!(matches!(
        r.commit_template_package(NameMap::new(), failures),
        Err(TemplatePackageError::Compile(_))
    ));
    assert!(r.has_template("outside"));
    r.commit_template_package(NameMap::new(), Vec::new()).unwrap();
    assert_eq!(r.get_templates().len(), 0);
}

#[test]
fn text_members_drop_stale_sources() {
    let mut r = registry();
    r.set_dev_mode(true);
    r.register_template_file("a", 1).unwrap();
    r.register_template_package(&[("a", "text")]).unwrap();
    assert_eq!(raw(r.get_or_load_template("a").unwrap().get()), "text");
    r.register_template_package_files(vec![("a", 2)]).unwrap();
    assert_eq!(raw(r.get_or_load_template("a").unwrap().get()), "source 2");
}

#[test]
fn updates_report_each_member() {
    let submission = |name: &str, compiled| Submission {
        name: name.to_owned(),
        source: None,
        compiled,
    };
    let mut r = registry();
    let error = r
        .apply_update(vec![
            submission("twice", Ok(plain(""))),
            submission("bad", Err(failure(Some("bad"), "bad"))),
            submission("twice", Err(failure(None, ""))),
            submission("open", Ok(of(vec![partial("nowhere")]))),
        ])
        .unwrap_err();
    assert_eq!(error.members.len(), 2);
    assert!(matches!(
        error.members.get("twice"),
        Some(TemplateUpdateMemberError::DuplicateName)
    ));
    assert!(matches!(
        error.members.get("bad"),
        Some(TemplateUpdateMemberError::Template(e)) if e.name() == Some("bad")
    ));
    let error = r
        .apply_update(vec![
            submission("z", Ok(of(vec![partial("q"), partial("p")]))),
            submission("a", Ok(of(vec![partial("q"), partial("z")]))),
        ])
        .unwrap_err();
    match error.members.get("z") {
        Some(TemplateUpdateMemberError::MissingDependency { name, referenced_by }) => {
            assert_eq!(name, "p");
            assert_eq!(referenced_by, &["z".to_owned()]);
        }
        other => panic!("unexpected: {other:?}"),
    }
    match error.members.get("a") {
        Some(TemplateUpdateMemberError::MissingDependency { name, referenced_by }) => {
            assert_eq!(name, "q");
            assert_eq!(referenced_by, &["a".to_owned(), "z".to_owned()]);
        }
        other => panic!("unexpected: {other:?}"),
    }
    let turned = r
        .apply_update(vec![
            submission("a", Ok(of(vec![partial("q"), partial("z")]))),
            submission("z", Ok(of(vec![partial("q"), partial("p")]))),
        ])
        .unwrap_err();
    assert_eq!(format!("{error:?}"), format!("{turned:?}"));
    assert_eq!(r.get_templates().len(), 0);
    r.apply_update(Vec::new()).unwrap();
    r.apply_update(vec![submission("ok", Ok(plain("ok")))]).unwrap();
    assert!(r.has_template("ok"));
}

#[test]
fn reports_do_not_depend_on_the_order_of_members() {
    let members = |names: [&str; 2]| {
        let mut members = NameMap::new();
        for name in names {
            members.insert(name.to_owned(), member(of(vec![partial("x")])));
        }
        members
    };
    let r = registry();
    assert_eq!(
        r.unresolved_partials(&members(["b", "a"])),
        r.unresolved_partials(&members(["a", "b"]))
    );
    let one = sort_errors(vec![failure(Some("b"), ""), failure(Some("a"), "")]);
    let other = sort_errors(vec![failure(Some("a"), ""), failure(Some("b"), "")]);
    let names = |errors: &[TemplateError]| {
        errors.iter().map(|e| e.name().unwrap().to_owned()).collect::<Vec<_>>()
    };
    assert_eq!(names(&one), names(&other));
    assert_eq!(names(&one), ["a", "b"]);
}
