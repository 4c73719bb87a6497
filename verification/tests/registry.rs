//! The registry at work, with a small template engine and files that are held in memory.
use std::cell::RefCell;
use std::collections::BTreeMap;
use std::path::Path as FilePath;
use std::rc::Rc;

use serde_json::Value;
use template_registry::{
    Backend, BuiltinHelper, DecoratorTemplate, DirectoryEntry, DirectorySourceOptions, Found,
    Helper, HelperTemplate, IoError, Json, Parameter, Path, Registry, RenderContext, RenderError,
    RenderErrorReason, ScriptError, Subexpression, Template, TemplateElement, TemplateError,
    TemplateErrorReason, TemplateMapping, TemplateOptions, TemplatePackageError, TemplateSource,
    TemplateUpdateError, TemplateUpdateMemberError,
};

// Files.

#[derive(Clone, Default)]
struct Disk {
    files: Rc<RefCell<BTreeMap<String, String>>>,
}

impl Disk {
    fn write(&self, path: &str, text: &str) {
        self.files.borrow_mut().insert(path.to_owned(), text.to_owned());
    }
}

// Helpers of the tests.

enum TestHelper {
    Dummy,
    Shout,
    CheckMissing,
    GenMissing,
}

// The compiler.

#[derive(Clone, Default)]
struct TestBackend {
    disk: Disk,
}

impl Backend for TestBackend {
    type Source = String;
    type Helper = TestHelper;
    type Decorator = ();
    type Escape = Box<dyn Fn(&str) -> String>;

    fn compile(&self, text: &str, options: &TemplateOptions) -> Result<Template, TemplateError> {
        let mut parser = Parser { text, at: 0, options };
        let (template, end) = parser.block()?;
        match end {
            End::Text => Ok(template),
            End::Close(name) => Err(parser.error(&format!("unexpected close of {}", name))),
            End::Else => Err(parser.error("unexpected else")),
        }
    }

    fn load(&self, source: &String) -> Result<String, IoError> {
        match self.disk.files.borrow().get(source) {
            Some(text) => Ok(text.clone()),
            None => Err(IoError { message: format!("no file {}", source) }),
        }
    }
}

struct Parser<'a> {
    text: &'a str,
    at: usize,
    options: &'a TemplateOptions,
}

enum End {
    Text,
    Close(String),
    Else,
}

impl<'a> Parser<'a> {
    fn error(&self, message: &str) -> TemplateError {
        TemplateError {
            reason: TemplateErrorReason::Syntax(message.to_owned()),
            template_name: self.options.name.clone(),
            line_no: Some(1),
            column_no: Some(self.at + 1),
        }
    }

    fn block(&mut self) -> Result<(Template, End), TemplateError> {
        let mut template = Template {
            name: self.options.name.clone(),
            elements: Vec::new(),
            mapping: Vec::new(),
        };
        let mut raw = String::new();
        loop {
            let column = self.at + 1;
            let rest = &self.text[self.at..];
            if rest.is_empty() {
                push_raw(&mut template, &mut raw, column);
                return Ok((template, End::Text));
            }
            if rest.starts_with("\\\\{{") {
                raw.push('\\');
                self.at += 2;
                continue;
            }
            if rest.starts_with("\\{{") {
                let close = rest.find("}}").ok_or_else(|| self.error("no }}"))?;
                raw.push_str(&rest[1..close + 2]);
                self.at += close + 2;
                continue;
            }
            if !rest.starts_with("{{") {
                let c = rest.chars().next().unwrap();
                raw.push(c);
                self.at += c.len_utf8();
                continue;
            }
            push_raw(&mut template, &mut raw, column);
            let (open, shut) = if rest.starts_with("{{{") { ("{{{", "}}}") } else { ("{{", "}}") };
            let close = rest.find(shut).ok_or_else(|| self.error("no end of expression"))?;
            let inner = rest[open.len()..close].trim().to_owned();
            self.at += close + shut.len();
            let element = if open == "{{{" {
                TemplateElement::HtmlExpression(Box::new(call(&inner)))
            } else if let Some(html) = inner.strip_prefix('&') {
                TemplateElement::HtmlExpression(Box::new(call(html)))
            } else if let Some(comment) = inner.strip_prefix('!') {
                TemplateElement::Comment(comment.to_owned())
            } else if inner == "else" {
                return Ok((template, End::Else));
            } else if let Some(name) = inner.strip_prefix('/') {
                return Ok((template, End::Close(name.trim().to_owned())));
            } else if let Some(name) = inner.strip_prefix("#>") {
                let (body, _) = self.body(name.trim(), false)?;
                let mut partial = decorator(name);
                partial.template = Some(body);
                TemplateElement::PartialBlock(Box::new(partial))
            } else if let Some(name) = inner.strip_prefix("#*") {
                let mut d = decorator(name);
                let (body, _) = self.body(&head(name), false)?;
                d.template = Some(body);
                TemplateElement::DecoratorBlock(Box::new(d))
            } else if let Some(name) = inner.strip_prefix('#') {
                let (body, inverse) = self.body(&head(name), true)?;
                let mut h = call(name);
                h.template = Some(body);
                h.inverse = inverse;
                TemplateElement::HelperBlock(Box::new(h))
            } else if let Some(name) = inner.strip_prefix('>') {
                TemplateElement::PartialExpression(Box::new(decorator(name)))
            } else {
                TemplateElement::Expression(Box::new(call(&inner)))
            };
            template.elements.push(element);
            template.mapping.push(TemplateMapping { line: 1, column });
        }
    }

    fn body(
        &mut self,
        name: &str,
        with_else: bool,
    ) -> Result<(Template, Option<Template>), TemplateError> {
        let (body, end) = self.block()?;
        match end {
            End::Close(closed) if closed == name => Ok((body, None)),
            End::Else if with_else => {
                let (inverse, end) = self.block()?;
                match end {
                    End::Close(closed) if closed == name => Ok((body, Some(inverse))),
                    _ => Err(self.error("block is not closed")),
                }
            }
            _ => Err(self.error("block is not closed")),
        }
    }
}

fn push_raw(template: &mut Template, raw: &mut String, column: usize) {
    if !raw.is_empty() {
        template.elements.push(TemplateElement::RawString(std::mem::take(raw)));
        template.mapping.push(TemplateMapping { line: 1, column });
    }
}

fn head(text: &str) -> String {
    text.trim().split(' ').next().unwrap().to_owned()
}

fn words(text: &str) -> Vec<String> {
    let mut words = Vec::new();
    let mut word = String::new();
    let mut depth = 0;
    for c in text.trim().chars() {
        if c == '(' {
            depth += 1;
        }
        if c == ')' {
            depth -= 1;
        }
        if c == ' ' && depth == 0 {
            if !word.is_empty() {
                words.push(std::mem::take(&mut word));
            }
        } else {
            word.push(c);
        }
    }
    words.push(word);
    words
}

fn name_of(word: &str) -> Parameter {
    if word.starts_with('(') {
        let inner = &word[1..word.len() - 1];
        let element = TemplateElement::Expression(Box::new(call(inner)));
        return Parameter::Subexpression(Subexpression { element: Box::new(element) });
    }
    if word.chars().all(|c| c.is_alphanumeric() || c == '_' || c == '-' || c == '@') {
        Parameter::Name(word.to_owned())
    } else {
        Parameter::Path(Path::new(word))
    }
}

fn argument(word: &str) -> Parameter {
    if word.starts_with('"') {
        Parameter::Literal(Json::String(word.trim_matches('"').to_owned()))
    } else if word == "null" {
        Parameter::Literal(Json::Null)
    } else if word == "true" || word == "false" {
        Parameter::Literal(Json::Bool(word == "true"))
    } else if word.chars().all(|c| c.is_ascii_digit()) {
        Parameter::Literal(Json::Number(word.to_owned()))
    } else {
        name_of(word)
    }
}

fn call(text: &str) -> HelperTemplate {
    let words = words(text);
    HelperTemplate {
        name: name_of(&words[0]),
        params: words[1..].iter().map(|w| argument(w)).collect(),
        hash: Vec::new(),
        block_param: None,
        template: None,
        inverse: None,
    }
}

fn decorator(text: &str) -> DecoratorTemplate {
    let words = words(text);
    DecoratorTemplate {
        name: if words[0].starts_with('"') { argument(&words[0]) } else { name_of(&words[0]) },
        params: words[1..].iter().map(|w| argument(w)).collect(),
        hash: Vec::new(),
        template: None,
        indent: None,
    }
}

// The renderer.

type Reg = Registry<TestBackend>;

fn render_error(reason: RenderErrorReason) -> RenderError {
    RenderError::from(reason)
}

fn text_of(parameter: &Parameter) -> String {
    match parameter {
        Parameter::Name(name) => name.clone(),
        Parameter::Path(path) => path.raw().to_owned(),
        Parameter::Literal(Json::String(text)) => text.clone(),
        _ => String::new(),
    }
}

fn lookup(this: &Value, path: &str) -> Option<Value> {
    let mut value = this.clone();
    for step in path.split('.') {
        let key = step.trim_start_matches('[').trim_end_matches(']');
        if key == "this" || key.is_empty() {
            continue;
        }
        let next = match key.parse::<usize>() {
            Ok(index) => value.get(index).cloned(),
            Err(_) => value.get(key).cloned(),
        };
        value = next?;
    }
    Some(value)
}

fn evaluate(parameter: &Parameter, this: &Value) -> Option<Value> {
    match parameter {
        Parameter::Literal(Json::Null) => Some(Value::Null),
        Parameter::Literal(Json::Bool(b)) => Some(Value::from(*b)),
        Parameter::Literal(Json::Number(n)) => Some(Value::from(n.parse::<i64>().unwrap())),
        Parameter::Literal(Json::String(s)) => Some(Value::from(s.clone())),
        Parameter::Literal(_) => None,
        Parameter::Subexpression(sub) => match &*sub.element {
            TemplateElement::Expression(h) if text_of(&h.name) == "lookup" => {
                let of = evaluate(&h.params[0], this)?;
                let key = evaluate(&h.params[1], this)?;
                lookup(&of, key.as_str()?)
            }
            _ => None,
        },
        _ => match text_of(parameter).as_str() {
            "." => Some(this.clone()),
            path => lookup(this, path),
        },
    }
}

fn show(value: &Value) -> String {
    match value {
        Value::Null => String::new(),
        Value::String(s) => s.clone(),
        other => other.to_string(),
    }
}

fn truthy(value: &Option<Value>) -> bool {
    match value {
        None | Some(Value::Null) | Some(Value::Bool(false)) => false,
        Some(Value::String(s)) => !s.is_empty(),
        _ => true,
    }
}

fn run_script(r: &Reg, script: &rhai::AST, params: Vec<Option<Value>>) -> Result<String, RenderError> {
    let params: rhai::Array = params
        .iter()
        .map(|p| rhai::Dynamic::from(p.as_ref().and_then(|v| v.as_i64()).unwrap_or(0)))
        .collect();
    let mut scope = rhai::Scope::new();
    scope.push("params", params);
    match r.engine().eval_ast_with_scope::<rhai::Dynamic>(&mut scope, script) {
        Ok(result) => Ok(result.to_string()),
        Err(e) => Err(render_error(RenderErrorReason::Other(e.to_string()))),
    }
}

fn draw(
    r: &Reg,
    template: &Template,
    this: &Value,
    rc: &RenderContext<'_>,
    out: &mut String,
) -> Result<(), RenderError> {
    for (element, mapping) in template.elements.iter().zip(&template.mapping) {
        draw_element(r, element, this, rc, out).map_err(|mut e| {
            if e.column_no.is_none() {
                e.line_no = Some(mapping.line);
                e.column_no = Some(mapping.column);
            }
            e
        })?;
    }
    Ok(())
}

fn draw_element(
    r: &Reg,
    element: &TemplateElement,
    this: &Value,
    rc: &RenderContext<'_>,
    out: &mut String,
) -> Result<(), RenderError> {
    match element {
        TemplateElement::RawString(text) => out.push_str(text),
        TemplateElement::Expression(h) => {
            let text = draw_expression(r, h, this)?;
            out.push_str(&r.get_escape_fn().apply(&text));
        }
        TemplateElement::HtmlExpression(h) => out.push_str(&draw_expression(r, h, this)?),
        TemplateElement::HelperBlock(h) => draw_block(r, h, this, rc, out)?,
        TemplateElement::PartialExpression(d) | TemplateElement::PartialBlock(d) => {
            let name = match &d.name {
                Parameter::Subexpression(_) => evaluate(&d.name, this).map(|v| show(&v)),
                _ => Some(text_of(&d.name)),
            }
            .unwrap_or_default();
            let found = rc.dev_mode_templates.and_then(|t| t.get(&name)).map(|f| f.get());
            match found.or_else(|| r.get_template(&name)) {
                Some(partial) => draw(r, partial, this, rc, out)?,
                None => return Err(render_error(RenderErrorReason::TemplateNotFound(name))),
            }
        }
        _ => {}
    }
    Ok(())
}

fn draw_expression(r: &Reg, h: &HelperTemplate, this: &Value) -> Result<String, RenderError> {
    let name = text_of(&h.name);
    let params: Vec<Option<Value>> = h.params.iter().map(|p| evaluate(p, this)).collect();
    if let Some(helper) = r.get_or_load_helper(&name)? {
        return match helper.get() {
            Helper::Script(s) => run_script(r, &s.script, params),
            Helper::Custom(TestHelper::CheckMissing) => {
                assert!(params[0].is_none());
                Ok(String::new())
            }
            Helper::Custom(TestHelper::GenMissing) => missing(r, &name),
            _ => Ok(String::new()),
        };
    }
    match evaluate(&h.name, this) {
        Some(value) => Ok(show(&value)),
        None => missing(r, &name),
    }
}

fn missing(r: &Reg, name: &str) -> Result<String, RenderError> {
    if r.strict_mode() {
        Err(render_error(RenderErrorReason::MissingVariable(Some(name.to_owned()))))
    } else {
        Ok(String::new())
    }
}

fn draw_block(
    r: &Reg,
    h: &HelperTemplate,
    this: &Value,
    rc: &RenderContext<'_>,
    out: &mut String,
) -> Result<(), RenderError> {
    let name = text_of(&h.name);
    let helper = match r.get_or_load_helper(&name)? {
        Some(helper) => helper,
        None => return Err(render_error(RenderErrorReason::HelperNotFound(name))),
    };
    let body = h.template.as_ref().unwrap();
    match helper.get() {
        Helper::Builtin(BuiltinHelper::If) => {
            if truthy(&evaluate(&h.params[0], this)) {
                draw(r, body, this, rc, out)
            } else if let Some(inverse) = &h.inverse {
                draw(r, inverse, this, rc, out)
            } else {
                Ok(())
            }
        }
        Helper::Builtin(BuiltinHelper::Each) => {
            let list = evaluate(&h.params[0], this);
            for item in list.as_ref().and_then(|v| v.as_array()).unwrap_or(&Vec::new()) {
                draw(r, body, item, rc, out)?;
            }
            Ok(())
        }
        Helper::Custom(TestHelper::Shout) => {
            draw(r, body, this, rc, out)?;
            out.push('!');
            Ok(())
        }
        _ => draw(r, body, this, rc, out),
    }
}

fn drawn(
    r: &Reg,
    template: &Template,
    data: &Value,
    rc: RenderContext<'_>,
) -> Result<String, RenderError> {
    let mut out = String::new();
    draw(r, template, data, &rc, &mut out)?;
    Ok(out)
}

fn render(r: &Reg, name: &str, data: Value) -> Result<String, RenderError> {
    r.render(name, Ok(data), |r, t, c, rc| drawn(r, t, c, rc).map(String::into_bytes))
}

fn render_template(r: &Reg, text: &str, data: &Value) -> Result<String, RenderError> {
    r.render_template(text, Ok(data.clone()), |r, t, c, rc| {
        drawn(r, t, c, rc).map(String::into_bytes)
    })
}

// Data.

fn none() -> Value {
    Value::Null
}

fn object(fields: &[(&str, Value)]) -> Value {
    Value::Object(fields.iter().map(|(k, v)| ((*k).to_owned(), v.clone())).collect())
}

fn field(key: &str, text: &str) -> Value {
    object(&[(key, Value::from(text))])
}

fn registry() -> Reg {
    Registry::new(TestBackend::default())
}

fn text(source: &str) -> TemplateSource<String> {
    TemplateSource::String(source.to_owned())
}

fn file(path: &str) -> TemplateSource<String> {
    TemplateSource::File(path.to_owned())
}

fn member_names(err: &TemplateUpdateError) -> Vec<&str> {
    (0..err.members.len()).map(|i| err.members.name_at(i)).collect()
}

// Helpers, templates and modes.

#[test]
fn test_unregister_helper() {
    let mut r = registry();

    assert!(r
        .register_template_string("dumber", "{{#dumb}}\ndummy helper exists\n{{/dumb}}")
        .is_ok());

    r.register_helper("dumb", TestHelper::Dummy);

    assert!(render(&r, "dumber", none()).is_ok());

    r.unregister_helper("dumb");

    assert!(render(&r, "dumber", none()).is_err());
    assert!(matches!(
        render(&r, "dumber", none()).unwrap_err().reason(),
        RenderErrorReason::HelperNotFound(..)
    ));
}

#[test]
fn test_registry_operations() {
    let mut r = registry();

    assert!(r.register_template_string("index", "<h1></h1>").is_ok());

    let options = TemplateOptions { name: None, is_partial: false, prevent_indent: false };
    let tpl = r.backend().compile("<h2></h2>", &options).unwrap();
    r.register_template("index2", tpl);

    assert_eq!(r.get_templates().len(), 2);

    r.unregister_template("index");
    assert_eq!(r.get_templates().len(), 1);

    r.clear_templates();
    assert_eq!(r.get_templates().len(), 0);

    r.register_helper("dummy", TestHelper::Dummy);

    // built-in helpers plus 1
    let num_helpers = 7;
    let num_boolean_helpers = 10; // stuff like gt and lte
    let num_custom_helpers = 1; // dummy from above
    let string_helpers = 8;
    assert_eq!(
        r.get_helpers().len(),
        num_helpers + num_boolean_helpers + num_custom_helpers + string_helpers
    );
}

fn met(disk: &Disk, dir: &str, name: &str, content: &str) -> (DirectoryEntry, String) {
    let path = format!("{}/{}", dir, name);
    disk.write(&path, content);
    let file = FilePath::new(&path);
    let entry = DirectoryEntry {
        path: path.clone(),
        file_stem: file.file_stem().map(|s| s.to_string_lossy().into_owned()),
        components: file.strip_prefix(dir).ok().map(|below| {
            below.components().map(|c| c.as_os_str().to_string_lossy().into_owned()).collect()
        }),
    };
    (entry, path)
}

#[test]
fn test_register_templates_directory() {
    let mut r = registry();
    let disk = r.backend().disk.clone();
    {
        assert_eq!(r.get_templates().len(), 0);
        let entries = vec![
            met(&disk, "/one", "t1.hbs", "<h1>Hello {{world}}!</h1>"),
            met(&disk, "/one", "t2.hbs", "<h1>Hola {{world}}!</h1>"),
            met(&disk, "/one", "t3.hbs", "<h1>Hallo {{world}}!</h1>"),
            met(&disk, "/one", ".t4.hbs", "<h1>Hallo {{world}}!</h1>"),
        ];
        r.register_templates_directory(entries, DirectorySourceOptions::default()).unwrap();

        assert_eq!(r.get_templates().len(), 3);
        assert!(r.get_templates().contains_key("t1"));
        assert!(r.get_templates().contains_key("t2"));
        assert!(r.get_templates().contains_key("t3"));
        assert!(!r.get_templates().contains_key("t4"));
    }
    {
        let entries = vec![
            met(&disk, "/two", "t4.hbs", "<h1>Hello {{world}}!</h1>"),
            met(&disk, "/two", "t5.erb", "<h1>Hello {{% world %}}!</h1>"),
            met(&disk, "/two", "t6.html", "<h1>Hello world!</h1>"),
        ];
        r.register_templates_directory(entries, DirectorySourceOptions::default()).unwrap();

        assert_eq!(r.get_templates().len(), 4);
        assert!(r.get_templates().contains_key("t4"));
    }
    {
        let entries = vec![
            met(&disk, "/three", "french/t7.hbs", "<h1>Bonjour {{world}}!</h1>"),
            met(&disk, "/three", "portugese/t8.hbs", "<h1>Ola {{world}}!</h1>"),
            met(&disk, "/three", "italian/t9.hbs", "<h1>Ciao {{world}}!</h1>"),
        ];
        r.register_templates_directory(entries, DirectorySourceOptions::default()).unwrap();

        assert_eq!(r.get_templates().len(), 7);
        assert!(r.get_templates().contains_key("french/t7"));
        assert!(r.get_templates().contains_key("portugese/t8"));
        assert!(r.get_templates().contains_key("italian/t9"));
    }
    {
        let entries = vec![met(&disk, "/four/", "t10.hbs", "<h1>Bonjour {{world}}!</h1>")];
        r.register_templates_directory(entries, DirectorySourceOptions::default()).unwrap();

        assert_eq!(r.get_templates().len(), 8);
        assert!(r.get_templates().contains_key("t10"));
    }
    {
        let mut r = Registry::new(TestBackend { disk: disk.clone() });
        let entries = vec![met(&disk, "/five/", "t11.hbs.html", "<h1>Bonjour {{world}}!</h1>")];
        let mut options = DirectorySourceOptions::default();
        options.tpl_extension = ".hbs.html".to_owned();
        r.register_templates_directory(entries, options).unwrap();

        assert_eq!(r.get_templates().len(), 1);
        assert!(r.get_templates().contains_key("t11"));
    }
    {
        let mut r = Registry::new(TestBackend { disk: disk.clone() });
        assert_eq!(r.get_templates().len(), 0);
        let entries = vec![met(&disk, "/six", ".t12.hbs", "<h1>Hello {{world}}!</h1>")];
        let mut options = DirectorySourceOptions::default();
        options.hidden = true;
        r.register_templates_directory(entries, options).unwrap();

        assert_eq!(r.get_templates().len(), 1);
        assert!(r.get_templates().contains_key(".t12"));
    }
}

#[test]
fn test_render_to_write() {
    let mut r = registry();

    assert!(r.register_template_string("index", "<h1></h1>").is_ok());

    let mut sw: Vec<u8> = Vec::new();
    {
        let writer = &mut sw;
        r.render_to_write("index", Ok(none()), |r, t, c, rc| {
            writer.extend_from_slice(drawn(r, t, c, rc)?.as_bytes());
            Ok(())
        })
        .ok()
        .unwrap();
    }

    assert_eq!("<h1></h1>".to_string(), String::from_utf8(sw).unwrap());
}

#[test]
fn test_escape_fn() {
    let mut r = registry();

    let input = Value::from("\"<>&");

    r.register_template_string("test", "{{this}}").unwrap();

    assert_eq!(render(&r, "test", input.clone()).unwrap(), "&quot;&lt;&gt;&amp;");

    r.register_escape_fn(Box::new(|s| s.into()));

    assert_eq!(render(&r, "test", input.clone()).unwrap(), "\"<>&");

    r.unregister_escape_fn();

    assert_eq!(render(&r, "test", input).unwrap(), "&quot;&lt;&gt;&amp;");
}

#[test]
fn test_escape() {
    let r = registry();
    let data = field("hello", "world");

    assert_eq!(render_template(&r, r"\{{hello}}", &data).unwrap(), "{{hello}}");
    assert_eq!(render_template(&r, r" \{{hello}}", &data).unwrap(), " {{hello}}");
    assert_eq!(render_template(&r, r"\\{{hello}}", &data).unwrap(), r"\world");
}

#[test]
fn test_strict_mode() {
    let mut r = registry();
    assert!(!r.strict_mode());

    r.set_strict_mode(true);
    assert!(r.strict_mode());

    let data = field("the_only_key", "the_only_value");

    assert!(render_template(&r, "accessing the_only_key {{the_only_key}}", &data).is_ok());
    assert!(
        render_template(&r, "accessing non-exists key {{the_key_never_exists}}", &data).is_err()
    );

    let render_error =
        render_template(&r, "accessing non-exists key {{the_key_never_exists}}", &data)
            .unwrap_err();
    assert_eq!(render_error.column_no.unwrap(), 26);
    assert_eq!(
        match render_error.reason() {
            RenderErrorReason::MissingVariable(path) => path.as_ref().unwrap(),
            _ => unreachable!(),
        },
        "the_key_never_exists"
    );

    let data2 = Value::from(vec![1, 2, 3]);
    assert!(render_template(&r, "accessing valid array index {{this.[2]}}", &data2).is_ok());
    assert!(render_template(&r, "accessing invalid array index {{this.[3]}}", &data2).is_err());
    let render_error2 =
        render_template(&r, "accessing invalid array index {{this.[3]}}", &data2).unwrap_err();
    assert_eq!(render_error2.column_no.unwrap(), 31);
    assert_eq!(
        match render_error2.reason() {
            RenderErrorReason::MissingVariable(path) => path.as_ref().unwrap(),
            _ => unreachable!(),
        },
        "this.[3]"
    );
}

#[test]
fn test_strict_mode_in_helper() {
    let mut r = registry();
    r.set_strict_mode(true);

    r.register_helper("check_missing", TestHelper::CheckMissing);
    r.register_helper("generate_missing_value", TestHelper::GenMissing);

    let data = field("the_key_we_have", "the_value_we_have");
    assert!(
        render_template(&r, "accessing non-exists key {{the_key_we_dont_have}}", &data).is_err()
    );
    assert!(render_template(
        &r,
        "accessing non-exists key from helper {{check_missing the_key_we_dont_have}}",
        &data
    )
    .is_ok());
    assert!(render_template(
        &r,
        "accessing helper that generates missing value {{generate_missing_value}}",
        &data
    )
    .is_err());
}

#[test]
fn test_html_expression() {
    let reg = registry();
    assert_eq!(
        render_template(&reg, "{{{ a }}}", &field("a", "<b>bold</b>")).unwrap(),
        "<b>bold</b>"
    );
    assert_eq!(
        render_template(&reg, "{{ &a }}", &field("a", "<b>bold</b>")).unwrap(),
        "<b>bold</b>"
    );
}

#[test]
fn test_render_context() {
    let mut reg = registry();

    let data = Value::from(vec![0, 1, 2, 3]);

    assert_eq!(
        "0123",
        reg.render_template_with_context("{{#each this}}{{this}}{{/each}}", &data, |r, t, c, rc| {
            drawn(r, t, c, rc).map(String::into_bytes)
        })
        .unwrap()
    );

    reg.register_template_string("t0", "{{#each this}}{{this}}{{/each}}").unwrap();
    assert_eq!(
        "0123",
        reg.render_with_context("t0", &data, |r, t, c, rc| {
            drawn(r, t, c, rc).map(String::into_bytes)
        })
        .unwrap()
    );
}

#[test]
fn test_keys_starts_with_null() {
    let reg = registry();
    let data = object(&[
        ("optional", Value::from(true)),
        ("is_null", Value::from(true)),
        ("nullable", Value::from(true)),
        ("null", Value::from(true)),
        ("falsevalue", Value::from(true)),
    ]);
    assert_eq!(
        "optional: true --> true",
        render_template(
            &reg,
            "optional: {{optional}} --> {{#if optional }}true{{else}}false{{/if}}",
            &data
        )
        .unwrap()
    );
    assert_eq!(
        "is_null: true --> true",
        render_template(
            &reg,
            "is_null: {{is_null}} --> {{#if is_null }}true{{else}}false{{/if}}",
            &data
        )
        .unwrap()
    );
    assert_eq!(
        "nullable: true --> true",
        render_template(
            &reg,
            "nullable: {{nullable}} --> {{#if nullable }}true{{else}}false{{/if}}",
            &data
        )
        .unwrap()
    );
    assert_eq!(
        "falsevalue: true --> true",
        render_template(
            &reg,
            "falsevalue: {{falsevalue}} --> {{#if falsevalue }}true{{else}}false{{/if}}",
            &data
        )
        .unwrap()
    );
    assert_eq!(
        "null: true --> false",
        render_template(
            &reg,
            "null: {{null}} --> {{#if null }}true{{else}}false{{/if}}",
            &data
        )
        .unwrap()
    );
    assert_eq!(
        "null: true --> true",
        render_template(
            &reg,
            "null: {{null}} --> {{#if this.[null]}}true{{else}}false{{/if}}",
            &data
        )
        .unwrap()
    );
}

#[test]
fn test_dev_mode_template_reload() {
    let mut reg = registry();
    let disk = reg.backend().disk.clone();
    reg.set_dev_mode(true);
    assert!(reg.dev_mode());

    disk.write("t1.hbs", "<h1>Hello {{name}}!</h1>");
    reg.register_template_file("t1", "t1.hbs".to_owned()).unwrap();

    assert_eq!(render(&reg, "t1", field("name", "Alex")).unwrap(), "<h1>Hello Alex!</h1>");

    disk.write("t1.hbs", "<h1>Privet {{name}}!</h1>");

    assert_eq!(render(&reg, "t1", field("name", "Alex")).unwrap(), "<h1>Privet Alex!</h1>");
}

// Packages.

#[test]
fn test_template_package_mutual_reference() {
    let mut r = registry();

    // a template outside the package can be referenced by package members
    r.register_template_string("shared/footer", "(footer)").unwrap();

    r.register_template_package(&[
        ("page", "<html>{{> header}}|{{> content}}|{{> shared/footer}}</html>"),
        ("header", "HEADER"),
        // package members may reference each other, in any order
        ("content", "CONTENT[{{> aside}}]"),
        ("aside", "ASIDE"),
    ])
    .unwrap();

    assert_eq!(
        render(&r, "page", none()).unwrap(),
        "<html>HEADER|CONTENT[ASIDE]|(footer)</html>"
    );
    assert!(r.has_template("page"));
    assert!(r.has_template("aside"));
}

#[test]
fn test_template_package_compile_failure_rolls_back() {
    let mut r = registry();

    r.register_template_package(&[("index", "v1 {{who}}"), ("panel", "PANEL")]).unwrap();
    assert_eq!(render(&r, "index", field("who", "one")).unwrap(), "v1 one");

    // two broken members and one good one; the update must fail and
    // report *both* broken members in stable (sorted) order
    let err = r
        .register_template_package(&[
            ("z_broken", "{{#if}}{{/each}}"),
            ("a_broken", "{{#each}}{{/if}}"),
            ("index", "v2 {{who}}"),
            ("brand_new", "NEW"),
        ])
        .unwrap_err();
    assert_eq!(err.template_names(), vec!["a_broken", "z_broken"]);

    // the pre-call state is fully preserved: old members still render
    // the old content, and no new member leaked in
    assert_eq!(render(&r, "index", field("who", "one")).unwrap(), "v1 one");
    assert_eq!(render(&r, "panel", none()).unwrap(), "PANEL");
    assert!(!r.has_template("brand_new"));
    assert!(!r.has_template("a_broken"));
    assert!(!r.has_template("z_broken"));
}

#[test]
fn test_template_package_unresolved_partial_rolls_back() {
    let mut r = registry();

    r.register_template_package(&[("page", "v1 {{> sidebar}}"), ("sidebar", "SIDE")]).unwrap();

    // v2 drops "sidebar" but "page" still references it: the package is
    // no longer dependency-closed and must be rejected as a whole
    let err = r.register_template_package(&[("page", "v2 {{> sidebar}}")]).unwrap_err();
    assert_eq!(err.template_names(), vec!["page"]);
    assert!(matches!(err, TemplatePackageError::UnresolvedPartials(_)));

    assert_eq!(render(&r, "page", none()).unwrap(), "v1 SIDE");
    assert!(r.has_template("sidebar"));
}

#[test]
fn test_template_package_member_removal() {
    let mut r = registry();

    // templates outside the package are not touched by package updates
    r.register_template_string("standalone", "STANDALONE").unwrap();

    r.register_template_package(&[("keep", "KEEP"), ("drop", "DROP")]).unwrap();
    assert!(r.has_template("drop"));

    r.register_template_package(&[("keep", "KEEP2")]).unwrap();

    assert_eq!(render(&r, "keep", none()).unwrap(), "KEEP2");
    assert_eq!(render(&r, "standalone", none()).unwrap(), "STANDALONE");
    assert!(!r.has_template("drop"));
    assert!(matches!(
        render(&r, "drop", none()).unwrap_err().reason(),
        RenderErrorReason::TemplateNotFound(_)
    ));
}

#[test]
fn test_template_package_idempotent_replay() {
    let mut r = registry();

    let package = [("a", "A {{> b}}"), ("b", "B")];
    r.register_template_package(&package).unwrap();
    let first = render(&r, "a", none()).unwrap();
    let count = r.get_templates().len();

    // replaying the exact same content succeeds and changes nothing
    r.register_template_package(&package).unwrap();
    assert_eq!(render(&r, "a", none()).unwrap(), first);
    assert_eq!(r.get_templates().len(), count);

    // replaying after an unrelated render still works
    assert_eq!(render(&r, "a", none()).unwrap(), "A B");
    r.register_template_package(&package).unwrap();
    assert_eq!(render(&r, "a", none()).unwrap(), "A B");
}

#[test]
fn test_template_package_dev_mode_file_source() {
    let mut r = registry();
    let disk = r.backend().disk.clone();
    r.set_dev_mode(true);

    disk.write("page.hbs", "PAGE[{{> part}}]");
    disk.write("part.hbs", "PART-V1");

    r.register_template_package_files(vec![
        ("page", "page.hbs".to_owned()),
        ("part", "part.hbs".to_owned()),
    ])
    .unwrap();
    assert_eq!(render(&r, "page", none()).unwrap(), "PAGE[PART-V1]");

    // dev mode reloads package members from their files
    disk.write("part.hbs", "PART-V2");
    assert_eq!(render(&r, "page", none()).unwrap(), "PAGE[PART-V2]");

    // a package update that drops "part" must also drop its dev-mode
    // source: the old file must not resurrect the removed member
    r.register_template_package(&[("page", "PAGE-ONLY")]).unwrap();
    assert_eq!(render(&r, "page", none()).unwrap(), "PAGE-ONLY");
    assert!(!r.has_template("part"));
    assert!(matches!(
        render(&r, "part", none()).unwrap_err().reason(),
        RenderErrorReason::TemplateNotFound(_)
    ));

    // and a failed update leaves the dev-mode sources untouched
    disk.write("page.hbs", "PAGE[{{> part}}]");
    assert!(r.register_template_package(&[("page", "{{#if}}{{/each}}")]).is_err());
    assert_eq!(render(&r, "page", none()).unwrap(), "PAGE-ONLY");
}

// Scripts.

#[test]
fn test_script_helper() {
    let mut reg = registry();

    reg.register_script_helper("acc", "params.reduce(|sum, x| x + sum, 0)").unwrap();

    assert_eq!(render_template(&reg, "{{acc 1 2 3 4}}", &object(&[])).unwrap(), "10");
}

#[test]
fn test_script_helper_dev_mode() {
    let mut reg = registry();
    let disk = reg.backend().disk.clone();
    reg.set_dev_mode(true);

    disk.write("acc.rhai", "params.reduce(|sum, x| x + sum, 0)");
    reg.register_script_helper_file("acc", "acc.rhai".to_owned()).unwrap();

    assert_eq!(render_template(&reg, "{{acc 1 2 3 4}}", &object(&[])).unwrap(), "10");

    disk.write("acc.rhai", "params.reduce(|sum, x| x * sum, 1)");

    assert_eq!(render_template(&reg, "{{acc 1 2 3 4}}", &object(&[])).unwrap(), "24");
}

#[test]
fn test_engine_access() {
    let mut registry = registry();
    let mut eng = rhai::Engine::new();
    eng.set_max_string_size(1000);
    registry.set_engine(eng);

    assert_eq!(1000, registry.engine().max_string_size());
}

// Updates that report member by member.

#[test]
fn test_update_templates_cross_reference_package() {
    let mut hbs = registry();
    hbs.update_templates(vec![
        ("page", text("<html>{{> greeting}}</html>")),
        ("greeting", text("Hello {{name}} from {{> footer}}")),
        ("footer", text("the team")),
    ])
    .unwrap();

    assert_eq!(
        render(&hbs, "page", field("name", "world")).unwrap(),
        "<html>Hello world from the team</html>"
    );
    assert_eq!(
        render(&hbs, "greeting", field("name", "rust")).unwrap(),
        "Hello rust from the team"
    );
}

#[test]
fn test_update_templates_rollback_on_compile_failure() {
    let mut hbs = registry();
    hbs.update_templates(vec![
        ("page", text("<h1>{{> greeting}}</h1>")),
        ("greeting", text("Hello {{name}}")),
    ])
    .unwrap();

    let err = hbs
        .update_templates(vec![
            ("page", text("{{#if oops}}")),
            ("greeting", text("{{#each oops}}")),
            ("extra", text("fine")),
        ])
        .unwrap_err();

    assert_eq!(member_names(&err), vec!["greeting", "page"]);
    assert!(matches!(
        err.members.get("page").unwrap(),
        TemplateUpdateMemberError::Template(_)
    ));

    // old package is still fully visible
    assert_eq!(
        render(&hbs, "page", field("name", "world")).unwrap(),
        "<h1>Hello world</h1>"
    );
    assert_eq!(render(&hbs, "greeting", field("name", "world")).unwrap(), "Hello world");
    assert!(matches!(
        render(&hbs, "extra", object(&[])).unwrap_err().reason(),
        RenderErrorReason::TemplateNotFound(name) if name == "extra"
    ));
}

#[test]
fn test_update_templates_reports_missing_dependency() {
    let mut hbs = registry();
    let err = hbs
        .update_templates(vec![
            ("page", text("{{> header}} and {{> footer}}")),
            ("header", text("head")),
        ])
        .unwrap_err();

    assert_eq!(member_names(&err), vec!["page"]);
    match err.members.get("page").unwrap() {
        TemplateUpdateMemberError::MissingDependency { name, referenced_by } => {
            assert_eq!(name, "footer");
            assert_eq!(referenced_by, &["page".to_owned()]);
        }
        other => panic!("unexpected error: {other:?}"),
    }

    // nothing was committed
    assert!(matches!(
        render(&hbs, "page", object(&[])).unwrap_err().reason(),
        RenderErrorReason::TemplateNotFound(name) if name == "page"
    ));
}

#[test]
fn test_update_templates_dependency_missing_from_both_reported_stably() {
    let mut hbs = registry();
    // both members miss the same dependency; each must be listed
    let err = hbs
        .update_templates(vec![("a", text("{{> missing}}")), ("b", text("{{> missing}}"))])
        .unwrap_err();

    assert_eq!(member_names(&err), vec!["a", "b"]);
    for name in ["a", "b"] {
        match err.members.get(name).unwrap() {
            TemplateUpdateMemberError::MissingDependency { name: dependency, referenced_by } => {
                assert_eq!(dependency, "missing");
                assert_eq!(referenced_by, &["a".to_owned(), "b".to_owned()]);
            }
            other => panic!("unexpected error: {other:?}"),
        }
    }
}

#[test]
fn test_update_templates_removes_deleted_members() {
    let mut hbs = registry();
    hbs.update_templates(vec![
        ("page", text("{{> old_partial}}")),
        ("old_partial", text("old")),
        ("other", text("other")),
    ])
    .unwrap();

    // new package drops page and old_partial
    hbs.update_templates(vec![("other", text("other")), ("new_partial", text("new"))])
        .unwrap();

    assert_eq!(render(&hbs, "other", none()).unwrap(), "other");
    assert_eq!(render(&hbs, "new_partial", none()).unwrap(), "new");
    for removed in ["page", "old_partial"] {
        assert!(matches!(
            render(&hbs, removed, none()).unwrap_err().reason(),
            RenderErrorReason::TemplateNotFound(name) if name == removed
        ));
        assert!(!hbs.has_template(removed));
    }
}

#[test]
fn test_update_templates_is_idempotent_for_same_content() {
    let mut hbs = registry();
    let package = || {
        vec![
            ("page", text("<h1>{{> greeting}}</h1>")),
            ("greeting", text("Hello {{name}}")),
        ]
    };

    hbs.update_templates(package()).unwrap();
    let first = render(&hbs, "page", field("name", "world")).unwrap();

    // replay the exact same content: succeeds and renders identically
    hbs.update_templates(package()).unwrap();
    let second = render(&hbs, "page", field("name", "world")).unwrap();
    assert_eq!(first, second);
    assert_eq!(hbs.get_templates().len(), 2);
}

#[test]
fn test_update_templates_dev_mode_deleted_source_not_reloaded() {
    let mut hbs = registry();
    let disk = hbs.backend().disk.clone();
    hbs.set_dev_mode(true);

    disk.write("keep.hbs", "keep {{name}}");
    disk.write("drop.hbs", "drop {{name}}");

    hbs.update_templates(vec![("keep", file("keep.hbs")), ("drop", file("drop.hbs"))]).unwrap();
    assert_eq!(render(&hbs, "drop", field("name", "x")).unwrap(), "drop x");

    // mutate the old file on disk, then submit a package without "drop"
    disk.write("drop.hbs", "STALE {{name}}");
    hbs.update_templates(vec![("keep", file("keep.hbs"))]).unwrap();

    // deleted member must not be secretly served from its old source
    assert!(!hbs.has_template("drop"));
    assert!(matches!(
        render(&hbs, "drop", field("name", "x")).unwrap_err().reason(),
        RenderErrorReason::TemplateNotFound(name) if name == "drop"
    ));

    // remaining member still tracks its file
    disk.write("keep.hbs", "kept {{name}}");
    assert_eq!(render(&hbs, "keep", field("name", "y")).unwrap(), "kept y");
}

#[test]
fn test_update_templates_dev_mode_broken_package_does_not_touch_sources() {
    let mut hbs = registry();
    let disk = hbs.backend().disk.clone();
    hbs.set_dev_mode(true);

    disk.write("page.hbs", "v1 {{name}}");

    hbs.update_templates(vec![("page", file("page.hbs"))]).unwrap();

    // file does not exist: loading fails and the old package stays live
    let err = hbs
        .update_templates(vec![("page", file("page.hbs")), ("ghost", file("missing.hbs"))])
        .unwrap_err();
    assert_eq!(member_names(&err), vec!["ghost"]);
    assert!(matches!(
        err.members.get("ghost").unwrap(),
        TemplateUpdateMemberError::Template(_)
    ));

    assert_eq!(render(&hbs, "page", field("name", "x")).unwrap(), "v1 x");
    assert!(!hbs.has_template("ghost"));
}

#[test]
fn test_update_templates_rejects_duplicate_names() {
    let mut hbs = registry();
    let err = hbs
        .update_templates(vec![("a", text("one")), ("b", text("two")), ("a", text("three"))])
        .unwrap_err();
    assert_eq!(member_names(&err), vec!["a"]);
    assert!(matches!(
        err.members.get("a").unwrap(),
        TemplateUpdateMemberError::DuplicateName
    ));
    assert!(!hbs.has_template("a"));
    assert!(!hbs.has_template("b"));
}

#[test]
fn test_update_templates_accepts_path_buf_pairs() {
    let mut hbs = registry();
    hbs.backend().disk.write("t.hbs", "file {{name}}");

    hbs.update_templates(vec![("t", file("t.hbs"))]).unwrap();
    assert_eq!(render(&hbs, "t", field("name", "z")).unwrap(), "file z");
}

#[test]
fn test_update_templates_keeps_strict_mode_and_escape() {
    let mut hbs = registry();
    hbs.set_strict_mode(true);
    hbs.update_templates(vec![("t", text("{{missing}}"))]).unwrap();

    assert!(hbs.strict_mode());
    assert!(matches!(
        render(&hbs, "t", object(&[])).unwrap_err().reason(),
        RenderErrorReason::MissingVariable(Some(name)) if name == "missing"
    ));

    // default html escaping still applies
    hbs.update_templates(vec![("t", text("{{this}}"))]).unwrap();
    assert_eq!(render(&hbs, "t", Value::from("<b>")).unwrap(), "&lt;b&gt;");
}

#[test]
fn test_update_templates_preserves_helpers() {
    let mut hbs = registry();
    hbs.register_helper("shout", TestHelper::Shout);
    hbs.update_templates(vec![("t", text("{{#shout}}hi{{/shout}}"))]).unwrap();
    assert_eq!(render(&hbs, "t", none()).unwrap(), "hi!");

    // helper survives another package swap
    hbs.update_templates(vec![("t", text("x"))]).unwrap();
    hbs.update_templates(vec![("t", text("{{#shout}}yo{{/shout}}"))]).unwrap();
    assert_eq!(render(&hbs, "t", none()).unwrap(), "yo!");
}

// What the engine hands over, and what the registry answers.

#[test]
fn render_context_carries_root_name_and_lookup_mode() {
    let mut r = registry();
    r.set_recursive_lookup(true);
    assert!(r.recursive_lookup());
    r.register_template_string("t", "x").unwrap();
    let seen = r
        .render_to_write("t", Ok(none()), |_, t, _, rc| {
            Ok((
                t.elements.len(),
                rc.root_template.map(str::to_owned),
                rc.recursive_lookup,
                rc.dev_mode_templates.is_some(),
            ))
        })
        .unwrap();
    assert_eq!(seen, (1, Some("t".to_owned()), true, false));
}

#[test]
fn unnamed_templates_have_no_root_name() {
    let r = registry();
    let root = r
        .render_template_to_write("x", Ok(none()), |_, _, _, rc| {
            Ok(rc.root_template.map(str::to_owned))
        })
        .unwrap();
    assert_eq!(root, None);
    let text = r
        .render_template_with_context_to_write("a{{b}}", &field("b", "c"), |r, t, c, rc| {
            drawn(r, t, c, rc)
        })
        .unwrap();
    assert_eq!(text, "ac");
}

#[test]
fn dev_mode_hands_over_all_templates_with_a_source() {
    let mut r = registry();
    let disk = r.backend().disk.clone();
    r.set_dev_mode(true);
    disk.write("a", "A1");
    disk.write("b", "B1");
    r.register_template_file("a", "a".to_owned()).unwrap();
    r.register_template_file("b", "b".to_owned()).unwrap();
    r.register_template_string("c", "C").unwrap();
    disk.write("b", "B2");
    let names = |name: &str| {
        r.render_with_context_to_write(name, &none(), |_, _, _, rc| {
            let all = rc.dev_mode_templates.unwrap();
            Ok((0..all.len()).map(|i| all.name_at(i).to_owned()).collect::<Vec<_>>())
        })
        .unwrap()
    };
    assert_eq!(names("a"), ["a", "b"]);
    assert_eq!(names("c"), ["a", "b", "c"]);
    assert_eq!(render(&r, "b", none()).unwrap(), "B2");
    let text = render_template(&r, "{{> b}}", &none()).unwrap();
    assert_eq!(text, "B2");
}

#[test]
fn first_unreadable_source_fails_a_rendering_in_dev_mode() {
    let mut r = registry();
    let disk = r.backend().disk.clone();
    r.set_dev_mode(true);
    disk.write("a", "A");
    disk.write("b", "B");
    disk.write("c", "C");
    for name in ["a", "b", "c"] {
        r.register_template_file(name, name.to_owned()).unwrap();
    }
    disk.files.borrow_mut().remove("c");
    disk.write("b", "{{#if}}");
    let error = render(&r, "a", none()).unwrap_err();
    match error.reason() {
        RenderErrorReason::TemplateError(e) => assert_eq!(e.name(), Some("b")),
        other => panic!("unexpected error: {other:?}"),
    }
}

#[test]
fn disabling_dev_mode_drops_the_sources() {
    let mut r = registry();
    let disk = r.backend().disk.clone();
    r.set_dev_mode(true);
    disk.write("a", "A1");
    r.register_template_file("a", "a".to_owned()).unwrap();
    disk.write("a", "A2");
    r.set_dev_mode(false);
    assert_eq!(render(&r, "a", none()).unwrap(), "A1");
    r.set_dev_mode(true);
    assert_eq!(render(&r, "a", none()).unwrap(), "A1");
}

#[test]
fn unregistered_and_cleared_templates_are_gone_in_dev_mode() {
    let mut r = registry();
    r.backend().disk.write("a", "A");
    r.set_dev_mode(true);
    r.register_template_file("a", "a".to_owned()).unwrap();
    assert!(r.get_or_load_template_optional("a").is_some());
    r.unregister_template("a");
    assert!(r.get_or_load_template_optional("a").is_none());
    r.register_template_file("a", "a".to_owned()).unwrap();
    r.clear_templates();
    assert!(r.get_or_load_template_optional("a").is_none());
    assert!(matches!(
        r.get_or_load_template("a"),
        Err(e) if matches!(e.reason(), RenderErrorReason::TemplateNotFound(n) if n == "a")
    ));
}

#[test]
fn lookups_say_whether_a_template_was_read_again() {
    let mut r = registry();
    r.backend().disk.write("a", "A");
    r.register_template_file("a", "a".to_owned()).unwrap();
    assert!(matches!(r.get_or_load_template("a"), Ok(Found::Registered(_))));
    r.set_dev_mode(true);
    assert!(matches!(r.get_or_load_template("a"), Ok(Found::Registered(_))));
    r.register_template_file("a", "a".to_owned()).unwrap();
    assert!(matches!(r.get_or_load_template("a"), Ok(Found::Loaded(_))));
}

#[test]
fn unreadable_files_and_bad_templates_are_refused() {
    let mut r = registry();
    let error = r.register_template_file("a", "nowhere".to_owned()).unwrap_err();
    assert_eq!(error.name(), Some("a"));
    assert!(matches!(error.reason, TemplateErrorReason::IoError(_)));
    let error = r.register_partial("b", "{{#if}}").unwrap_err();
    assert_eq!(error.name(), Some("b"));
    assert!(matches!(error.reason, TemplateErrorReason::Syntax(_)));
    assert_eq!(r.get_templates().len(), 0);
}

#[test]
fn directory_stops_at_the_first_bad_file() {
    let mut r = registry();
    let disk = r.backend().disk.clone();
    let entries = vec![
        met(&disk, "/d", "a.hbs", "A"),
        met(&disk, "/d", "b.hbs", "{{#if}}"),
        met(&disk, "/d", "c.hbs", "C"),
    ];
    let error =
        r.register_templates_directory(entries, DirectorySourceOptions::default()).unwrap_err();
    assert_eq!(error.name(), Some("b"));
    assert!(r.has_template("a"));
    assert!(!r.has_template("b"));
    assert!(!r.has_template("c"));
}

#[test]
fn extensions_are_taken_off_as_they_are_written() {
    let mut r = registry();
    let disk = r.backend().disk.clone();
    let mut options = DirectorySourceOptions::default();
    options.tpl_extension = "hbs".to_owned();
    r.register_templates_directory(vec![met(&disk, "/e", "a.hbs", "A")], options).unwrap();
    assert!(r.has_template("a."));
}

#[test]
fn embedded_files_are_named_without_the_extension() {
    let mut r = registry();
    let disk = r.backend().disk.clone();
    disk.write("x/a.hbs", "A");
    disk.write("b.txt", "B");
    let files = || vec![
        ("x/a.hbs".to_owned(), "x/a.hbs".to_owned()),
        ("b.txt".to_owned(), "b.txt".to_owned()),
    ];
    r.register_embed_templates_with_extension(files(), ".hbs").unwrap();
    assert!(r.has_template("x/a"));
    assert_eq!(r.get_templates().len(), 1);
    r.register_embed_templates(files()).unwrap();
    assert!(r.has_template("x/a.hbs"));
    assert!(r.has_template("b.txt"));
    assert_eq!(r.get_templates().len(), 3);

    let missing = vec![("c.hbs".to_owned(), "c.hbs".to_owned())];
    let error = r.register_embed_templates(missing).unwrap_err();
    assert_eq!(error.name(), Some("Template load error"));
}

#[test]
fn bad_scripts_are_refused() {
    let mut r = registry();
    assert!(matches!(
        r.register_script_helper("bad", "let let"),
        Err(ScriptError::ParseError(_))
    ));
    assert!(!r.has_helper("bad"));
    assert!(matches!(
        r.register_script_helper_file("bad", "nowhere".to_owned()),
        Err(ScriptError::IoError(_))
    ));
    assert!(!r.has_helper("bad"));
}

#[test]
fn scripts_are_read_again_in_dev_mode_only() {
    let mut r = registry();
    let disk = r.backend().disk.clone();
    disk.write("s", "params[0] + 1");
    r.register_script_helper_file("s", "s".to_owned()).unwrap();
    disk.write("s", "let let");
    assert_eq!(render_template(&r, "{{s 1}}", &none()).unwrap(), "2");
    assert!(matches!(r.get_or_load_helper("s"), Ok(Some(Found::Registered(_)))));
    r.set_dev_mode(true);
    assert!(matches!(
        render_template(&r, "{{s 1}}", &none()).unwrap_err().reason(),
        RenderErrorReason::ScriptError(ScriptError::ParseError(_))
    ));
    disk.files.borrow_mut().remove("s");
    assert!(matches!(
        render_template(&r, "{{s 1}}", &none()).unwrap_err().reason(),
        RenderErrorReason::ScriptError(ScriptError::IoError(_))
    ));
    assert!(matches!(r.get_or_load_helper("nothing"), Ok(None)));
}

#[test]
fn inline_partials_and_dynamic_names_need_no_template() {
    let mut r = registry();
    r.register_template_package(&[
        ("inline", "{{#*inline \"own\"}}x{{/inline}}{{#if a}}{{> own}}{{/if}}"),
        ("dynamic", "{{> (lookup . \"which\")}}"),
        ("block", "{{#> inline}}{{> @partial-block}}{{/inline}}"),
    ])
    .unwrap();
    // the inline partial of one member is not there for another
    let error = r
        .register_template_package(&[
            ("inline", "{{#*inline \"own\"}}x{{/inline}}"),
            ("other", "{{#each a}}{{> own}}{{else}}{{> \"quoted\"}}{{/each}}"),
        ])
        .unwrap_err();
    match error {
        TemplatePackageError::UnresolvedPartials(list) => assert_eq!(
            list,
            [
                ("other".to_owned(), "own".to_owned()),
                ("other".to_owned(), "quoted".to_owned()),
            ]
        ),
        other => panic!("unexpected error: {other:?}"),
    }
}

#[test]
fn broken_and_dangling_packages_change_nothing() {
    let mut r = registry();
    r.register_template_package(&[
        ("layout", "<body>{{> content}}</body>"),
        ("content", "hello {{who}}"),
    ])
    .unwrap();
    let page = |r: &Reg| render(r, "layout", field("who", "world")).unwrap();
    assert_eq!(page(&r), "<body>hello world</body>");
    assert!(r.register_template_package(&[("layout", "{{#if}}{{/each}}")]).is_err());
    assert_eq!(page(&r), "<body>hello world</body>");
    assert!(r.register_template_package(&[("page", "{{> missing}}")]).is_err());
    assert_eq!(page(&r), "<body>hello world</body>");
    assert!(!r.has_template("page"));
}

#[test]
fn package_files_outside_dev_mode_are_read_once() {
    let mut r = registry();
    let disk = r.backend().disk.clone();
    disk.write("greeting.hbs", "hi {{who}}");
    r.register_template_package_files(vec![("greeting", "greeting.hbs".to_owned())]).unwrap();
    disk.write("greeting.hbs", "changed");
    assert_eq!(render(&r, "greeting", field("who", "world")).unwrap(), "hi world");
}

#[test]
fn packages_of_members_in_any_order_agree() {
    let mut one = registry();
    let mut other = registry();
    one.register_template_package(&[("a", "{{> b}}"), ("b", "B")]).unwrap();
    other.register_template_package(&[("b", "B"), ("a", "{{> b}}")]).unwrap();
    assert_eq!(render(&one, "a", none()).unwrap(), "B");
    assert_eq!(render(&other, "a", none()).unwrap(), "B");
    let bad = [("x", "{{#if}}"), ("a", "{{"), ("m", "fine")];
    let turned = [("m", "fine"), ("a", "{{"), ("x", "{{#if}}")];
    let first = one.register_template_package(&bad).unwrap_err();
    let second = other.register_template_package(&turned).unwrap_err();
    assert_eq!(first.template_names(), ["a", "x"]);
    assert_eq!(format!("{first:?}"), format!("{second:?}"));
    let open = [("y", "{{> q}}{{> p}}"), ("c", "{{> p}}")];
    let open_turned = [("c", "{{> p}}"), ("y", "{{> q}}{{> p}}")];
    let first = one.register_template_package(&open).unwrap_err();
    let second = other.register_template_package(&open_turned).unwrap_err();
    assert_eq!(format!("{first:?}"), format!("{second:?}"));
}

#[test]
fn package_files_are_registered_as_their_texts() {
    let mut files = registry();
    let mut texts = registry();
    let disk = files.backend().disk.clone();
    let accepted = [("a", "{{> b}}"), ("b", "B")];
    let broken = [("a", "{{#if}}"), ("b", "{{")];
    let open = [("a", "{{> nowhere}}"), ("b", "B")];
    for package in [accepted, broken, open] {
        for (name, text) in package {
            disk.write(name, text);
        }
        let sources = package.iter().map(|(name, _)| (*name, (*name).to_owned())).collect();
        let result = files.register_template_package_files(sources);
        let text_result = texts.register_template_package(&package);
        assert_eq!(format!("{result:?}"), format!("{text_result:?}"));
        assert_eq!(
            format!("{:?}", files.get_templates()),
            format!("{:?}", texts.get_templates())
        );
    }
}

#[test]
fn partials_are_registered_as_templates() {
    let mut one = registry();
    let mut other = registry();
    for text in ["{{#if", "text"] {
        let result = one.register_partial("p", text);
        let other_result = other.register_template_string("p", text);
        assert_eq!(format!("{result:?}"), format!("{other_result:?}"));
        assert_eq!(
            format!("{:?}", one.get_templates()),
            format!("{:?}", other.get_templates())
        );
    }
    assert_eq!(render(&one, "p", none()).unwrap(), "text");
}

#[test]
fn rendered_strings_are_the_bytes_that_are_written() {
    let mut r = registry();
    r.register_template_string("t", "<{{a}}>").unwrap();
    for name in ["t", "missing"] {
        let renderer = |r: &Reg, t: &Template, c: &Value, rc: RenderContext<'_>| {
            drawn(r, t, c, rc).map(String::into_bytes)
        };
        let string = r.render(name, Ok(field("a", "\u{e9}")), renderer);
        let written = r.render_to_write(name, Ok(field("a", "\u{e9}")), renderer);
        match (string, written) {
            (Ok(string), Ok(written)) => assert_eq!(string.into_bytes(), written),
            (Err(a), Err(b)) => {
                assert!(matches!(
                    a.reason(),
                    RenderErrorReason::TemplateNotFound(n) if n == "missing"
                ));
                assert!(matches!(
                    b.reason(),
                    RenderErrorReason::TemplateNotFound(n) if n == "missing"
                ));
            }
            _ => panic!("only one of them failed"),
        }
    }
}

#[test]
fn unregistered_script_files_are_gone_in_dev_mode() {
    let mut r = registry();
    r.backend().disk.write("s", "params[0]");
    r.set_dev_mode(true);
    r.register_script_helper_file("s", "s".to_owned()).unwrap();
    r.register_template_string("t", "{{#s 1}}x{{/s}}").unwrap();
    assert!(render(&r, "t", none()).is_ok());
    r.unregister_helper("s");
    assert!(!r.has_helper("s"));
    assert!(matches!(
        render(&r, "t", none()).unwrap_err().reason(),
        RenderErrorReason::HelperNotFound(name) if name == "s"
    ));
}

#[test]
fn registered_templates_are_served_whatever_was_there() {
    let mut r = registry();
    let disk = r.backend().disk.clone();
    r.set_dev_mode(true);
    disk.write("t", "from the file");
    r.register_template_file("t", "t".to_owned()).unwrap();
    disk.files.borrow_mut().remove("t");
    assert!(render(&r, "t", none()).is_err());
    r.register_template_string("t", "from the text").unwrap();
    assert_eq!(render(&r, "t", none()).unwrap(), "from the text");
}

#[test]
fn updates_of_members_in_any_order_agree() {
    let mut one = registry();
    let mut other = registry();
    one.update_templates(vec![("a", text("{{> b}}")), ("b", text("B"))]).unwrap();
    other.update_templates(vec![("b", text("B")), ("a", text("{{> b}}"))]).unwrap();
    assert_eq!(render(&one, "a", none()).unwrap(), render(&other, "a", none()).unwrap());
    let first = one.update_templates(vec![("x", text("{{#if}}")), ("a", text("{{"))]).unwrap_err();
    let second =
        other.update_templates(vec![("a", text("{{")), ("x", text("{{#if}}"))]).unwrap_err();
    assert_eq!(member_names(&first), ["a", "x"]);
    assert_eq!(member_names(&first), member_names(&second));
}

#[test]
fn unresolved_references_are_listed_in_order() {
    let mut r = registry();
    let error = r
        .register_template_package(&[
            ("z", "{{> y}}{{> x}}"),
            ("a", "{{> z}}{{> gone}}"),
        ])
        .unwrap_err();
    assert_eq!(error.template_names(), vec!["a", "z"]);
    match error {
        TemplatePackageError::UnresolvedPartials(list) => {
            let pairs: Vec<(&str, &str)> =
                list.iter().map(|(m, p)| (m.as_str(), p.as_str())).collect();
            assert_eq!(pairs, [("a", "gone"), ("z", "x"), ("z", "y")]);
        }
        other => panic!("unexpected error: {other:?}"),
    }
}

#[test]
fn last_of_two_members_under_one_name_counts() {
    let mut r = registry();
    r.register_template_package(&[("a", "first"), ("a", "second")]).unwrap();
    assert_eq!(render(&r, "a", none()).unwrap(), "second");
}

#[test]
fn previous_members_do_not_resolve_references() {
    let mut r = registry();
    r.register_template_package(&[("old", "OLD")]).unwrap();
    assert!(r.register_template_package(&[("new", "{{> old}}")]).is_err());
    assert!(r.has_template("old"));
    // unregistered members are no longer part of the package
    r.unregister_template("old");
    r.register_template_string("old", "STANDALONE").unwrap();
    r.register_template_package(&[("new", "{{> old}}")]).unwrap();
    assert_eq!(render(&r, "new", none()).unwrap(), "STANDALONE");
}

#[test]
fn update_reports_the_first_missing_dependency() {
    let mut r = registry();
    let error = r.update_templates(vec![("a", text("{{> z}}{{> b}}"))]).unwrap_err();
    match error.members.get("a").unwrap() {
        TemplateUpdateMemberError::MissingDependency { name, referenced_by } => {
            assert_eq!(name, "b");
            assert_eq!(referenced_by, &["a".to_owned()]);
        }
        other => panic!("unexpected error: {other:?}"),
    }
}

#[test]
fn package_files_that_cannot_be_read_are_reported_by_name() {
    let mut r = registry();
    r.backend().disk.write("good", "GOOD");
    let error = r
        .register_template_package_files(vec![
            ("z", "nowhere".to_owned()),
            ("good", "good".to_owned()),
            ("b", "nowhere".to_owned()),
        ])
        .unwrap_err();
    assert_eq!(error.template_names(), vec!["b", "z"]);
    assert_eq!(r.get_templates().len(), 0);
}

#[test]
fn failed_contexts_and_bad_templates_fail_a_rendering() {
    let r = registry();
    let failed = || Err::<Value, _>(render_error(RenderErrorReason::SerdeError("no".to_owned())));
    let error = r
        .render("nothing", failed(), |r, t, c, rc| drawn(r, t, c, rc).map(String::into_bytes))
        .unwrap_err();
    assert!(matches!(error.reason(), RenderErrorReason::SerdeError(_)));
    let error =
        r.render_template("{{#if}}", failed(), |_, _, _, _| Ok(Vec::new())).unwrap_err();
    assert!(matches!(error.reason(), RenderErrorReason::SerdeError(_)));
    let error = render_template(&r, "{{#if}}", &none()).unwrap_err();
    assert!(matches!(error.reason(), RenderErrorReason::TemplateError(_)));
}

#[test]
fn rendered_bytes_must_be_text() {
    let mut r = registry();
    r.register_template_string("t", "x").unwrap();
    let text = r.render("t", Ok(none()), |_, _, _, _| Ok(vec![0xc3, 0xa9])).unwrap();
    assert_eq!(text, "\u{e9}");
    let error = r.render("t", Ok(none()), |_, _, _, _| Ok(vec![0xc3])).unwrap_err();
    assert!(matches!(error.reason(), RenderErrorReason::Utf8Error));
    let error = r
        .render_template_with_context("x", &none(), |_, _, _, _| Ok(vec![0xc3]))
        .unwrap_err();
    assert!(matches!(error.reason(), RenderErrorReason::Utf8Error));
}

#[test]
fn collected_renderings_are_empty_where_they_are_no_text() {
    let r = registry();
    let text = r.render_template("x", Ok(none()), |_, _, _, _| Ok(vec![0xc3, 0xa9])).unwrap();
    assert_eq!(text, "\u{e9}");
    let text = r.render_template("x", Ok(none()), |_, _, _, _| Ok(vec![0xc3])).unwrap();
    assert_eq!(text, "");
    let failed = || render_error(RenderErrorReason::Other("no".to_owned()));
    let error = r.render_template("x", Ok(none()), |_, _, _, _| Err(failed())).unwrap_err();
    assert!(matches!(error.reason(), RenderErrorReason::Other(s) if s == "no"));
}

#[test]
fn renderers_are_handed_the_registry() {
    let mut r = registry();
    r.register_template_string("t", "x").unwrap();
    r.set_strict_mode(true);
    r.register_helper("mine", TestHelper::Dummy);
    r.register_escape_fn(Box::new(|s| s.to_uppercase()));
    let seen = r
        .render_to_write("t", Ok(none()), |r, _, _, _| {
            let escaped = r.get_escape_fn().apply("<a");
            Ok((r.strict_mode(), r.has_helper("mine"), escaped))
        })
        .unwrap();
    assert_eq!(seen, (true, true, "<A".to_owned()));
}

#[test]
fn prevent_indent_reaches_the_compiler() {
    struct Recorder {
        seen: RefCell<Vec<(Option<String>, bool, bool)>>,
    }
    impl Backend for Recorder {
        type Source = ();
        type Helper = ();
        type Decorator = u8;
        type Escape = fn(&str) -> String;
        fn compile(&self, _: &str, options: &TemplateOptions) -> Result<Template, TemplateError> {
            self.seen.borrow_mut().push((
                options.name.clone(),
                options.is_partial,
                options.prevent_indent,
            ));
            Ok(Template { name: None, elements: Vec::new(), mapping: Vec::new() })
        }
        fn load(&self, _: &()) -> Result<String, IoError> {
            Ok(String::new())
        }
    }
    let mut r = Registry::new(Recorder { seen: RefCell::new(Vec::new()) });
    r.register_template_string("a", "").unwrap();
    r.set_prevent_indent(true);
    assert!(r.prevent_indent());
    r.register_partial("b", "").unwrap();
    r.render_template_with_context_to_write("", &(), |_, _, _, _| Ok(())).unwrap();
    assert_eq!(
        *r.backend().seen.borrow(),
        [
            (Some("a".to_owned()), false, false),
            (Some("b".to_owned()), false, true),
            (None, false, true),
        ]
    );
    assert!(r.get_decorator("inline").is_some());
    assert!(r.get_decorator("mine").is_none());
    r.register_decorator("mine", 7);
    assert!(matches!(
        r.get_decorator("mine"),
        Some(template_registry::Decorator::Custom(7))
    ));
}
