//! Compiled templates, and the partials that a template refers to.
use vstd::prelude::*;

use crate::names::{order_names, NameOrder, NameSet};

verus! {

/// The name under which a partial block renders the content it was given.
pub const PARTIAL_BLOCK: &'static str = "@partial-block";

/// The decorator that defines a partial inside a template.
pub const INLINE_DECORATOR: &'static str = "inline";

/// A literal JSON value in a template. A number is kept as it was written.
#[derive(Debug)]
pub enum Json {
    Null,
    Bool(bool),
    Number(String),
    String(String),
    Array(Vec<Json>),
    Object(Vec<(String, Json)>),
}

/// A path expression, as it was written.
#[derive(Debug)]
pub struct Path {
    raw: String,
}

impl View for Path {
    type V = Seq<char>;

    closed spec fn view(&self) -> Seq<char> {
        self.raw@
    }
}

impl Path {
    /// A path from its text.
    pub fn new(raw: &str) -> (path: Path)
        ensures
            path@ == raw@,
    {
        Path { raw: raw.to_owned() }
    }

    /// The text of the path.
    pub fn raw(&self) -> (raw: &str)
        ensures
            raw@ == self@,
    {
        self.raw.as_str()
    }
}

/// A name or an argument in an expression.
#[derive(Debug)]
pub enum Parameter {
    Name(String),
    Path(Path),
    Literal(Json),
    Subexpression(Subexpression),
}

/// An expression in parentheses, computed when the template is rendered.
#[derive(Debug)]
pub struct Subexpression {
    pub element: Box<TemplateElement>,
}

/// The names that a block gives to its context: `as |item|`, `as |item index|`.
#[derive(Debug)]
pub enum BlockParam {
    Single(Parameter),
    Pair(Parameter, Parameter),
}

/// A helper call, with its blocks if it has any.
#[derive(Debug)]
pub struct HelperTemplate {
    pub name: Parameter,
    pub params: Vec<Parameter>,
    pub hash: Vec<(String, Parameter)>,
    pub block_param: Option<BlockParam>,
    pub template: Option<Template>,
    pub inverse: Option<Template>,
}

/// A decorator or partial call, with its block if it has one.
#[derive(Debug)]
pub struct DecoratorTemplate {
    pub name: Parameter,
    pub params: Vec<Parameter>,
    pub hash: Vec<(String, Parameter)>,
    pub template: Option<Template>,
    pub indent: Option<String>,
}

/// One piece of a template.
#[derive(Debug)]
pub enum TemplateElement {
    RawString(String),
    HtmlExpression(Box<HelperTemplate>),
    Expression(Box<HelperTemplate>),
    HelperBlock(Box<HelperTemplate>),
    DecoratorExpression(Box<DecoratorTemplate>),
    DecoratorBlock(Box<DecoratorTemplate>),
    PartialExpression(Box<DecoratorTemplate>),
    PartialBlock(Box<DecoratorTemplate>),
    Comment(String),
}

/// Where an element stands in the text of its template.
#[derive(Clone, Copy, Debug)]
pub struct TemplateMapping {
    pub line: usize,
    pub column: usize,
}

/// A compiled template.
#[derive(Debug)]
pub struct Template {
    pub name: Option<String>,
    pub elements: Vec<TemplateElement>,
    pub mapping: Vec<TemplateMapping>,
}

/// What a template is compiled with.
#[derive(Debug)]
pub struct TemplateOptions {
    pub name: Option<String>,
    pub is_partial: bool,
    pub prevent_indent: bool,
}

impl TemplateOptions {
    /// The name that the template is given.
    pub open spec fn name_spec(self) -> Option<Seq<char>> {
        match self.name {
            Some(name) => Some(name@),
            None => None,
        }
    }
}

/// The name of a partial that a parameter fixes before any data is known.
pub open spec fn fixed_partial_name(param: Parameter) -> Option<Seq<char>> {
    match param {
        Parameter::Name(name) => Some(name@),
        Parameter::Path(path) => Some(path@),
        Parameter::Literal(Json::String(name)) => Some(name@),
        _ => None,
    }
}

/// Extract a statically known partial name from a parameter, if any.
///
/// Dynamic names (subexpressions like `{{> (lookup . "which")}}`) cannot be
/// resolved without render-time data and return `None`.
pub fn static_partial_name(param: &Parameter) -> (name: Option<String>)
    ensures
        match name {
            Some(n) => fixed_partial_name(*param) == Some(n@),
            None => fixed_partial_name(*param) is None,
        },
{
    match param {
        Parameter::Name(name) => Some(name.clone()),
        Parameter::Path(path) => Some(path.raw().to_owned()),
        Parameter::Literal(Json::String(name)) => Some(name.clone()),
        _ => None,
    }
}

/// The partial that a partial call itself refers to.
pub open spec fn called_partial(call: DecoratorTemplate) -> Set<Seq<char>> {
    match fixed_partial_name(call.name) {
        Some(name) => if name == PARTIAL_BLOCK@ {
            Set::empty()
        } else {
            Set::empty().insert(name)
        },
        None => Set::empty(),
    }
}

/// The partial that a decorator itself defines inline.
pub open spec fn defined_inline(decorator: DecoratorTemplate) -> Set<Seq<char>> {
    if decorator.name matches Parameter::Name(name) && name@ == INLINE_DECORATOR@
        && decorator.params@.len() > 0 {
        match decorator.params@[0] {
            Parameter::Literal(Json::String(partial)) => Set::empty().insert(partial@),
            _ => Set::empty(),
        }
    } else {
        Set::empty()
    }
}

/// The two ways in which a template speaks of a partial.
pub enum Mention {
    /// The template calls the partial by a fixed name.
    Called,
    /// The template defines the partial inline.
    Defined,
}

/// The partials that an element itself speaks of, without its blocks.
pub open spec fn mentioned_here(how: Mention, element: TemplateElement) -> Set<Seq<char>> {
    match (how, element) {
        (Mention::Called, TemplateElement::PartialExpression(call)) => called_partial(*call),
        (Mention::Called, TemplateElement::PartialBlock(call)) => called_partial(*call),
        (Mention::Defined, TemplateElement::DecoratorExpression(d)) => defined_inline(*d),
        (Mention::Defined, TemplateElement::DecoratorBlock(d)) => defined_inline(*d),
        _ => Set::empty(),
    }
}

/// The partials that a template speaks of, its nested blocks included.
pub open spec fn mentioned(how: Mention, template: Template) -> Set<Seq<char>>
    decreases template,
{
    mentioned_among(how, template.elements@)
}

/// The partials that some elements speak of, their nested blocks included.
pub open spec fn mentioned_among(how: Mention, elements: Seq<TemplateElement>) -> Set<Seq<char>>
    decreases elements,
{
    if elements.len() == 0 {
        Set::empty()
    } else {
        mentioned_among(how, elements.drop_last()) + mentioned_by(how, elements.last())
    }
}

/// The partials that an element speaks of, its nested blocks included.
pub open spec fn mentioned_by(how: Mention, element: TemplateElement) -> Set<Seq<char>>
    decreases element,
{
    mentioned_here(how, element) + match element {
        TemplateElement::PartialExpression(d) => mentioned_in_block(how, d.template),
        TemplateElement::PartialBlock(d) => mentioned_in_block(how, d.template),
        TemplateElement::DecoratorExpression(d) => mentioned_in_block(how, d.template),
        TemplateElement::DecoratorBlock(d) => mentioned_in_block(how, d.template),
        TemplateElement::HelperBlock(h) => mentioned_in_block(how, h.template)
            + mentioned_in_block(how, h.inverse),
        _ => Set::empty(),
    }
}

/// The partials that a block speaks of, if it is there.
pub open spec fn mentioned_in_block(how: Mention, block: Option<Template>) -> Set<Seq<char>>
    decreases block,
{
    match block {
        Some(template) => mentioned(how, template),
        None => Set::empty(),
    }
}

/// The partials that must be registered for a template to render: those that it
/// calls by a fixed name and does not define itself.
pub open spec fn required_partials(template: Template) -> Set<Seq<char>> {
    mentioned(Mention::Called, template).difference(mentioned(Mention::Defined, template))
}

/// Collect statically resolvable partial references of a template into
/// `refs`, and names of inline partials defined within the same template
/// into `inlines`.
///
/// Inline partials (`{{#*inline "name"}}`) are render-context locals, so a
/// reference to one of them inside the defining template does not require a
/// registry-level template of that name.
pub fn collect_partial_refs(template: &Template, refs: &mut NameSet, inlines: &mut NameSet)
    ensures
        final(refs)@ == old(refs)@ + mentioned(Mention::Called, *template),
        final(inlines)@ == old(inlines)@ + mentioned(Mention::Defined, *template),
    decreases template,
{
    let mut i: usize = 0;
    while i < template.elements.len()
        invariant
            i <= template.elements@.len(),
            refs@ == old(refs)@ + mentioned_among(
                Mention::Called,
                template.elements@.take(i as int),
            ),
            inlines@ == old(inlines)@ + mentioned_among(
                Mention::Defined,
                template.elements@.take(i as int),
            ),
        decreases template.elements@.len() - i,
    {
        let element = &template.elements[i];
        let ghost before = template.elements@.take(i as int);
        let ghost after = template.elements@.take(i + 1);
        match element {
            TemplateElement::PartialExpression(d) | TemplateElement::PartialBlock(d) => {
                if let Some(name) = static_partial_name(&d.name) {
                    if order_names(name.as_str(), PARTIAL_BLOCK) != NameOrder::Same {
                        refs.insert(name);
                    }
                }
                if let Some(inner) = &d.template {
                    collect_partial_refs(inner, refs, inlines);
                }
            },
            TemplateElement::DecoratorExpression(d) | TemplateElement::DecoratorBlock(d) => {
                if let Some(name) = inline_partial_name(d) {
                    inlines.insert(name);
                }
                if let Some(inner) = &d.template {
                    collect_partial_refs(inner, refs, inlines);
                }
            },
            TemplateElement::HelperBlock(h) => {
                if let Some(inner) = &h.template {
                    collect_partial_refs(inner, refs, inlines);
                }
                if let Some(inner) = &h.inverse {
                    collect_partial_refs(inner, refs, inlines);
                }
            },
            _ => {},
        }
        proof {
            assert(after.drop_last() =~= before);
            assert(after.last() == *element);
            reveal_with_fuel(mentioned_among, 4);
            reveal_with_fuel(mentioned_by, 4);
            reveal_with_fuel(mentioned_in_block, 4);
            assert(refs@ =~= old(refs)@ + mentioned_among(Mention::Called, after));
            assert(inlines@ =~= old(inlines)@ + mentioned_among(Mention::Defined, after));
        }
        i += 1;
    }
    assert(template.elements@.take(i as int) =~= template.elements@);
}

/// The name of the partial that a decorator defines inline, if it defines one.
fn inline_partial_name(decorator: &DecoratorTemplate) -> (name: Option<String>)
    ensures
        match name {
            Some(n) => defined_inline(*decorator) == Set::empty().insert(n@),
            None => defined_inline(*decorator) == Set::<Seq<char>>::empty(),
        },
{
    if let Parameter::Name(name) = &decorator.name {
        if order_names(name.as_str(), INLINE_DECORATOR) == NameOrder::Same
            && decorator.params.len() > 0 {
            if let Parameter::Literal(Json::String(partial)) = &decorator.params[0] {
                return Some(partial.clone());
            }
        }
    }
    None
}

} // verus!
