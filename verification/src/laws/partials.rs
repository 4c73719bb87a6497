//! What holds of the partials that a template requires.
use vstd::prelude::*;

use crate::template::{
    fixed_partial_name, mentioned, mentioned_among, mentioned_by, mentioned_in_block, required_partials,
    DecoratorTemplate, Mention, Parameter, Template, TemplateElement, PARTIAL_BLOCK,
};

verus! {

/// The content of a partial block is never a partial that must be registered.
pub proof fn partial_block_is_not_required(template: Template)
    ensures
        !required_partials(template).contains(PARTIAL_BLOCK@),
{
    lemma_partial_block_not_called(template.elements@);
    assert(mentioned(Mention::Called, template) == mentioned_among(
        Mention::Called,
        template.elements@,
    ));
}

proof fn lemma_partial_block_not_called(elements: Seq<TemplateElement>)
    ensures
        !mentioned_among(Mention::Called, elements).contains(PARTIAL_BLOCK@),
    decreases elements,
{
    if elements.len() > 0 {
        lemma_partial_block_not_called(elements.drop_last());
        lemma_partial_block_not_called_by(elements.last());
    }
}

proof fn lemma_partial_block_not_called_by(element: TemplateElement)
    ensures
        !mentioned_by(Mention::Called, element).contains(PARTIAL_BLOCK@),
    decreases element,
{
    match element {
        TemplateElement::PartialExpression(d) => {
            lemma_partial_block_not_called_in(d.template);
        },
        TemplateElement::PartialBlock(d) => {
            lemma_partial_block_not_called_in(d.template);
        },
        TemplateElement::DecoratorExpression(d) => {
            lemma_partial_block_not_called_in(d.template);
        },
        TemplateElement::DecoratorBlock(d) => {
            lemma_partial_block_not_called_in(d.template);
        },
        TemplateElement::HelperBlock(h) => {
            lemma_partial_block_not_called_in(h.template);
            lemma_partial_block_not_called_in(h.inverse);
        },
        _ => {},
    }
}

proof fn lemma_partial_block_not_called_in(block: Option<Template>)
    ensures
        !mentioned_in_block(Mention::Called, block).contains(PARTIAL_BLOCK@),
    decreases block,
{
    if let Some(template) = block {
        lemma_partial_block_not_called(template.elements@);
        assert(mentioned_in_block(Mention::Called, block) == mentioned(Mention::Called, template));
        assert(mentioned(Mention::Called, template) == mentioned_among(
            Mention::Called,
            template.elements@,
        ));
    }
}

/// An inline partial is local to the template that defines it: a reference to it from
/// there does not require a registered template.
pub proof fn inline_partials_are_not_required(template: Template, partial: Seq<char>)
    requires
        mentioned(Mention::Defined, template).contains(partial),
    ensures
        !required_partials(template).contains(partial),
{
}

/// A partial is required exactly if the template calls it by a fixed name and defines no
/// inline partial of that name.
pub proof fn required_partials_are_called_and_not_defined(template: Template, partial: Seq<char>)
    ensures
        required_partials(template).contains(partial) <==> mentioned(
            Mention::Called,
            template,
        ).contains(partial) && !mentioned(Mention::Defined, template).contains(partial),
{
}

/// Whether a parameter is a fixed name: a name, a path or a quoted string.
pub open spec fn is_fixed_name(param: Parameter, name: Seq<char>) -> bool {
    ||| param is Name && param->Name_0@ == name
    ||| param is Path && param->Path_0@ == name
    ||| param is Literal && param->Literal_0 is String && param->Literal_0->String_0@ == name
}

/// Whether a block is there and speaks of a partial.
pub open spec fn block_speaks_of(
    how: Mention,
    block: Option<Template>,
    partial: Seq<char>,
) -> bool {
    block is Some && mentioned(how, block->0).contains(partial)
}

/// Whether an element calls a partial: it is a partial call of that name, other than
/// the partial block, or one of its blocks does.
pub open spec fn element_calls(element: TemplateElement, partial: Seq<char>) -> bool {
    match element {
        TemplateElement::PartialExpression(d) => {
            ||| is_fixed_name(d.name, partial) && partial != "@partial-block"@
            ||| block_speaks_of(Mention::Called, d.template, partial)
        },
        TemplateElement::PartialBlock(d) => {
            ||| is_fixed_name(d.name, partial) && partial != "@partial-block"@
            ||| block_speaks_of(Mention::Called, d.template, partial)
        },
        TemplateElement::DecoratorExpression(d) => block_speaks_of(
            Mention::Called,
            d.template,
            partial,
        ),
        TemplateElement::DecoratorBlock(d) => block_speaks_of(
            Mention::Called,
            d.template,
            partial,
        ),
        TemplateElement::HelperBlock(h) => {
            ||| block_speaks_of(Mention::Called, h.template, partial)
            ||| block_speaks_of(Mention::Called, h.inverse, partial)
        },
        _ => false,
    }
}

/// Whether a decorator defines an inline partial: it is called `inline`, and its first
/// argument is the quoted name.
pub open spec fn is_inline_definition(decorator: DecoratorTemplate, partial: Seq<char>) -> bool {
    &&& decorator.name is Name
    &&& decorator.name->Name_0@ == "inline"@
    &&& decorator.params@.len() > 0
    &&& decorator.params@[0] is Literal
    &&& decorator.params@[0]->Literal_0 is String
    &&& decorator.params@[0]->Literal_0->String_0@ == partial
}

/// Whether an element defines a partial inline: it is such a decorator, or one of its
/// blocks does.
pub open spec fn element_defines(element: TemplateElement, partial: Seq<char>) -> bool {
    match element {
        TemplateElement::PartialExpression(d) => block_speaks_of(
            Mention::Defined,
            d.template,
            partial,
        ),
        TemplateElement::PartialBlock(d) => block_speaks_of(
            Mention::Defined,
            d.template,
            partial,
        ),
        TemplateElement::DecoratorExpression(d) => {
            ||| is_inline_definition(*d, partial)
            ||| block_speaks_of(Mention::Defined, d.template, partial)
        },
        TemplateElement::DecoratorBlock(d) => {
            ||| is_inline_definition(*d, partial)
            ||| block_speaks_of(Mention::Defined, d.template, partial)
        },
        TemplateElement::HelperBlock(h) => {
            ||| block_speaks_of(Mention::Defined, h.template, partial)
            ||| block_speaks_of(Mention::Defined, h.inverse, partial)
        },
        _ => false,
    }
}

/// A template calls a partial exactly if one of its elements does, wherever it stands,
/// in whatever block.
pub proof fn partials_are_called_by_elements(template: Template, partial: Seq<char>)
    ensures
        mentioned(Mention::Called, template).contains(partial) <==> exists|i: int|
            0 <= i < template.elements@.len() && element_calls(
                #[trigger] template.elements@[i],
                partial,
            ),
{
    lemma_called_among(template.elements@, partial);
    assert(mentioned(Mention::Called, template) == mentioned_among(
        Mention::Called,
        template.elements@,
    ));
}

proof fn lemma_called_among(elements: Seq<TemplateElement>, partial: Seq<char>)
    ensures
        mentioned_among(Mention::Called, elements).contains(partial) <==> exists|i: int|
            0 <= i < elements.len() && element_calls(#[trigger] elements[i], partial),
    decreases elements.len(),
{
    if elements.len() > 0 {
        let front = elements.drop_last();
        let last = elements.len() - 1;
        lemma_called_among(front, partial);
        lemma_called_by(elements[last], partial);
        if mentioned_among(Mention::Called, front).contains(partial) {
            let i = choose|i: int|
                0 <= i < front.len() && element_calls(#[trigger] front[i], partial);
            assert(element_calls(elements[i], partial));
        }
        if exists|i: int| 0 <= i < elements.len() && element_calls(#[trigger] elements[i], partial) {
            let i = choose|i: int|
                0 <= i < elements.len() && element_calls(#[trigger] elements[i], partial);
            if i < last {
                assert(element_calls(front[i], partial));
            }
        }
    }
}

proof fn lemma_called_by(element: TemplateElement, partial: Seq<char>)
    ensures
        mentioned_by(Mention::Called, element).contains(partial) == element_calls(
            element,
            partial,
        ),
{
    reveal_with_fuel(mentioned_by, 2);
    reveal_with_fuel(mentioned_in_block, 2);
}

/// A template defines a partial inline exactly if one of its elements does, wherever it
/// stands, in whatever block.
pub proof fn partials_are_defined_by_elements(template: Template, partial: Seq<char>)
    ensures
        mentioned(Mention::Defined, template).contains(partial) <==> exists|i: int|
            0 <= i < template.elements@.len() && element_defines(
                #[trigger] template.elements@[i],
                partial,
            ),
{
    lemma_defined_among(template.elements@, partial);
    assert(mentioned(Mention::Defined, template) == mentioned_among(
        Mention::Defined,
        template.elements@,
    ));
}

proof fn lemma_defined_among(elements: Seq<TemplateElement>, partial: Seq<char>)
    ensures
        mentioned_among(Mention::Defined, elements).contains(partial) <==> exists|i: int|
            0 <= i < elements.len() && element_defines(#[trigger] elements[i], partial),
    decreases elements.len(),
{
    if elements.len() > 0 {
        let front = elements.drop_last();
        let last = elements.len() - 1;
        lemma_defined_among(front, partial);
        lemma_defined_by(elements[last], partial);
        if mentioned_among(Mention::Defined, front).contains(partial) {
            let i = choose|i: int|
                0 <= i < front.len() && element_defines(#[trigger] front[i], partial);
            assert(element_defines(elements[i], partial));
        }
        if exists|i: int|
            0 <= i < elements.len() && element_defines(#[trigger] elements[i], partial) {
            let i = choose|i: int|
                0 <= i < elements.len() && element_defines(#[trigger] elements[i], partial);
            if i < last {
                assert(element_defines(front[i], partial));
            }
        }
    }
}

proof fn lemma_defined_by(element: TemplateElement, partial: Seq<char>)
    ensures
        mentioned_by(Mention::Defined, element).contains(partial) == element_defines(
            element,
            partial,
        ),
{
    reveal_with_fuel(mentioned_by, 2);
    reveal_with_fuel(mentioned_in_block, 2);
}

/// A parameter fixes the name of a partial exactly if it is a name, a path or a quoted
/// string, and then it is that name.
pub proof fn fixed_names_are_names_paths_and_strings(param: Parameter, name: Seq<char>)
    ensures
        fixed_partial_name(param) == Some(name) <==> is_fixed_name(param, name),
        fixed_partial_name(param) is None <==> !(param is Name) && !(param is Path) && !(param
            is Literal && param->Literal_0 is String),
{
}

} // verus!
