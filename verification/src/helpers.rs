//! Helpers and decorators, built in and of the user's own.
use vstd::prelude::*;

use crate::script::ScriptHelper;

verus! {

/// The helpers that every registry starts with.
#[derive(Clone, Copy, Debug, PartialEq, Eq, Structural)]
pub enum BuiltinHelper {
    If,
    Unless,
    Each,
    With,
    Lookup,
    Raw,
    Log,
    Eq,
    Ne,
    Gt,
    Gte,
    Lt,
    Lte,
    And,
    Or,
    Not,
    Len,
    LowerCamelCase,
    UpperCamelCase,
    SnakeCase,
    KebabCase,
    ShoutySnakeCase,
    ShoutyKebabCase,
    TitleCase,
    TrainCase,
}

/// A helper.
#[derive(Debug)]
pub enum Helper<H> {
    Builtin(BuiltinHelper),
    Script(ScriptHelper),
    Custom(H),
}

/// A decorator.
#[derive(Debug)]
pub enum Decorator<D> {
    /// Defines a partial inside a template.
    Inline,
    Custom(D),
}

} // verus!
