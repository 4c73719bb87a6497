//! Helpers written in the [rhai](https://docs.rs/rhai/) script language.
use vstd::prelude::*;

verus! {

/// The engine that compiles and runs scripts.
#[verifier::external_type_specification]
#[verifier::external_body]
pub struct ExEngine(rhai::Engine);

/// A compiled script.
#[verifier::external_type_specification]
#[verifier::external_body]
pub struct ExScript(rhai::AST);

/// Why a text is not a script.
#[verifier::external_type_specification]
#[verifier::external_body]
pub struct ExParseError(rhai::ParseError);

/// That an engine is as `rhai::Engine::new` makes it.
pub uninterp spec fn engine_is_new(engine: rhai::Engine) -> bool;

/// That `rhai::Engine::compile` has answered a script with an outcome.
pub uninterp spec fn script_outcome(
    engine: rhai::Engine,
    script: Seq<char>,
    outcome: Result<rhai::AST, rhai::ParseError>,
) -> bool;

/// `rhai::Engine::new` makes an engine with the standard packages and limits.
#[verifier::external_body]
pub(crate) fn rhai_engine() -> (engine: rhai::Engine)
    ensures
        engine_is_new(engine),
{
    rhai::Engine::new()
}

/// `rhai::Engine::compile` compiles a script, or says why it is none. An engine can
/// hold functions of its owner that the compiler calls, so nothing is claimed of
/// the outcome but that it is one for this engine and this script.
#[verifier::external_body]
pub(crate) fn compile_script(engine: &rhai::Engine, script: &str) -> (outcome: Result<
    rhai::AST,
    rhai::ParseError,
>)
    ensures
        script_outcome(*engine, script@, outcome),
{
    engine.compile(script)
}

/// A helper that is a compiled script.
#[derive(Debug)]
pub struct ScriptHelper {
    pub script: rhai::AST,
}

} // verus!
