//! The script engine: runs a function of an extracted script fragment on a
//! text, and keeps the compiled fragment for the next call.

use crate::text::same_text;
use vstd::prelude::*;
use vstd::string::*;

verus! {

/// The execution context of the script engine. Nothing of what it holds is
/// known here.
#[verifier::external_type_specification]
#[verifier::external_body]
pub struct ExContext<'host>(boa_engine::Context<'host>);

/// A value of the script engine.
#[verifier::external_type_specification]
#[verifier::external_body]
pub struct ExJsValue(boa_engine::JsValue);

/// An error of the script engine.
#[verifier::external_type_specification]
#[verifier::external_body]
pub struct ExJsError(boa_engine::JsError);

/// How a script failed.
#[derive(Clone, Copy, Debug, PartialEq, Eq)]
pub enum ScriptError {
    /// The fragment could not be compiled or did not run.
    Compile,
    /// The function is not there, cannot be called, or threw.
    Eval,
    /// The function returned something that is no text.
    ResultType,
}

/// The most iterations that a loop of a script may make before the engine
/// stops it with an error.
pub const LOOP_LIMIT: u64 = 0x10_0000;

/// `Context::default`, then `RuntimeLimits::set_loop_iteration_limit` on the
/// new context: an engine with nothing defined in it, which stops a loop
/// that makes more than `loop_limit` iterations. Nothing is claimed of it.
#[verifier::external_body]
fn new_context<'host>(loop_limit: u64) -> boa_engine::Context<'host> {
    let mut context = boa_engine::Context::default();
    context.runtime_limits_mut().set_loop_iteration_limit(loop_limit);
    context
}

/// `Context::eval` on the source text: compiles and runs it in the context.
/// What it returns depends on the script, so nothing is claimed of it.
#[verifier::external_body]
fn evaluate(context: &mut boa_engine::Context<'_>, source: &str) -> Result<
    boa_engine::JsValue,
    boa_engine::JsError,
> {
    context.eval(boa_engine::Source::from_bytes(source))
}

/// `JsObject::get` on the global object of the context: the value of the
/// global property `name`. Nothing is claimed of it.
#[verifier::external_body]
fn global_property(context: &mut boa_engine::Context<'_>, name: &str) -> Result<
    boa_engine::JsValue,
    boa_engine::JsError,
> {
    context.global_object().get(name, context)
}

/// `JsObject::call` on `function` with `undefined` as `this` and the text
/// `argument` as the one argument, handed over as a value of the engine and
/// not as source text. `None` where `function` is not callable, as
/// `JsValue::as_callable` says. Nothing is claimed of what the call returns.
#[verifier::external_body]
fn call_with_text(
    function: &boa_engine::JsValue,
    argument: &str,
    context: &mut boa_engine::Context<'_>,
) -> Option<Result<boa_engine::JsValue, boa_engine::JsError>> {
    let argument = boa_engine::JsValue::from(boa_engine::JsString::from(argument));
    function.as_callable().map(
        |f| f.call(&boa_engine::JsValue::undefined(), &[argument], context),
    )
}

/// `JsValue::as_string` and `JsString::to_std_string`: the text that a value
/// of the engine is. `None` where it is no string, or one that is no valid
/// UTF-16.
#[verifier::external_body]
fn text_of(value: &boa_engine::JsValue) -> Option<String> {
    value.as_string().and_then(|s| s.to_std_string().ok())
}

/// The source that the context in `slot` was compiled from.
pub open spec fn compiled_source(slot: Option<(String, boa_engine::Context<'_>)>) -> Option<
    Seq<char>,
> {
    match slot {
        Some(entry) => Some(entry.0@),
        None => None,
    }
}

/// Whether `slot` holds a context compiled from `source`.
fn holds(slot: &Option<(String, boa_engine::Context<'_>)>, source: &str) -> (r: bool)
    ensures
        r == (compiled_source(*slot) == Some(source@)),
{
    match slot {
        Some(entry) => same_text(entry.0.as_str(), source),
        None => false,
    }
}

/// Calls the function `name` in `context` on `argument`.
fn call_function(context: &mut boa_engine::Context<'_>, name: &str, argument: &str) -> (r: Result<
    String,
    ScriptError,
>)
    ensures
        !(r matches Err(ScriptError::Compile)),
{
    let returned = match global_property(context, name) {
        Ok(function) => match call_with_text(&function, argument, context) {
            Some(Ok(value)) => Some(text_of(&value)),
            _ => None,
        },
        Err(_) => None,
    };
    script_outcome(returned)
}

/// What a call of a script function comes to, given what came back from the
/// engine: an evaluation error where no value came back, because the
/// function is not there, cannot be called, or threw; a result-type error
/// where the value that came back is no text; else that text.
pub open spec fn outcome_of(returned: Option<Option<String>>) -> Result<String, ScriptError> {
    match returned {
        Some(Some(text)) => Ok(text),
        Some(None) => Err(ScriptError::ResultType),
        None => Err(ScriptError::Eval),
    }
}

/// Says what a call of a script function comes to, given what came back
/// from the engine: `None` for no value, `Some(None)` for a value that is
/// no text, and the text of a value that is one.
pub fn script_outcome(returned: Option<Option<String>>) -> (r: Result<String, ScriptError>)
    ensures
        r == outcome_of(returned),
{
    match returned {
        Some(Some(text)) => Ok(text),
        Some(None) => Err(ScriptError::ResultType),
        None => Err(ScriptError::Eval),
    }
}

/// Runs the function `name` of the script fragment `source` on `argument`.
/// Where `slot` holds a context compiled from this very source, the context
/// is used again; else the source is compiled into a new context, which
/// takes the place of what `slot` held. A source that does not compile
/// leaves `slot` as it was. The argument is handed to the function as a
/// value, never as source text.
///
/// What the function returns is the script's affair, and nothing is
/// promised of it. Nor is it promised that the engine returns at all: it
/// is an interpreter, and of an arbitrary script it may panic, it has no
/// guard on the depth to which a source is nested, and the limit on the
/// iterations of a loop holds for each loop by itself, so that loops
/// within loops multiply. A function that loops for longer than
/// `LOOP_LIMIT` fails with an evaluation error.
pub fn execute<'host>(
    slot: &mut Option<(String, boa_engine::Context<'host>)>,
    source: &str,
    name: &str,
    argument: &str,
) -> (r: Result<String, ScriptError>)
    ensures
        r matches Err(ScriptError::Compile) ==> *final(slot) == *old(slot),
        !(r matches Err(ScriptError::Compile)) ==> compiled_source(*final(slot)) == Some(
            source@,
        ),
        compiled_source(*old(slot)) == Some(source@) ==> !(r matches Err(ScriptError::Compile)),
{
    if !holds(slot, source) {
        let mut context = new_context(LOOP_LIMIT);
        match evaluate(&mut context, source) {
            Ok(_) => {},
            Err(_) => {
                return Err(ScriptError::Compile);
            },
        }
        *slot = Some((source.to_owned(), context));
    }
    match slot {
        Some(entry) => call_function(&mut entry.1, name, argument),
        None => Err(ScriptError::Eval),
    }
}

/// The characters of the outcome of a script.
pub open spec fn outcome_view(outcome: Result<String, ScriptError>) -> Result<
    Seq<char>,
    ScriptError,
> {
    match outcome {
        Ok(text) => Ok(text@),
        Err(e) => Err(e),
    }
}

} // verus!
