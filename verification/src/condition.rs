//! Evaluation of a step's guard condition against the platform facts.
//!
//! A condition is a boolean expression over the context variables `os` (the
//! canonical lowercase OS name) and `linux_distro` (the distro id, empty
//! when the host is not a known Linux). The empty condition always holds and
//! never reaches the expression engine.

use vstd::prelude::*;

use evalexpr::Context;
use evalexpr::ContextWithMutableVariables;

use crate::err::Error;

verus! {

/// What the expression engine, with its builtin functions disabled, makes
/// of `expr` under a context that binds `os` and `linux_distro` to the two
/// given strings: `Some(b)` when the expression evaluates to the boolean
/// `b`, `None` when it fails to parse, errs, or yields a non-boolean. The
/// engine is deterministic, so this is a function of the three strings
/// alone.
pub uninterp spec fn eval_bool_of(expr: Seq<char>, os: Seq<char>, distro: Seq<char>) -> Option<
    bool,
>;

/// Relies on evalexpr::eval_boolean_with_context: evaluating a boolean
/// expression over a context holding the string variables `os` and
/// `linux_distro` is deterministic in the expression and the two strings
/// (this build carries no source of randomness), and with the engine's
/// builtin functions disabled it returns an error rather than aborting on
/// every malformed input. The condition language is equality and boolean
/// combinators over literals and the two variables, which the engine
/// provides without its builtins; a call of an unknown function is then an
/// ordinary lookup error.
#[verifier::external_body]
fn eval_condition_raw(expr: &str, os: &str, distro: &str) -> (r: Option<bool>)
    ensures
        r == eval_bool_of(expr@, os@, distro@),
{
    let mut ctx: evalexpr::HashMapContext = evalexpr::HashMapContext::new();
    let ready = ctx.set_builtin_functions_disabled(true).is_ok() && ctx.set_value(
        "os".to_string(),
        evalexpr::Value::String(os.to_string()),
    ).is_ok() && ctx.set_value(
        "linux_distro".to_string(),
        evalexpr::Value::String(distro.to_string()),
    ).is_ok();
    if !ready {
        return None;
    }
    evalexpr::eval_boolean_with_context(expr, &ctx).ok()
}

/// Decides whether a step with condition `expr` runs on a host whose
/// canonical OS name is `os` and whose distro id is `distro`. The empty
/// condition always holds; otherwise the expression engine decides, and an
/// expression it cannot turn into a boolean is an error that carries the
/// expression itself.
pub fn evaluate(expr: &str, os: &str, distro: &str) -> (r: Result<bool, Error>)
    ensures
        expr@.len() == 0 ==> r == Ok::<bool, Error>(true),
        expr@.len() != 0 ==> match eval_bool_of(expr@, os@, distro@) {
            Some(b) => r == Ok::<bool, Error>(b),
            None => r matches Err(e) && e matches Error::InvalidExpression(s) && s@ == expr@,
        },
{
    if expr.is_empty() {
        return Ok(true);
    }
    match eval_condition_raw(expr, os, distro) {
        Some(b) => Ok(b),
        None => Err(Error::InvalidExpression(String::from_str(expr))),
    }
}

} // verus!
