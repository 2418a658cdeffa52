//! A minimal Lisp: a reader that turns text into a tree of objects, and an
//! evaluator that walks such a tree against a chain of scopes.
//!
//! Every function states what it returns over mathematical values: an
//! [`object::Object`] stands for an [`object::Value`], an [`env::Env`] for a
//! sequence of scopes, innermost first, and an evaluation for the
//! [`semantics::Outcome`] that [`semantics::eval_spec`] gives. The modules
//! `laws`, `invariants` and `roundtrip` hold what is proved of those
//! definitions.

pub mod env;
pub mod error;
pub mod interpreter;
pub mod invariants;
pub mod laws;
pub mod object;
pub mod parser;
pub mod roundtrip;
pub mod semantics;
pub mod text;

use vstd::prelude::*;
use crate::env::Env;
use crate::error::Error;
use crate::interpreter::{eval, RECURSION_LIMIT};
use crate::object::render;
use crate::parser::{parse, parse_spec};
use crate::semantics::eval_spec;

verus! {

/// Reads a program, evaluates it in the environment and gives the text of its
/// value. A text that is no program leaves the environment as it was.
pub fn evaluate(input: &str, env: &mut Env) -> (result: Result<String, Error>)
    ensures
        match parse_spec(input@) {
            Err(error) => result == Err::<String, Error>(Error::Parse(error)) && final(env)@ == old(
                env,
            )@,
            Ok(program) => {
                let outcome = eval_spec(program, old(env)@, RECURSION_LIMIT as nat);
                &&& final(env)@ == outcome.scopes
                &&& match outcome.result {
                    Ok(value) => result is Ok && result->Ok_0@ == render(value),
                    Err(failure) => result matches Err(Error::Runtime(error)) && error@ == failure,
                }
            },
        },
{
    let program = match parse(input) {
        Ok(program) => program,
        Err(error) => {
            return Err(Error::Parse(error));
        },
    };
    match eval(program, env) {
        Ok(value) => Ok(value.to_string()),
        Err(error) => Err(Error::Runtime(error)),
    }
}

} // verus!
