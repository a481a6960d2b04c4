//! Shell-style variable expansion.
//!
//! The crate expands `$NAME`, `${NAME}` and the operator-qualified forms
//! (defaults, alternates, assignment, required values, substrings,
//! indirection and process-id substitution) inside an input string,
//! resolving every reference against a key-value environment.
//!
//! Expansion is all-or-nothing: the first grammar or evaluation error
//! aborts the call with no partial output. Re-expanding an expansion's
//! output is not expansion of the original input: a resolved value may
//! itself contain `$`, so expansion is not idempotent in general.

use vstd::prelude::*;

pub mod env;
pub mod error;
pub mod expander;
pub mod laws;
pub mod parser;
pub mod token;

use crate::env::{Enviroment, ProcessEnv};
use crate::error::Error;
use crate::expander::{eval_word_x, expand_model};
use crate::parser::{lemma_literal_free_parse, parse_input, scan_input};

verus! {

/// Input that holds no reference trigger and no escape: no `$` and no
/// backslash.
pub open spec fn literal_free(s: Seq<char>) -> bool {
    forall|k: int| 0 <= k < s.len() ==> (s[k] != '$' && s[k] != '\\')
}

/// Expands every reference in `input` against the given environment.
///
/// When the environment's model is reliable, the result — output, error
/// and environment writes alike — is exactly what
/// [`crate::expander::expand_model`] states over that model. Whatever the
/// environment, input free of `$` and `\` comes back unchanged, and a
/// grammar error in the input surfaces as that error.
pub fn expand_with<E: Enviroment>(env: &mut E, input: &str) -> (r: Result<String, Error>)
    ensures
        old(env).reliable() ==> ({
            &&& final(env).reliable()
            &&& final(env).pid_model() == old(env).pid_model()
            &&& (match expand_model(input@, old(env).model(), old(env).pid_model()) {
                Ok((out, m)) => (match r {
                    Ok(v) => v@ == out && final(env).model() == m,
                    Err(_) => false,
                }),
                Err(er) => (match r {
                    Ok(_) => false,
                    Err(e2) => e2@ == er,
                }),
            })
        }),
        literal_free(input@) ==> (match r {
            Ok(v) => v@ == input@ && *final(env) == *old(env),
            Err(_) => false,
        }),
        (match parse_input(input@) {
            Err(pe) => (match r {
                Ok(_) => false,
                Err(e2) => e2@ == pe,
            }),
            Ok(_) => true,
        }),
{
    match scan_input(input) {
        Ok(t) => {
            proof {
                if literal_free(input@) {
                    lemma_literal_free_parse(input@, 0);
                    assert(input@.subrange(0, input@.len() as int) =~= input@);
                }
            }
            eval_word_x(&t, env)
        },
        Err(e) => {
            proof {
                if literal_free(input@) {
                    lemma_literal_free_parse(input@, 0);
                }
            }
            Err(e)
        },
    }
}

/// Expands every reference in `input` against the process-wide
/// environment.
///
/// The process environment belongs to the world outside the program, so
/// nothing can be promised of values read from it; what is promised holds
/// whatever it contains: input free of `$` and `\` comes back unchanged,
/// and a grammar error in the input surfaces as that error.
pub fn expand(input: &str) -> (r: Result<String, Error>)
    ensures
        literal_free(input@) ==> (match r {
            Ok(v) => v@ == input@,
            Err(_) => false,
        }),
        (match parse_input(input@) {
            Err(pe) => (match r {
                Ok(_) => false,
                Err(e2) => e2@ == pe,
            }),
            Ok(_) => true,
        }),
{
    let mut env = ProcessEnv;
    expand_with(&mut env, input)
}

} // verus!
