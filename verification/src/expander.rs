//! The evaluator: walks a scanned template left to right, resolves each
//! reference against the environment, and concatenates the results in
//! document order.
//!
//! The specification functions [`eval_word`] and [`eval_expr`] define the
//! result over the environment's model; the executable evaluator mirrors
//! them. Operand templates are evaluated lazily: a branch the governing
//! condition does not select is never evaluated, so an unset variable or a
//! required-value failure inside it causes no error and no environment
//! read. Assign-default writes are visible to every fragment evaluated
//! afterwards within the same call.

use vstd::prelude::*;

use crate::env::Enviroment;
use crate::error::{Error, ErrModel};
use crate::parser::parse_input;
use crate::token::{
    all_digits, digits_val, expr_wf, is_digit_char, tmpl_literal_only, tmpl_text, tmpl_wf, Expr,
    ExprModel, RefModel, Tmpl, TmplModel, VarRef,
};

verus! {

/// The smaller of two numbers.
pub open spec fn min_val(a: int, b: int) -> int {
    if a <= b {
        a
    } else {
        b
    }
}

/// The message a required-value failure carries when the reference names
/// none.
pub open spec fn standard_required_message() -> Seq<char> {
    "parameter null or not set"@
}

/// Resolves a variable occurrence against the environment: a plain name is
/// looked up directly; an indirect one is looked up and the string found is
/// looked up in turn. Either lookup failing leaves the occurrence unset.
pub open spec fn lookup_var(env: Map<Seq<char>, Seq<char>>, var: RefModel) -> Option<Seq<char>> {
    if var.indirect {
        if env.contains_key(var.name) {
            if env.contains_key(env[var.name]) {
                Some(env[env[var.name]])
            } else {
                None
            }
        } else {
            None
        }
    } else {
        if env.contains_key(var.name) {
            Some(env[var.name])
        } else {
            None
        }
    }
}

/// The governing condition of the operator forms: true when the variable is
/// unset, or — unless the operator only looks at unset variables — when it
/// is set to the empty string.
pub open spec fn cond_unset(l: Option<Seq<char>>, only_if_unset: bool) -> bool {
    match l {
        None => true,
        Some(v) => !only_if_unset && v.len() == 0,
    }
}

/// The name an assign-default expression writes under: the indirectly named
/// variable when indirection resolves, the literal name otherwise.
pub open spec fn assign_target(env: Map<Seq<char>, Seq<char>>, var: RefModel) -> Seq<char> {
    if var.indirect && env.contains_key(var.name) {
        env[var.name]
    } else {
        var.name
    }
}

/// Evaluates a template against an environment model: the concatenation of
/// its fragments' results in order, together with the environment as
/// assign-default expressions leave it, or the first fatal error.
pub open spec fn eval_word(
    t: TmplModel,
    env: Map<Seq<char>, Seq<char>>,
    pid: Seq<char>,
) -> Result<(Seq<char>, Map<Seq<char>, Seq<char>>), ErrModel>
    decreases t,
{
    match t {
        TmplModel::Empty => Ok((Seq::empty(), env)),
        TmplModel::Lit { text, rest } => match eval_word(*rest, env, pid) {
            Ok((out, env2)) => Ok((text + out, env2)),
            Err(e) => Err(e),
        },
        TmplModel::Ref { expr, rest } => match eval_expr(expr, env, pid) {
            Ok((v, env1)) => match eval_word(*rest, env1, pid) {
                Ok((out, env2)) => Ok((v + out, env2)),
                Err(e) => Err(e),
            },
            Err(e) => Err(e),
        },
    }
}

/// Evaluates one reference against an environment model.
pub open spec fn eval_expr(
    e: ExprModel,
    env: Map<Seq<char>, Seq<char>>,
    pid: Seq<char>,
) -> Result<(Seq<char>, Map<Seq<char>, Seq<char>>), ErrModel>
    decreases e,
{
    match e {
        ExprModel::ProcessId => Ok((pid, env)),
        ExprModel::Plain { var } => Ok(
            (
                match lookup_var(env, var) {
                    Some(v) => v,
                    None => Seq::empty(),
                },
                env,
            ),
        ),
        ExprModel::WithDefault { var, only_if_unset, default } => {
            let l = lookup_var(env, var);
            if cond_unset(l, only_if_unset) {
                eval_word(*default, env, pid)
            } else {
                Ok((l.unwrap(), env))
            }
        },
        ExprModel::WithAlternate { var, only_if_unset, value } => {
            let l = lookup_var(env, var);
            if cond_unset(l, only_if_unset) {
                Ok((Seq::empty(), env))
            } else {
                eval_word(*value, env, pid)
            }
        },
        ExprModel::AssignDefault { var, only_if_unset, default } => {
            let l = lookup_var(env, var);
            if cond_unset(l, only_if_unset) {
                match eval_word(*default, env, pid) {
                    Ok((v, env1)) => Ok((v, env1.insert(assign_target(env, var), v))),
                    Err(e) => Err(e),
                }
            } else {
                Ok((l.unwrap(), env))
            }
        },
        ExprModel::Required { var, only_if_unset, message } => {
            let l = lookup_var(env, var);
            if cond_unset(l, only_if_unset) {
                match message {
                    None => Err(
                        ErrModel::ParameterNullOrNotSet {
                            name: var.name,
                            message: standard_required_message(),
                        },
                    ),
                    Some(m) => match eval_word(*m, env, pid) {
                        Ok((msg, env1)) => Err(
                            ErrModel::ParameterNullOrNotSet { name: var.name, message: msg },
                        ),
                        Err(e) => Err(e),
                    },
                }
            } else {
                Ok((l.unwrap(), env))
            }
        },
        ExprModel::Substring { var, offset, length } => {
            let v = match lookup_var(env, var) {
                Some(v) => v,
                None => Seq::empty(),
            };
            let negative = match length {
                Some((neg, digits)) => neg && digits_val(digits) > 0,
                None => false,
            };
            if negative {
                Err(
                    ErrModel::NegativeSubstringLength {
                        name: var.name,
                        digits: match length {
                            Some((neg, digits)) => digits,
                            None => Seq::empty(),
                        },
                    },
                )
            } else {
                let off = min_val(digits_val(offset), v.len() as int);
                let end = match length {
                    None => v.len() as int,
                    Some((neg, digits)) => min_val(off + digits_val(digits), v.len() as int),
                };
                Ok((v.subrange(off, end), env))
            }
        },
    }
}

/// The whole expansion: scan the input, then evaluate the template. The
/// contract of [`crate::expand_with`] is stated against this function.
pub open spec fn expand_model(
    s: Seq<char>,
    env: Map<Seq<char>, Seq<char>>,
    pid: Seq<char>,
) -> Result<(Seq<char>, Map<Seq<char>, Seq<char>>), ErrModel> {
    match parse_input(s) {
        Ok((t, j)) => eval_word(t, env, pid),
        Err(e) => Err(e),
    }
}

/// The value of an executable optional string, as an optional sequence.
pub open spec fn opt_text(l: Option<String>) -> Option<Seq<char>> {
    match l {
        Some(v) => Some(v@),
        None => None,
    }
}

proof fn lemma_digits_val_nonneg(s: Seq<char>)
    requires
        all_digits(s),
    ensures
        digits_val(s) >= 0,
    decreases s.len(),
{
    if s.len() > 0 {
        assert(all_digits(s.drop_last()));
        lemma_digits_val_nonneg(s.drop_last());
    }
}

/// The smaller of a digit run's value and a cap: lets the evaluator clamp
/// offsets and lengths that may exceed any machine integer.
fn digits_min(digits: &String, cap: usize) -> (r: usize)
    requires
        all_digits(digits@),
    ensures
        r as int == min_val(digits_val(digits@), cap as int),
{
    let n = digits.as_str().unicode_len();
    let mut v: u128 = 0;
    let mut idx: usize = 0;
    proof {
        assert(digits@.take(0) =~= Seq::empty());
    }
    while idx < n
        invariant
            idx <= n,
            n == digits@.len(),
            all_digits(digits@),
            v as int == min_val(digits_val(digits@.take(idx as int)), cap as int + 1),
            v <= cap as u128 + 1,
        decreases n - idx,
    {
        let c = digits.as_str().get_char(idx);
        let d: u128 = digit_value(c) as u128;
        let ghost prefix = digits@.take(idx as int);
        let ghost a = digits_val(prefix);
        proof {
            assert(all_digits(prefix));
            lemma_digits_val_nonneg(prefix);
            assert(digits@.take(idx as int + 1).drop_last() =~= prefix);
            assert(digits@.take(idx as int + 1).last() == c);
        }
        let w = v * 10 + d;
        v = if w > cap as u128 {
            cap as u128 + 1
        } else {
            w
        };
        idx = idx + 1;
    }
    proof {
        assert(digits@.take(n as int) =~= digits@);
    }
    if v > cap as u128 {
        cap
    } else {
        v as usize
    }
}

/// The numeric value of one decimal digit.
fn digit_value(c: char) -> (d: u8)
    requires
        is_digit_char(c),
    ensures
        d as int == c as int - '0' as int,
        d < 10,
{
    (c as u8) - ('0' as u8)
}

/// Resolves a variable occurrence through the environment capability.
fn lookup_x<E: Enviroment>(env: &E, var: &VarRef) -> (r: Option<String>)
    ensures
        env.reliable() ==> (match lookup_var(env.model(), var@) {
            Some(sv) => (match r {
                Some(v) => v@ == sv,
                None => false,
            }),
            None => r is None,
        }),
{
    match env.get(&var.name) {
        None => None,
        Some(v1) => if var.indirect {
            env.get(&v1)
        } else {
            Some(v1)
        },
    }
}

/// Exec mirror of [`cond_unset`].
fn cond_met(l: &Option<String>, only_if_unset: bool) -> (r: bool)
    ensures
        r == cond_unset(opt_text(*l), only_if_unset),
{
    match l {
        None => true,
        Some(v) => !only_if_unset && v.as_str().is_empty(),
    }
}

/// Exec mirror of [`assign_target`].
fn assign_target_x<E: Enviroment>(env: &E, var: &VarRef) -> (r: String)
    ensures
        env.reliable() ==> r@ == assign_target(env.model(), var@),
{
    if var.indirect {
        match env.get(&var.name) {
            Some(n2) => n2,
            None => var.name.clone(),
        }
    } else {
        var.name.clone()
    }
}

/// Exec mirror of [`eval_word`]: evaluates a template against the
/// environment capability. On a template of literal text alone the result
/// is that text and the environment is untouched, whatever the capability.
pub(crate) fn eval_word_x<E: Enviroment>(t: &Tmpl, env: &mut E) -> (r: Result<String, Error>)
    requires
        tmpl_wf(t@),
    ensures
        old(env).reliable() ==> ({
            &&& final(env).reliable()
            &&& final(env).pid_model() == old(env).pid_model()
            &&& (match eval_word(t@, old(env).model(), old(env).pid_model()) {
                Ok((out, m)) => (match r {
                    Ok(v) => v@ == out && final(env).model() == m,
                    Err(_) => false,
                }),
                Err(er) => (match r {
                    Ok(_) => false,
                    Err(e2) => e2@ == er,
                }),
            })
        }),
        tmpl_literal_only(t@) ==> (match r {
            Ok(v) => v@ == tmpl_text(t@) && *final(env) == *old(env),
            Err(_) => false,
        }),
    decreases *t,
{
    proof {
        reveal_with_fuel(crate::token::tmpl_view, 3);
        reveal_with_fuel(crate::token::expr_view, 3);
        reveal_with_fuel(crate::token::tmpl_wf, 3);
        reveal_with_fuel(crate::token::expr_wf, 3);
        reveal_with_fuel(crate::token::tmpl_literal_only, 3);
        reveal_with_fuel(crate::token::tmpl_text, 3);
        reveal_with_fuel(eval_word, 3);
        reveal_with_fuel(eval_expr, 3);
    }
    match t {
        Tmpl::Empty => Ok(String::new()),
        Tmpl::Lit { text, rest } => match eval_word_x(&**rest, env) {
            Ok(out) => {
                let mut acc = text.clone();
                acc.append(out.as_str());
                Ok(acc)
            },
            Err(e) => Err(e),
        },
        Tmpl::Ref { expr, rest } => match eval_expr_x(expr, env) {
            Ok(v) => match eval_word_x(&**rest, env) {
                Ok(out) => {
                    let mut acc = v;
                    acc.append(out.as_str());
                    Ok(acc)
                },
                Err(e) => Err(e),
            },
            Err(e) => Err(e),
        },
    }
}

/// Exec mirror of [`eval_expr`]: evaluates one reference against the
/// environment capability.
fn eval_expr_x<E: Enviroment>(e: &Expr, env: &mut E) -> (r: Result<String, Error>)
    requires
        expr_wf(e@),
    ensures
        old(env).reliable() ==> ({
            &&& final(env).reliable()
            &&& final(env).pid_model() == old(env).pid_model()
            &&& (match eval_expr(e@, old(env).model(), old(env).pid_model()) {
                Ok((out, m)) => (match r {
                    Ok(v) => v@ == out && final(env).model() == m,
                    Err(_) => false,
                }),
                Err(er) => (match r {
                    Ok(_) => false,
                    Err(e2) => e2@ == er,
                }),
            })
        }),
    decreases *e,
{
    proof {
        reveal_with_fuel(crate::token::tmpl_view, 3);
        reveal_with_fuel(crate::token::expr_view, 3);
        reveal_with_fuel(crate::token::tmpl_wf, 3);
        reveal_with_fuel(crate::token::expr_wf, 3);
        reveal_with_fuel(eval_word, 3);
        reveal_with_fuel(eval_expr, 3);
    }
    match e {
        Expr::ProcessId => Ok(env.pid()),
        Expr::Plain { var } => match lookup_x(env, var) {
            Some(v) => Ok(v),
            None => Ok(String::new()),
        },
        Expr::WithDefault { var, only_if_unset, default } => {
            let l = lookup_x(env, var);
            if cond_met(&l, *only_if_unset) {
                eval_word_x(&**default, env)
            } else {
                Ok(l.unwrap())
            }
        },
        Expr::WithAlternate { var, only_if_unset, value } => {
            let l = lookup_x(env, var);
            if cond_met(&l, *only_if_unset) {
                Ok(String::new())
            } else {
                eval_word_x(&**value, env)
            }
        },
        Expr::AssignDefault { var, only_if_unset, default } => {
            let l = lookup_x(env, var);
            if cond_met(&l, *only_if_unset) {
                let target = assign_target_x(env, var);
                match eval_word_x(&**default, env) {
                    Ok(v) => {
                        env.set(&target, &v);
                        Ok(v)
                    },
                    Err(e) => Err(e),
                }
            } else {
                Ok(l.unwrap())
            }
        },
        Expr::Required { var, only_if_unset, message } => {
            let l = lookup_x(env, var);
            if cond_met(&l, *only_if_unset) {
                match message {
                    None => Err(
                        Error::ParameterNullOrNotSet {
                            name: var.name.clone(),
                            message: "parameter null or not set".to_owned(),
                        },
                    ),
                    Some(m) => match eval_word_x(&**m, env) {
                        Ok(msg) => Err(
                            Error::ParameterNullOrNotSet { name: var.name.clone(), message: msg },
                        ),
                        Err(e) => Err(e),
                    },
                }
            } else {
                Ok(l.unwrap())
            }
        },
        Expr::Substring { var, offset, length } => {
            let l = lookup_x(env, var);
            let value = match l {
                Some(v) => v,
                None => String::new(),
            };
            let vlen = value.as_str().unicode_len();
            match length {
                Some(arg) => {
                    if arg.negative && digits_min(&arg.digits, 1) > 0 {
                        Err(
                            Error::NegativeSubstringLength {
                                name: var.name.clone(),
                                digits: arg.digits.clone(),
                            },
                        )
                    } else {
                        let off = digits_min(offset, vlen);
                        let rem = vlen - off;
                        let len2 = digits_min(&arg.digits, rem);
                        proof {
                            lemma_digits_val_nonneg(arg.digits@);
                            lemma_digits_val_nonneg(offset@);
                        }
                        Ok(value.as_str().substring_char(off, off + len2).to_owned())
                    }
                },
                None => {
                    let off = digits_min(offset, vlen);
                    proof {
                        lemma_digits_val_nonneg(offset@);
                    }
                    Ok(value.as_str().substring_char(off, vlen).to_owned())
                },
            }
        },
    }
}

} // verus!
