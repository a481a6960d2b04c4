//! Laws of the expansion engine, stated over the specification model and
//! proved once for all inputs and environments.

use vstd::prelude::*;

use crate::error::ErrModel;
use crate::expander::{eval_expr, eval_word, expand_model, lookup_var};
use crate::parser::{
    clamp_idx, lemma_munch_name_bounds, munch_name, parse_braced, parse_input, parse_word,
};
use crate::token::{is_name_char, valid_name, ExprModel, RefModel, TmplModel};

verus! {

/// A bare `$NAME` over a whole input scans to one plain reference.
proof fn lemma_parse_bare_name(name: Seq<char>)
    requires
        valid_name(name),
    ensures
        parse_input(seq!['$'] + name) == Ok::<_, ErrModel>(
            (
                TmplModel::Ref {
                    expr: ExprModel::Plain { var: RefModel { indirect: false, name } },
                    rest: Box::new(TmplModel::Empty),
                },
                (name.len() + 1) as int,
            ),
        ),
{
    reveal_with_fuel(parse_word, 3);
    let s = seq!['$'] + name;
    assert(s.len() == name.len() + 1);
    assert(s[0] == '$');
    assert(forall|k: int| 1 <= k < s.len() ==> s[k] == name[k - 1]);
    assert(is_name_char(s[1]));
    lemma_munch_name_bounds(s, 1);
    let m = munch_name(s, 1);
    assert(m == s.len()) by {
        if m < s.len() {
            assert(is_name_char(s[m]));
        }
    }
    assert(clamp_idx(s, 2, m) == s.len());
    assert(s.subrange(1, s.len() as int) =~= name);
}

/// A braced `${NAME}` over a whole input scans to the same plain reference.
proof fn lemma_parse_braced_name(name: Seq<char>)
    requires
        valid_name(name),
    ensures
        parse_input(seq!['$', '{'] + name + seq!['}']) == Ok::<_, ErrModel>(
            (
                TmplModel::Ref {
                    expr: ExprModel::Plain { var: RefModel { indirect: false, name } },
                    rest: Box::new(TmplModel::Empty),
                },
                (name.len() + 3) as int,
            ),
        ),
{
    reveal_with_fuel(parse_word, 3);
    reveal_with_fuel(parse_braced, 2);
    let s = seq!['$', '{'] + name + seq!['}'];
    assert(s.len() == name.len() + 3);
    assert(s[0] == '$');
    assert(s[1] == '{');
    assert(forall|k: int| 2 <= k < s.len() - 1 ==> s[k] == name[k - 2]);
    assert(s[s.len() - 1] == '}');
    assert(is_name_char(s[2]));
    assert(s[2] != '$' && s[2] != '!');
    lemma_munch_name_bounds(s, 2);
    let m = munch_name(s, 2);
    assert(m == s.len() - 1) by {
        if m < s.len() - 1 {
            assert(is_name_char(s[m]));
        }
        if m == s.len() {
            assert(is_name_char(s[s.len() - 1]));
        }
    }
    assert(clamp_idx(s, 2, m) == m);
    assert(s.subrange(2, m) =~= name);
    assert(clamp_idx(s, 2, m + 1) == s.len());
}

/// A single plain reference evaluates to the variable's value — empty when
/// it is unset — and leaves the environment unchanged.
proof fn lemma_eval_plain(name: Seq<char>, env: Map<Seq<char>, Seq<char>>, pid: Seq<char>)
    ensures
        eval_word(
            TmplModel::Ref {
                expr: ExprModel::Plain { var: RefModel { indirect: false, name } },
                rest: Box::new(TmplModel::Empty),
            },
            env,
            pid,
        ) == Ok::<_, ErrModel>(
            (
                match lookup_var(env, RefModel { indirect: false, name }) {
                    Some(v) => v,
                    None => Seq::<char>::empty(),
                },
                env,
            ),
        ),
{
    reveal_with_fuel(eval_word, 2);
    reveal_with_fuel(eval_expr, 1);
    let var = RefModel { indirect: false, name };
    let value = match lookup_var(env, var) {
        Some(v) => v,
        None => Seq::<char>::empty(),
    };
    assert(value + Seq::<char>::empty() =~= value);
}

/// A bare reference to an unset variable expands to the empty string — it
/// is not an error — and the environment is left unchanged.
pub proof fn lemma_bare_unset_is_empty(
    name: Seq<char>,
    env: Map<Seq<char>, Seq<char>>,
    pid: Seq<char>,
)
    requires
        valid_name(name),
        !env.contains_key(name),
    ensures
        expand_model(seq!['$'] + name, env, pid) == Ok::<_, ErrModel>(
            (Seq::<char>::empty(), env),
        ),
{
    lemma_parse_bare_name(name);
    lemma_eval_plain(name, env, pid);
}

/// The bare and braced forms of a plain reference are equivalent: over a
/// whole input, `$NAME` and `${NAME}` expand alike in every environment.
pub proof fn lemma_plain_forms_agree(
    name: Seq<char>,
    env: Map<Seq<char>, Seq<char>>,
    pid: Seq<char>,
)
    requires
        valid_name(name),
    ensures
        expand_model(seq!['$'] + name, env, pid) == expand_model(
            seq!['$', '{'] + name + seq!['}'],
            env,
            pid,
        ),
{
    lemma_parse_bare_name(name);
    lemma_parse_braced_name(name);
    lemma_eval_plain(name, env, pid);
}

/// Process-id substitution: `$$` and `${$}` both expand to the
/// environment capability's process identifier, in every environment, and
/// write nothing.
pub proof fn lemma_pid_forms_agree(env: Map<Seq<char>, Seq<char>>, pid: Seq<char>)
    ensures
        expand_model("$$"@, env, pid) == Ok::<_, ErrModel>((pid, env)),
        expand_model("${$}"@, env, pid) == Ok::<_, ErrModel>((pid, env)),
{
    reveal_strlit("$$");
    reveal_strlit("${$}");
    reveal_with_fuel(parse_word, 3);
    reveal_with_fuel(eval_word, 2);
    reveal_with_fuel(eval_expr, 1);
    let s1 = "$$"@;
    assert(s1.len() == 2 && s1[0] == '$' && s1[1] == '$');
    let s2 = "${$}"@;
    assert(s2.len() == 4 && s2[0] == '$' && s2[1] == '{' && s2[2] == '$' && s2[3] == '}');
    assert(clamp_idx(s2, 2, 4) == 4);
    assert(pid + Seq::<char>::empty() =~= pid);
}

/// An escaped dollar heads the output as a literal `$` and triggers no
/// lookup: the rest of the input expands on its own, against the same
/// environment, and the `$` is prepended to its output.
pub proof fn lemma_escaped_dollar(s: Seq<char>, env: Map<Seq<char>, Seq<char>>, pid: Seq<char>)
    requires
        s.len() >= 2,
        s[0] == '\\',
        s[1] == '$',
    ensures
        (match parse_word(s, 2, false) {
            Ok((t, j)) => (match eval_word(t, env, pid) {
                Ok((out, m)) => expand_model(s, env, pid) == Ok::<_, ErrModel>(
                    (seq!['$'] + out, m),
                ),
                Err(e) => expand_model(s, env, pid) == Err::<(Seq<char>, Map<Seq<char>, Seq<char>>), _>(
                    e,
                ),
            }),
            Err(e) => expand_model(s, env, pid) == Err::<(Seq<char>, Map<Seq<char>, Seq<char>>), _>(
                e,
            ),
        }),
{
    reveal_with_fuel(parse_word, 2);
    reveal_with_fuel(eval_word, 2);
}

} // verus!
