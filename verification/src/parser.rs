//! The grammar of the expansion language.
//!
//! The specification functions [`parse_word`] and [`parse_braced`] define the
//! grammar over character sequences; the executable scanner mirrors them and
//! is proved to return exactly what they describe.
//!
//! A template is scanned left to right with one lookahead character. A
//! backslash escapes the next character; a `$` introduces a reference when a
//! name, `{` or another `$` follows, and otherwise stands for itself; inside
//! a braced body the operator is found by first match among `:-`, `-`, `:=`,
//! `=`, `:+`, `+`, `:?`, `?` and `:` (substring), after checking for the `!`
//! indirection prefix and the `$` process-id body.

use vstd::prelude::*;

use crate::error::{Error, ErrModel};
use crate::token::{
    all_digits, bad_operand_char, digit_char, expr_wf, is_bad_operand_char, is_digit_char,
    is_name_char, is_space_char, name_char, space_char, tmpl_wf, Expr, ExprModel, LengthArg,
    RefModel, Tmpl, TmplModel, VarRef,
};

verus! {

/// First index at or after `i` whose character is not a name character.
pub open spec fn munch_name(s: Seq<char>, i: int) -> int
    decreases s.len() - i,
{
    if 0 <= i && i < s.len() && is_name_char(s[i]) {
        munch_name(s, i + 1)
    } else {
        i
    }
}

/// First index at or after `i` whose character is not a decimal digit.
pub open spec fn munch_digits(s: Seq<char>, i: int) -> int
    decreases s.len() - i,
{
    if 0 <= i && i < s.len() && is_digit_char(s[i]) {
        munch_digits(s, i + 1)
    } else {
        i
    }
}

/// First index at or after `i` whose character is not whitespace.
pub open spec fn munch_space(s: Seq<char>, i: int) -> int
    decreases s.len() - i,
{
    if 0 <= i && i < s.len() && is_space_char(s[i]) {
        munch_space(s, i + 1)
    } else {
        i
    }
}

/// A character that ends a literal run: a reference or escape trigger, or
/// the closing brace when scanning inside a braced body.
pub open spec fn is_lit_stop(c: char, braced: bool) -> bool {
    c == '$' || c == '\\' || (braced && c == '}')
}

/// First index at or after `i` that ends a literal run.
pub open spec fn munch_lit(s: Seq<char>, i: int, braced: bool) -> int
    decreases s.len() - i,
{
    if 0 <= i && i < s.len() && !is_lit_stop(s[i], braced) {
        munch_lit(s, i + 1, braced)
    } else {
        i
    }
}

pub proof fn lemma_munch_name_bounds(s: Seq<char>, i: int)
    requires
        0 <= i <= s.len(),
    ensures
        i <= munch_name(s, i) <= s.len(),
        forall|k: int| i <= k < munch_name(s, i) ==> is_name_char(s[k]),
        munch_name(s, i) < s.len() ==> !is_name_char(s[munch_name(s, i)]),
    decreases s.len() - i,
{
    if i < s.len() && is_name_char(s[i]) {
        lemma_munch_name_bounds(s, i + 1);
    }
}

pub proof fn lemma_munch_digits_bounds(s: Seq<char>, i: int)
    requires
        0 <= i <= s.len(),
    ensures
        i <= munch_digits(s, i) <= s.len(),
        forall|k: int| i <= k < munch_digits(s, i) ==> is_digit_char(s[k]),
        munch_digits(s, i) < s.len() ==> !is_digit_char(s[munch_digits(s, i)]),
    decreases s.len() - i,
{
    if i < s.len() && is_digit_char(s[i]) {
        lemma_munch_digits_bounds(s, i + 1);
    }
}

pub proof fn lemma_munch_lit_bounds(s: Seq<char>, i: int, braced: bool)
    requires
        0 <= i <= s.len(),
    ensures
        i <= munch_lit(s, i, braced) <= s.len(),
        forall|k: int| i <= k < munch_lit(s, i, braced) ==> !is_lit_stop(s[k], braced),
        munch_lit(s, i, braced) < s.len() ==> is_lit_stop(s[munch_lit(s, i, braced)], braced),
    decreases s.len() - i,
{
    if i < s.len() && !is_lit_stop(s[i], braced) {
        lemma_munch_lit_bounds(s, i + 1, braced);
    }
}

/// The substring length operand, after its introducing `:`: optional
/// whitespace, an optional `-` sign, optional digits, optional whitespace.
pub open spec fn parse_length(
    s: Seq<char>,
    p: int,
    var: RefModel,
    offset: Seq<char>,
) -> Result<(ExprModel, int), ErrModel>
    recommends
        0 <= p <= s.len(),
{
    let a = munch_space(s, p);
    if a >= s.len() {
        Err(ErrModel::MissingClosingBrace { span: s })
    } else {
        let neg = s[a] == '-';
        let a1 = if neg {
            a + 1
        } else {
            a
        };
        let d = munch_digits(s, a1);
        let b = munch_space(s, d);
        if b >= s.len() {
            Err(ErrModel::MissingClosingBrace { span: s })
        } else if s[b] == '}' {
            Ok(
                (
                    ExprModel::Substring {
                        var,
                        offset,
                        length: Some((neg, s.subrange(a1, d))),
                    },
                    b + 1,
                ),
            )
        } else {
            Err(ErrModel::OperandExpected { token: s[b] })
        }
    }
}

/// The substring operand list, after the first `:`: an offset of optional
/// whitespace and digits, then optionally `:` and a length operand.
pub open spec fn parse_substring(s: Seq<char>, p: int, var: RefModel) -> Result<
    (ExprModel, int),
    ErrModel,
>
    recommends
        0 <= p <= s.len(),
{
    let a = munch_space(s, p);
    if a >= s.len() {
        Err(ErrModel::MissingClosingBrace { span: s })
    } else if s[a] == ':' {
        parse_length(s, a + 1, var, Seq::empty())
    } else {
        let d = munch_digits(s, a);
        if d == a {
            if s[a] == '}' {
                Err(ErrModel::BadSubstitution)
            } else {
                Err(ErrModel::OperandExpected { token: s[a] })
            }
        } else {
            let offset = s.subrange(a, d);
            let b = munch_space(s, d);
            if b >= s.len() {
                Err(ErrModel::MissingClosingBrace { span: s })
            } else if s[b] == '}' {
                Ok((ExprModel::Substring { var, offset, length: None }, b + 1))
            } else if s[b] == ':' {
                parse_length(s, b + 1, var, offset)
            } else {
                Err(ErrModel::OperandExpected { token: s[b] })
            }
        }
    }
}

/// The index where scanning continues after a parsed braced body. A braced
/// body always ends strictly past the index where it began, so the
/// adjustment never takes effect; it keeps the recursion in [`parse_word`]
/// visibly well-founded.
pub open spec fn clamp_idx(s: Seq<char>, lo: int, j: int) -> int {
    if lo <= j <= s.len() {
        j
    } else {
        s.len() as int
    }
}

/// A template, scanned from index `i`. When `braced` holds, the template is
/// an operand inside `${...}` and an unmatched `}` closes it (the returned
/// index lies past that `}`); otherwise scanning stops at end of input, and
/// `}` is ordinary text.
pub open spec fn parse_word(s: Seq<char>, i: int, braced: bool) -> Result<
    (TmplModel, int),
    ErrModel,
>
    recommends
        0 <= i <= s.len(),
    decreases s.len() - i, 1int,
{
    if i >= s.len() {
        if braced {
            Err(ErrModel::MissingClosingBrace { span: s })
        } else {
            Ok((TmplModel::Empty, i))
        }
    } else if braced && s[i] == '}' {
        Ok((TmplModel::Empty, i + 1))
    } else if s[i] == '\\' {
        if i + 1 < s.len() {
            match parse_word(s, i + 2, braced) {
                Ok((rest, k)) => Ok(
                    (TmplModel::Lit { text: seq![s[i + 1]], rest: Box::new(rest) }, k),
                ),
                Err(e) => Err(e),
            }
        } else {
            Err(ErrModel::MissingEscapedCharacter)
        }
    } else if s[i] == '$' {
        if i + 1 < s.len() && s[i + 1] == '$' {
            match parse_word(s, i + 2, braced) {
                Ok((rest, k)) => Ok(
                    (TmplModel::Ref { expr: ExprModel::ProcessId, rest: Box::new(rest) }, k),
                ),
                Err(e) => Err(e),
            }
        } else if i + 1 < s.len() && s[i + 1] == '{' {
            match parse_braced(s, i + 2) {
                Ok((expr, j)) => match parse_word(s, clamp_idx(s, i + 2, j), braced) {
                    Ok((rest, k)) => Ok((TmplModel::Ref { expr, rest: Box::new(rest) }, k)),
                    Err(e) => Err(e),
                },
                Err(e) => Err(e),
            }
        } else if i + 1 < s.len() && is_name_char(s[i + 1]) {
            let j = clamp_idx(s, i + 2, munch_name(s, i + 1));
            let expr = ExprModel::Plain {
                var: RefModel { indirect: false, name: s.subrange(i + 1, j) },
            };
            match parse_word(s, j, braced) {
                Ok((rest, k)) => Ok((TmplModel::Ref { expr, rest: Box::new(rest) }, k)),
                Err(e) => Err(e),
            }
        } else {
            match parse_word(s, i + 1, braced) {
                Ok((rest, k)) => Ok((TmplModel::Lit { text: seq!['$'], rest: Box::new(rest) }, k)),
                Err(e) => Err(e),
            }
        }
    } else {
        let j = clamp_idx(s, i + 1, munch_lit(s, i, braced));
        match parse_word(s, j, braced) {
            Ok((rest, k)) => Ok(
                (TmplModel::Lit { text: s.subrange(i, j), rest: Box::new(rest) }, k),
            ),
            Err(e) => Err(e),
        }
    }
}

/// The body of a `${...}` reference, scanned from the index just past the
/// opening brace. On success the returned index lies past the matching `}`.
pub open spec fn parse_braced(s: Seq<char>, i: int) -> Result<(ExprModel, int), ErrModel>
    recommends
        0 <= i <= s.len(),
    decreases s.len() - i, 0int,
{
    if i >= s.len() {
        Err(ErrModel::MissingClosingBrace { span: s })
    } else if s[i] == '$' {
        if i + 1 < s.len() {
            if s[i + 1] == '}' {
                Ok((ExprModel::ProcessId, i + 2))
            } else {
                Err(ErrModel::BadSubstitution)
            }
        } else {
            Err(ErrModel::MissingClosingBrace { span: s })
        }
    } else {
        let ind = s[i] == '!';
        let i1 = if ind {
            i + 1
        } else {
            i
        };
        if i1 >= s.len() {
            Err(ErrModel::MissingClosingBrace { span: s })
        } else {
            let j = clamp_idx(s, i1, munch_name(s, i1));
            if j == i1 {
                Err(ErrModel::BadSubstitution)
            } else {
                let var = RefModel { indirect: ind, name: s.subrange(i1, j) };
                if j >= s.len() {
                    Err(ErrModel::MissingClosingBrace { span: s })
                } else if s[j] == '}' {
                    Ok((ExprModel::Plain { var }, j + 1))
                } else if s[j] == '-' {
                    wrap_default(parse_word(s, j + 1, true), var, true)
                } else if s[j] == '=' {
                    wrap_assign(parse_word(s, j + 1, true), var, true)
                } else if s[j] == '+' {
                    wrap_alternate(parse_word(s, j + 1, true), var, true)
                } else if s[j] == '?' {
                    parse_required(s, j + 1, var, true)
                } else if s[j] == ':' {
                    if j + 1 >= s.len() {
                        Err(ErrModel::MissingClosingBrace { span: s })
                    } else if s[j + 1] == '-' {
                        wrap_default(parse_word(s, j + 2, true), var, false)
                    } else if s[j + 1] == '=' {
                        wrap_assign(parse_word(s, j + 2, true), var, false)
                    } else if s[j + 1] == '+' {
                        wrap_alternate(parse_word(s, j + 2, true), var, false)
                    } else if s[j + 1] == '?' {
                        parse_required(s, j + 2, var, false)
                    } else {
                        parse_substring(s, j + 1, var)
                    }
                } else {
                    Err(ErrModel::BadSubstitution)
                }
            }
        }
    }
}

/// A required-value operand: an optional message template up to the `}`.
pub open spec fn parse_required(
    s: Seq<char>,
    p: int,
    var: RefModel,
    only_if_unset: bool,
) -> Result<(ExprModel, int), ErrModel>
    recommends
        0 <= p <= s.len(),
    decreases s.len() - p, 2int,
{
    if p >= s.len() {
        Err(ErrModel::MissingClosingBrace { span: s })
    } else if s[p] == '}' {
        Ok((ExprModel::Required { var, only_if_unset, message: None }, p + 1))
    } else if is_bad_operand_char(s[p]) {
        Err(ErrModel::OperandExpected { token: s[p] })
    } else {
        match parse_word(s, p, true) {
            Ok((w, k)) => Ok(
                (ExprModel::Required { var, only_if_unset, message: Some(Box::new(w)) }, k),
            ),
            Err(e) => Err(e),
        }
    }
}

/// Builds a default expression around a scanned operand template.
pub open spec fn wrap_default(
    r: Result<(TmplModel, int), ErrModel>,
    var: RefModel,
    only_if_unset: bool,
) -> Result<(ExprModel, int), ErrModel> {
    match r {
        Ok((w, k)) => Ok(
            (ExprModel::WithDefault { var, only_if_unset, default: Box::new(w) }, k),
        ),
        Err(e) => Err(e),
    }
}

/// Builds an assign-default expression around a scanned operand template.
pub open spec fn wrap_assign(
    r: Result<(TmplModel, int), ErrModel>,
    var: RefModel,
    only_if_unset: bool,
) -> Result<(ExprModel, int), ErrModel> {
    match r {
        Ok((w, k)) => Ok(
            (ExprModel::AssignDefault { var, only_if_unset, default: Box::new(w) }, k),
        ),
        Err(e) => Err(e),
    }
}

/// Builds an alternate expression around a scanned operand template.
pub open spec fn wrap_alternate(
    r: Result<(TmplModel, int), ErrModel>,
    var: RefModel,
    only_if_unset: bool,
) -> Result<(ExprModel, int), ErrModel> {
    match r {
        Ok((w, k)) => Ok(
            (ExprModel::WithAlternate { var, only_if_unset, value: Box::new(w) }, k),
        ),
        Err(e) => Err(e),
    }
}

/// The whole input as one template: scanning starts at the first character
/// and, outside any brace, consumes the input to its end.
pub open spec fn parse_input(s: Seq<char>) -> Result<(TmplModel, int), ErrModel> {
    parse_word(s, 0, false)
}

/// On input free of references and escapes, scanning yields one literal
/// fragment holding the text unchanged.
pub proof fn lemma_literal_free_parse(s: Seq<char>, i: int)
    requires
        0 <= i <= s.len(),
        forall|k: int| 0 <= k < s.len() ==> (s[k] != '$' && s[k] != '\\'),
    ensures
        (match parse_word(s, i, false) {
            Ok((t, j)) => j == s.len() && crate::token::tmpl_literal_only(t)
                && crate::token::tmpl_text(t) == s.subrange(i, s.len() as int),
            Err(_) => false,
        }),
{
    reveal_with_fuel(parse_word, 2);
    reveal_with_fuel(crate::token::tmpl_literal_only, 2);
    reveal_with_fuel(crate::token::tmpl_text, 2);
    if i >= s.len() {
        assert(s.subrange(i, s.len() as int) =~= Seq::empty());
    } else {
        lemma_munch_lit_bounds(s, i, false);
        let j = munch_lit(s, i, false);
        assert(j == s.len());
        assert(clamp_idx(s, i + 1, j) == j);
        let text = s.subrange(i, s.len() as int);
        assert(text + Seq::empty() =~= text);
    }
}

/// Exec mirror of [`munch_name`].
fn scan_name(s: &str, i: usize) -> (j: usize)
    requires
        i <= s@.len(),
    ensures
        j as int == munch_name(s@, i as int),
        i <= j,
        j as int <= s@.len(),
    decreases s@.len() - i,
{
    let n = s.unicode_len();
    if i < n && name_char(s.get_char(i)) {
        scan_name(s, i + 1)
    } else {
        i
    }
}

/// Exec mirror of [`munch_digits`].
fn scan_digits(s: &str, i: usize) -> (j: usize)
    requires
        i <= s@.len(),
    ensures
        j as int == munch_digits(s@, i as int),
        i <= j,
        j as int <= s@.len(),
    decreases s@.len() - i,
{
    let n = s.unicode_len();
    if i < n && digit_char(s.get_char(i)) {
        scan_digits(s, i + 1)
    } else {
        i
    }
}

/// Exec mirror of [`munch_space`].
fn scan_space(s: &str, i: usize) -> (j: usize)
    requires
        i <= s@.len(),
    ensures
        j as int == munch_space(s@, i as int),
        i <= j,
        j as int <= s@.len(),
    decreases s@.len() - i,
{
    let n = s.unicode_len();
    if i < n && space_char(s.get_char(i)) {
        scan_space(s, i + 1)
    } else {
        i
    }
}

/// Exec mirror of [`munch_lit`].
fn scan_lit(s: &str, i: usize, braced: bool) -> (j: usize)
    requires
        i <= s@.len(),
    ensures
        j as int == munch_lit(s@, i as int, braced),
        i <= j,
        j as int <= s@.len(),
    decreases s@.len() - i,
{
    let n = s.unicode_len();
    if i < n {
        let c = s.get_char(i);
        if !(c == '$' || c == '\\' || (braced && c == '}')) {
            scan_lit(s, i + 1, braced)
        } else {
            i
        }
    } else {
        i
    }
}

/// Exec mirror of [`parse_length`].
fn p_length(s: &str, p: usize, var: VarRef, offset: String) -> (r: Result<(Expr, usize), Error>)
    requires
        p <= s@.len(),
        all_digits(offset@),
    ensures
        (match r {
            Ok((e, j)) => parse_length(s@, p as int, var@, offset@) == Ok::<_, ErrModel>(
                (e@, j as int),
            ) && expr_wf(e@) && p <= j && j as int <= s@.len(),
            Err(e) => parse_length(s@, p as int, var@, offset@) == Err::<(ExprModel, int), _>(e@),
        }),
{
    proof {
        reveal_with_fuel(crate::token::tmpl_view, 3);
        reveal_with_fuel(crate::token::expr_view, 3);
        reveal_with_fuel(tmpl_wf, 3);
        reveal_with_fuel(expr_wf, 3);
    }
    let n = s.unicode_len();
    let a = scan_space(s, p);
    if a >= n {
        Err(Error::MissingClosingBrace { span: s.to_owned() })
    } else {
        let neg = s.get_char(a) == '-';
        let a1 = if neg {
            a + 1
        } else {
            a
        };
        let d = scan_digits(s, a1);
        let b = scan_space(s, d);
        if b >= n {
            Err(Error::MissingClosingBrace { span: s.to_owned() })
        } else if s.get_char(b) == '}' {
            let digits = s.substring_char(a1, d).to_owned();
            proof {
                lemma_munch_digits_bounds(s@, a1 as int);
                assert(all_digits(digits@));
            }
            Ok(
                (
                    Expr::Substring {
                        var,
                        offset,
                        length: Some(LengthArg { negative: neg, digits }),
                    },
                    b + 1,
                ),
            )
        } else {
            Err(Error::OperandExpected { token: s.get_char(b) })
        }
    }
}

/// Exec mirror of [`parse_substring`].
fn p_substring(s: &str, p: usize, var: VarRef) -> (r: Result<(Expr, usize), Error>)
    requires
        p <= s@.len(),
    ensures
        (match r {
            Ok((e, j)) => parse_substring(s@, p as int, var@) == Ok::<_, ErrModel>(
                (e@, j as int),
            ) && expr_wf(e@) && p <= j && j as int <= s@.len(),
            Err(e) => parse_substring(s@, p as int, var@) == Err::<(ExprModel, int), _>(e@),
        }),
{
    proof {
        reveal_with_fuel(crate::token::tmpl_view, 3);
        reveal_with_fuel(crate::token::expr_view, 3);
        reveal_with_fuel(tmpl_wf, 3);
        reveal_with_fuel(expr_wf, 3);
    }
    let n = s.unicode_len();
    let a = scan_space(s, p);
    if a >= n {
        Err(Error::MissingClosingBrace { span: s.to_owned() })
    } else if s.get_char(a) == ':' {
        let empty = String::new();
        p_length(s, a + 1, var, empty)
    } else {
        let d = scan_digits(s, a);
        if d == a {
            if s.get_char(a) == '}' {
                Err(Error::BadSubstitution)
            } else {
                Err(Error::OperandExpected { token: s.get_char(a) })
            }
        } else {
            let offset = s.substring_char(a, d).to_owned();
            proof {
                lemma_munch_digits_bounds(s@, a as int);
                assert(all_digits(offset@));
            }
            let b = scan_space(s, d);
            if b >= n {
                Err(Error::MissingClosingBrace { span: s.to_owned() })
            } else if s.get_char(b) == '}' {
                Ok((Expr::Substring { var, offset, length: None }, b + 1))
            } else if s.get_char(b) == ':' {
                p_length(s, b + 1, var, offset)
            } else {
                Err(Error::OperandExpected { token: s.get_char(b) })
            }
        }
    }
}

/// Exec mirror of [`parse_word`].
fn p_word(s: &str, i: usize, braced: bool) -> (r: Result<(Tmpl, usize), Error>)
    requires
        i <= s@.len(),
    ensures
        (match r {
            Ok((t, j)) => parse_word(s@, i as int, braced) == Ok::<_, ErrModel>((t@, j as int))
                && tmpl_wf(t@) && i <= j && j as int <= s@.len(),
            Err(e) => parse_word(s@, i as int, braced) == Err::<(TmplModel, int), _>(e@),
        }),
    decreases s@.len() - i, 1int,
{
    proof {
        reveal_with_fuel(crate::token::tmpl_view, 3);
        reveal_with_fuel(crate::token::expr_view, 3);
        reveal_with_fuel(tmpl_wf, 3);
        reveal_with_fuel(expr_wf, 3);
    }
    let n = s.unicode_len();
    if i >= n {
        if braced {
            Err(Error::MissingClosingBrace { span: s.to_owned() })
        } else {
            Ok((Tmpl::Empty, i))
        }
    } else {
        let c = s.get_char(i);
        if braced && c == '}' {
            Ok((Tmpl::Empty, i + 1))
        } else if c == '\\' {
            if i + 1 < n {
                let text = s.substring_char(i + 1, i + 2).to_owned();
                proof {
                    assert(text@ =~= seq![s@[i as int + 1]]);
                }
                match p_word(s, i + 2, braced) {
                    Ok((rest, k)) => Ok((Tmpl::Lit { text, rest: Box::new(rest) }, k)),
                    Err(e) => Err(e),
                }
            } else {
                Err(Error::MissingEscapedCharacter)
            }
        } else if c == '$' {
            if i + 1 < n && s.get_char(i + 1) == '$' {
                match p_word(s, i + 2, braced) {
                    Ok((rest, k)) => Ok(
                        (Tmpl::Ref { expr: Expr::ProcessId, rest: Box::new(rest) }, k),
                    ),
                    Err(e) => Err(e),
                }
            } else if i + 1 < n && s.get_char(i + 1) == '{' {
                match p_braced(s, i + 2) {
                    Ok((expr, j)) => {
                        proof {
                            assert(clamp_idx(s@, i as int + 2, j as int) == j as int);
                        }
                        match p_word(s, j, braced) {
                            Ok((rest, k)) => Ok((Tmpl::Ref { expr, rest: Box::new(rest) }, k)),
                            Err(e) => Err(e),
                        }
                    },
                    Err(e) => Err(e),
                }
            } else if i + 1 < n && name_char(s.get_char(i + 1)) {
                let j = scan_name(s, i + 1);
                proof {
                    lemma_munch_name_bounds(s@, i as int + 2);
                    assert(clamp_idx(s@, i as int + 2, munch_name(s@, i as int + 1)) == j as int);
                }
                let name = s.substring_char(i + 1, j).to_owned();
                let expr = Expr::Plain { var: VarRef { indirect: false, name } };
                match p_word(s, j, braced) {
                    Ok((rest, k)) => Ok((Tmpl::Ref { expr, rest: Box::new(rest) }, k)),
                    Err(e) => Err(e),
                }
            } else {
                let text = "$".to_owned();
                proof {
                    reveal_strlit("$");
                    assert(text@ =~= seq!['$']);
                }
                match p_word(s, i + 1, braced) {
                    Ok((rest, k)) => Ok((Tmpl::Lit { text, rest: Box::new(rest) }, k)),
                    Err(e) => Err(e),
                }
            }
        } else {
            let j = scan_lit(s, i, braced);
            proof {
                lemma_munch_lit_bounds(s@, i as int + 1, braced);
                assert(clamp_idx(s@, i as int + 1, munch_lit(s@, i as int, braced)) == j as int);
            }
            let text = s.substring_char(i, j).to_owned();
            match p_word(s, j, braced) {
                Ok((rest, k)) => Ok((Tmpl::Lit { text, rest: Box::new(rest) }, k)),
                Err(e) => Err(e),
            }
        }
    }
}

/// Exec mirror of [`parse_braced`].
fn p_braced(s: &str, i: usize) -> (r: Result<(Expr, usize), Error>)
    requires
        i <= s@.len(),
    ensures
        (match r {
            Ok((e, j)) => parse_braced(s@, i as int) == Ok::<_, ErrModel>((e@, j as int))
                && expr_wf(e@) && i + 2 <= j && j as int <= s@.len(),
            Err(e) => parse_braced(s@, i as int) == Err::<(ExprModel, int), _>(e@),
        }),
    decreases s@.len() - i, 0int,
{
    proof {
        reveal_with_fuel(crate::token::tmpl_view, 3);
        reveal_with_fuel(crate::token::expr_view, 3);
        reveal_with_fuel(tmpl_wf, 3);
        reveal_with_fuel(expr_wf, 3);
    }
    let n = s.unicode_len();
    if i >= n {
        Err(Error::MissingClosingBrace { span: s.to_owned() })
    } else if s.get_char(i) == '$' {
        if i + 1 < n {
            if s.get_char(i + 1) == '}' {
                Ok((Expr::ProcessId, i + 2))
            } else {
                Err(Error::BadSubstitution)
            }
        } else {
            Err(Error::MissingClosingBrace { span: s.to_owned() })
        }
    } else {
        let ind = s.get_char(i) == '!';
        let i1 = if ind {
            i + 1
        } else {
            i
        };
        if i1 >= n {
            Err(Error::MissingClosingBrace { span: s.to_owned() })
        } else {
            let j = scan_name(s, i1);
            proof {
                assert(clamp_idx(s@, i1 as int, munch_name(s@, i1 as int)) == j as int);
            }
            if j == i1 {
                Err(Error::BadSubstitution)
            } else {
                let var = VarRef { indirect: ind, name: s.substring_char(i1, j).to_owned() };
                if j >= n {
                    Err(Error::MissingClosingBrace { span: s.to_owned() })
                } else {
                    let cj = s.get_char(j);
                    if cj == '}' {
                        Ok((Expr::Plain { var }, j + 1))
                    } else if cj == '-' {
                        match p_word(s, j + 1, true) {
                            Ok((w, k)) => Ok(
                                (
                                    Expr::WithDefault {
                                        var,
                                        only_if_unset: true,
                                        default: Box::new(w),
                                    },
                                    k,
                                ),
                            ),
                            Err(e) => Err(e),
                        }
                    } else if cj == '=' {
                        match p_word(s, j + 1, true) {
                            Ok((w, k)) => Ok(
                                (
                                    Expr::AssignDefault {
                                        var,
                                        only_if_unset: true,
                                        default: Box::new(w),
                                    },
                                    k,
                                ),
                            ),
                            Err(e) => Err(e),
                        }
                    } else if cj == '+' {
                        match p_word(s, j + 1, true) {
                            Ok((w, k)) => Ok(
                                (
                                    Expr::WithAlternate {
                                        var,
                                        only_if_unset: true,
                                        value: Box::new(w),
                                    },
                                    k,
                                ),
                            ),
                            Err(e) => Err(e),
                        }
                    } else if cj == '?' {
                        p_required(s, j + 1, var, true)
                    } else if cj == ':' {
                        if j + 1 >= n {
                            Err(Error::MissingClosingBrace { span: s.to_owned() })
                        } else {
                            let cj1 = s.get_char(j + 1);
                            if cj1 == '-' {
                                match p_word(s, j + 2, true) {
                                    Ok((w, k)) => Ok(
                                        (
                                            Expr::WithDefault {
                                                var,
                                                only_if_unset: false,
                                                default: Box::new(w),
                                            },
                                            k,
                                        ),
                                    ),
                                    Err(e) => Err(e),
                                }
                            } else if cj1 == '=' {
                                match p_word(s, j + 2, true) {
                                    Ok((w, k)) => Ok(
                                        (
                                            Expr::AssignDefault {
                                                var,
                                                only_if_unset: false,
                                                default: Box::new(w),
                                            },
                                            k,
                                        ),
                                    ),
                                    Err(e) => Err(e),
                                }
                            } else if cj1 == '+' {
                                match p_word(s, j + 2, true) {
                                    Ok((w, k)) => Ok(
                                        (
                                            Expr::WithAlternate {
                                                var,
                                                only_if_unset: false,
                                                value: Box::new(w),
                                            },
                                            k,
                                        ),
                                    ),
                                    Err(e) => Err(e),
                                }
                            } else if cj1 == '?' {
                                p_required(s, j + 2, var, false)
                            } else {
                                p_substring(s, j + 1, var)
                            }
                        }
                    } else {
                        Err(Error::BadSubstitution)
                    }
                }
            }
        }
    }
}

/// Exec mirror of [`parse_required`].
fn p_required(s: &str, p: usize, var: VarRef, only_if_unset: bool) -> (r: Result<
    (Expr, usize),
    Error,
>)
    requires
        p <= s@.len(),
    ensures
        (match r {
            Ok((e, j)) => parse_required(s@, p as int, var@, only_if_unset) == Ok::<_, ErrModel>(
                (e@, j as int),
            ) && expr_wf(e@) && p <= j && j as int <= s@.len(),
            Err(e) => parse_required(s@, p as int, var@, only_if_unset) == Err::<
                (ExprModel, int),
                _,
            >(e@),
        }),
    decreases s@.len() - p, 2int,
{
    proof {
        reveal_with_fuel(crate::token::tmpl_view, 3);
        reveal_with_fuel(crate::token::expr_view, 3);
        reveal_with_fuel(tmpl_wf, 3);
        reveal_with_fuel(expr_wf, 3);
    }
    let n = s.unicode_len();
    if p >= n {
        Err(Error::MissingClosingBrace { span: s.to_owned() })
    } else {
        let c = s.get_char(p);
        if c == '}' {
            Ok((Expr::Required { var, only_if_unset, message: None }, p + 1))
        } else if bad_operand_char(c) {
            Err(Error::OperandExpected { token: c })
        } else {
            match p_word(s, p, true) {
                Ok((w, k)) => Ok(
                    (Expr::Required { var, only_if_unset, message: Some(Box::new(w)) }, k),
                ),
                Err(e) => Err(e),
            }
        }
    }
}

/// Scans a whole input string into its template.
pub(crate) fn scan_input(s: &str) -> (r: Result<Tmpl, Error>)
    ensures
        (match r {
            Ok(t) => tmpl_wf(t@) && (match parse_input(s@) {
                Ok((tm, j)) => tm == t@,
                Err(_) => false,
            }),
            Err(e) => parse_input(s@) == Err::<(TmplModel, int), _>(e@),
        }),
{
    match p_word(s, 0, false) {
        Ok((t, _)) => Ok(t),
        Err(e) => Err(e),
    }
}

} // verus!
