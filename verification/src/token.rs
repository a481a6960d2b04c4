//! The expression model: a template is an ordered sequence of literal and
//! reference fragments, and each reference carries its operator qualifier.
//!
//! Default, alternate and message operands are themselves templates, so the
//! types are mutually recursive; operand templates are evaluated lazily,
//! only when the governing condition selects their branch.

use vstd::prelude::*;

verus! {

/// A variable occurrence: a name, optionally reached through indirection
/// (`${!NAME}` resolves `NAME`, then resolves the string found there).
pub struct VarRef {
    pub indirect: bool,
    pub name: String,
}

/// The length operand of a substring expression. A negative-looking length
/// (`-3`) is accepted lexically and rejected during evaluation.
pub struct LengthArg {
    pub negative: bool,
    pub digits: String,
}

/// A single `$`-triggered reference, qualified by its operator.
pub enum Expr {
    /// `$$` or `${$}`: the current process identifier, in decimal digits.
    ProcessId,
    /// `$NAME` or `${NAME}` (with `${!NAME}` marked in the [`VarRef`]).
    Plain { var: VarRef },
    /// `${NAME-d}` (`only_if_unset`) or `${NAME:-d}` (also when set empty).
    WithDefault { var: VarRef, only_if_unset: bool, default: Box<Tmpl> },
    /// `${NAME+v}` / `${NAME:+v}`: the value when the condition is false.
    WithAlternate { var: VarRef, only_if_unset: bool, value: Box<Tmpl> },
    /// `${NAME=d}` / `${NAME:=d}`: like a default, but written back.
    AssignDefault { var: VarRef, only_if_unset: bool, default: Box<Tmpl> },
    /// `${NAME?m}` / `${NAME:?m}`: fatal when the condition holds.
    Required { var: VarRef, only_if_unset: bool, message: Option<Box<Tmpl>> },
    /// `${NAME:off}` / `${NAME:off:len}`: a character range of the value.
    Substring { var: VarRef, offset: String, length: Option<LengthArg> },
}

/// A template: literal text and references in original document order.
pub enum Tmpl {
    Empty,
    Lit { text: String, rest: Box<Tmpl> },
    Ref { expr: Expr, rest: Box<Tmpl> },
}

/// Specification-level mirror of [`VarRef`].
pub struct RefModel {
    pub indirect: bool,
    pub name: Seq<char>,
}

/// Specification-level mirror of [`Expr`].
pub enum ExprModel {
    ProcessId,
    Plain { var: RefModel },
    WithDefault { var: RefModel, only_if_unset: bool, default: Box<TmplModel> },
    WithAlternate { var: RefModel, only_if_unset: bool, value: Box<TmplModel> },
    AssignDefault { var: RefModel, only_if_unset: bool, default: Box<TmplModel> },
    Required { var: RefModel, only_if_unset: bool, message: Option<Box<TmplModel>> },
    Substring { var: RefModel, offset: Seq<char>, length: Option<(bool, Seq<char>)> },
}

/// Specification-level mirror of [`Tmpl`].
pub enum TmplModel {
    Empty,
    Lit { text: Seq<char>, rest: Box<TmplModel> },
    Ref { expr: ExprModel, rest: Box<TmplModel> },
}

pub open spec fn var_view(v: VarRef) -> RefModel {
    RefModel { indirect: v.indirect, name: v.name@ }
}

impl View for VarRef {
    type V = RefModel;

    open spec fn view(&self) -> RefModel {
        var_view(*self)
    }
}

pub open spec fn expr_view(e: Expr) -> ExprModel
    decreases e,
{
    match e {
        Expr::ProcessId => ExprModel::ProcessId,
        Expr::Plain { var } => ExprModel::Plain { var: var_view(var) },
        Expr::WithDefault { var, only_if_unset, default } => ExprModel::WithDefault {
            var: var_view(var),
            only_if_unset,
            default: Box::new(tmpl_view(*default)),
        },
        Expr::WithAlternate { var, only_if_unset, value } => ExprModel::WithAlternate {
            var: var_view(var),
            only_if_unset,
            value: Box::new(tmpl_view(*value)),
        },
        Expr::AssignDefault { var, only_if_unset, default } => ExprModel::AssignDefault {
            var: var_view(var),
            only_if_unset,
            default: Box::new(tmpl_view(*default)),
        },
        Expr::Required { var, only_if_unset, message } => ExprModel::Required {
            var: var_view(var),
            only_if_unset,
            message: match message {
                Some(m) => Some(Box::new(tmpl_view(*m))),
                None => None,
            },
        },
        Expr::Substring { var, offset, length } => ExprModel::Substring {
            var: var_view(var),
            offset: offset@,
            length: match length {
                Some(l) => Some((l.negative, l.digits@)),
                None => None,
            },
        },
    }
}

pub open spec fn tmpl_view(t: Tmpl) -> TmplModel
    decreases t,
{
    match t {
        Tmpl::Empty => TmplModel::Empty,
        Tmpl::Lit { text, rest } => TmplModel::Lit {
            text: text@,
            rest: Box::new(tmpl_view(*rest)),
        },
        Tmpl::Ref { expr, rest } => TmplModel::Ref {
            expr: expr_view(expr),
            rest: Box::new(tmpl_view(*rest)),
        },
    }
}

impl View for Tmpl {
    type V = TmplModel;

    open spec fn view(&self) -> TmplModel {
        tmpl_view(*self)
    }
}

impl View for Expr {
    type V = ExprModel;

    open spec fn view(&self) -> ExprModel {
        expr_view(*self)
    }
}

/// A character that may appear in a variable name.
pub open spec fn is_name_char(c: char) -> bool {
    ('a' <= c && c <= 'z') || ('A' <= c && c <= 'Z') || ('0' <= c && c <= '9') || c == '_'
}

/// A decimal digit.
pub open spec fn is_digit_char(c: char) -> bool {
    '0' <= c && c <= '9'
}

/// Insignificant whitespace around a numeric operand.
pub open spec fn is_space_char(c: char) -> bool {
    c == ' ' || c == '\t'
}

/// A character that cannot start an operand where an identifier or a number
/// is expected.
pub open spec fn is_bad_operand_char(c: char) -> bool {
    c == '@' || c == '#' || c == '%' || c == '^' || c == '&' || c == '*' || c == '(' || c == ')'
        || c == '_' || c == '\'' || c == '"'
}

/// Exec mirror of [`is_name_char`].
pub fn name_char(c: char) -> (r: bool)
    ensures
        r == is_name_char(c),
{
    ('a' <= c && c <= 'z') || ('A' <= c && c <= 'Z') || ('0' <= c && c <= '9') || c == '_'
}

/// Exec mirror of [`is_digit_char`].
pub fn digit_char(c: char) -> (r: bool)
    ensures
        r == is_digit_char(c),
{
    '0' <= c && c <= '9'
}

/// Exec mirror of [`is_space_char`].
pub fn space_char(c: char) -> (r: bool)
    ensures
        r == is_space_char(c),
{
    c == ' ' || c == '\t'
}

/// Exec mirror of [`is_bad_operand_char`].
pub fn bad_operand_char(c: char) -> (r: bool)
    ensures
        r == is_bad_operand_char(c),
{
    c == '@' || c == '#' || c == '%' || c == '^' || c == '&' || c == '*' || c == '(' || c == ')'
        || c == '_' || c == '\'' || c == '"'
}

/// A well-formed variable name: non-empty, name characters only.
pub open spec fn valid_name(s: Seq<char>) -> bool {
    s.len() > 0 && forall|k: int| 0 <= k < s.len() ==> is_name_char(s[k])
}

/// Every character of the sequence is a decimal digit.
pub open spec fn all_digits(s: Seq<char>) -> bool {
    forall|k: int| 0 <= k < s.len() ==> is_digit_char(s[k])
}

/// A scanned expression is well formed: its numeric operands hold digits
/// only, and its operand templates are well formed in turn. The scanner
/// only ever produces well-formed trees.
pub open spec fn expr_wf(e: ExprModel) -> bool
    decreases e,
{
    match e {
        ExprModel::ProcessId => true,
        ExprModel::Plain { var } => true,
        ExprModel::WithDefault { var, only_if_unset, default } => tmpl_wf(*default),
        ExprModel::WithAlternate { var, only_if_unset, value } => tmpl_wf(*value),
        ExprModel::AssignDefault { var, only_if_unset, default } => tmpl_wf(*default),
        ExprModel::Required { var, only_if_unset, message } => match message {
            Some(m) => tmpl_wf(*m),
            None => true,
        },
        ExprModel::Substring { var, offset, length } => all_digits(offset) && match length {
            Some((neg, digits)) => all_digits(digits),
            None => true,
        },
    }
}

/// A scanned template is well formed: every reference in it is.
pub open spec fn tmpl_wf(t: TmplModel) -> bool
    decreases t,
{
    match t {
        TmplModel::Empty => true,
        TmplModel::Lit { text, rest } => tmpl_wf(*rest),
        TmplModel::Ref { expr, rest } => expr_wf(expr) && tmpl_wf(*rest),
    }
}

/// The template consists of literal text alone, with no references.
pub open spec fn tmpl_literal_only(t: TmplModel) -> bool
    decreases t,
{
    match t {
        TmplModel::Empty => true,
        TmplModel::Lit { text, rest } => tmpl_literal_only(*rest),
        TmplModel::Ref { expr, rest } => false,
    }
}

/// The literal text of a template, in order, ignoring references.
pub open spec fn tmpl_text(t: TmplModel) -> Seq<char>
    decreases t,
{
    match t {
        TmplModel::Empty => Seq::empty(),
        TmplModel::Lit { text, rest } => text + tmpl_text(*rest),
        TmplModel::Ref { expr, rest } => tmpl_text(*rest),
    }
}

/// The numeric value of a run of decimal digits (most significant first).
pub open spec fn digits_val(s: Seq<char>) -> int
    decreases s.len(),
{
    if s.len() == 0 {
        0
    } else {
        digits_val(s.drop_last()) * 10 + (s.last() as int - ('0' as int))
    }
}

} // verus!
