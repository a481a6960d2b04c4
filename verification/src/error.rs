//! The error taxonomy of the expansion engine.
//!
//! Grammar errors (unterminated brace, bad substitution, operand expected)
//! and evaluation errors (required parameter missing, negative substring
//! length) are all fatal for the whole call: expansion is all-or-nothing.

use vstd::prelude::*;

verus! {

/// Specification-level mirror of [`Error`], over `Seq<char>` payloads.
pub enum ErrModel {
    /// A trailing unescaped backslash at end of input.
    MissingEscapedCharacter,
    /// A `${`-opened reference was never closed; carries the unterminated input.
    MissingClosingBrace { span: Seq<char> },
    /// An empty or structurally invalid braced body, such as `${}` or `${FOO:}`.
    BadSubstitution,
    /// An operator expected an identifier or numeric operand and found neither.
    OperandExpected { token: char },
    /// A required parameter was unset (or empty, for the `:?` form).
    ParameterNullOrNotSet { name: Seq<char>, message: Seq<char> },
    /// A substring length resolved to a negative number.
    NegativeSubstringLength { name: Seq<char>, digits: Seq<char> },
    /// A resolved byte span was not valid text.
    InvalidUtf8,
}

/// An error that aborts a whole expansion call, with no partial output.
#[derive(Debug, PartialEq, Eq)]
pub enum Error {
    /// A trailing unescaped backslash at end of input.
    MissingEscapedCharacter,
    /// A `${`-opened reference was never closed; carries the unterminated input.
    MissingClosingBrace { span: String },
    /// An empty or structurally invalid braced body, such as `${}` or `${FOO:}`.
    BadSubstitution,
    /// An operator expected an identifier or numeric operand and found neither.
    OperandExpected { token: char },
    /// A required parameter was unset (or empty, for the `:?` form); carries
    /// the variable's name and the caller-supplied or standard message.
    ParameterNullOrNotSet { name: String, message: String },
    /// A substring length resolved to a negative number; carries the
    /// variable's name and the digits of the offending length.
    NegativeSubstringLength { name: String, digits: String },
    /// A resolved byte span was not valid text. String inputs and string
    /// environments cannot produce it; it completes the taxonomy for
    /// byte-level callers.
    InvalidUtf8,
}

impl View for Error {
    type V = ErrModel;

    open spec fn view(&self) -> ErrModel {
        match self {
            Error::MissingEscapedCharacter => ErrModel::MissingEscapedCharacter,
            Error::MissingClosingBrace { span } => ErrModel::MissingClosingBrace {
                span: span@,
            },
            Error::BadSubstitution => ErrModel::BadSubstitution,
            Error::OperandExpected { token } => ErrModel::OperandExpected { token: *token },
            Error::ParameterNullOrNotSet { name, message } => ErrModel::ParameterNullOrNotSet {
                name: name@,
                message: message@,
            },
            Error::NegativeSubstringLength { name, digits } => ErrModel::NegativeSubstringLength {
                name: name@,
                digits: digits@,
            },
            Error::InvalidUtf8 => ErrModel::InvalidUtf8,
        }
    }
}

} // verus!
