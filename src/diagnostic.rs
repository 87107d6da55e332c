//! Diagnostics produced by the lexer and the parser.
use vstd::prelude::*;

use crate::span::Span;
use crate::token::Token;

verus! {

/// How serious a diagnostic is. `Critical` marks a state that the lexer and
/// parser hold to be unreachable.
#[derive(Debug, Clone, Copy, PartialEq, Eq, Structural, Hash)]
pub enum Severity {
    Warning,
    Error,
    Critical,
}

/// What went wrong.
#[derive(Debug, Clone, PartialEq, Eq)]
pub enum DiagnosticKind {
    /// A character that starts no token.
    UnexpectedChar,
    /// A backslash in a string that starts no known escape.
    InvalidEscape,
    /// An octal escape above `\377`.
    OctalOutOfRange,
    /// A `\u` escape that names no character.
    InvalidUnicode,
    /// A string literal without its closing quote on the same line.
    UnterminatedString,
    /// A block comment without its closing `*/`.
    UnterminatedComment,
    /// A token that the grammar does not admit here (`None`: the end of
    /// input), with the token that was wanted, if one particular token was.
    Unexpected { found: Option<Token>, expected: Option<Token> },
    /// An identifier that does not start with a letter or digit.
    IdentStart,
    /// An identifier with a character other than a letter, digit or `_`.
    IdentChars,
    /// An identifier with no characters after its sigil.
    EmptyIdent,
    /// A variable name without its leading `$`.
    MissingSigil,
    /// `?void`.
    NullableVoid,
    /// A token where one of the type names was wanted.
    ExpectedType { found: Option<Token> },
    /// An integer literal that is not a 64-bit integer.
    InvalidInt,
}

/// A problem found in the source text, with where it is and how serious.
#[derive(Debug, Clone, PartialEq, Eq)]
pub struct Diagnostic {
    pub span: Span,
    pub severity: Severity,
    pub kind: DiagnosticKind,
}

} // verus!
