//! Diagnostics for malformed input. Scanning never stops on one: each is
//! recorded with its line and the scan goes on.

use vstd::prelude::*;

verus! {

/// What went wrong.
#[derive(Clone, Copy, Debug, PartialEq, Eq, Structural)]
pub enum ScanErrorKind {
    /// A lead character that starts no token.
    UnexpectedCharacter,
    /// Input ended inside a string literal.
    UnterminatedString,
}

impl ScanErrorKind {
    pub fn message(&self) -> (r: &'static str)
        ensures
            r@ == message_text(*self),
    {
        match self {
            ScanErrorKind::UnexpectedCharacter => "Unexpected character",
            ScanErrorKind::UnterminatedString => "Unterminated string",
        }
    }
}

pub open spec fn message_text(k: ScanErrorKind) -> Seq<char> {
    match k {
        ScanErrorKind::UnexpectedCharacter => "Unexpected character"@,
        ScanErrorKind::UnterminatedString => "Unterminated string"@,
    }
}

/// The mathematical content of a diagnostic.
pub struct ScanErrorView {
    pub line: int,
    pub kind: ScanErrorKind,
}

/// A diagnostic: the 1-based line at which it was detected, and its kind.
#[derive(Clone, Copy, Debug, PartialEq, Eq, Structural)]
pub struct ScanError {
    pub line: usize,
    pub kind: ScanErrorKind,
}

impl View for ScanError {
    type V = ScanErrorView;

    open spec fn view(&self) -> ScanErrorView {
        ScanErrorView { line: self.line as int, kind: self.kind }
    }
}

pub open spec fn errors_view(es: Seq<ScanError>) -> Seq<ScanErrorView> {
    es.map_values(|e: ScanError| e@)
}

/// Builds the diagnostic for `kind` detected on `line`.
pub fn error(line: usize, kind: ScanErrorKind) -> (r: ScanError)
    ensures
        r@ == (ScanErrorView { line: line as int, kind }),
{
    ScanError { line, kind }
}

} // verus!
