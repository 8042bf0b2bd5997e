//! Diagnostics: the lexical errors that a scan records without stopping.

use vstd::prelude::*;
use vstd::string::StringExecFns;

verus! {

/// What went wrong.
#[derive(Debug, Clone, Copy, PartialEq, Eq, Hash, Structural)]
pub enum DiagnosticKind {
    /// A character with which no token can begin.
    UnexpectedCharacter(char),
    /// A string literal whose closing quote is missing.
    UnterminatedString,
}

impl DiagnosticKind {
    /// The wording of the error.
    pub open spec fn spec_message(self) -> Seq<char> {
        match self {
            DiagnosticKind::UnexpectedCharacter(c) => "unexpected character '"@ + seq![c] + "'"@,
            DiagnosticKind::UnterminatedString => "unterminated string"@,
        }
    }

    /// The wording of the error.
    pub fn message(&self) -> (message: String)
        ensures
            message@ == self.spec_message(),
    {
        match self {
            DiagnosticKind::UnexpectedCharacter(c) => {
                let mut message = String::from_str("unexpected character '");
                message.push(*c);
                message.append("'");
                message
            },
            DiagnosticKind::UnterminatedString => String::from_str("unterminated string"),
        }
    }
}

/// A lexical error and the one-based line on which the offending text
/// begins.
#[derive(Debug, Clone, Copy, PartialEq, Eq, Hash, Structural)]
pub struct Diagnostic {
    pub line: usize,
    pub kind: DiagnosticKind,
}

/// The mathematical content of a [`Diagnostic`].
pub struct DiagnosticView {
    pub line: nat,
    pub kind: DiagnosticKind,
}

impl View for Diagnostic {
    type V = DiagnosticView;

    open spec fn view(&self) -> DiagnosticView {
        DiagnosticView { line: self.line as nat, kind: self.kind }
    }
}

/// The views of a sequence of diagnostics, in order.
pub open spec fn diagnostic_views(diagnostics: Seq<Diagnostic>) -> Seq<DiagnosticView> {
    diagnostics.map_values(|diagnostic: Diagnostic| diagnostic@)
}

impl Diagnostic {
    /// The wording of the error.
    pub fn message(&self) -> (message: String)
        ensures
            message@ == self@.kind.spec_message(),
    {
        self.kind.message()
    }
}

} // verus!
