//! What the reader reports when the notation is malformed.

use vstd::prelude::*;

verus! {

/// The ways in which reading a notation can fail.
#[derive(Clone, Copy, Debug, PartialEq, Eq, Structural)]
pub enum ErrorKind {
    /// A literal that is neither a single digit nor one of the known quoted
    /// characters, or a one-character name that is not an ASCII letter.
    UnrecognizedLiteral,
    /// A punctuation character that names no key.
    UnrecognizedPunctuation,
    /// A single lowercase letter where the uppercase spelling is asked for.
    LowercaseKeyName,
    /// No token is left where the key should stand, or a group stands there.
    MissingKeyToken,
    /// A sequence was asked for and there are no tokens at all.
    EmptyInput,
    /// One chord was asked for and tokens are left after it.
    ExcessTokens,
    /// The key is not among the names of the chosen backend.
    UnknownBackendKey,
}

/// A failure and the index of the token at which it was found. Where the
/// input ends too early, the index is the one just past the last token read.
#[derive(Clone, Copy, Debug, PartialEq, Eq, Structural)]
pub struct Diagnostic {
    pub kind: ErrorKind,
    pub position: usize,
}

/// What a [`Diagnostic`] denotes.
pub struct DiagnosticView {
    pub kind: ErrorKind,
    pub position: int,
}

impl View for Diagnostic {
    type V = DiagnosticView;

    open spec fn view(&self) -> DiagnosticView {
        DiagnosticView { kind: self.kind, position: self.position as int }
    }
}

impl ErrorKind {
    /// The message that goes with each kind of failure.
    pub open spec fn message_text(self) -> Seq<char> {
        match self {
            ErrorKind::UnrecognizedLiteral => "This literal does not name a key"@,
            ErrorKind::UnrecognizedPunctuation => "This punctuation does not name a key"@,
            ErrorKind::LowercaseKeyName => "Use uppercase key names"@,
            ErrorKind::MissingKeyToken => "No key token found"@,
            ErrorKind::EmptyInput => "No tokens; a sequence needs at least one chord"@,
            ErrorKind::ExcessTokens => "Too many tokens; use the sequence form for multiple keys"@,
            ErrorKind::UnknownBackendKey => "The backend has no key of this name"@,
        }
    }

    /// A message for the user, one for each kind.
    pub fn message(&self) -> (text: &'static str)
        ensures
            text@ == self.message_text(),
    {
        match self {
            ErrorKind::UnrecognizedLiteral => "This literal does not name a key",
            ErrorKind::UnrecognizedPunctuation => "This punctuation does not name a key",
            ErrorKind::LowercaseKeyName => "Use uppercase key names",
            ErrorKind::MissingKeyToken => "No key token found",
            ErrorKind::EmptyInput => "No tokens; a sequence needs at least one chord",
            ErrorKind::ExcessTokens => "Too many tokens; use the sequence form for multiple keys",
            ErrorKind::UnknownBackendKey => "The backend has no key of this name",
        }
    }
}

} // verus!
