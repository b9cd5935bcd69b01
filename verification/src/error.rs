//! The errors of a parse.

use vstd::prelude::*;

verus! {

/// Why a parse stopped.
#[derive(Clone, Copy, Debug, PartialEq, Eq, Structural)]
pub enum ParseErrorKind {
    /// No recognizer matches the remaining text.
    Unrecognized,
    /// The input ended while block openers and closers were not in balance,
    /// or before a function body was closed.
    UnbalancedScope,
    /// A macro marker is not followed by a body whose delimiters balance.
    UnbalancedMacro,
}

/// A failed parse: what went wrong, the text that was left unread, and the
/// line that had been reached.
#[derive(Debug, PartialEq, Eq)]
pub struct ParseError {
    pub kind: ParseErrorKind,
    pub unconsumed_text: String,
    pub line: i32,
}

/// The mathematical value of a `ParseError`.
pub ghost struct Failure {
    pub kind: ParseErrorKind,
    pub unconsumed_text: Seq<char>,
    pub line: i32,
}

/// The message that reports a failure of kind `kind`.
pub open spec fn message_of(kind: ParseErrorKind) -> Seq<char> {
    match kind {
        ParseErrorKind::Unrecognized => "pattern not recognized"@,
        ParseErrorKind::UnbalancedScope => "block markers do not balance"@,
        ParseErrorKind::UnbalancedMacro => "macro body delimiters do not balance"@,
    }
}

impl View for ParseError {
    type V = Failure;

    open spec fn view(&self) -> Failure {
        Failure { kind: self.kind, unconsumed_text: self.unconsumed_text@, line: self.line }
    }
}

impl ParseError {
    /// Builds the error of kind `kind`, raised on `line` with `unconsumed`
    /// still unread.
    pub fn new(kind: ParseErrorKind, unconsumed: &str, line: i32) -> (error: ParseError)
        ensures
            error@ == (Failure { kind, unconsumed_text: unconsumed@, line }),
    {
        ParseError { kind, unconsumed_text: String::from_str(unconsumed), line }
    }

    /// The message that reports this error.
    pub fn message(&self) -> (text: String)
        ensures
            text@ == message_of(self.kind),
    {
        match self.kind {
            ParseErrorKind::Unrecognized => String::from_str("pattern not recognized"),
            ParseErrorKind::UnbalancedScope => String::from_str("block markers do not balance"),
            ParseErrorKind::UnbalancedMacro => String::from_str(
                "macro body delimiters do not balance",
            ),
        }
    }
}

} // verus!
