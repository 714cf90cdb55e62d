//! Errors raised when processing a batch.

use vstd::prelude::*;

use crate::command;

verus! {

use vstd::string::StringExecFns;

/// Errors raised when processing a batch: a formatting failure while
/// composing output, an I/O failure at a source or sink, a
/// transport-level RPC failure, or a syntax error in the batch text.
#[derive(Debug)]
pub enum Error {
    Fmt,
    Io(String),
    Rpc(String),
    Syntax(command::Error),
}

/// The mathematical value of an `Error`.
pub enum ErrorView {
    Fmt,
    Io(Seq<char>),
    Rpc(Seq<char>),
    Syntax(command::SyntaxErrorView),
}

impl View for Error {
    type V = ErrorView;

    open spec fn view(&self) -> ErrorView {
        match self {
            Error::Fmt => ErrorView::Fmt,
            Error::Io(s) => ErrorView::Io(s@),
            Error::Rpc(s) => ErrorView::Rpc(s@),
            Error::Syntax(e) => ErrorView::Syntax(e@),
        }
    }
}

/// The diagnostic text of an error.
pub open spec fn error_message(e: ErrorView) -> Seq<char> {
    match e {
        ErrorView::Fmt => "Formatting error"@,
        ErrorView::Io(s) => "I/O error: "@ + s,
        ErrorView::Rpc(s) => "RPC error: "@ + s,
        ErrorView::Syntax(s) => "Syntax error: "@ + syntax_error_message(s),
    }
}

/// The diagnostic text of a syntax error.
pub open spec fn syntax_error_message(e: command::SyntaxErrorView) -> Seq<char> {
    match e {
        command::SyntaxErrorView::EmptyString => "Empty string"@,
        command::SyntaxErrorView::MissingArgument => "Missing argument"@,
        command::SyntaxErrorView::UnknownCommand(s) => "Unknown command: "@ + s,
    }
}

impl command::Error {
    /// The diagnostic text of this error.
    pub fn message(&self) -> (r: String)
        ensures
            r@ == syntax_error_message(self@),
    {
        match self {
            command::Error::EmptyString => "Empty string".to_owned(),
            command::Error::MissingArgument => "Missing argument".to_owned(),
            command::Error::UnknownCommand(s) => {
                let mut out = "Unknown command: ".to_owned();
                out.append(s.as_str());
                out
            },
        }
    }
}

impl Error {
    /// The diagnostic text of this error.
    pub fn message(&self) -> (r: String)
        ensures
            r@ == error_message(self@),
    {
        match self {
            Error::Fmt => "Formatting error".to_owned(),
            Error::Io(s) => {
                let mut out = "I/O error: ".to_owned();
                out.append(s.as_str());
                out
            },
            Error::Rpc(s) => {
                let mut out = "RPC error: ".to_owned();
                out.append(s.as_str());
                out
            },
            Error::Syntax(e) => {
                let mut out = "Syntax error: ".to_owned();
                let inner = e.message();
                out.append(inner.as_str());
                out
            },
        }
    }
}

} // verus!
