//! The error type of the library.

use vstd::prelude::*;

verus! {

/// What an [`Error`] says: a message and, where the error wraps another one,
/// the text of that cause.
pub struct ErrorView {
    pub message: Seq<char>,
    pub cause: Option<Seq<char>>,
}

impl ErrorView {
    /// The text shown for the error: the message alone, or the message, a
    /// colon and a space, and the cause.
    pub open spec fn display(self) -> Seq<char> {
        match self.cause {
            Some(cause) => self.message + ": "@ + cause,
            None => self.message,
        }
    }
}

/// An error with a message and an optional cause.
#[derive(Debug)]
pub struct Error {
    message: String,
    source: Option<String>,
}

impl View for Error {
    type V = ErrorView;

    closed spec fn view(&self) -> ErrorView {
        ErrorView {
            message: self.message@,
            cause: match self.source {
                Some(s) => Some(s@),
                None => None,
            },
        }
    }
}

impl Error {
    /// An error without a cause.
    pub fn new(message: &str) -> (e: Error)
        ensures
            e@ == (ErrorView { message: message@, cause: None }),
    {
        Error { message: message.to_owned(), source: None }
    }

    /// An error that wraps a cause, given by its text.
    pub fn with_cause(message: &str, source: &str) -> (e: Error)
        ensures
            e@ == (ErrorView { message: message@, cause: Some(source@) }),
    {
        Error { message: message.to_owned(), source: Some(source.to_owned()) }
    }

    /// The message, without the cause.
    pub fn message(&self) -> (m: &str)
        ensures
            m@ == self@.message,
    {
        self.message.as_str()
    }

    /// The text of the cause, if the error wraps one.
    pub fn source(&self) -> (s: Option<&str>)
        ensures
            match s {
                Some(text) => self@.cause == Some(text@),
                None => self@.cause is None,
            },
    {
        match &self.source {
            Some(s) => Some(s.as_str()),
            None => None,
        }
    }

    /// The text shown for the error.
    pub fn describe(&self) -> (text: String)
        ensures
            text@ == self@.display(),
    {
        let mut text = self.message.clone();
        match &self.source {
            Some(s) => {
                text.push_str(": ");
                text.push_str(s.as_str());
            },
            None => {},
        }
        text
    }
}

} // verus!
