//! The error of the library: a kind, a short title and the cause in words.

use vstd::prelude::*;

verus! {

/// What went wrong, by kind.
#[derive(Clone, Copy, Debug, PartialEq, Eq, Structural)]
pub enum ErrorKind {
    /// A file could not be opened, created, read or written.
    Io,
    /// A document is malformed or not of the expected structure.
    Parse,
    /// An input of the user is empty or inconsistent.
    Validation,
    /// A fleet, ship or missile that was referred to does not exist.
    NotFound,
}

/// An error: a title fit for a heading, and the cause.
#[derive(Debug, PartialEq, Eq)]
pub struct Error {
    pub kind: ErrorKind,
    pub title: String,
    pub error: String,
}

/// The view of an [`Error`].
pub struct ErrorView {
    pub kind: ErrorKind,
    pub title: Seq<char>,
    pub error: Seq<char>,
}

impl View for Error {
    type V = ErrorView;

    open spec fn view(&self) -> ErrorView {
        ErrorView { kind: self.kind, title: self.title@, error: self.error@ }
    }
}

impl Clone for Error {
    fn clone(&self) -> (res: Self)
        ensures
            res@ == self@,
    {
        Error { kind: self.kind, title: self.title.clone(), error: self.error.clone() }
    }
}

impl Error {
    /// An error of the given kind.
    pub fn new(kind: ErrorKind, title: &str, error: &str) -> (e: Error)
        ensures
            e@ == (ErrorView { kind, title: title@, error: error@ }),
    {
        Error { kind, title: title.to_owned(), error: error.to_owned() }
    }

    /// The title and the cause on one line, with a colon between them.
    pub fn message(&self) -> (text: String)
        ensures
            text@ == self.title@ + ": "@ + self.error@,
    {
        let mut text = self.title.clone();
        text.append(": ");
        text.append(self.error.as_str());
        text
    }
}

/// What to show of an error: a title and a message.
#[derive(Debug, Clone, PartialEq, Eq)]
pub struct ErrorPopup {
    pub title: String,
    pub message: String,
}

/// Runs `f` and tells what to show where it failed: the title and the cause
/// of its error. The outcome of `f` is handed on as it is.
pub fn wrap_errorable_function<T, F: FnOnce() -> Result<T, Error>>(f: F) -> (res: (
    Result<T, Error>,
    Option<ErrorPopup>,
))
    requires
        call_requires(f, ()),
    ensures
        call_ensures(f, (), res.0),
        match res.0 {
            Ok(_) => res.1 is None,
            Err(e) => res.1 matches Some(popup) && popup.title@ == e.title@ && popup.message@
                == e.error@,
        },
{
    let outcome = f();
    let popup = match &outcome {
        Ok(_) => None,
        Err(e) => Some(ErrorPopup { title: e.title.clone(), message: e.error.clone() }),
    };
    (outcome, popup)
}

} // verus!
