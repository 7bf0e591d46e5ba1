//! The error that every operation of the library reports.

use vstd::prelude::*;
use vstd::string::StringExecFns;

verus! {

/// What went wrong.
#[derive(Clone, Copy, Debug, PartialEq, Eq, Structural)]
pub enum GitErrorKind {
    /// The command could not be run, or it failed.
    Invocation,
    /// The command ran, and its output has not the expected shape.
    Parse,
    /// What was asked for does not exist.
    NotFound,
}

/// An error of one operation: its kind, the repository path or the
/// parameter it is about, a message, and the text of the error that caused
/// it, if another error did.
#[derive(Clone, Debug, PartialEq, Eq)]
pub struct CustomerGitError {
    pub kind: GitErrorKind,
    pub path: String,
    pub message: String,
    pub inner_error: Option<String>,
}

/// The mathematical value of a [`CustomerGitError`].
pub struct CustomerGitErrorView {
    pub kind: GitErrorKind,
    pub path: Seq<char>,
    pub message: Seq<char>,
    pub inner_error: Option<Seq<char>>,
}

impl View for CustomerGitError {
    type V = CustomerGitErrorView;

    open spec fn view(&self) -> CustomerGitErrorView {
        CustomerGitErrorView {
            kind: self.kind,
            path: self.path@,
            message: self.message@,
            inner_error: match self.inner_error {
                Some(inner) => Some(inner@),
                None => None,
            },
        }
    }
}

/// The text that describes an error: the inner error's text where there is
/// one, else the path and the message.
pub open spec fn error_text(e: CustomerGitErrorView) -> Seq<char> {
    match e.inner_error {
        Some(inner) => inner,
        None => "The path:"@ + e.path + " => "@ + e.message,
    }
}

/// The error of a command that failed in the repository at `path`.
pub fn build_git_error(path: &str, message: &str) -> (e: CustomerGitError)
    ensures
        e@ == (CustomerGitErrorView {
            kind: GitErrorKind::Invocation,
            path: path@,
            message: message@,
            inner_error: None,
        }),
{
    CustomerGitError {
        kind: GitErrorKind::Invocation,
        path: String::from_str(path),
        message: String::from_str(message),
        inner_error: None,
    }
}

impl CustomerGitError {
    /// The error of an output that has not the expected shape.
    pub fn parse(message: &str) -> (e: CustomerGitError)
        ensures
            e@ == (CustomerGitErrorView {
                kind: GitErrorKind::Parse,
                path: Seq::empty(),
                message: message@,
                inner_error: None,
            }),
    {
        CustomerGitError {
            kind: GitErrorKind::Parse,
            path: String::new(),
            message: String::from_str(message),
            inner_error: None,
        }
    }

    /// The error of something asked for, named by `what`, that does not exist.
    pub fn not_found(what: &str, message: &str) -> (e: CustomerGitError)
        ensures
            e@ == (CustomerGitErrorView {
                kind: GitErrorKind::NotFound,
                path: what@,
                message: message@,
                inner_error: None,
            }),
    {
        CustomerGitError {
            kind: GitErrorKind::NotFound,
            path: String::from_str(what),
            message: String::from_str(message),
            inner_error: None,
        }
    }

    /// The same error, about the repository at `path`.
    pub fn at_path(self, path: &str) -> (e: CustomerGitError)
        ensures
            e@ == (CustomerGitErrorView { path: path@, ..self@ }),
    {
        CustomerGitError {
            kind: self.kind,
            path: String::from_str(path),
            message: self.message,
            inner_error: self.inner_error,
        }
    }

    /// The path that the error is about.
    pub fn description(&self) -> (path: &str)
        ensures
            path@ == self@.path,
    {
        self.path.as_str()
    }

    /// The text of the error that caused this one, if another error did.
    pub fn cause(&self) -> (inner: Option<&str>)
        ensures
            match inner {
                Some(text) => self@.inner_error == Some(text@),
                None => self@.inner_error is None,
            },
    {
        match &self.inner_error {
            Some(inner) => Some(inner.as_str()),
            None => None,
        }
    }

    /// The error that this one was made from: none, as the text of the
    /// cause is all that is kept of it.
    pub fn source(&self) -> (inner: Option<&str>)
        ensures
            inner is None,
    {
        None
    }

    /// The text that describes the error.
    pub fn describe(&self) -> (text: String)
        ensures
            text@ == error_text(self@),
    {
        match &self.inner_error {
            Some(inner) => inner.clone(),
            None => {
                let mut text = String::from_str("The path:");
                text.append(self.path.as_str());
                text.append(" => ");
                text.append(self.message.as_str());
                text
            },
        }
    }
}

} // verus!
