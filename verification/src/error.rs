//! The ways in which an operation of this library fails.

use crate::text::join;
use crate::text::joined;
use vstd::prelude::*;
use vstd::string::StringExecFns;

verus! {

/// A failure of one of the library's operations.
#[derive(Debug, PartialEq, Eq)]
pub enum Error {
    /// The service knows none of these requested names.
    TemplateNotFound(Vec<String>),
    /// Any other failure, with the message for the user.
    ApplicationError(String),
}

/// An [`Error`] as a mathematical value.
pub enum ErrorView {
    TemplateNotFound(Seq<Seq<char>>),
    ApplicationError(Seq<char>),
}

impl View for Error {
    type V = ErrorView;

    open spec fn view(&self) -> ErrorView {
        match self {
            Error::TemplateNotFound(names) => ErrorView::TemplateNotFound(names.deep_view()),
            Error::ApplicationError(msg) => ErrorView::ApplicationError(msg@),
        }
    }
}

pub type Result<T> = std::result::Result<T, Error>;

/// The failure that [`Error::generic`] gives.
pub open spec fn generic() -> ErrorView {
    ErrorView::ApplicationError(Error::GENERIC_MSG@)
}

/// The failure that [`Error::fetch_templates_failed`] gives.
pub open spec fn fetch_templates_failed() -> ErrorView {
    ErrorView::ApplicationError(Error::FETCH_TEMPLATE_FAILED_MSG@)
}

impl ErrorView {
    /// The text that describes the failure to the user.
    pub open spec fn message(self) -> Seq<char> {
        match self {
            ErrorView::TemplateNotFound(names) => "Template(s) not found: "@ + joined(names, ", "@),
            ErrorView::ApplicationError(msg) => "Application error: "@ + msg,
        }
    }
}

impl Error {
    pub const GENERIC_MSG: &'static str = "Failed to create .gitignore file";

    pub const FETCH_TEMPLATE_FAILED_MSG: &'static str = "Failed to fetch templates";

    /// The failure of a creation for which no more precise cause is given.
    pub fn generic() -> (e: Error)
        ensures
            e@ == generic(),
    {
        Error::ApplicationError(String::from_str(Self::GENERIC_MSG))
    }

    /// The failure to fetch the catalog.
    pub fn fetch_templates_failed() -> (e: Error)
        ensures
            e@ == fetch_templates_failed(),
    {
        Error::ApplicationError(String::from_str(Self::FETCH_TEMPLATE_FAILED_MSG))
    }

    /// The text that describes the failure to the user.
    pub fn to_string(&self) -> (s: String)
        ensures
            s@ == self@.message(),
    {
        match self {
            Error::TemplateNotFound(names) => {
                let mut s = String::from_str("Template(s) not found: ");
                let list = join(names.as_slice(), ", ");
                s.append(list.as_str());
                s
            },
            Error::ApplicationError(msg) => {
                let mut s = String::from_str("Application error: ");
                s.append(msg.as_str());
                s
            },
        }
    }
}

} // verus!
