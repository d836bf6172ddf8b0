//! The one error type crossing the library's internal seams.

use vstd::prelude::*;
use vstd::string::*;

use crate::connection::Capability;
use crate::id::Service;
use crate::text::concat;

verus! {

#[derive(Debug, PartialEq, Eq)]
pub enum Error {
    /// A music source failed to resolve or read.
    Source(String),
    /// An output failed a control or data operation.
    Sink(String),
    /// Authentication or token failure; the caller should sign in again.
    Auth(String),
    /// A transient, retryable failure.
    Transient(String),
    /// The requested operation isn't supported.
    Unsupported(String),
    /// The library's store failed, or a write would contradict what it holds.
    Library(String),
    /// No connection to the service allows this. `hint` says what would.
    NotEntitled { service: Service, capability: Capability, hint: String },
    /// The referenced entity, track or device could not be found.
    NotFound(String),
    /// Reading or writing failed, in the system's words.
    Io(String),
}

/// What an [`Error`] says.
pub enum ErrorView {
    Source(Seq<char>),
    Sink(Seq<char>),
    Auth(Seq<char>),
    Transient(Seq<char>),
    Unsupported(Seq<char>),
    Library(Seq<char>),
    NotEntitled { service: Service, capability: Capability, hint: Seq<char> },
    NotFound(Seq<char>),
    Io(Seq<char>),
}

impl View for Error {
    type V = ErrorView;

    open spec fn view(&self) -> ErrorView {
        match self {
            Error::Source(m) => ErrorView::Source(m@),
            Error::Sink(m) => ErrorView::Sink(m@),
            Error::Auth(m) => ErrorView::Auth(m@),
            Error::Transient(m) => ErrorView::Transient(m@),
            Error::Unsupported(m) => ErrorView::Unsupported(m@),
            Error::Library(m) => ErrorView::Library(m@),
            Error::NotEntitled { service, capability, hint } => ErrorView::NotEntitled {
                service: *service,
                capability: *capability,
                hint: hint@,
            },
            Error::NotFound(m) => ErrorView::NotFound(m@),
            Error::Io(m) => ErrorView::Io(m@),
        }
    }
}

impl ErrorView {
    /// The error as people read it.
    pub open spec fn message(self) -> Seq<char> {
        match self {
            ErrorView::Source(m) => "source: "@ + m,
            ErrorView::Sink(m) => "sink: "@ + m,
            ErrorView::Auth(m) => "auth: "@ + m,
            ErrorView::Transient(m) => "transient: "@ + m,
            ErrorView::Unsupported(m) => "unsupported: "@ + m,
            ErrorView::Library(m) => "library: "@ + m,
            ErrorView::NotEntitled { service, capability, hint } => service.name() + " can't "@
                + capability.phrase() + ": "@ + hint,
            ErrorView::NotFound(m) => "not found: "@ + m,
            ErrorView::Io(m) => m,
        }
    }
}

pub type Result<T> = std::result::Result<T, Error>;

impl Clone for Error {
    fn clone(&self) -> (copy: Self)
        ensures
            copy == *self,
    {
        match self {
            Error::Source(m) => Error::Source(m.clone()),
            Error::Sink(m) => Error::Sink(m.clone()),
            Error::Auth(m) => Error::Auth(m.clone()),
            Error::Transient(m) => Error::Transient(m.clone()),
            Error::Unsupported(m) => Error::Unsupported(m.clone()),
            Error::Library(m) => Error::Library(m.clone()),
            Error::NotEntitled { service, capability, hint } => Error::NotEntitled {
                service: *service,
                capability: *capability,
                hint: hint.clone(),
            },
            Error::NotFound(m) => Error::NotFound(m.clone()),
            Error::Io(m) => Error::Io(m.clone()),
        }
    }
}

impl Error {
    /// The error as people read it.
    pub fn message(&self) -> (text: String)
        ensures
            text@ == self@.message(),
    {
        match self {
            Error::Source(m) => concat("source: ", m.as_str()),
            Error::Sink(m) => concat("sink: ", m.as_str()),
            Error::Auth(m) => concat("auth: ", m.as_str()),
            Error::Transient(m) => concat("transient: ", m.as_str()),
            Error::Unsupported(m) => concat("unsupported: ", m.as_str()),
            Error::Library(m) => concat("library: ", m.as_str()),
            Error::NotEntitled { service, capability, hint } => {
                let mut text = concat(service.as_str(), " can't ");
                text.append(capability.doing());
                text.append(": ");
                text.append(hint.as_str());
                text
            },
            Error::NotFound(m) => concat("not found: ", m.as_str()),
            Error::Io(m) => m.clone(),
        }
    }
}

/// What a result says: its value as it is, its error as characters.
pub open spec fn result_view<T>(result: Result<T>) -> std::result::Result<T, ErrorView> {
    match result {
        Ok(value) => Ok(value),
        Err(e) => Err(e@),
    }
}

} // verus!
