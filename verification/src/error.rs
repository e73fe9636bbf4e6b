//! What can go wrong.

use crate::text::concat;
use vstd::prelude::*;

verus! {

/// A failure, with its detail.
#[derive(Debug, Clone)]
pub enum Error {
    /// The registration servers refused, or their answer makes no sense.
    Registration(String),
    /// A key or a payload could not be used.
    Crypto(String),
    /// The Mobile Connection Server broke its protocol, or reported a failure.
    Protocol(String),
}

/// What an `Error` says.
pub enum ErrorView {
    Registration(Seq<char>),
    Crypto(Seq<char>),
    Protocol(Seq<char>),
}

impl View for Error {
    type V = ErrorView;

    open spec fn view(&self) -> ErrorView {
        match self {
            Error::Registration(detail) => ErrorView::Registration(detail@),
            Error::Crypto(detail) => ErrorView::Crypto(detail@),
            Error::Protocol(detail) => ErrorView::Protocol(detail@),
        }
    }
}

impl ErrorView {
    /// The text of the failure, as it is shown to a reader.
    pub open spec fn text(self) -> Seq<char> {
        match self {
            ErrorView::Registration(detail) => "Registration failed: "@ + detail,
            ErrorView::Crypto(detail) => "Crypto error: "@ + detail,
            ErrorView::Protocol(detail) => "MCS Protocol error: "@ + detail,
        }
    }
}

/// An error says its detail, all of it, and of which sort it is.
pub proof fn error_says_its_detail(error: Error)
    ensures
        match error {
            Error::Registration(detail) => error@ == ErrorView::Registration(detail@) && error@.text()
                == "Registration failed: "@ + detail@,
            Error::Crypto(detail) => error@ == ErrorView::Crypto(detail@) && error@.text()
                == "Crypto error: "@ + detail@,
            Error::Protocol(detail) => error@ == ErrorView::Protocol(detail@) && error@.text()
                == "MCS Protocol error: "@ + detail@,
        },
{
}

impl Error {
    /// The text of the failure, as it is shown to a reader.
    pub fn message(&self) -> (res: String)
        ensures
            res@ == self@.text(),
            match self {
                Error::Registration(detail) => res@ == "Registration failed: "@ + detail@,
                Error::Crypto(detail) => res@ == "Crypto error: "@ + detail@,
                Error::Protocol(detail) => res@ == "MCS Protocol error: "@ + detail@,
            },
    {
        match self {
            Error::Registration(detail) => concat("Registration failed: ", detail.as_str()),
            Error::Crypto(detail) => concat("Crypto error: ", detail.as_str()),
            Error::Protocol(detail) => concat("MCS Protocol error: ", detail.as_str()),
        }
    }
}

} // verus!
