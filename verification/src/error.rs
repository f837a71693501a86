use vstd::prelude::*;
use vstd::string::StringExecFns;

verus! {

/// Why a request, or a stream of pages, ended early.
#[derive(Debug, PartialEq, Eq)]
pub enum Error {
    /// The transport could not complete the request: no connection, or a
    /// response with a non-success HTTP status.
    Transport(String),
    /// A payload did not have the shape that its record type expects.
    Decode(String),
    /// The body of a page was not a recognised collection.
    MalformedEnvelope,
}

/// An [`Error`] with its texts as sequences of characters.
pub enum ErrorView {
    Transport(Seq<char>),
    Decode(Seq<char>),
    MalformedEnvelope,
}

impl View for Error {
    type V = ErrorView;

    open spec fn view(&self) -> ErrorView {
        match self {
            Error::Transport(m) => ErrorView::Transport(m@),
            Error::Decode(m) => ErrorView::Decode(m@),
            Error::MalformedEnvelope => ErrorView::MalformedEnvelope,
        }
    }
}

/// The text that stands for a page whose body is no collection.
pub open spec fn malformed_page_text() -> Seq<char> {
    "malformed page"@
}

impl ErrorView {
    /// The text that describes the error to a reader.
    pub open spec fn message(self) -> Seq<char> {
        match self {
            ErrorView::Transport(m) => m,
            ErrorView::Decode(m) => m,
            ErrorView::MalformedEnvelope => malformed_page_text(),
        }
    }
}

impl Clone for Error {
    fn clone(&self) -> (copy: Self)
        ensures
            copy == *self,
    {
        match self {
            Error::Transport(m) => Error::Transport(m.clone()),
            Error::Decode(m) => Error::Decode(m.clone()),
            Error::MalformedEnvelope => Error::MalformedEnvelope,
        }
    }
}

impl Error {
    /// The text that describes the error to a reader.
    pub fn message(&self) -> (text: String)
        ensures
            text@ == self@.message(),
    {
        match self {
            Error::Transport(m) => m.clone(),
            Error::Decode(m) => m.clone(),
            Error::MalformedEnvelope => String::from_str("malformed page"),
        }
    }
}

} // verus!
