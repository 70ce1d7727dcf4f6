//! What can go wrong with a call, on the wire and at the client.

use vstd::prelude::*;

verus! {

/// A failure that a service reports and a response frame carries back.
#[derive(Debug)]
pub enum WireError {
    /// The service could not build its response.
    ServerSerialize(String),
    /// The service ran and answers with a status message.
    Status(String),
}

/// `WireError` with its message as a sequence of characters.
pub enum WireErrorView {
    ServerSerialize(Seq<char>),
    Status(Seq<char>),
}

impl View for WireError {
    type V = WireErrorView;

    open spec fn view(&self) -> WireErrorView {
        match self {
            WireError::ServerSerialize(s) => WireErrorView::ServerSerialize(s@),
            WireError::Status(s) => WireErrorView::Status(s@),
        }
    }
}

/// Every way a call can fail, as the caller sees it.
#[derive(Debug)]
pub enum Error {
    /// The request could not be built.
    ClientSerialize(String),
    /// The response frame was malformed.
    ClientDeserialize(String),
    /// The service could not build its response.
    ServerSerialize(String),
    /// The service answered with a status message.
    Status(String),
    /// No response arrived in time.
    Timeout,
    /// The transport failed.
    Io(String),
}

/// `Error` with its message as a sequence of characters.
pub enum ErrorView {
    ClientSerialize(Seq<char>),
    ClientDeserialize(Seq<char>),
    ServerSerialize(Seq<char>),
    Status(Seq<char>),
    Timeout,
    Io(Seq<char>),
}

impl View for Error {
    type V = ErrorView;

    open spec fn view(&self) -> ErrorView {
        match self {
            Error::ClientSerialize(s) => ErrorView::ClientSerialize(s@),
            Error::ClientDeserialize(s) => ErrorView::ClientDeserialize(s@),
            Error::ServerSerialize(s) => ErrorView::ServerSerialize(s@),
            Error::Status(s) => ErrorView::Status(s@),
            Error::Timeout => ErrorView::Timeout,
            Error::Io(s) => ErrorView::Io(s@),
        }
    }
}

/// The client-side error that stands for a failure reported by the service.
pub open spec fn lift(e: WireErrorView) -> ErrorView {
    match e {
        WireErrorView::ServerSerialize(s) => ErrorView::ServerSerialize(s),
        WireErrorView::Status(s) => ErrorView::Status(s),
    }
}

impl Error {
    /// Turns a failure reported by the service into the caller's error.
    pub fn from_wire(e: WireError) -> (r: Error)
        ensures
            r@ == lift(e@),
    {
        match e {
            WireError::ServerSerialize(s) => Error::ServerSerialize(s),
            WireError::Status(s) => Error::Status(s),
        }
    }
}

} // verus!
