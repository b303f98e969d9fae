//! Signaling-specific error types.
use vstd::prelude::*;
use vstd::string::*;

use crate::common::error::{Error as CoreError, ErrorView as CoreErrorView};
use crate::text::concat;

verus! {

/// Signaling error types.
#[derive(Debug, Clone)]
pub enum Error {
    /// Invalid message format
    InvalidMessage(String),
    /// Unsupported protocol version
    UnsupportedVersion(String),
    /// Invalid SDP
    InvalidSdp(String),
    /// Invalid ICE candidate
    InvalidIceCandidate(String),
    /// Serialization error, with the serializer's message
    Serialization(String),
    /// Network or WebSocket error
    Network(String),
    /// Core error
    Core(CoreError),
}

/// The abstract value of a signaling [`Error`].
pub enum ErrorView {
    InvalidMessage(Seq<char>),
    UnsupportedVersion(Seq<char>),
    InvalidSdp(Seq<char>),
    InvalidIceCandidate(Seq<char>),
    Serialization(Seq<char>),
    Network(Seq<char>),
    Core(CoreErrorView),
}

impl View for Error {
    type V = ErrorView;

    open spec fn view(&self) -> ErrorView {
        match self {
            Error::InvalidMessage(m) => ErrorView::InvalidMessage(m@),
            Error::UnsupportedVersion(m) => ErrorView::UnsupportedVersion(m@),
            Error::InvalidSdp(m) => ErrorView::InvalidSdp(m@),
            Error::InvalidIceCandidate(m) => ErrorView::InvalidIceCandidate(m@),
            Error::Serialization(m) => ErrorView::Serialization(m@),
            Error::Network(m) => ErrorView::Network(m@),
            Error::Core(e) => ErrorView::Core(e@),
        }
    }
}

impl ErrorView {
    /// The text that displaying the error shows.
    pub open spec fn text(self) -> Seq<char> {
        match self {
            ErrorView::InvalidMessage(m) => "Invalid message format: "@ + m,
            ErrorView::UnsupportedVersion(m) => "Unsupported protocol version: "@ + m,
            ErrorView::InvalidSdp(m) => "Invalid SDP: "@ + m,
            ErrorView::InvalidIceCandidate(m) => "Invalid ICE candidate: "@ + m,
            ErrorView::Serialization(m) => "Serialization error: "@ + m,
            ErrorView::Network(m) => "Network error: "@ + m,
            ErrorView::Core(e) => e.text(),
        }
    }
}

impl Error {
    /// Create an invalid message error.
    pub fn invalid_message(msg: &str) -> (e: Self)
        ensures
            e@ == ErrorView::InvalidMessage(msg@),
    {
        Error::InvalidMessage(msg.to_owned())
    }

    /// Create an unsupported version error.
    pub fn unsupported_version(version: &str) -> (e: Self)
        ensures
            e@ == ErrorView::UnsupportedVersion(version@),
    {
        Error::UnsupportedVersion(version.to_owned())
    }

    /// Create an invalid SDP error.
    pub fn invalid_sdp(msg: &str) -> (e: Self)
        ensures
            e@ == ErrorView::InvalidSdp(msg@),
    {
        Error::InvalidSdp(msg.to_owned())
    }

    /// Create an invalid ICE candidate error.
    pub fn invalid_ice_candidate(msg: &str) -> (e: Self)
        ensures
            e@ == ErrorView::InvalidIceCandidate(msg@),
    {
        Error::InvalidIceCandidate(msg.to_owned())
    }

    /// The text that displaying the error shows.
    pub fn to_string(&self) -> (r: String)
        ensures
            r@ == self@.text(),
    {
        match self {
            Error::InvalidMessage(m) => concat("Invalid message format: ", m.as_str()),
            Error::UnsupportedVersion(m) => concat("Unsupported protocol version: ", m.as_str()),
            Error::InvalidSdp(m) => concat("Invalid SDP: ", m.as_str()),
            Error::InvalidIceCandidate(m) => concat("Invalid ICE candidate: ", m.as_str()),
            Error::Serialization(m) => concat("Serialization error: ", m.as_str()),
            Error::Network(m) => concat("Network error: ", m.as_str()),
            Error::Core(e) => e.to_string(),
        }
    }
}

impl From<CoreError> for Error {
    fn from(e: CoreError) -> (r: Self) {
        Error::Core(e)
    }
}

impl vstd::std_specs::convert::FromSpecImpl<CoreError> for Error {
    open spec fn obeys_from_spec() -> bool {
        true
    }

    open spec fn from_spec(e: CoreError) -> Self {
        Error::Core(e)
    }
}

} // verus!
