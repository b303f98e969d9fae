use vstd::prelude::*;
use vstd::string::*;

use crate::text::concat;

verus! {

/// Main error type for the video chat extension.
#[derive(Debug, Clone)]
pub enum Error {
    /// Configuration error
    Config(String),
    /// Serialization/deserialization error, with the serializer's message
    Serialization(String),
    /// Invalid state error
    InvalidState(String),
    /// Network error
    Network(String),
    /// WebRTC error
    WebRTC(String),
    /// Signaling error
    Signaling(String),
    /// Database error
    Database(String),
    /// Media error, with the message of the media layer's error
    Media(String),
    /// Internal error
    Internal(String),
    /// Generic error with context
    Other(String),
}

/// The abstract value of an [`Error`]: its kind and its message.
pub enum ErrorView {
    Config(Seq<char>),
    Serialization(Seq<char>),
    InvalidState(Seq<char>),
    Network(Seq<char>),
    WebRTC(Seq<char>),
    Signaling(Seq<char>),
    Database(Seq<char>),
    Media(Seq<char>),
    Internal(Seq<char>),
    Other(Seq<char>),
}

impl View for Error {
    type V = ErrorView;

    open spec fn view(&self) -> ErrorView {
        match self {
            Error::Config(m) => ErrorView::Config(m@),
            Error::Serialization(m) => ErrorView::Serialization(m@),
            Error::InvalidState(m) => ErrorView::InvalidState(m@),
            Error::Network(m) => ErrorView::Network(m@),
            Error::WebRTC(m) => ErrorView::WebRTC(m@),
            Error::Signaling(m) => ErrorView::Signaling(m@),
            Error::Database(m) => ErrorView::Database(m@),
            Error::Media(m) => ErrorView::Media(m@),
            Error::Internal(m) => ErrorView::Internal(m@),
            Error::Other(m) => ErrorView::Other(m@),
        }
    }
}

impl ErrorView {
    /// The text that displaying the error shows.
    pub open spec fn text(self) -> Seq<char> {
        match self {
            ErrorView::Config(m) => "Configuration error: "@ + m,
            ErrorView::Serialization(m) => "Serialization error: "@ + m,
            ErrorView::InvalidState(m) => "Invalid state: "@ + m,
            ErrorView::Network(m) => "Network error: "@ + m,
            ErrorView::WebRTC(m) => "WebRTC error: "@ + m,
            ErrorView::Signaling(m) => "Signaling error: "@ + m,
            ErrorView::Database(m) => "Database error: "@ + m,
            ErrorView::Media(m) => "Media error: "@ + m,
            ErrorView::Internal(m) => "Internal error: "@ + m,
            ErrorView::Other(m) => "Error: "@ + m,
        }
    }
}

impl Error {
    /// Create a configuration error.
    pub fn config(msg: &str) -> (e: Self)
        ensures
            e@ == ErrorView::Config(msg@),
    {
        Error::Config(msg.to_owned())
    }

    /// Create an invalid state error.
    pub fn invalid_state(msg: &str) -> (e: Self)
        ensures
            e@ == ErrorView::InvalidState(msg@),
    {
        Error::InvalidState(msg.to_owned())
    }

    /// Create a network error.
    pub fn network(msg: &str) -> (e: Self)
        ensures
            e@ == ErrorView::Network(msg@),
    {
        Error::Network(msg.to_owned())
    }

    /// Create a WebRTC error.
    pub fn webrtc(msg: &str) -> (e: Self)
        ensures
            e@ == ErrorView::WebRTC(msg@),
    {
        Error::WebRTC(msg.to_owned())
    }

    /// Create a signaling error.
    pub fn signaling(msg: &str) -> (e: Self)
        ensures
            e@ == ErrorView::Signaling(msg@),
    {
        Error::Signaling(msg.to_owned())
    }

    /// Create a database error.
    pub fn database(msg: &str) -> (e: Self)
        ensures
            e@ == ErrorView::Database(msg@),
    {
        Error::Database(msg.to_owned())
    }

    /// The text that displaying the error shows.
    pub fn to_string(&self) -> (r: String)
        ensures
            r@ == self@.text(),
    {
        match self {
            Error::Config(m) => concat("Configuration error: ", m.as_str()),
            Error::Serialization(m) => concat("Serialization error: ", m.as_str()),
            Error::InvalidState(m) => concat("Invalid state: ", m.as_str()),
            Error::Network(m) => concat("Network error: ", m.as_str()),
            Error::WebRTC(m) => concat("WebRTC error: ", m.as_str()),
            Error::Signaling(m) => concat("Signaling error: ", m.as_str()),
            Error::Database(m) => concat("Database error: ", m.as_str()),
            Error::Media(m) => concat("Media error: ", m.as_str()),
            Error::Internal(m) => concat("Internal error: ", m.as_str()),
            Error::Other(m) => concat("Error: ", m.as_str()),
        }
    }
}

} // verus!
