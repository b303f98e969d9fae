use vstd::prelude::*;
use vstd::string::*;

use crate::common::error::{Error as CoreError, ErrorView as CoreErrorView};
use crate::text::concat;

verus! {

/// Errors of the media layer.
#[derive(Debug, Clone)]
pub enum MediaError {
    WebRtc(String),
    DataChannel(String),
    Stream(String),
    /// Serialization error, with the serializer's message
    Serialization(String),
    Internal(String),
}

pub enum MediaErrorView {
    WebRtc(Seq<char>),
    DataChannel(Seq<char>),
    Stream(Seq<char>),
    Serialization(Seq<char>),
    Internal(Seq<char>),
}

impl View for MediaError {
    type V = MediaErrorView;

    open spec fn view(&self) -> MediaErrorView {
        match self {
            MediaError::WebRtc(m) => MediaErrorView::WebRtc(m@),
            MediaError::DataChannel(m) => MediaErrorView::DataChannel(m@),
            MediaError::Stream(m) => MediaErrorView::Stream(m@),
            MediaError::Serialization(m) => MediaErrorView::Serialization(m@),
            MediaError::Internal(m) => MediaErrorView::Internal(m@),
        }
    }
}

impl MediaErrorView {
    /// The text that displaying the error shows.
    pub open spec fn text(self) -> Seq<char> {
        match self {
            MediaErrorView::WebRtc(m) => "WebRTC Error: "@ + m,
            MediaErrorView::DataChannel(m) => "DataChannel Error: "@ + m,
            MediaErrorView::Stream(m) => "Stream Error: "@ + m,
            MediaErrorView::Serialization(m) => "Serialization Error: "@ + m,
            MediaErrorView::Internal(m) => "Internal Error: "@ + m,
        }
    }
}

impl MediaError {
    /// The text that displaying the error shows.
    pub fn to_string(&self) -> (r: String)
        ensures
            r@ == self@.text(),
    {
        match self {
            MediaError::WebRtc(m) => concat("WebRTC Error: ", m.as_str()),
            MediaError::DataChannel(m) => concat("DataChannel Error: ", m.as_str()),
            MediaError::Stream(m) => concat("Stream Error: ", m.as_str()),
            MediaError::Serialization(m) => concat("Serialization Error: ", m.as_str()),
            MediaError::Internal(m) => concat("Internal Error: ", m.as_str()),
        }
    }

    /// The core error that carries this error's text.
    pub fn into_core(self) -> (e: CoreError)
        ensures
            e@ == CoreErrorView::Media(self@.text()),
    {
        CoreError::Media(self.to_string())
    }
}

impl From<MediaError> for CoreError {
    /// See [`MediaError::into_core`] for what the result holds.
    fn from(error: MediaError) -> Self {
        error.into_core()
    }
}

impl vstd::std_specs::convert::FromSpecImpl<MediaError> for CoreError {
    /// The result holds a `String`, which no spec expression builds; what it holds is
    /// stated on [`MediaError::into_core`].
    open spec fn obeys_from_spec() -> bool {
        false
    }

    open spec fn from_spec(v: MediaError) -> Self {
        vstd::pervasive::arbitrary()
    }
}

} // verus!
