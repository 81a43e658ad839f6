//! The two ways in which a lookup fails.

use vstd::prelude::*;
use vstd::string::*;

verus! {

/// Why a lookup failed. Either kind ends the lookup: nothing is retried, and
/// no older result is handed out in its place.
#[derive(Debug)]
pub enum RadioBrowserError {
    /// The HTTP exchange itself failed. Holds the transport's own account of
    /// the failure.
    RequestError(String),
    /// The exchange completed, but the directory answered with a status
    /// other than success, or with a body that is no station list. Holds the
    /// text of the response body.
    ApiError(String),
}

/// A [`RadioBrowserError`] as plain mathematical values.
pub ghost enum ErrorView {
    Request(Seq<char>),
    Api(Seq<char>),
}

impl View for RadioBrowserError {
    type V = ErrorView;

    open spec fn view(&self) -> ErrorView {
        match self {
            RadioBrowserError::RequestError(detail) => ErrorView::Request(detail@),
            RadioBrowserError::ApiError(body) => ErrorView::Api(body@),
        }
    }
}

/// The sentence that describes an error.
pub open spec fn message_of(error: ErrorView) -> Seq<char> {
    match error {
        ErrorView::Request(detail) => "HTTP request failed: "@ + detail,
        ErrorView::Api(body) => "API error: "@ + body,
    }
}

impl RadioBrowserError {
    /// Describes the error in one sentence.
    pub fn message(&self) -> (text: String)
        ensures
            text@ == message_of(self@),
    {
        match self {
            RadioBrowserError::RequestError(detail) => {
                String::from_str("HTTP request failed: ").concat(detail.as_str())
            },
            RadioBrowserError::ApiError(body) => String::from_str("API error: ").concat(body.as_str()),
        }
    }
}

} // verus!
