use vstd::prelude::*;
use vstd::string::StringExecFns;

verus! {

/// `reqwest::Error`: what went wrong with a request. Nothing inside it is
/// visible here.
#[verifier::external_type_specification]
#[verifier::external_body]
pub struct ExReqwestError(reqwest::Error);

/// `reqwest::Error::is_timeout`: tells whether the error goes back to a
/// timeout. Nothing is promised of the answer.
pub assume_specification[ reqwest::Error::is_timeout ](error: &reqwest::Error) -> (timeout: bool);

/// `reqwest::Error::is_decode`: tells whether the error came up while the
/// body of a response was decoded. Nothing is promised of the answer.
pub assume_specification[ reqwest::Error::is_decode ](error: &reqwest::Error) -> (decode: bool);

/// The words of a `reqwest::Error`, as its `to_string` gives them. Nothing
/// is promised of them.
#[verifier::external_body]
pub(crate) fn transport_error_text(error: &reqwest::Error) -> (text: String) {
    error.to_string()
}

/// The reason and status that a server reports with a failed request.
#[derive(Debug, PartialEq, Eq)]
pub struct ErrorDetail {
    pub reason: String,
    pub status: u16,
}

/// The body of a failed request.
#[derive(Debug, PartialEq, Eq)]
pub struct ErrorResponse {
    pub error: ErrorDetail,
}

/// Why a backend could not answer a query.
#[derive(Debug, PartialEq, Eq)]
pub enum SearchError {
    HttpError(String),
    ParseError(String),
    Timeout,
    Unknown(String),
    InternalError(String),
}

impl SearchError {
    /// The text that describes this error: a fixed prefix for its kind,
    /// followed by the detail where the kind carries one.
    pub open spec fn message_text(self) -> Seq<char> {
        match self {
            SearchError::HttpError(detail) => "HTTP request failed: "@ + detail@,
            SearchError::ParseError(detail) => "Invalid response format: "@ + detail@,
            SearchError::Timeout => "Timeout occurred"@,
            SearchError::Unknown(detail) => "Unknown error: "@ + detail@,
            SearchError::InternalError(detail) => "InternalError error: "@ + detail@,
        }
    }

    /// Renders this error as text.
    pub fn message(&self) -> (text: String)
        ensures
            text@ == self.message_text(),
    {
        match self {
            SearchError::HttpError(detail) => {
                String::from_str("HTTP request failed: ").concat(detail.as_str())
            },
            SearchError::ParseError(detail) => {
                String::from_str("Invalid response format: ").concat(detail.as_str())
            },
            SearchError::Timeout => String::from_str("Timeout occurred"),
            SearchError::Unknown(detail) => {
                String::from_str("Unknown error: ").concat(detail.as_str())
            },
            SearchError::InternalError(detail) => {
                String::from_str("InternalError error: ").concat(detail.as_str())
            },
        }
    }

    /// The error that stands for a failed transport call, told apart by what
    /// the transport says of it: a timeout, a body that could not be decoded,
    /// or anything else.
    pub open spec fn classified(is_timeout: bool, is_decode: bool, detail: String) -> SearchError {
        if is_timeout {
            SearchError::Timeout
        } else if is_decode {
            SearchError::ParseError(detail)
        } else {
            SearchError::HttpError(detail)
        }
    }

    /// Builds the error for a failed transport call from what the transport
    /// says of it. A timeout wins over a decoding failure.
    pub fn from_transport(is_timeout: bool, is_decode: bool, detail: String) -> (err: SearchError)
        ensures
            err == SearchError::classified(is_timeout, is_decode, detail),
    {
        if is_timeout {
            SearchError::Timeout
        } else if is_decode {
            SearchError::ParseError(detail)
        } else {
            SearchError::HttpError(detail)
        }
    }
}

impl SearchError {
    /// The error that stands for a failed request, by what the transport's
    /// error tells of itself: a timeout where it says so, else a parse error
    /// where the body could not be decoded, else a transport error. The two
    /// latter carry the words of the transport's error.
    pub fn from_reqwest(err: reqwest::Error) -> (error: SearchError)
        ensures
            error is Timeout || error is ParseError || error is HttpError,
            exists|is_timeout: bool, is_decode: bool, detail: String|
                {
                    &&& #[trigger] Self::told_by(err, is_timeout, is_decode, detail)
                    &&& error == SearchError::classified(is_timeout, is_decode, detail)
                },
    {
        let is_timeout = err.is_timeout();
        let is_decode = err.is_decode();
        let detail = transport_error_text(&err);
        assert(Self::told_by(err, is_timeout, is_decode, detail));
        SearchError::from_transport(is_timeout, is_decode, detail)
    }

    /// What a transport's error tells of itself: `is_timeout` is what its
    /// `is_timeout` answers, `is_decode` what its `is_decode` answers, and
    /// `detail` are its words.
    pub open spec fn told_by(
        err: reqwest::Error,
        is_timeout: bool,
        is_decode: bool,
        detail: String,
    ) -> bool {
        &&& call_ensures(reqwest::Error::is_timeout, (&err,), is_timeout)
        &&& call_ensures(reqwest::Error::is_decode, (&err,), is_decode)
        &&& Self::worded(err, detail)
    }

    /// `detail` are the words of a transport's error, as its `to_string`
    /// gives them.
    pub closed spec fn worded(err: reqwest::Error, detail: String) -> bool {
        call_ensures(transport_error_text, (&err,), detail)
    }
}

impl Clone for SearchError {
    fn clone(&self) -> (copy: Self)
        ensures
            copy == *self,
    {
        match self {
            SearchError::HttpError(detail) => SearchError::HttpError(detail.clone()),
            SearchError::ParseError(detail) => SearchError::ParseError(detail.clone()),
            SearchError::Timeout => SearchError::Timeout,
            SearchError::Unknown(detail) => SearchError::Unknown(detail.clone()),
            SearchError::InternalError(detail) => SearchError::InternalError(detail.clone()),
        }
    }
}

} // verus!
