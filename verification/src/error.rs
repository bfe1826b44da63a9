//! The error taxonomy of the RPC client: transport failures, request
//! encoding failures, response decoding failures, and node-reported errors.

use vstd::prelude::*;
use crate::format::NumParseError;

verus! {

/// Why an RPC operation failed.
#[derive(Debug, Clone)]
pub enum RequestError {
    /// The node reported an error payload, or a precondition on the
    /// request was not met; carries the node's message verbatim.
    RequestFailed(String),
    /// The response could not be decoded.
    JsonDeserializationFailed(String),
    /// The request could not be encoded or sent.
    JsonSerializationFailed(String),
    /// Anything that fits no other case.
    UnknownError(String),
}

/// The human-readable line for each error case.
pub open spec fn spec_message(e: RequestError) -> Seq<char> {
    match e {
        RequestError::RequestFailed(m) => "Request failed: "@ + m@,
        RequestError::JsonDeserializationFailed(m) => "JSON deserialization failed: "@ + m@,
        RequestError::JsonSerializationFailed(m) => "JSON serialization failed: "@ + m@,
        RequestError::UnknownError(m) => "Unknown error: "@ + m@,
    }
}

impl RequestError {
    /// Renders the error as the line the operator sees.
    pub fn to_message(&self) -> (r: String)
        ensures
            r@ == spec_message(*self),
    {
        match self {
            RequestError::RequestFailed(m) => String::from_str("Request failed: ").concat(m.as_str()),
            RequestError::JsonDeserializationFailed(m) => String::from_str(
                "JSON deserialization failed: ",
            ).concat(m.as_str()),
            RequestError::JsonSerializationFailed(m) => String::from_str(
                "JSON serialization failed: ",
            ).concat(m.as_str()),
            RequestError::UnknownError(m) => String::from_str("Unknown error: ").concat(m.as_str()),
        }
    }

    /// Wraps a numeric parse failure the way the client reports it, with
    /// the diagnostic text std uses for the same cases.
    pub fn from_num_parse(err: NumParseError) -> (r: RequestError)
        ensures
            r is RequestFailed,
            err is Empty ==> r->RequestFailed_0@ == "cannot parse integer from empty string"@,
            err is InvalidDigit ==> r->RequestFailed_0@ == "invalid digit found in string"@,
            err is Overflow ==> r->RequestFailed_0@ == "number too large to fit in target type"@,
    {
        match err {
            NumParseError::Empty => RequestError::RequestFailed(
                String::from_str("cannot parse integer from empty string"),
            ),
            NumParseError::InvalidDigit => RequestError::RequestFailed(
                String::from_str("invalid digit found in string"),
            ),
            NumParseError::Overflow => RequestError::RequestFailed(
                String::from_str("number too large to fit in target type"),
            ),
        }
    }
}

} // verus!
