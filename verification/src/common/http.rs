use vstd::prelude::*;
use vstd::string::StringExecFns;
use crate::common::error::ErrorResponse;
use crate::common::text::{decimal, decimal_text, trim, trimmed};

verus! {

/// What a server keeps of every record.
#[derive(Debug, PartialEq, Eq)]
pub struct Source {
    pub id: String,
    pub created: String,
    pub updated: String,
    pub status: String,
}

/// What a server answers when it is asked for one record. The payload is
/// JSON text.
#[derive(Debug, PartialEq, Eq)]
pub struct GetResponse {
    pub _id: String,
    pub _source: Source,
    pub result: String,
    pub payload: Option<String>,
}

/// A status that tells of a failure: anything below 200, and 400 or more.
pub open spec fn failed_status(status: u16) -> bool {
    status < 200 || status >= 400
}

/// Tells whether a status tells of a failure.
pub fn is_failed_status(status: u16) -> (failed: bool)
    ensures
        failed == failed_status(status),
{
    status < 200 || status >= 400
}

/// What a response gives to its reader: the body where the status is good;
/// else the server's own error, with its status and reason, where the body
/// holds one, and a general error where the body is blank or holds none.
pub open spec fn body_text(status: u16, body: Seq<char>, server_error: Option<ErrorResponse>) -> Result<
    Seq<char>,
    Seq<char>,
> {
    if !failed_status(status) {
        Ok(body)
    } else if trimmed(body).len() == 0 {
        Err("Failed to send message"@)
    } else {
        match server_error {
            Some(response) => Err(
                "Server error ("@ + decimal_text(response.error.status as nat) + "): "@
                    + response.error.reason@,
            ),
            None => Err("Failed to send message"@),
        }
    }
}

/// Gives the body of a response to its reader, or the error that the
/// response stands for. `server_error` is what the body holds where it can
/// be read as a server's error.
pub fn get_response_body_text(status: u16, body: String, server_error: Option<ErrorResponse>) -> (text:
    Result<String, String>)
    ensures
        match text {
            Ok(kept) => body_text(status, body@, server_error) == Ok::<Seq<char>, Seq<char>>(
                kept@,
            ),
            Err(error) => body_text(status, body@, server_error) == Err::<Seq<char>, Seq<char>>(
                error@,
            ),
        },
{
    if !is_failed_status(status) {
        return Ok(body);
    }
    if trim(body.as_str()).as_str().is_empty() {
        return Err(String::from_str("Failed to send message"));
    }
    match server_error {
        Some(response) => {
            let number = decimal(response.error.status as u64);
            Err(
                String::from_str("Server error (").concat(number.as_str()).concat("): ").concat(
                    response.error.reason.as_str(),
                ),
            )
        },
        None => Err(String::from_str("Failed to send message")),
    }
}

} // verus!
