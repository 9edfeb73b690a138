//! Mapping of request outcomes to the HTTP surface: a status code and a JSON
//! body of the shape `{ "status": ..., "message": ... }`.

use vstd::prelude::*;
use vstd::string::StringExecFns;

use crate::errors::EmailError;

verus! {

/// The body of every response: a status word and a human-readable message.
pub struct ApiResponse {
    /// `"success"` or `"error"`.
    pub status: String,
    /// What happened, in words.
    pub message: String,
}

/// The HTTP status code each failure maps to: authentication failures are
/// 401, rate limiting 429, a malformed address 400 (a client error), and a
/// transport failure 500.
pub open spec fn error_status_spec(e: EmailError) -> u16 {
    match e {
        EmailError::MissingCredential => 401,
        EmailError::InvalidCredential => 401,
        EmailError::RateLimited => 429,
        EmailError::AddressFormatError => 400,
        EmailError::TransportFailure(_) => 500,
    }
}

/// The message text each failure maps to; a transport failure embeds the
/// transport's own error text.
pub open spec fn error_message_spec(e: EmailError) -> Seq<char> {
    match e {
        EmailError::MissingCredential => "Missing API key"@,
        EmailError::InvalidCredential => "Invalid API key"@,
        EmailError::RateLimited => "Rate limit exceeded"@,
        EmailError::AddressFormatError => "Invalid email address"@,
        EmailError::TransportFailure(t) => "Failed to send email: "@ + t@,
    }
}

/// The body of the one successful response.
pub fn success_response() -> (r: ApiResponse)
    ensures
        r.status@ == "success"@,
        r.message@ == "Email sent successfully"@,
{
    ApiResponse { status: "success".to_owned(), message: "Email sent successfully".to_owned() }
}

/// The status code and body a failure maps to.
pub fn error_response(e: &EmailError) -> (r: (u16, ApiResponse))
    ensures
        r.0 == error_status_spec(*e),
        r.1.status@ == "error"@,
        r.1.message@ == error_message_spec(*e),
{
    let status: u16;
    let message: String;
    match e {
        EmailError::MissingCredential => {
            status = 401;
            message = "Missing API key".to_owned();
        },
        EmailError::InvalidCredential => {
            status = 401;
            message = "Invalid API key".to_owned();
        },
        EmailError::RateLimited => {
            status = 429;
            message = "Rate limit exceeded".to_owned();
        },
        EmailError::AddressFormatError => {
            status = 400;
            message = "Invalid email address".to_owned();
        },
        EmailError::TransportFailure(t) => {
            status = 500;
            let mut m: String = "Failed to send email: ".to_owned();
            m.append(t.as_str());
            message = m;
        },
    }
    (status, ApiResponse { status: "error".to_owned(), message })
}

/// Map the transport collaborator's outcome for a message that was sent
/// exactly once: success yields 200 with the success body, and a failure
/// yields 500 with the transport's error text embedded. No retry follows
/// from this mapping; a failed send is surfaced as-is.
pub fn send_outcome_response(outcome: Result<(), String>) -> (r: (u16, ApiResponse))
    ensures
        match outcome {
            Ok(_) => r.0 == 200 && r.1.status@ == "success"@ && r.1.message@
                == "Email sent successfully"@,
            Err(t) => r.0 == 500 && r.1.status@ == "error"@ && r.1.message@ == error_message_spec(
                EmailError::TransportFailure(t),
            ),
        },
{
    match outcome {
        Ok(_) => (200, success_response()),
        Err(t) => error_response(&EmailError::TransportFailure(t)),
    }
}

} // verus!
