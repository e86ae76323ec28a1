//! What the token exchange answers for each reply of the HTTP endpoint.
//!
//! The application posts the request body with the bearer token and reads
//! the reply; this module turns the reply into credentials or an error.

use vstd::prelude::*;

use crate::application::errors::AppError;
use crate::domain::credentials::{ws_url, LiveKitCredentials};

verus! {

/// The reply of the token exchange endpoint, as far as the exchange needs it.
pub enum TokenReply {
    /// The request could not be sent or no reply came; the transport's
    /// description of the failure.
    SendFailed(String),
    /// The endpoint answered with a status other than success: the status
    /// (code and reason) and the body the server sent.
    HttpError { status: String, body: String },
    /// The endpoint answered with success, but its body is not the expected
    /// JSON; the decoder's description of the failure.
    InvalidBody(String),
    /// The endpoint answered with success and the LiveKit token and API URL.
    Credentials { token: String, api_url: String },
}

pub open spec fn http_text() -> Seq<char> {
    seq!['H', 'T', 'T', 'P', ' ']
}

pub open spec fn separator_text() -> Seq<char> {
    seq![':', ' ']
}

pub open spec fn invalid_response_text() -> Seq<char> {
    seq!['i', 'n', 'v', 'a', 'l', 'i', 'd', ' ', 'r', 'e', 's', 'p', 'o', 'n', 's', 'e', ':', ' ']
}

/// The detail of the error that a failed exchange reports.
pub open spec fn exchange_error_detail(reply: TokenReply) -> Seq<char> {
    match reply {
        TokenReply::SendFailed(e) => e@,
        TokenReply::HttpError { status, body } => http_text() + status@ + separator_text() + body@,
        TokenReply::InvalidBody(e) => invalid_response_text() + e@,
        TokenReply::Credentials { .. } => Seq::empty(),
    }
}

/// The credentials for a successful reply, or the token exchange error for
/// any other.
pub fn exchange_outcome(reply: TokenReply) -> (res: Result<LiveKitCredentials, AppError>)
    ensures
        match reply {
            TokenReply::Credentials { token, api_url } => res matches Ok(c) && c.wss_url@ == ws_url(
                api_url@,
            ) && c.jwt@ == token@,
            _ => res matches Err(AppError::TokenExchange(detail)) && detail@
                == exchange_error_detail(reply),
        },
{
    match reply {
        TokenReply::SendFailed(e) => Err(AppError::TokenExchange(e)),
        TokenReply::HttpError { status, body } => {
            let head = String::from_str("HTTP ");
            let sep = ": ";
            proof {
                reveal_strlit("HTTP ");
                reveal_strlit(": ");
                assert(head@ =~= http_text());
                assert(sep@ =~= separator_text());
            }
            let detail = head.concat(status.as_str()).concat(sep).concat(body.as_str());
            Err(AppError::TokenExchange(detail))
        },
        TokenReply::InvalidBody(e) => {
            let head = String::from_str("invalid response: ");
            proof {
                reveal_strlit("invalid response: ");
                assert(head@ =~= invalid_response_text());
            }
            Err(AppError::TokenExchange(head.concat(e.as_str())))
        },
        TokenReply::Credentials { token, api_url } => Ok(
            LiveKitCredentials::from_api_response(api_url, token),
        ),
    }
}

} // verus!
