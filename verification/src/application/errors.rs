//! The errors of the use cases.

use vstd::prelude::*;

verus! {

/// Why playing a stream failed, with the detail the failing step reported.
#[derive(Debug)]
pub enum AppError {
    TokenExchange(String),
    Connect(String),
}

pub open spec fn token_exchange_failed_text() -> Seq<char> {
    seq![
        't', 'o', 'k', 'e', 'n', ' ', 'e', 'x', 'c', 'h', 'a', 'n', 'g', 'e', ' ', 'f', 'a', 'i',
        'l', 'e', 'd', ':', ' ',
    ]
}

pub open spec fn connect_failed_text() -> Seq<char> {
    seq![
        'l', 'i', 'v', 'e', 'k', 'i', 't', ' ', 'c', 'o', 'n', 'n', 'e', 'c', 't', ' ', 'f', 'a',
        'i', 'l', 'e', 'd', ':', ' ',
    ]
}

/// The message shown for an error: what failed, then the detail.
pub open spec fn error_message(e: AppError) -> Seq<char> {
    match e {
        AppError::TokenExchange(detail) => token_exchange_failed_text() + detail@,
        AppError::Connect(detail) => connect_failed_text() + detail@,
    }
}

impl AppError {
    /// The message shown to the user for this error.
    pub fn to_string(&self) -> (res: String)
        ensures
            res@ == error_message(*self),
    {
        match self {
            AppError::TokenExchange(detail) => {
                let head = String::from_str("token exchange failed: ");
                proof {
                    reveal_strlit("token exchange failed: ");
                    assert(head@ =~= token_exchange_failed_text());
                }
                head.concat(detail.as_str())
            },
            AppError::Connect(detail) => {
                let head = String::from_str("livekit connect failed: ");
                proof {
                    reveal_strlit("livekit connect failed: ");
                    assert(head@ =~= connect_failed_text());
                }
                head.concat(detail.as_str())
            },
        }
    }
}

} // verus!
