//! Errors an action can end in, with their HTTP status and user-facing text.
use vstd::prelude::*;

verus! {

#[derive(Clone, Debug)]
pub enum ActionError {
    Unauthorized,
    Forbidden,
    InvalidInput(String),
    Conflict(String),
    RateLimited,
    ServiceUnavailable,
    Internal,
    InvalidCsrf,
    DuplicateSubmission,
}

impl ActionError {
    pub open spec fn status_spec(&self) -> u16 {
        match self {
            ActionError::Unauthorized => 401,
            ActionError::Forbidden => 403,
            ActionError::InvalidInput(_) => 422,
            ActionError::Conflict(_) => 409,
            ActionError::RateLimited => 429,
            ActionError::ServiceUnavailable => 503,
            ActionError::Internal => 500,
            ActionError::InvalidCsrf => 403,
            ActionError::DuplicateSubmission => 409,
        }
    }

    pub fn status_code(&self) -> (c: u16)
        ensures
            c == self.status_spec(),
    {
        match self {
            ActionError::Unauthorized => 401,
            ActionError::Forbidden => 403,
            ActionError::InvalidInput(_) => 422,
            ActionError::Conflict(_) => 409,
            ActionError::RateLimited => 429,
            ActionError::ServiceUnavailable => 503,
            ActionError::Internal => 500,
            ActionError::InvalidCsrf => 403,
            ActionError::DuplicateSubmission => 409,
        }
    }

    /// The user-facing message: fixed text, or the caller's text for input and
    /// conflict errors. Never exposes internal details.
    pub open spec fn user_message_spec(&self) -> Seq<char> {
        match self {
            ActionError::Unauthorized => "Not authorized"@,
            ActionError::Forbidden => "Access denied"@,
            ActionError::InvalidInput(m) => m@,
            ActionError::Conflict(m) => m@,
            ActionError::RateLimited => "Too many requests — try again shortly"@,
            ActionError::ServiceUnavailable => "Service temporarily unavailable"@,
            ActionError::Internal => "Action failed"@,
            ActionError::InvalidCsrf => "Invalid request — please reload"@,
            ActionError::DuplicateSubmission => "Request already submitted"@,
        }
    }

    pub fn user_message(&self) -> (s: &str)
        ensures
            s@ == self.user_message_spec(),
    {
        match self {
            ActionError::Unauthorized => "Not authorized",
            ActionError::Forbidden => "Access denied",
            ActionError::InvalidInput(m) => m.as_str(),
            ActionError::Conflict(m) => m.as_str(),
            ActionError::RateLimited => "Too many requests — try again shortly",
            ActionError::ServiceUnavailable => "Service temporarily unavailable",
            ActionError::Internal => "Action failed",
            ActionError::InvalidCsrf => "Invalid request — please reload",
            ActionError::DuplicateSubmission => "Request already submitted",
        }
    }
}

} // verus!
