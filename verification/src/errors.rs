//! The error taxonomy of the core, and its fixed mapping to user-visible
//! status codes and messages.

use vstd::prelude::*;

verus! {

/// Every failure the core surfaces.
///
/// `Unauthorized` deliberately carries no detail: a missing, malformed,
/// mis-signed and expired token all collapse to it, so the verification
/// boundary never leaks why a token was rejected.
#[derive(Debug, Clone)]
pub enum ServiceError {
    InternalServerError(String),
    NotFound,
    Unauthorized,
    Forbidden(String),
}

/// The HTTP status each error maps to.
pub open spec fn error_status(e: ServiceError) -> int {
    match e {
        ServiceError::InternalServerError(_) => 500,
        ServiceError::NotFound => 404,
        ServiceError::Unauthorized => 401,
        ServiceError::Forbidden(_) => 403,
    }
}

/// The user-visible message of each error. `Unauthorized` and `NotFound`
/// have fixed texts; the other two carry a generic diagnostic for operator
/// visibility.
pub open spec fn error_message(e: ServiceError) -> Seq<char> {
    match e {
        ServiceError::InternalServerError(m) => m@,
        ServiceError::NotFound => "Pokemon not found."@,
        ServiceError::Unauthorized => "Invalid credentials provided."@,
        ServiceError::Forbidden(m) => m@,
    }
}

impl ServiceError {
    /// Maps the error to the status code and body of the response it
    /// produces. The pair is fixed per variant, so callers learn nothing
    /// about an `Unauthorized` rejection beyond the fact of it.
    pub fn error_response(&self) -> (r: (u16, String))
        ensures
            r.0 as int == error_status(*self),
            r.1@ == error_message(*self),
    {
        match self {
            ServiceError::InternalServerError(message) => (500, message.clone()),
            ServiceError::NotFound => (404, String::from_str("Pokemon not found.")),
            ServiceError::Unauthorized => (401, String::from_str("Invalid credentials provided.")),
            ServiceError::Forbidden(message) => (403, message.clone()),
        }
    }

    /// The HTTP status alone.
    pub fn status_code(&self) -> (r: u16)
        ensures
            r as int == error_status(*self),
    {
        match self {
            ServiceError::InternalServerError(_) => 500,
            ServiceError::NotFound => 404,
            ServiceError::Unauthorized => 401,
            ServiceError::Forbidden(_) => 403,
        }
    }
}

} // verus!
