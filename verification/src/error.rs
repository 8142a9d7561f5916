//! Error taxonomy shared by the webhook and command paths.
//!
//! Each variant is a distinct, distinguishable kind so callers can translate
//! it into the right transport status or a friendly message instead of a
//! generic failure.

use vstd::prelude::*;

verus! {

/// What can go wrong while classifying, reconciling or persisting.
#[derive(Debug)]
pub enum Error {
    /// The persistent store refused or failed a query/mutation.
    Database(String),
    /// A webhook body failed its authenticity check.
    InvalidSignature,
    /// A request carried a malformed or incomplete payload.
    InvalidPayload(String),
    /// A project with this repository identifier was already submitted.
    ProjectAlreadyExists(String),
    /// The addressed tenant or project is not known to the store.
    NotFound(String),
    /// The caller lacks the moderator permission this command demands.
    Unauthorized,
    /// Re-approval of a project that is already in the approved state.
    AlreadyApproved,
    /// The destination platform reported a failure.
    Discord(String),
    /// An unclassified internal failure.
    Internal(String),
}

impl Error {
    /// The spec-level text of `message`.
    pub open spec fn spec_message(&self) -> Seq<char> {
        match self {
            Error::Database(s) => "database error: "@ + s@,
            Error::InvalidSignature => "invalid signature"@,
            Error::InvalidPayload(s) => "invalid payload: "@ + s@,
            Error::ProjectAlreadyExists(s) => "project already exists: "@ + s@,
            Error::NotFound(s) => "not found: "@ + s@,
            Error::Unauthorized => "unauthorized"@,
            Error::AlreadyApproved => "project already approved"@,
            Error::Discord(s) => "discord api error: "@ + s@,
            Error::Internal(s) => "internal error: "@ + s@,
        }
    }

    /// Render the error as the user-facing line the command handlers echo.
    pub fn message(&self) -> (r: String)
        ensures
            r@ == self.spec_message(),
    {
        match self {
            Error::Database(s) => {
                let mut m = "database error: ".to_owned();
                m.append(s.as_str());
                m
            }
            Error::InvalidSignature => "invalid signature".to_owned(),
            Error::InvalidPayload(s) => {
                let mut m = "invalid payload: ".to_owned();
                m.append(s.as_str());
                m
            }
            Error::ProjectAlreadyExists(s) => {
                let mut m = "project already exists: ".to_owned();
                m.append(s.as_str());
                m
            }
            Error::NotFound(s) => {
                let mut m = "not found: ".to_owned();
                m.append(s.as_str());
                m
            }
            Error::Unauthorized => "unauthorized".to_owned(),
            Error::AlreadyApproved => "project already approved".to_owned(),
            Error::Discord(s) => {
                let mut m = "discord api error: ".to_owned();
                m.append(s.as_str());
                m
            }
            Error::Internal(s) => {
                let mut m = "internal error: ".to_owned();
                m.append(s.as_str());
                m
            }
        }
    }

    /// The HTTP status the transport layer answers with for this error:
    /// unauthorized for authenticity and permission failures, bad request for
    /// malformed payloads, conflict for domain conflicts, not-found for
    /// unknown tenants or projects, and internal-server-error otherwise.
    pub fn status_code(&self) -> (r: u16)
        ensures
            r == match self {
                Error::InvalidSignature | Error::Unauthorized => 401u16,
                Error::InvalidPayload(_) => 400u16,
                Error::ProjectAlreadyExists(_) | Error::AlreadyApproved => 409u16,
                Error::NotFound(_) => 404u16,
                _ => 500u16,
            },
    {
        match self {
            Error::InvalidSignature | Error::Unauthorized => 401,
            Error::InvalidPayload(_) => 400,
            Error::ProjectAlreadyExists(_) | Error::AlreadyApproved => 409,
            Error::NotFound(_) => 404,
            _ => 500,
        }
    }
}

} // verus!
