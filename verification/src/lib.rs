//! Authorization and live-notification core of a guild-based chat service.
//!
//! The crate decides whether an actor may perform a guild- or channel-scoped
//! action, keeps membership, ownership and invite state consistent, and keeps
//! the books of the live delivery channels that events are fanned out to.
//! Every operation is total on the snapshot it is handed and reports failure
//! as one typed outcome; an operation that fails leaves the snapshot as it was.

use vstd::prelude::*;
use crate::routes::structs::User;

pub mod aggregate;
pub mod routes;
pub mod sequences;
pub mod utils;

verus! {

/// The ways an operation can fail, by the HTTP status that reports them.
#[derive(Clone, Copy, Debug, PartialEq, Eq, Structural)]
pub enum Status {
    /// A field is too long or ill-formed.
    BadRequest,
    /// The credential, token or one-time code is wrong.
    Unauthorized,
    /// The actor lacks the permission or role that the action needs.
    Forbidden,
    /// The entity is absent, or the lookup's condition is not met.
    NotFound,
    /// The action lost against the current state: a capacity that ran out, a
    /// name that is taken, a second factor that is already set up.
    Conflict,
    /// The account's address has not been verified yet.
    PreconditionRequired,
    /// The store failed.
    InternalServerError,
}

impl Status {
    /// The numeric HTTP status code.
    pub fn code(&self) -> (code: u16)
        ensures
            code == self.spec_code(),
    {
        match self {
            Status::BadRequest => 400,
            Status::Unauthorized => 401,
            Status::Forbidden => 403,
            Status::NotFound => 404,
            Status::Conflict => 409,
            Status::PreconditionRequired => 428,
            Status::InternalServerError => 500,
        }
    }

    /// The numeric HTTP status code.
    pub open spec fn spec_code(&self) -> u16 {
        match self {
            Status::BadRequest => 400,
            Status::Unauthorized => 401,
            Status::Forbidden => 403,
            Status::NotFound => 404,
            Status::Conflict => 409,
            Status::PreconditionRequired => 428,
            Status::InternalServerError => 500,
        }
    }
}

/// The one typed failure that an operation reports.
#[derive(Clone, Copy, Debug, PartialEq, Eq, Structural)]
pub struct AppError(pub Status);

/// The id of the user on whose behalf a request acts.
#[derive(Debug)]
pub struct Auth(pub String);

impl Auth {
    /// Resolves who a request acts for, from whether its bearer token is
    /// valid and the account that holds the token. An invalid token is
    /// unauthorized, and so is a token that no account holds.
    pub fn from_request(token_valid: bool, holder: Option<&User>) -> (outcome: Result<Auth, AppError>)
        ensures
            match outcome {
                Ok(auth) => holder matches Some(user) && auth.0@ == user.id@ && token_valid,
                Err(e) => !(token_valid && holder is Some) && e == AppError(Status::Unauthorized),
            },
    {
        if !token_valid {
            return Err(AppError(Status::Unauthorized));
        }
        match holder {
            Some(user) => Ok(Auth(user.id.clone())),
            None => Err(AppError(Status::Unauthorized)),
        }
    }
}

} // verus!
