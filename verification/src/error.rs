//! The closed error taxonomy of the service, and the classifier that maps
//! persistence-layer failures into it.
//!
//! Persistence and cryptographic failures are classified once, at the
//! boundary; downstream code only ever sees `AppError` values.

use vstd::prelude::*;

verus! {

/// The closed set of domain error kinds.  Every failure that leaves this
/// library is one of these.
#[derive(Clone, Copy, Debug, PartialEq, Eq, Structural)]
pub enum AppErrorType {
    /// Missing, invalid or expired credential.
    Unauthenticated,
    /// A referenced entity, or the parent of an association, is absent.
    NotFound,
    /// A duplicate unique key.
    Conflict,
    /// A credential is present but not decodable.
    MalformedCredential,
    /// Anything else, including persistence and infrastructure failure.
    Internal,
}

/// A terminal domain error: a kind, an optional user-facing message and an
/// optional internal cause.  Created at the classification boundary and
/// never mutated.
#[derive(Debug)]
pub struct AppError {
    pub message: Option<String>,
    pub cause: Option<String>,
    pub error_type: AppErrorType,
}

impl AppError {
    /// Builds an error from its three parts.
    pub fn new(message: Option<String>, cause: Option<String>, error_type: AppErrorType) -> (r:
        AppError)
        ensures
            r.message == message,
            r.cause == cause,
            r.error_type == error_type,
    {
        AppError { message, cause, error_type }
    }

    /// The user-facing message: the stored one, or a generic fallback that
    /// leaks nothing about the cause.
    pub fn message(&self) -> (r: String)
        ensures
            self.message is Some ==> r@ == self.message.unwrap()@,
            self.message is None ==> r@ == "An unexpected error occurred!"@,
    {
        match &self.message {
            Some(message) => message.clone(),
            None => "An unexpected error occurred!".to_owned(),
        }
    }

    /// The HTTP status code that each kind maps to.
    pub fn status_code(&self) -> (r: u16)
        ensures
            r == status_code_of(self.error_type),
    {
        match self.error_type {
            AppErrorType::Unauthenticated => 401,
            AppErrorType::NotFound => 404,
            AppErrorType::Conflict => 400,
            AppErrorType::MalformedCredential => 400,
            AppErrorType::Internal => 500,
        }
    }
}

/// The status code each error kind carries on the wire.
pub open spec fn status_code_of(t: AppErrorType) -> u16 {
    match t {
        AppErrorType::Unauthenticated => 401,
        AppErrorType::NotFound => 404,
        AppErrorType::Conflict => 400,
        AppErrorType::MalformedCredential => 400,
        AppErrorType::Internal => 500,
    }
}

/// The serializable body of an error response.
pub struct AppResponseError {
    pub error: String,
}

impl AppResponseError {
    pub fn new(message: String) -> (r: AppResponseError)
        ensures
            r.error == message,
    {
        AppResponseError { error: message }
    }
}

/// What the persistence layer reports about a failed operation, already
/// reduced to the finite surface the classifier consumes.
#[derive(Clone, Copy, Debug, PartialEq, Eq, Structural)]
pub enum DbFailureKind {
    /// A unique-constraint violation on a natural key.
    UniqueViolation,
    /// A foreign-key violation: a referenced parent row does not exist.
    ForeignKeyViolation,
    /// A single-row fetch matched no row.
    RowNotFound,
    /// Any other persistence failure.
    Other,
}

/// The pure classification of a persistence failure into the closed
/// taxonomy: unique violations are conflicts, foreign-key violations and
/// missing rows are not-found, everything else is internal.
pub open spec fn classified_kind(k: DbFailureKind) -> AppErrorType {
    match k {
        DbFailureKind::UniqueViolation => AppErrorType::Conflict,
        DbFailureKind::ForeignKeyViolation => AppErrorType::NotFound,
        DbFailureKind::RowNotFound => AppErrorType::NotFound,
        DbFailureKind::Other => AppErrorType::Internal,
    }
}

/// Maps a persistence failure to its domain error kind.
pub fn classify_db_failure(k: DbFailureKind) -> (r: AppErrorType)
    ensures
        r == classified_kind(k),
{
    match k {
        DbFailureKind::UniqueViolation => AppErrorType::Conflict,
        DbFailureKind::ForeignKeyViolation => AppErrorType::NotFound,
        DbFailureKind::RowNotFound => AppErrorType::NotFound,
        DbFailureKind::Other => AppErrorType::Internal,
    }
}

} // verus!
