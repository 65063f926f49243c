//! The error taxonomy and the response class each error maps to.

use vstd::prelude::*;

verus! {

/// Everything that can go wrong while resolving, verifying, issuing,
/// validating or revoking.
#[derive(Clone, Copy, Debug, PartialEq, Eq, Structural)]
pub enum AuthError {
    /// The login type of a request is not one this server supports.
    UnsupportedLoginType,
    /// The local part of an identifier is outside the identifier grammar.
    InvalidIdentifier,
    /// A fully qualified identifier names another server.
    ForeignDomain,
    /// No credential record exists for the identity.
    UnknownIdentity,
    /// The presented password does not match the stored hash.
    InvalidCredentials,
    /// The token is absent, revoked, expired, malformed or not authentic.
    InvalidToken,
    /// A verified token names another identity than its record.
    IntegrityError,
    /// The store refused a write.
    StorageError,
    /// The expiration instant cannot be represented.
    ClockError,
    /// The token could not be signed or serialized.
    CryptoError,
}

/// The class of response that the calling layer sends.
#[derive(Clone, Copy, Debug, PartialEq, Eq, Structural)]
pub enum Status {
    /// The request is well formed but names something invalid.
    BadRequest,
    /// The caller is not authorized; one generic answer for every cause.
    Forbidden,
    /// The request asks for something this server does not support.
    UnprocessableEntity,
    /// The server failed; no detail is given to the client.
    InternalServerError,
}

/// The response class of an error. Unknown identities and wrong passwords
/// share one class, and so do all causes of an invalid token.
pub open spec fn status_of(error: AuthError) -> Status {
    match error {
        AuthError::UnsupportedLoginType => Status::UnprocessableEntity,
        AuthError::InvalidIdentifier => Status::BadRequest,
        AuthError::ForeignDomain => Status::Forbidden,
        AuthError::UnknownIdentity => Status::Forbidden,
        AuthError::InvalidCredentials => Status::Forbidden,
        AuthError::InvalidToken => Status::Forbidden,
        AuthError::IntegrityError => Status::InternalServerError,
        AuthError::StorageError => Status::InternalServerError,
        AuthError::ClockError => Status::InternalServerError,
        AuthError::CryptoError => Status::InternalServerError,
    }
}

impl AuthError {
    /// The response class the calling layer answers with.
    pub fn status(&self) -> (status: Status)
        ensures
            status == status_of(*self),
    {
        match self {
            AuthError::UnsupportedLoginType => Status::UnprocessableEntity,
            AuthError::InvalidIdentifier => Status::BadRequest,
            AuthError::ForeignDomain
            | AuthError::UnknownIdentity
            | AuthError::InvalidCredentials
            | AuthError::InvalidToken => Status::Forbidden,
            AuthError::IntegrityError
            | AuthError::StorageError
            | AuthError::ClockError
            | AuthError::CryptoError => Status::InternalServerError,
        }
    }

    /// Whether the client may learn more than the response class. Only
    /// errors about the request's own shape are spelled out.
    pub fn is_client_visible(&self) -> (visible: bool)
        ensures
            visible == (status_of(*self) == Status::UnprocessableEntity || status_of(*self)
                == Status::BadRequest),
    {
        match self {
            AuthError::UnsupportedLoginType | AuthError::InvalidIdentifier => true,
            _ => false,
        }
    }
}

} // verus!
