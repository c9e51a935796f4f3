use vstd::prelude::*;

verus! {

/// Why an identity token was refused or could not be made.
#[derive(Debug, Clone, Copy, PartialEq, Eq, Structural)]
pub enum TokenError {
    /// The token is not a well-formed signed token carrying identity claims.
    Malformed,
    /// The signature does not verify under the shared secret.
    BadSignature,
    /// The current time is at or past the expiry.
    Expired,
    /// No token could be issued: the clock or the expiry is out of range,
    /// or the encoder failed.
    Issue,
}

/// The unique account field that an attempted registration collided with.
#[derive(Debug, Clone, Copy, PartialEq, Eq, Structural)]
pub enum ConflictField {
    Email,
    Username,
}

/// Errors of the account and workout services.
#[derive(Debug, Clone, Copy, PartialEq, Eq, Structural)]
pub enum ServiceError {
    /// An account with that email or username already exists.
    Conflict(ConflictField),
    /// Unknown email or wrong password; the two are deliberately not told apart.
    InvalidCredentials,
    /// The account or workout is absent, or not owned by the caller.
    NotFound,
    /// A key or reference constraint of the store was violated; nothing was written.
    Constraint,
    /// The password hasher failed, or a stored digest is malformed.
    Hashing,
    /// A token could not be issued.
    Token(TokenError),
}

/// Why an inbound request was not bound to an identity.
#[derive(Debug, Clone, Copy, PartialEq, Eq, Structural)]
pub enum AuthRejection {
    /// No `Authorization: Bearer <token>` header.
    MissingToken,
    /// The token failed validation, or its subject is not an account id.
    InvalidToken,
}

} // verus!
