//! The one error type that every fallible operation of the library returns.

use vstd::prelude::*;

verus! {

/// Why an authentication operation failed.
#[derive(Clone, Copy, Debug, PartialEq, Eq, Structural)]
pub enum AuthError {
    /// The request body was malformed.
    ValidationError,
    /// The email is unknown or the password does not match; the two are
    /// deliberately indistinguishable.
    WrongCredentials,
    /// The request carried no token, or one that is invalid or expired.
    Unauthorized,
    /// The account store reported that the email is already registered.
    DuplicateAccount,
    /// The hashing or encryption primitive failed unexpectedly.
    CryptoFailure,
    /// The account store failed in some other way.
    StoreError,
    /// The token could not be decrypted and authenticated, or its claims
    /// could not be read.
    InvalidToken,
    /// The token was authentic but its expiry has passed.
    TokenExpired,
    /// The stored password hash could not be parsed.
    MalformedHashRecord,
}

impl AuthError {
    /// What a client is told of this error. Why a token was turned away and
    /// what went wrong inside a primitive stay on the server: `InvalidToken`
    /// and `TokenExpired` appear as `Unauthorized`, `MalformedHashRecord` as
    /// `CryptoFailure`.
    pub open spec fn spec_client_facing(self) -> AuthError {
        match self {
            AuthError::InvalidToken | AuthError::TokenExpired => AuthError::Unauthorized,
            AuthError::MalformedHashRecord => AuthError::CryptoFailure,
            other => other,
        }
    }

    /// The HTTP status that stands for this error: 400 for a malformed
    /// request, 401 for wrong credentials and for every token failure, 409
    /// for a duplicate account, and 500 for faults on the server's side.
    pub open spec fn spec_http_status(self) -> u16 {
        match self {
            AuthError::ValidationError => 400,
            AuthError::WrongCredentials => 401,
            AuthError::Unauthorized | AuthError::InvalidToken | AuthError::TokenExpired => 401,
            AuthError::DuplicateAccount => 409,
            AuthError::CryptoFailure | AuthError::StoreError | AuthError::MalformedHashRecord => 500,
        }
    }

    /// The category of this error that may be shown to a client.
    #[verifier::when_used_as_spec(spec_client_facing)]
    pub fn client_facing(self) -> (shown: AuthError)
        ensures
            shown == self.spec_client_facing(),
    {
        match self {
            AuthError::InvalidToken | AuthError::TokenExpired => AuthError::Unauthorized,
            AuthError::MalformedHashRecord => AuthError::CryptoFailure,
            other => other,
        }
    }

    /// The HTTP status to answer this error with.
    #[verifier::when_used_as_spec(spec_http_status)]
    pub fn http_status(self) -> (status: u16)
        ensures
            status == self.spec_http_status(),
    {
        match self {
            AuthError::ValidationError => 400,
            AuthError::WrongCredentials => 401,
            AuthError::Unauthorized | AuthError::InvalidToken | AuthError::TokenExpired => 401,
            AuthError::DuplicateAccount => 409,
            AuthError::CryptoFailure | AuthError::StoreError | AuthError::MalformedHashRecord => 500,
        }
    }
}

/// What a client is told of an error comes with the status of the error
/// itself, and is told as it stands when it is told again. Of a token that
/// was turned away the client is told `Unauthorized`, whatever the reason.
pub proof fn lemma_client_facing_keeps_status(e: AuthError)
    ensures
        e.client_facing().http_status() == e.http_status(),
        e.client_facing().client_facing() == e.client_facing(),
        e == AuthError::InvalidToken || e == AuthError::TokenExpired ==> e.client_facing()
            == AuthError::Unauthorized,
{
}

} // verus!
