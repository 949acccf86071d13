//! The guard in front of protected routes.
//!
//! The guard reads the bearer token from the request's `Authorization`
//! header, taken verbatim, and lets the request through as a session or
//! turns it away as `Unauthorized`. It keeps no state between requests.

use crate::account::Session;
use crate::error::AuthError;
use crate::claims::Claims;
use crate::token::lemma_carried_claims_validate;
use crate::token::{carries, validation, verify_token, verify_token_at, TokenService};
use vstd::prelude::*;

verus! {

/// What the guard answers for an `Authorization` header at instant `now`:
/// the session where the header holds a token that validates, and
/// `Unauthorized` where there is no header or the token does not validate.
/// Why a token did not validate is not told.
pub open spec fn admission(authorization: Option<&str>, key: Seq<u8>, now: int) -> Result<
    Session,
    AuthError,
> {
    match authorization {
        None => Err(AuthError::Unauthorized),
        Some(token) => match validation(token@, key, now) {
            Ok(session) => Ok(session),
            Err(_) => Err(AuthError::Unauthorized),
        },
    }
}

/// A token whose expiry has passed is answered with `TokenExpired` by
/// validation, and the guard turns the request away as `Unauthorized`; so it
/// does every request whose token does not validate, whatever the reason.
pub proof fn lemma_expired_token_is_unauthorized(
    token: &str,
    key: Seq<u8>,
    claims: Claims,
    now: int,
)
    requires
        carries(token@, key, claims),
        claims.expiry <= now,
    ensures
        validation(token@, key, now) == Err::<Session, AuthError>(AuthError::TokenExpired),
        admission(Some(token), key, now) == Err::<Session, AuthError>(AuthError::Unauthorized),
{
    lemma_carried_claims_validate(token@, key, claims, now);
}

/// The guard never tells why it turned a request away: its only error is
/// `Unauthorized`, and it lets through exactly the tokens that validate.
pub proof fn lemma_guard_only_says_unauthorized(authorization: Option<&str>, key: Seq<u8>, now: int)
    ensures
        admission(authorization, key, now) matches Err(e) ==> e == AuthError::Unauthorized,
        admission(authorization, key, now) matches Ok(session) ==> (authorization matches Some(
            token,
        ) && validation(token@, key, now) == Ok::<Session, AuthError>(session)),
{
}

/// Hides why a token was turned away: every failure becomes `Unauthorized`.
pub fn admitted(validated: Result<Session, AuthError>) -> (r: Result<Session, AuthError>)
    ensures
        validated matches Ok(session) ==> r == Ok::<Session, AuthError>(session),
        validated is Err ==> r == Err::<Session, AuthError>(AuthError::Unauthorized),
{
    match validated {
        Ok(session) => Ok(session),
        Err(_) => Err(AuthError::Unauthorized),
    }
}

/// Guards a request as of instant `now`, given in seconds since the Unix
/// epoch. A request without the header is turned away at once, without a
/// look at the token service.
pub fn auth_at(service: &TokenService, authorization: Option<&str>, now: i64) -> (r: Result<
    Session,
    AuthError,
>)
    ensures
        r == admission(authorization, service.key(), now as int),
{
    match authorization {
        None => Err(AuthError::Unauthorized),
        Some(token) => admitted(verify_token_at(service, token, now)),
    }
}

/// Guards a request as of the system clock's present instant.
///
/// The answer is that of `auth_at` for the instant that was read.
pub fn auth(service: &TokenService, authorization: Option<&str>) -> (r: Result<Session, AuthError>)
    ensures
        exists|now: i64| r == #[trigger] admission(authorization, service.key(), now as int),
        authorization is None ==> r == Err::<Session, AuthError>(AuthError::Unauthorized),
        r matches Err(e) ==> e == AuthError::Unauthorized,
{
    match authorization {
        None => {
            assert(admission(authorization, service.key(), 0i64 as int) == Err::<
                Session,
                AuthError,
            >(AuthError::Unauthorized));
            Err(AuthError::Unauthorized)
        },
        Some(token) => {
            let validated = verify_token(service, token);
            let ghost now = choose|now: i64|
                validated == #[trigger] validation(token@, service.key(), now as int);
            let r = admitted(validated);
            assert(r == admission(authorization, service.key(), now as int));
            r
        },
    }
}

} // verus!
