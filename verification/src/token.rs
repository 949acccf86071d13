//! Session tokens: issued at login, validated on every protected request.
//!
//! A token is a PASETO `v2.local` string: the text form of the claims,
//! encrypted and authenticated under the service's 32-byte key. The library
//! writes and reads the claims itself; sealing and opening are done by the
//! `paseto` crate.

use crate::account::{AccountId, Session};
use crate::claims::{claims_of, claims_text, decode_claims, encode_claims, Claims};
use crate::claims::lemma_claims_round_trip;
use crate::error::AuthError;
use vstd::prelude::*;
use vstd::slice::slice_to_vec;

verus! {

/// Length in bytes of the symmetric key.
pub const KEY_LEN: usize = 32;

/// Number of seconds a token stays valid after it is issued: 24 hours.
pub const TOKEN_LIFETIME_SECS: i64 = 86_400;

/// What every token starts with.
pub const HEADER: &'static str = "v2.local.";

/// Number of characters after the header that hold the 24-byte nonce.
pub const NONCE_CHARS: usize = 32;

/// `failure::Error`, the error of the `paseto` crate, carried through
/// unopened.
#[verifier::external_type_specification]
#[verifier::external_body]
pub struct ExFailureError(failure::Error);

/// The plaintext that `paseto::v2::local::decrypt_paseto` recovers from a
/// token under a key when no footer is expected: `Some` of the message where
/// it returns `Ok`, `None` where it returns an error.
pub uninterp spec fn paseto_opened(token: Seq<char>, key: Seq<u8>) -> Option<Seq<char>>;

/// Whether `token` is long enough to hold a nonce: it starts with the
/// header, and the 32 characters after it hold neither a separator nor
/// padding. No other string can be a valid token.
pub open spec fn sealed_shape(token: Seq<char>) -> bool {
    &&& token.len() >= HEADER@.len() + NONCE_CHARS
    &&& token.subrange(0, HEADER@.len() as int) == HEADER@
    &&& forall|i: int|
        HEADER@.len() <= i < HEADER@.len() + NONCE_CHARS ==> #[trigger] token[i] != '.' && token[i]
            != '='
}

/// Whether `token` is a sealed token that holds `claims` under `key`.
pub open spec fn carries(token: Seq<char>, key: Seq<u8>, claims: Claims) -> bool {
    sealed_shape(token) && paseto_opened(token, key) == Some(claims_text(claims))
}

/// The session that claims give at instant `now`: none where there are no
/// claims or where their expiry is not after `now`.
pub open spec fn claims_verdict(claims: Option<Claims>, now: int) -> Result<Session, AuthError> {
    match claims {
        None => Err(AuthError::InvalidToken),
        Some(c) => if c.expiry <= now {
            Err(AuthError::TokenExpired)
        } else {
            Ok(Session { account_id: AccountId(c.account_id) })
        },
    }
}

/// What validating `token` under `key` at instant `now` answers.
pub open spec fn validation(token: Seq<char>, key: Seq<u8>, now: int) -> Result<
    Session,
    AuthError,
> {
    if !sealed_shape(token) {
        Err(AuthError::InvalidToken)
    } else {
        match paseto_opened(token, key) {
            None => Err(AuthError::InvalidToken),
            Some(text) => claims_verdict(claims_of(text), now),
        }
    }
}

/// Calls `paseto::v2::local::local_paseto` without a footer.
///
/// The call fails where the key does not have 32 bytes or where the system's
/// random generator fails. A token that comes back starts with
/// the header, followed by the unpadded URL-safe base64 of at least 40
/// bytes (nonce, ciphertext and tag), and `decrypt_paseto` recovers the
/// message from it under the same key. The token itself depends on a random
/// nonce and is not a function of the arguments.
#[verifier::external_body]
fn paseto_seal(message: &str, key: &[u8]) -> (r: Result<String, failure::Error>)
    ensures
        r matches Ok(token) ==> sealed_shape(token@),
        r matches Ok(token) ==> paseto_opened(token@, key@) == Some(message@),
{
    paseto::v2::local::local_paseto(message, None, key)
}

/// Calls `paseto::v2::local::decrypt_paseto` without a footer; its answer is
/// a function of the token and the key alone.
///
/// `decrypt_paseto` splits off the first 24 decoded bytes as the nonce and
/// panics where there are fewer. The precondition rules that out: 32
/// characters without padding decode to 24 bytes.
#[verifier::external_body]
fn paseto_open(token: &str, key: &[u8]) -> (r: Result<String, failure::Error>)
    requires
        sealed_shape(token@),
    ensures
        r matches Ok(message) ==> paseto_opened(token@, key@) == Some(message@),
        r is Err ==> paseto_opened(token@, key@) is None,
{
    paseto::v2::local::decrypt_paseto(token, None, key)
}

/// Reads the system clock through `chrono::Utc::now` and returns its
/// timestamp in seconds since the Unix epoch. Nothing is claimed of it.
/// `Utc::now` panics where the system clock stands before 1970 or beyond the
/// years that chrono can tell.
#[verifier::external_body]
fn unix_now() -> (now: i64) {
    chrono::Utc::now().timestamp()
}

/// Issues and validates tokens under one symmetric key, which it holds for
/// its whole life and never hands out.
pub struct TokenService {
    key: Vec<u8>,
}

impl TokenService {
    #[verifier::type_invariant]
    spec fn has_full_key(self) -> bool {
        self.key@.len() == KEY_LEN
    }

    /// The key this service seals and opens tokens with.
    pub closed spec fn key(self) -> Seq<u8> {
        self.key@
    }

    /// Makes a service that works under `key`, which must have exactly 32
    /// bytes; returns `None` for any other length.
    pub fn new(key: &[u8]) -> (service: Option<TokenService>)
        ensures
            service is Some <==> key@.len() == KEY_LEN,
            service matches Some(s) ==> s.key() == key@,
    {
        if key.len() != KEY_LEN {
            return None;
        }
        Some(TokenService { key: slice_to_vec(key) })
    }
}

/// Decides whether `token` has the shape of a sealed token.
pub fn has_sealed_shape(token: &str) -> (yes: bool)
    ensures
        yes == sealed_shape(token@),
{
    proof {
        reveal_strlit("v2.local.");
    }
    let header_len = HEADER.unicode_len();
    let nonce_end = header_len + NONCE_CHARS;
    if token.unicode_len() < nonce_end {
        return false;
    }
    let mut i: usize = 0;
    while i < header_len
        invariant
            i <= header_len,
            header_len == HEADER@.len(),
            header_len == 9,
            nonce_end <= token@.len(),
            nonce_end == header_len + NONCE_CHARS,
            token@.subrange(0, i as int) == HEADER@.take(i as int),
        decreases header_len - i,
    {
        if token.get_char(i) != HEADER.get_char(i) {
            assert(token@.subrange(0, header_len as int)[i as int] != HEADER@[i as int]);
            return false;
        }
        assert(token@.subrange(0, i + 1) == token@.subrange(0, i as int).push(token@[i as int]));
        assert(HEADER@.take(i + 1) == HEADER@.take(i as int).push(HEADER@[i as int]));
        i += 1;
    }
    assert(HEADER@.take(header_len as int) == HEADER@);
    while i < nonce_end
        invariant
            header_len <= i <= nonce_end,
            header_len == HEADER@.len(),
            nonce_end <= token@.len(),
            nonce_end == header_len + NONCE_CHARS,
            token@.subrange(0, header_len as int) == HEADER@,
            forall|k: int|
                header_len <= k < i ==> #[trigger] token@[k] != '.' && token@[k] != '=',
        decreases nonce_end - i,
    {
        let c = token.get_char(i);
        if c == '.' || c == '=' {
            return false;
        }
        i += 1;
    }
    true
}

/// Decides what the decrypted text of a token gives at instant `now`:
/// `InvalidToken` where the text is not the text form of claims,
/// `TokenExpired` where the expiry is not after `now`, and the session of the
/// account otherwise.
pub fn session_from_payload(payload: &str, now: i64) -> (r: Result<Session, AuthError>)
    ensures
        r == claims_verdict(claims_of(payload@), now as int),
{
    match decode_claims(payload) {
        None => Err(AuthError::InvalidToken),
        Some(claims) => {
            if claims.expiry <= now {
                Err(AuthError::TokenExpired)
            } else {
                Ok(Session { account_id: AccountId(claims.account_id) })
            }
        },
    }
}

/// Validates `token` as of instant `now`, given in seconds since the Unix
/// epoch.
///
/// Answers `InvalidToken` where the token does not have the shape of a
/// sealed token, where it does not decrypt and authenticate under the
/// service's key, and where the decrypted text is not the text form of
/// claims; `TokenExpired` where the expiry of the claims is not after `now`;
/// and the session of the account otherwise.
pub fn verify_token_at(service: &TokenService, token: &str, now: i64) -> (r: Result<
    Session,
    AuthError,
>)
    ensures
        r == validation(token@, service.key(), now as int),
{
    if !has_sealed_shape(token) {
        return Err(AuthError::InvalidToken);
    }
    match paseto_open(token, service.key.as_slice()) {
        Err(_) => Err(AuthError::InvalidToken),
        Ok(payload) => session_from_payload(payload.as_str(), now),
    }
}

/// Validates `token` as of the system clock's present instant.
///
/// The answer is that of `verify_token_at` for the instant that was read.
pub fn verify_token(service: &TokenService, token: &str) -> (r: Result<Session, AuthError>)
    ensures
        exists|now: i64| r == #[trigger] validation(token@, service.key(), now as int),
{
    let now = unix_now();
    verify_token_at(service, token, now)
}

/// A token that carries claims validates to the session of their account
/// at every instant before their expiry, and is answered with `TokenExpired`
/// from the expiry on.
pub proof fn lemma_carried_claims_validate(
    token: Seq<char>,
    key: Seq<u8>,
    claims: Claims,
    now: int,
)
    requires
        carries(token, key, claims),
    ensures
        now < claims.expiry ==> validation(token, key, now) == Ok::<Session, AuthError>(
            Session { account_id: AccountId(claims.account_id) },
        ),
        now >= claims.expiry ==> validation(token, key, now) == Err::<Session, AuthError>(
            AuthError::TokenExpired,
        ),
{
    lemma_claims_round_trip(claims);
}

/// Validation makes no session up: where it answers with a session, the
/// token carries claims under the key that name the session's account and
/// expire after `now`.
pub proof fn lemma_session_needs_carried_claims(
    token: Seq<char>,
    key: Seq<u8>,
    now: int,
    session: Session,
)
    requires
        validation(token, key, now) == Ok::<Session, AuthError>(session),
    ensures
        exists|claims: Claims| #[trigger]
            carries(token, key, claims) && now < claims.expiry && session.account_id == AccountId(
                claims.account_id,
            ),
{
    let text = paseto_opened(token, key)->0;
    let claims = claims_of(text)->0;
    assert(claims_text(claims) == text);
    assert(carries(token, key, claims));
}

/// Turns the outcome of sealing into the outcome of issuing: the token where
/// sealing succeeded, `CryptoFailure` where it did not.
pub fn issued(sealed: Result<String, failure::Error>) -> (r: Result<String, AuthError>)
    ensures
        sealed matches Ok(token) ==> r == Ok::<String, AuthError>(token),
        sealed is Err ==> r == Err::<String, AuthError>(AuthError::CryptoFailure),
{
    match sealed {
        Ok(token) => Ok(token),
        Err(_) => Err(AuthError::CryptoFailure),
    }
}

/// Issues a token for `account_id` at instant `now`, given in seconds since
/// the Unix epoch. The token expires 24 hours after `now`.
///
/// Fails with `CryptoFailure` where the expiry does not fit the clock's
/// range or where sealing fails, and in no other way. A token that is
/// returned carries the account and the expiry under the service's key: it
/// validates to the session of the account at every instant before the
/// expiry, and is answered with `TokenExpired` from then on.
pub fn issue_token_at(service: &TokenService, account_id: AccountId, now: i64) -> (r: Result<
    String,
    AuthError,
>)
    ensures
        now + TOKEN_LIFETIME_SECS > i64::MAX ==> r is Err,
        r matches Err(e) ==> e == AuthError::CryptoFailure,
        r matches Ok(token) ==> carries(
            token@,
            service.key(),
            (Claims { account_id: account_id.0, expiry: (now + TOKEN_LIFETIME_SECS) as i64 }),
        ),
        r matches Ok(token) ==> forall|later: int|
            later < now + TOKEN_LIFETIME_SECS ==> #[trigger] validation(
                token@,
                service.key(),
                later,
            ) == Ok::<Session, AuthError>(Session { account_id }),
        r matches Ok(token) ==> forall|later: int|
            later >= now + TOKEN_LIFETIME_SECS ==> #[trigger] validation(
                token@,
                service.key(),
                later,
            ) == Err::<Session, AuthError>(AuthError::TokenExpired),
{
    let expiry = match now.checked_add(TOKEN_LIFETIME_SECS) {
        Some(expiry) => expiry,
        None => {
            return Err(AuthError::CryptoFailure);
        },
    };
    let claims = Claims { account_id: account_id.0, expiry };
    let text = encode_claims(claims);
    let r = issued(paseto_seal(text.as_str(), service.key.as_slice()));
    proof {
        if r is Ok {
            assert forall|later: int|
                #[trigger] validation(r->Ok_0@, service.key(), later) == if later < expiry {
                    Ok::<Session, AuthError>(Session { account_id })
                } else {
                    Err::<Session, AuthError>(AuthError::TokenExpired)
                } by {
                lemma_carried_claims_validate(r->Ok_0@, service.key(), claims, later);
            }
        }
    }
    r
}

/// Issues a token for `account_id` that expires 24 hours after the system
/// clock's present instant.
///
/// Fails with `CryptoFailure` only. A token that is returned carries the
/// account, and an expiry 24 hours after the instant that was read, under
/// the service's key.
pub fn issue_token(service: &TokenService, account_id: AccountId) -> (r: Result<String, AuthError>)
    ensures
        r matches Err(e) ==> e == AuthError::CryptoFailure,
        r matches Ok(token) ==> exists|now: i64|
            now + TOKEN_LIFETIME_SECS <= i64::MAX && #[trigger] carries(
                token@,
                service.key(),
                (Claims { account_id: account_id.0, expiry: (now + TOKEN_LIFETIME_SECS) as i64 }),
            ),
{
    let now = unix_now();
    let r = issue_token_at(service, account_id, now);
    proof {
        if r is Ok {
            assert(carries(
                r->Ok_0@,
                service.key(),
                (Claims { account_id: account_id.0, expiry: (now + TOKEN_LIFETIME_SECS) as i64 }),
            ));
        }
    }
    r
}

} // verus!
