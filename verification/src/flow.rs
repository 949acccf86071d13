//! The decisions of registration and login.
//!
//! Accounts are kept by an account store outside this library. The caller
//! talks to the store and hands its answers in: registration prepares the
//! record to persist and later turns the store's reply into the outcome;
//! login takes the result of the lookup by email.

use crate::account::{Account, AccountId};
use crate::claims::Claims;
use crate::error::AuthError;
use crate::password::{hash_password, is_record_of, verification, verify_password};
use crate::password::{MAX_INPUT_LEN, SALT_LEN};
use crate::token::{carries, issue_token, issue_token_at, TokenService, TOKEN_LIFETIME_SECS};
use vstd::prelude::*;

verus! {

/// What the account store answered to the request to persist a new account.
#[derive(Clone, Copy, Debug, PartialEq, Eq, Structural)]
pub enum StoreReply {
    /// The account was persisted.
    Added,
    /// An account with the same email exists already.
    Duplicate,
    /// The store failed in some other way.
    Failed,
}

/// What the account store answered to a lookup by email.
#[derive(Clone, Debug)]
pub enum Lookup {
    /// The account with that email.
    Found(Account),
    /// There is no account with that email.
    Missing,
    /// The store failed.
    Failed,
}

/// Whom a lookup and a password identify.
///
/// An unknown email and a password that does not match give the same error,
/// `WrongCredentials`, so that the answer does not tell whether an email is
/// registered. A hash record that cannot be read is a `CryptoFailure`; a
/// failed lookup and a stored account without an identity are a
/// `StoreError`.
pub open spec fn credential_check(lookup: Lookup, password: Seq<u8>) -> Result<
    AccountId,
    AuthError,
> {
    match lookup {
        Lookup::Missing => Err(AuthError::WrongCredentials),
        Lookup::Failed => Err(AuthError::StoreError),
        Lookup::Found(account) => match verification(account.password_hash@, password) {
            Err(_) => Err(AuthError::CryptoFailure),
            Ok(false) => Err(AuthError::WrongCredentials),
            Ok(true) => match account.id {
                Some(id) => Ok(id),
                None => Err(AuthError::StoreError),
            },
        },
    }
}

/// What a store's reply makes of a registration.
pub open spec fn registration_outcome(reply: StoreReply) -> Result<(), AuthError> {
    match reply {
        StoreReply::Added => Ok(()),
        StoreReply::Duplicate => Err(AuthError::DuplicateAccount),
        StoreReply::Failed => Err(AuthError::StoreError),
    }
}

/// Login answers an unknown email and a password that does not match alike.
pub proof fn lemma_login_does_not_tell_emails_apart(
    account: Account,
    tried: Seq<u8>,
    other: Seq<u8>,
)
    requires
        verification(account.password_hash@, tried) == Ok::<bool, AuthError>(false),
    ensures
        credential_check(Lookup::Found(account), tried) == credential_check(Lookup::Missing, other),
        credential_check(Lookup::Missing, other) == Err::<AccountId, AuthError>(
            AuthError::WrongCredentials,
        ),
{
}

/// Prepares the account that registration asks the store to persist: no
/// identity yet, the email as given, and in place of the password a fresh
/// hash record that verifies it.
///
/// Fails with `CryptoFailure` exactly when the password has more than
/// 2^32 - 1 bytes.
pub fn register(email: String, password: &[u8]) -> (r: Result<Account, AuthError>)
    ensures
        password@.len() <= MAX_INPUT_LEN ==> r is Ok,
        password@.len() > MAX_INPUT_LEN ==> r == Err::<Account, AuthError>(AuthError::CryptoFailure),
        r matches Ok(account) ==> account.id is None && account.email@ == email@,
        r matches Ok(account) ==> verification(account.password_hash@, password@) == Ok::<
            bool,
            AuthError,
        >(true),
        r matches Ok(account) ==> exists|salt: Seq<u8>|
            salt.len() == SALT_LEN && #[trigger] is_record_of(
                account.password_hash@,
                password@,
                salt,
            ),
{
    match hash_password(password) {
        Ok(password_hash) => Ok(Account { id: None, email, password_hash }),
        Err(e) => Err(e),
    }
}

/// Turns the store's reply into the outcome of registration: success where
/// the account was added, `DuplicateAccount` where the email was taken, and
/// `StoreError` otherwise.
pub fn registered(reply: StoreReply) -> (r: Result<(), AuthError>)
    ensures
        r == registration_outcome(reply),
{
    match reply {
        StoreReply::Added => Ok(()),
        StoreReply::Duplicate => Err(AuthError::DuplicateAccount),
        StoreReply::Failed => Err(AuthError::StoreError),
    }
}

/// Checks a password against the result of the lookup by email.
pub fn check_credentials(lookup: &Lookup, password: &[u8]) -> (r: Result<AccountId, AuthError>)
    ensures
        r == credential_check(*lookup, password@),
{
    match lookup {
        Lookup::Missing => Err(AuthError::WrongCredentials),
        Lookup::Failed => Err(AuthError::StoreError),
        Lookup::Found(account) => match verify_password(account.password_hash.as_str(), password) {
            Err(_) => Err(AuthError::CryptoFailure),
            Ok(false) => Err(AuthError::WrongCredentials),
            Ok(true) => match account.id {
                Some(id) => Ok(id),
                None => Err(AuthError::StoreError),
            },
        },
    }
}

/// Logs in as of instant `now`, given in seconds since the Unix epoch.
///
/// Where the credentials do not check, the error is that of
/// `credential_check`. Where they do, a token is issued for the account;
/// it expires 24 hours after `now`, and issuing can fail with
/// `CryptoFailure` only.
pub fn login_at(service: &TokenService, lookup: &Lookup, password: &[u8], now: i64) -> (r: Result<
    String,
    AuthError,
>)
    ensures
        credential_check(*lookup, password@) matches Err(e) ==> r == Err::<String, AuthError>(e),
        credential_check(*lookup, password@) is Ok ==> (r matches Err(e) ==> e
            == AuthError::CryptoFailure),
        r matches Ok(token) ==> (credential_check(*lookup, password@) matches Ok(id) && carries(
            token@,
            service.key(),
            (Claims { account_id: id.0, expiry: (now + TOKEN_LIFETIME_SECS) as i64 }),
        )),
{
    match check_credentials(lookup, password) {
        Err(e) => Err(e),
        Ok(id) => issue_token_at(service, id, now),
    }
}

/// Logs in as of the system clock's present instant.
///
/// Where the credentials do not check, the error is that of
/// `credential_check`. Where they do, a token is issued for the account;
/// it expires 24 hours after the instant that was read, and issuing can fail
/// with `CryptoFailure` only.
pub fn login(service: &TokenService, lookup: &Lookup, password: &[u8]) -> (r: Result<
    String,
    AuthError,
>)
    ensures
        credential_check(*lookup, password@) matches Err(e) ==> r == Err::<String, AuthError>(e),
        credential_check(*lookup, password@) is Ok ==> (r matches Err(e) ==> e
            == AuthError::CryptoFailure),
        r matches Ok(token) ==> (credential_check(*lookup, password@) matches Ok(id) && exists|
            now: i64,
        |
            now + TOKEN_LIFETIME_SECS <= i64::MAX && #[trigger] carries(
                token@,
                service.key(),
                (Claims { account_id: id.0, expiry: (now + TOKEN_LIFETIME_SECS) as i64 }),
            )),
{
    match check_credentials(lookup, password) {
        Err(e) => Err(e),
        Ok(id) => issue_token(service, id),
    }
}

} // verus!
