//! Accounts and the sessions that validated tokens give rise to.

use vstd::prelude::*;

verus! {

/// The identity that the account store assigns to a persisted account.
#[derive(Clone, Copy, Debug, PartialEq, Eq, Hash, Structural)]
pub struct AccountId(pub i32);

/// An account record. `id` is absent until the account store has persisted
/// the record; `password_hash` is an encoded hash record, never a plaintext.
#[derive(Clone, Debug)]
pub struct Account {
    pub id: Option<AccountId>,
    pub email: String,
    pub password_hash: String,
}

/// The identity behind a validated request. It is rebuilt from the token on
/// every request and lives no longer than that request.
#[derive(Clone, Copy, Debug, PartialEq, Eq, Structural)]
pub struct Session {
    pub account_id: AccountId,
}

} // verus!
