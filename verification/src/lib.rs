//! Stateless authentication for an HTTP service: password hashing, session
//! tokens, the guard in front of protected routes, and the decisions of
//! registration and login.
//!
//! The library keeps no state of its own. Accounts live in an account store
//! that the caller talks to; the symmetric key lives in a [`TokenService`]
//! that the caller makes once and hands to every call.

pub mod account;
pub mod claims;
pub mod error;
pub mod flow;
pub mod gate;
pub mod password;
pub mod token;

pub use crate::account::{Account, AccountId, Session};
pub use crate::error::AuthError;
pub use crate::flow::{login, login_at, register, registered, Lookup, StoreReply};
pub use crate::gate::{auth, auth_at};
pub use crate::password::{hash_password, verify_password};
pub use crate::token::{issue_token, issue_token_at, verify_token, verify_token_at, TokenService};
