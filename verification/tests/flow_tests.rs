use auth_core::account::{Account, AccountId, Session};
use auth_core::error::AuthError;
use auth_core::flow::{check_credentials, login, login_at, register, registered, Lookup, StoreReply};
use auth_core::password::verify_password;
use auth_core::token::{verify_token, verify_token_at, TokenService, TOKEN_LIFETIME_SECS};

const KEY: &[u8] = b"RANDOM WORDS WINTER MACINTOSH PC";

/// An account store that lives in memory: it numbers accounts from 1 and
/// refuses an email that it holds already.
struct MemoryStore {
    accounts: Vec<Account>,
}

impl MemoryStore {
    fn new() -> MemoryStore {
        MemoryStore { accounts: Vec::new() }
    }

    fn add_account(&mut self, account: Account) -> StoreReply {
        if self.accounts.iter().any(|held| held.email == account.email) {
            return StoreReply::Duplicate;
        }
        let id = AccountId(self.accounts.len() as i32 + 1);
        self.accounts.push(Account { id: Some(id), ..account });
        StoreReply::Added
    }

    fn get_account(&self, email: &str) -> Lookup {
        match self.accounts.iter().find(|held| held.email == email) {
            Some(account) => Lookup::Found(account.clone()),
            None => Lookup::Missing,
        }
    }
}

fn register_with(store: &mut MemoryStore, email: &str, password: &str) -> Result<(), AuthError> {
    let account = register(String::from(email), password.as_bytes())?;
    registered(store.add_account(account))
}

fn login_with(
    store: &MemoryStore,
    service: &TokenService,
    email: &str,
    password: &str,
) -> Result<String, AuthError> {
    login(service, &store.get_account(email), password.as_bytes())
}

#[test]
fn register_twice_with_one_email_is_a_duplicate() {
    let mut store = MemoryStore::new();
    assert_eq!(register_with(&mut store, "a@x.com", "hunter2"), Ok(()));
    assert_eq!(register_with(&mut store, "a@x.com", "hunter2"), Err(AuthError::DuplicateAccount));
    assert_eq!(register_with(&mut store, "a@x.com", "other"), Err(AuthError::DuplicateAccount));
    assert_eq!(store.accounts.len(), 1);
    assert_eq!(register_with(&mut store, "b@x.com", "hunter2"), Ok(()));
}

#[test]
fn login_with_wrong_password_and_unknown_email_look_alike() {
    let mut store = MemoryStore::new();
    let service = TokenService::new(KEY).unwrap();
    register_with(&mut store, "a@x.com", "hunter2").unwrap();
    let wrong_password = login_with(&store, &service, "a@x.com", "wrong");
    let unknown_email = login_with(&store, &service, "b@x.com", "anything");
    assert_eq!(wrong_password, Err(AuthError::WrongCredentials));
    assert_eq!(unknown_email, Err(AuthError::WrongCredentials));
    assert_eq!(wrong_password, unknown_email);
}

#[test]
fn login_with_the_password_gives_a_token_for_the_account() {
    let mut store = MemoryStore::new();
    let service = TokenService::new(KEY).unwrap();
    register_with(&mut store, "first@x.com", "one").unwrap();
    register_with(&mut store, "a@x.com", "hunter2").unwrap();
    let token = login_with(&store, &service, "a@x.com", "hunter2").unwrap();
    assert_eq!(verify_token(&service, &token), Ok(Session { account_id: AccountId(2) }));
}

#[test]
fn register_prepares_an_account_without_identity() {
    let account = register(String::from("a@x.com"), b"hunter2").unwrap();
    assert_eq!(account.id, None);
    assert_eq!(account.email, "a@x.com");
    assert_ne!(account.password_hash, "hunter2");
    assert!(account.password_hash.starts_with("$argon2i$"));
    assert_eq!(verify_password(&account.password_hash, b"hunter2"), Ok(true));
    assert_eq!(verify_password(&account.password_hash, b"hunter3"), Ok(false));
}

#[test]
fn registered_maps_the_reply_of_the_store() {
    assert_eq!(registered(StoreReply::Added), Ok(()));
    assert_eq!(registered(StoreReply::Duplicate), Err(AuthError::DuplicateAccount));
    assert_eq!(registered(StoreReply::Failed), Err(AuthError::StoreError));
}

#[test]
fn check_credentials_decides_in_order() {
    let mut account = register(String::from("a@x.com"), b"hunter2").unwrap();
    assert_eq!(check_credentials(&Lookup::Missing, b"hunter2"), Err(AuthError::WrongCredentials));
    assert_eq!(check_credentials(&Lookup::Failed, b"hunter2"), Err(AuthError::StoreError));
    assert_eq!(
        check_credentials(&Lookup::Found(account.clone()), b"wrong"),
        Err(AuthError::WrongCredentials)
    );
    assert_eq!(
        check_credentials(&Lookup::Found(account.clone()), b"hunter2"),
        Err(AuthError::StoreError)
    );
    account.id = Some(AccountId(12));
    assert_eq!(check_credentials(&Lookup::Found(account.clone()), b"hunter2"), Ok(AccountId(12)));
    assert_eq!(
        check_credentials(&Lookup::Found(account.clone()), b"wrong"),
        Err(AuthError::WrongCredentials)
    );
    account.password_hash = String::from("plaintext");
    assert_eq!(
        check_credentials(&Lookup::Found(account), b"plaintext"),
        Err(AuthError::CryptoFailure)
    );
}

#[test]
fn login_at_issues_a_token_that_lasts_a_day() {
    let service = TokenService::new(KEY).unwrap();
    let mut account = register(String::from("a@x.com"), b"hunter2").unwrap();
    account.id = Some(AccountId(7));
    let lookup = Lookup::Found(account);
    let token = login_at(&service, &lookup, b"hunter2", 5_000).unwrap();
    assert_eq!(verify_token_at(&service, &token, 5_000), Ok(Session { account_id: AccountId(7) }));
    assert_eq!(
        verify_token_at(&service, &token, 5_000 + TOKEN_LIFETIME_SECS - 1),
        Ok(Session { account_id: AccountId(7) })
    );
    assert_eq!(
        verify_token_at(&service, &token, 5_000 + TOKEN_LIFETIME_SECS),
        Err(AuthError::TokenExpired)
    );
}

#[test]
fn login_at_reports_each_failure() {
    let service = TokenService::new(KEY).unwrap();
    let mut account = register(String::from("a@x.com"), b"hunter2").unwrap();
    account.id = Some(AccountId(7));
    let lookup = Lookup::Found(account);
    assert_eq!(login_at(&service, &lookup, b"wrong", 5_000), Err(AuthError::WrongCredentials));
    assert_eq!(login_at(&service, &Lookup::Missing, b"hunter2", 5_000), Err(AuthError::WrongCredentials));
    assert_eq!(login_at(&service, &Lookup::Failed, b"hunter2", 5_000), Err(AuthError::StoreError));
    assert_eq!(login_at(&service, &lookup, b"hunter2", i64::MAX), Err(AuthError::CryptoFailure));
    assert_eq!(login(&service, &Lookup::Failed, b"hunter2"), Err(AuthError::StoreError));
}
