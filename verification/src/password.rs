//! Salted, memory-hard password hashing and verification.
//!
//! Hashing and verification are done by Argon2 with its default cost
//! parameters (Argon2i, version 0x13, 4096 KiB of memory, 3 passes, 1 lane,
//! 32-byte digest). A hash record is the self-describing encoded string that
//! holds the algorithm, its parameters, the salt and the digest, so that
//! verification needs nothing but the record and the candidate.

use crate::error::AuthError;
use rand::Rng;
use vstd::prelude::*;

verus! {

/// Number of random salt bytes drawn for each new hash record.
pub const SALT_LEN: usize = 32;

/// Fewest salt bytes that Argon2 accepts.
pub const MIN_SALT_LEN: usize = 8;

/// Most bytes that Argon2 accepts for a password or a salt.
pub const MAX_INPUT_LEN: usize = 0xFFFF_FFFF;

/// `argon2::Error`, carried through unopened.
#[verifier::external_type_specification]
#[verifier::external_body]
pub struct ExArgon2Error(argon2::Error);

/// The encoded record that `argon2::hash_encoded` returns for a password and
/// a salt under the default configuration.
pub uninterp spec fn argon2_encoding(password: Seq<u8>, salt: Seq<u8>) -> Seq<char>;

/// The answer of `argon2::verify_encoded` for a record and a candidate
/// password: `Some(b)` where it returns `Ok(b)`, `None` where it returns an
/// error.
pub uninterp spec fn argon2_accepts(record: Seq<char>, candidate: Seq<u8>) -> Option<bool>;

/// Whether Argon2 can hash `password` with `salt`.
pub open spec fn hashable(password: Seq<u8>, salt: Seq<u8>) -> bool {
    MIN_SALT_LEN <= salt.len() <= MAX_INPUT_LEN && password.len() <= MAX_INPUT_LEN
}

/// What verifying `candidate` against `record` answers.
pub open spec fn verification(record: Seq<char>, candidate: Seq<u8>) -> Result<bool, AuthError> {
    match argon2_accepts(record, candidate) {
        Some(matches) => Ok(matches),
        None => Err(AuthError::MalformedHashRecord),
    }
}

/// Whether `record` accepts exactly the candidates that hash to it under
/// `salt`.
pub open spec fn accepts_own_hashes(record: Seq<char>, salt: Seq<u8>) -> bool {
    forall|candidate: Seq<u8>|
        candidate.len() <= MAX_INPUT_LEN ==> #[trigger] argon2_accepts(record, candidate) == Some(
            argon2_encoding(candidate, salt) == record,
        )
}

/// Whether `record` can have been made with `salt` only: under another salt
/// no password hashes to it.
pub open spec fn holds_salt(record: Seq<char>, salt: Seq<u8>) -> bool {
    forall|password: Seq<u8>, other: Seq<u8>|
        hashable(password, other) && other != salt ==> #[trigger] argon2_encoding(password, other)
            != record
}

/// Whether `record` is the hash record of `password` under `salt`.
pub open spec fn is_record_of(record: Seq<char>, password: Seq<u8>, salt: Seq<u8>) -> bool {
    &&& hashable(password, salt)
    &&& record == argon2_encoding(password, salt)
    &&& accepts_own_hashes(record, salt)
    &&& holds_salt(record, salt)
}

/// Draws 32 bytes from `rand::thread_rng`, the thread-local generator that is
/// seeded by the operating system. Nothing is claimed of the bytes. The
/// generator panics where the operating system gives it no seed.
#[verifier::external_body]
fn fresh_salt() -> (salt: [u8; 32]) {
    rand::thread_rng().gen::<[u8; 32]>()
}

/// Calls `argon2::hash_encoded` with `argon2::Config::default()`.
///
/// The call succeeds exactly when the salt has at least 8 bytes and neither
/// input has more than 2^32 - 1 bytes: these are the only checks of the
/// default configuration that depend on the inputs. The record that comes
/// back is a function of the two inputs. It holds the salt in base64
/// between two `$`, so that records made with different salts differ.
/// `argon2::verify_encoded` reads parameters, salt and digest back from the
/// record, computes the digest of the candidate with them and compares the
/// two digests: it accepts a candidate exactly when hashing the candidate
/// with the same salt gives the same record.
#[verifier::external_body]
fn argon2_hash(password: &[u8], salt: &[u8]) -> (r: Result<String, argon2::Error>)
    ensures
        r is Ok <==> hashable(password@, salt@),
        r matches Ok(record) ==> record@ == argon2_encoding(password@, salt@),
        r matches Ok(record) ==> accepts_own_hashes(record@, salt@),
        r matches Ok(record) ==> holds_salt(record@, salt@),
{
    argon2::hash_encoded(password, salt, &argon2::Config::default())
}

/// Calls `argon2::verify_encoded`, whose answer is a function of the record
/// and the candidate alone.
///
/// Verification allocates the memory and starts the lanes that the record
/// asks for; where the machine has neither, the call does not come back, as
/// with any allocation.
#[verifier::external_body]
fn argon2_verify(record: &str, candidate: &[u8]) -> (r: Result<bool, argon2::Error>)
    ensures
        r matches Ok(matches) ==> argon2_accepts(record@, candidate@) == Some(matches),
        r is Err ==> argon2_accepts(record@, candidate@) is None,
{
    argon2::verify_encoded(record, candidate)
}

/// A hash record accepts the password it was made from.
pub proof fn lemma_record_accepts_its_password(
    record: Seq<char>,
    password: Seq<u8>,
    salt: Seq<u8>,
)
    requires
        is_record_of(record, password, salt),
    ensures
        verification(record, password) == Ok::<bool, AuthError>(true),
{
}

/// A hash record rejects every other password, unless that password hashes
/// to the very same record under the record's salt.
pub proof fn lemma_record_rejects_other_passwords(
    record: Seq<char>,
    password: Seq<u8>,
    salt: Seq<u8>,
    candidate: Seq<u8>,
)
    requires
        is_record_of(record, password, salt),
        candidate.len() <= MAX_INPUT_LEN,
        argon2_encoding(candidate, salt) != argon2_encoding(password, salt),
    ensures
        verification(record, candidate) == Ok::<bool, AuthError>(false),
{
}

/// Two hash records differ, whatever their passwords, unless they were made
/// with the same salt.
pub proof fn lemma_records_differ_by_salt(
    first: Seq<char>,
    first_password: Seq<u8>,
    first_salt: Seq<u8>,
    second: Seq<char>,
    second_password: Seq<u8>,
    second_salt: Seq<u8>,
)
    requires
        is_record_of(first, first_password, first_salt),
        is_record_of(second, second_password, second_salt),
        first_salt != second_salt,
    ensures
        first != second,
{
}

/// Hashes `password` with the given salt.
///
/// Fails with `CryptoFailure` exactly when Argon2 cannot take the inputs.
/// What is returned is the hash record of the password under the salt.
pub fn hash_with_salt(password: &[u8], salt: &[u8]) -> (r: Result<String, AuthError>)
    ensures
        hashable(password@, salt@) ==> r is Ok,
        !hashable(password@, salt@) ==> r == Err::<String, AuthError>(AuthError::CryptoFailure),
        r matches Ok(record) ==> is_record_of(record@, password@, salt@),
        r matches Ok(record) ==> verification(record@, password@) == Ok::<bool, AuthError>(true),
{
    match argon2_hash(password, salt) {
        Ok(record) => Ok(record),
        Err(_) => Err(AuthError::CryptoFailure),
    }
}

/// Hashes `password` with a fresh random salt of 32 bytes.
///
/// Fails with `CryptoFailure` exactly when the password has more than
/// 2^32 - 1 bytes. What is returned is the hash record of the password under
/// some salt of 32 bytes; it verifies the password.
pub fn hash_password(password: &[u8]) -> (r: Result<String, AuthError>)
    ensures
        password@.len() <= MAX_INPUT_LEN ==> r is Ok,
        password@.len() > MAX_INPUT_LEN ==> r == Err::<String, AuthError>(AuthError::CryptoFailure),
        r matches Ok(record) ==> verification(record@, password@) == Ok::<bool, AuthError>(true),
        r matches Ok(record) ==> exists|salt: Seq<u8>|
            salt.len() == SALT_LEN && #[trigger] is_record_of(record@, password@, salt),
{
    let salt = fresh_salt();
    hash_with_salt(password, salt.as_slice())
}

/// Verifies `candidate` against a hash record.
///
/// Returns `Ok(true)` where the candidate matches, `Ok(false)` where it does
/// not, and `MalformedHashRecord` where Argon2 cannot read the record.
pub fn verify_password(record: &str, candidate: &[u8]) -> (r: Result<bool, AuthError>)
    ensures
        r == verification(record@, candidate@),
{
    match argon2_verify(record, candidate) {
        Ok(matches) => Ok(matches),
        Err(_) => Err(AuthError::MalformedHashRecord),
    }
}

} // verus!
