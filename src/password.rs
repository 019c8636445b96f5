//! Password hashing: Argon2 with a fresh random salt, encoded with its parameters.

use vstd::prelude::*;

use crate::models::AuthError;

verus! {

/// Bytes of salt drawn for each new hash.
pub const SALT_LEN: usize = 32;

/// The encoded hash that argon2 computes for `password` and `salt` under its
/// default parameters.
pub uninterp spec fn argon2_encoding(password: Seq<u8>, salt: Seq<u8>) -> Seq<char>;

/// Whether `password` matches the encoded hash `encoded` by argon2's check;
/// none where `encoded` is not a well-formed argon2 hash.
pub uninterp spec fn argon2_verdict(encoded: Seq<char>, password: Seq<u8>) -> Option<bool>;

/// `h` is the hash of `password` under a fresh salt of `SALT_LEN` bytes.
pub open spec fn is_fresh_hash(h: Seq<char>, password: Seq<u8>) -> bool {
    &&& password.len() <= u32::MAX
    &&& exists|salt: Seq<u8>| salt.len() == SALT_LEN && h == #[trigger] argon2_encoding(password, salt)
}

/// Relies on `rand::thread_rng` and `Rng::gen`: 32 bytes from the thread's
/// cryptographically secure generator.
#[verifier::external_body]
fn random_salt() -> (r: Vec<u8>)
    ensures
        r@.len() == SALT_LEN,
{
    let salt: [u8; 32] = rand::Rng::gen(&mut rand::thread_rng());
    salt.to_vec()
}

/// Relies on `argon2::hash_encoded` with `Config::default()` (Argon2i, 4096 KiB,
/// 3 passes, 1 lane): it fails only on a salt shorter than 8 bytes or an input
/// longer than `u32::MAX` bytes.
#[verifier::external_body]
fn argon2_hash(password: &[u8], salt: &[u8]) -> (r: Option<String>)
    ensures
        r is Some <==> (8 <= salt@.len() <= u32::MAX && password@.len() <= u32::MAX),
        r matches Some(h) ==> h@ == argon2_encoding(password@, salt@),
{
    argon2::hash_encoded(password, salt, &argon2::Config::default()).ok()
}

/// Relies on `argon2::verify_encoded`: re-derives with the parameters and salt
/// that `encoded` names and compares in constant time; an error for a
/// malformed hash. `hash_encoded` writes the variant, version, costs, salt and
/// digest that `verify_encoded` reads back, so a hash of `password` verifies
/// for `password`.
#[verifier::external_body]
fn argon2_verify(encoded: &str, password: &[u8]) -> (r: Option<bool>)
    ensures
        r == argon2_verdict(encoded@, password@),
        is_fresh_hash(encoded@, password@) ==> r == Some(true),
{
    argon2::verify_encoded(encoded, password).ok()
}

/// Hashes `password` with the given salt.
pub fn hash_password_with_salt(password: &[u8], salt: &[u8]) -> (r: Result<String, AuthError>)
    ensures
        match r {
            Ok(h) => 8 <= salt@.len() <= u32::MAX && password@.len() <= u32::MAX && h@
                == argon2_encoding(password@, salt@),
            Err(e) => e == AuthError::EncryptError && !(8 <= salt@.len() <= u32::MAX
                && password@.len() <= u32::MAX),
        },
{
    match argon2_hash(password, salt) {
        Some(h) => Ok(h),
        None => Err(AuthError::EncryptError),
    }
}

/// Hashes `password` with a fresh random salt.
pub fn hash_password(password: &[u8]) -> (r: Result<String, AuthError>)
    ensures
        match r {
            Ok(h) => is_fresh_hash(h@, password@),
            Err(e) => e == AuthError::EncryptError && password@.len() > u32::MAX,
        },
{
    let salt = random_salt();
    hash_password_with_salt(password, salt.as_slice())
}

/// Checks `candidate` against the stored hash; a malformed hash is reported as
/// bad credentials. A fresh hash of a password verifies for that password.
pub fn verify_password(hash: &str, candidate: &[u8]) -> (r: Result<bool, AuthError>)
    ensures
        is_fresh_hash(hash@, candidate@) ==> r == Ok::<bool, AuthError>(true),
        match argon2_verdict(hash@, candidate@) {
            Some(b) => r == Ok::<bool, AuthError>(b),
            None => r == Err::<bool, AuthError>(AuthError::InvalidCredentials),
        },
{
    match argon2_verify(hash, candidate) {
        Some(b) => Ok(b),
        None => Err(AuthError::InvalidCredentials),
    }
}

} // verus!
