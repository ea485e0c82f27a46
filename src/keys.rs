//! Per-file randomness and key derivation.

use vstd::prelude::*;
use vstd::string::StringSliceAdditionalSpecFns;

verus! {

/// Why a key could not be made, or a password was refused.
#[derive(Debug)]
pub enum EncryptionError {
    /// The password could not be taken as KDF input (it is empty).
    PasswordCreation,
    /// The nonce could not be taken as KDF salt (it is shorter than 8 bytes).
    SaltCreation,
    /// The KDF itself refused its input.
    KeyDerivation,
    /// The derived bytes could not be taken as a cipher key.
    SecretKeyCreation,
    /// The password breaks the complexity rule; the text says which part.
    PasswordValidation(String),
}

/// The error type of orion's fallible functions; it carries no detail.
#[verifier::external_type_specification]
#[verifier::external_body]
pub struct ExUnknownCryptoError(orion::errors::UnknownCryptoError);

/// Length in bytes of the per-file nonce.
pub const NONCE_LEN: usize = 24;

/// Length in bytes of the per-chunk associated data.
pub const AD_LEN: usize = 32;

/// Length in bytes of a derived key.
pub const KEY_LEN: usize = 32;

/// Argon2i passes over memory.
pub const KDF_ITERATIONS: u32 = 15;

/// Argon2i memory, in kibibytes.
pub const KDF_MEMORY_KIB: u32 = 1024;

/// Relies on `rand_core::OsRng`'s `RngCore::fill_bytes`: it overwrites the
/// buffer with bytes from the operating system's secure generator and keeps
/// its length. (It panics only when the operating system cannot provide
/// randomness at all.)
#[verifier::external_body]
fn get_random(dest: &mut Vec<u8>)
    ensures
        final(dest)@.len() == old(dest)@.len(),
{
    rand_core::RngCore::fill_bytes(&mut rand_core::OsRng, dest.as_mut_slice());
}

/// A fresh buffer of `len` secure random bytes.
fn random_bytes(len: usize) -> (r: Vec<u8>)
    ensures
        r@.len() == len,
{
    let mut bytes: Vec<u8> = vec![0u8; len];
    get_random(&mut bytes);
    bytes
}

/// A fresh 24-byte file nonce, used as KDF salt and AEAD nonce.
pub fn generate_nonce() -> (r: Vec<u8>)
    ensures
        r@.len() == NONCE_LEN,
{
    random_bytes(NONCE_LEN)
}

/// Fresh 32 bytes of associated data for one chunk.
pub fn generate_auth_tag() -> (r: Vec<u8>)
    ensures
        r@.len() == AD_LEN,
{
    random_bytes(AD_LEN)
}

/// What Argon2i, as `orion::kdf::derive_key` runs it, makes of a password and
/// a salt at the given cost and output length.
pub uninterp spec fn argon2i_key(
    password: Seq<u8>,
    salt: Seq<u8>,
    iterations: u32,
    memory_kib: u32,
    length: u32,
) -> Seq<u8>;

/// Relies on `orion::kdf::derive_key`, given a `Password` and a `Salt` made
/// from the slices by `from_slice`. `Password::from_slice` and
/// `Salt::from_slice` refuse an empty slice; `derive_key` refuses a salt
/// shorter than 8 bytes, a password or salt longer than `u32::MAX` bytes,
/// fewer than 3 iterations, less than 8 KiB of memory and an output shorter
/// than 4 bytes. The key has the length asked for.
#[verifier::external_body]
fn kdf_derive_key(
    password: &[u8],
    salt: &[u8],
    iterations: u32,
    memory_kib: u32,
    length: u32,
) -> (r: Result<Vec<u8>, orion::errors::UnknownCryptoError>)
    requires
        3 <= iterations <= 64,
        8 <= memory_kib <= 1024,
        4 <= length <= 64,
    ensures
        r is Ok <==> (1 <= password@.len() <= u32::MAX && 8 <= salt@.len() <= u32::MAX),
        r matches Ok(k) ==> k@ == argon2i_key(password@, salt@, iterations, memory_kib, length),
        r matches Ok(k) ==> k@.len() == length,
{
    let password = orion::kdf::Password::from_slice(password)?;
    let salt = orion::kdf::Salt::from_slice(salt)?;
    let key = orion::kdf::derive_key(&password, &salt, iterations, memory_kib, length)?;
    Ok(key.unprotected_as_bytes().to_vec())
}

/// The key for a password (as UTF-8 bytes) and a file nonce.
pub open spec fn derived_key(password: Seq<u8>, nonce: Seq<u8>) -> Seq<u8> {
    argon2i_key(password, nonce, KDF_ITERATIONS, KDF_MEMORY_KIB, KEY_LEN as u32)
}

/// What key derivation gives for a password (as UTF-8 bytes) and a nonce:
/// the key, or the step that refused the input.
pub open spec fn key_outcome(password: Seq<u8>, nonce: Seq<u8>) -> Result<Seq<u8>, EncryptionError> {
    if password.len() == 0 {
        Err(EncryptionError::PasswordCreation)
    } else if nonce.len() == 0 {
        Err(EncryptionError::SaltCreation)
    } else if nonce.len() < 8 || nonce.len() > u32::MAX || password.len() > u32::MAX {
        Err(EncryptionError::KeyDerivation)
    } else {
        Ok(derived_key(password, nonce))
    }
}

/// The view of a key-derivation result: the key's bytes, or the error.
pub open spec fn key_result_view(r: Result<Vec<u8>, EncryptionError>) -> Result<Seq<u8>, EncryptionError> {
    match r {
        Ok(k) => Ok(k@),
        Err(e) => Err(e),
    }
}

/// Derives the 32-byte key of a file from the password and the file nonce,
/// which serves as salt.
pub fn create_key(password: &str, nonce: Vec<u8>) -> (r: Result<Vec<u8>, EncryptionError>)
    ensures
        key_result_view(r) == key_outcome(password.spec_bytes(), nonce@),
        r matches Ok(k) ==> k@.len() == KEY_LEN,
{
    let password_bytes = password.as_bytes();
    if password_bytes.len() == 0 {
        return Err(EncryptionError::PasswordCreation);
    }
    if nonce.len() == 0 {
        return Err(EncryptionError::SaltCreation);
    }
    match kdf_derive_key(password_bytes, nonce.as_slice(), KDF_ITERATIONS, KDF_MEMORY_KIB, KEY_LEN as u32) {
        Ok(key) => Ok(key),
        Err(_) => Err(EncryptionError::KeyDerivation),
    }
}

} // verus!

verus! {

/// Key derivation is deterministic: two derivations from the same password
/// and nonce give bit-identical keys (or fail alike).
pub proof fn lemma_key_derivation_deterministic(
    password: Seq<u8>,
    nonce: Seq<u8>,
    first: Result<Vec<u8>, EncryptionError>,
    second: Result<Vec<u8>, EncryptionError>,
)
    requires
        key_result_view(first) == key_outcome(password, nonce),
        key_result_view(second) == key_outcome(password, nonce),
    ensures
        key_result_view(first) == key_result_view(second),
        first matches Ok(k1) ==> (second matches Ok(k2) && k1@ == k2@),
{
}

} // verus!
