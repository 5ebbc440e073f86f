use vstd::prelude::*;
use vstd::string::StringSliceAdditionalSpecFns;

use aes_gcm::aead::{Aead, KeyInit};
use aes_gcm::{Aes256Gcm, Key, Nonce};
use rand::rngs::OsRng;
use rand::RngCore;

use crate::constants::{AUTH_TAG_LEN, MASTER_KEY_LEN, NONCE_LEN, SALT_LEN};
use crate::error::VaultError;

verus! {

/// The 32-byte Argon2id key, at the library's default parameters, of a
/// password (as its UTF-8 bytes) and a salt.
pub uninterp spec fn argon2id_key(password: Seq<char>, salt: Seq<u8>) -> Seq<u8>;

/// AES-256-GCM encryption under a key and nonce: the ciphertext followed by the tag.
pub uninterp spec fn aes_gcm_seal(key: Seq<u8>, nonce: Seq<u8>, plaintext: Seq<u8>) -> Seq<u8>;

/// AES-256-GCM decryption under a key and nonce of a ciphertext followed by its
/// tag: the plaintext, or nothing when the tag does not authenticate.
pub uninterp spec fn aes_gcm_open(key: Seq<u8>, nonce: Seq<u8>, sealed: Seq<u8>) -> Option<Seq<u8>>;

pub open spec fn opt_bytes(o: Option<Vec<u8>>) -> Option<Seq<u8>> {
    match o {
        None => None,
        Some(v) => Some(v@),
    }
}

/// The longest password and salt, in bytes, that Argon2 takes.
pub const ARGON2_MAX_INPUT_LEN: u64 = 0xFFFF_FFFF;

/// The shortest salt, in bytes, that Argon2 takes.
pub const ARGON2_MIN_SALT_LEN: usize = 8;

/// The longest plaintext, in bytes, that AES-GCM encrypts.
pub const GCM_MAX_PLAINTEXT_LEN: u64 = 0x10_0000_0000;

/// Relies on `argon2::Argon2::default()` and `Argon2::hash_password_into`: with
/// fixed parameters, the output depends on the password and the salt alone,
/// and a 32-byte output is refused only for a password longer than
/// `u32::MAX` bytes or a salt outside 8 to `u32::MAX` bytes.
#[verifier::external_body]
fn argon2id_hash(password: &str, salt: &[u8]) -> (r: Option<[u8; 32]>)
    ensures
        r matches Some(k) ==> k@ == argon2id_key(password@, salt@),
        password.spec_bytes().len() <= ARGON2_MAX_INPUT_LEN && ARGON2_MIN_SALT_LEN <= salt@.len()
            <= ARGON2_MAX_INPUT_LEN ==> r is Some,
{
    let mut key = [0u8; 32];
    match argon2::Argon2::default().hash_password_into(password.as_bytes(), salt, &mut key) {
        Ok(()) => Some(key),
        Err(_) => None,
    }
}

/// Relies on `aes_gcm::Aes256Gcm` through `Aead::encrypt`: the result is the
/// ciphertext, as long as the plaintext, followed by the 16-byte tag, and
/// `Aead::decrypt` with the same key and nonce gives the plaintext back. Only
/// a plaintext longer than 2^36 bytes is refused.
#[verifier::external_body]
fn aes_gcm_encrypt(key: &[u8], nonce: &[u8], plaintext: &[u8]) -> (r: Option<Vec<u8>>)
    requires
        key@.len() == 32,
        nonce@.len() == 12,
    ensures
        r matches Some(c) ==> c@ == aes_gcm_seal(key@, nonce@, plaintext@) && c@.len()
            == plaintext@.len() + 16 && aes_gcm_open(key@, nonce@, c@) == Some(plaintext@),
        plaintext@.len() <= GCM_MAX_PLAINTEXT_LEN ==> r is Some,
{
    let cipher = Aes256Gcm::new(Key::<Aes256Gcm>::from_slice(key));
    cipher.encrypt(Nonce::from_slice(nonce), plaintext).ok()
}

/// Relies on `aes_gcm::Aes256Gcm` through `Aead::decrypt`: the plaintext when
/// the tag at the end authenticates, and an error otherwise.
#[verifier::external_body]
fn aes_gcm_decrypt(key: &[u8], nonce: &[u8], sealed: &[u8]) -> (r: Option<Vec<u8>>)
    requires
        key@.len() == 32,
        nonce@.len() == 12,
    ensures
        opt_bytes(r) == aes_gcm_open(key@, nonce@, sealed@),
{
    let cipher = Aes256Gcm::new(Key::<Aes256Gcm>::from_slice(key));
    cipher.decrypt(Nonce::from_slice(nonce), sealed).ok()
}

/// Relies on `rand::rngs::OsRng` through `RngCore::try_fill_bytes`: `n` bytes
/// from the operating system's secure random source, or nothing when that
/// source fails. Nothing is known of the bytes' values.
#[verifier::external_body]
pub(crate) fn os_random_bytes(n: usize) -> (r: Option<Vec<u8>>)
    ensures
        r matches Some(b) ==> b@.len() == n,
{
    let mut buf = vec![0u8; n];
    match OsRng.try_fill_bytes(&mut buf) {
        Ok(()) => Some(buf),
        Err(_) => None,
    }
}

/// Whether Argon2 takes the password: at most `u32::MAX` bytes of UTF-8.
pub open spec fn password_fits(password: &str) -> bool {
    password.spec_bytes().len() <= ARGON2_MAX_INPUT_LEN
}

/// Derives the 32-byte master key from a password and a 32-byte salt.
pub fn dervive_key(password: &str, salt: &[u8]) -> (r: Result<[u8; 32], VaultError>)
    ensures
        salt@.len() != SALT_LEN ==> r == Err::<[u8; 32], VaultError>(VaultError::Crypto),
        salt@.len() == SALT_LEN && password_fits(password) ==> (r matches Ok(k) && k@ == argon2id_key(
            password@,
            salt@,
        )),
        r matches Ok(k) ==> k@ == argon2id_key(password@, salt@) && k@.len() == MASTER_KEY_LEN,
        r matches Err(e) ==> e == VaultError::Crypto,
{
    if salt.len() != SALT_LEN {
        return Err(VaultError::Crypto);
    }
    match argon2id_hash(password, salt) {
        Some(k) => Ok(k),
        None => Err(VaultError::Crypto),
    }
}

/// What `encrypt_data` promises of a nonce, ciphertext and tag that it returns.
pub open spec fn encrypted_as(
    key: Seq<u8>,
    plaintext: Seq<u8>,
    nonce: Seq<u8>,
    ciphertext: Seq<u8>,
    tag: Seq<u8>,
) -> bool {
    &&& nonce.len() == NONCE_LEN
    &&& tag.len() == AUTH_TAG_LEN
    &&& ciphertext.len() == plaintext.len()
    &&& ciphertext + tag == aes_gcm_seal(key, nonce, plaintext)
    &&& aes_gcm_open(key, nonce, ciphertext + tag) == Some(plaintext)
}

/// What `encrypt_with_nonce` returns: the ciphertext and the tag apart, for
/// a plaintext that AES-GCM takes.
pub open spec fn sealed_parts(key: Seq<u8>, nonce: Seq<u8>, plaintext: Seq<u8>, c: Seq<u8>, t: Seq<u8>) -> bool {
    &&& c + t == aes_gcm_seal(key, nonce, plaintext)
    &&& c.len() == plaintext.len()
    &&& t.len() == AUTH_TAG_LEN
    &&& aes_gcm_open(key, nonce, c + t) == Some(plaintext)
}

/// Encrypts under the given 12-byte nonce; returns the ciphertext and the
/// tag apart. Fails only for a plaintext longer than 2^36 bytes.
pub fn encrypt_with_nonce(key: &[u8; 32], nonce: &[u8], plaintext: &[u8]) -> (r: Result<
    (Vec<u8>, Vec<u8>),
    VaultError,
>)
    requires
        nonce@.len() == NONCE_LEN,
    ensures
        plaintext@.len() <= GCM_MAX_PLAINTEXT_LEN ==> r is Ok,
        r matches Ok((c, t)) ==> sealed_parts(key@, nonce@, plaintext@, c@, t@),
        r matches Err(e) ==> e == VaultError::Crypto,
{
    match aes_gcm_encrypt(key.as_slice(), nonce, plaintext) {
        None => Err(VaultError::Crypto),
        Some(mut ciphertext) => {
            let ghost sealed = ciphertext@;
            let tag = ciphertext.split_off(plaintext.len());
            assert(ciphertext@ + tag@ =~= sealed);
            Ok((ciphertext, tag))
        },
    }
}

/// Encrypts under a fresh random nonce; returns the nonce, the ciphertext and
/// the tag apart. Fails only when the random source fails or for a
/// plaintext longer than 2^36 bytes.
pub fn encrypt_data(key: &[u8; 32], plaintext: &[u8]) -> (r: Result<(Vec<u8>, Vec<u8>, Vec<u8>), VaultError>)
    ensures
        r matches Ok((n, c, t)) ==> n@.len() == NONCE_LEN && sealed_parts(key@, n@, plaintext@, c@, t@),
        r matches Ok((n, c, t)) ==> encrypted_as(key@, plaintext@, n@, c@, t@),
        r matches Err(e) ==> e == VaultError::Crypto,
{
    let nonce = match os_random_bytes(NONCE_LEN) {
        Some(n) => n,
        None => return Err(VaultError::Crypto),
    };
    match encrypt_with_nonce(key, nonce.as_slice(), plaintext) {
        Ok((c, t)) => Ok((nonce, c, t)),
        Err(e) => Err(e),
    }
}

/// What `decrypt_data` returns: a malformed nonce or tag is a `Crypto` error,
/// a tag that does not authenticate an `Auth` error.
pub open spec fn decrypt_spec(key: Seq<u8>, nonce: Seq<u8>, ciphertext: Seq<u8>, tag: Seq<u8>) -> Result<
    Seq<u8>,
    VaultError,
> {
    if key.len() != MASTER_KEY_LEN || nonce.len() != NONCE_LEN || tag.len() != AUTH_TAG_LEN {
        Err(VaultError::Crypto)
    } else {
        match aes_gcm_open(key, nonce, ciphertext + tag) {
            Some(p) => Ok(p),
            None => Err(VaultError::Auth),
        }
    }
}

pub open spec fn result_bytes(r: Result<Vec<u8>, VaultError>) -> Result<Seq<u8>, VaultError> {
    match r {
        Ok(v) => Ok(v@),
        Err(e) => Err(e),
    }
}

/// Decrypts and authenticates a ciphertext and its separate tag.
pub fn decrypt_data(key: &[u8; 32], nonce: &[u8], ciphertext: &[u8], auth_tag: &[u8]) -> (r: Result<
    Vec<u8>,
    VaultError,
>)
    ensures
        result_bytes(r) == decrypt_spec(key@, nonce@, ciphertext@, auth_tag@),
{
    if nonce.len() != NONCE_LEN || auth_tag.len() != AUTH_TAG_LEN {
        return Err(VaultError::Crypto);
    }
    let mut sealed: Vec<u8> = Vec::new();
    sealed.extend_from_slice(ciphertext);
    sealed.extend_from_slice(auth_tag);
    assert(sealed@ =~= ciphertext@ + auth_tag@);
    match aes_gcm_decrypt(key.as_slice(), nonce, sealed.as_slice()) {
        Some(p) => Ok(p),
        None => Err(VaultError::Auth),
    }
}

/// Decrypting, under the key that a password and salt derive, what was
/// encrypted under that key gives the plaintext back.
pub proof fn lemma_decrypt_inverts_encrypt(
    password: Seq<char>,
    salt: Seq<u8>,
    plaintext: Seq<u8>,
    nonce: Seq<u8>,
    ciphertext: Seq<u8>,
    tag: Seq<u8>,
)
    requires
        argon2id_key(password, salt).len() == MASTER_KEY_LEN,
        encrypted_as(argon2id_key(password, salt), plaintext, nonce, ciphertext, tag),
    ensures
        decrypt_spec(argon2id_key(password, salt), nonce, ciphertext, tag) == Ok::<
            Seq<u8>,
            VaultError,
        >(plaintext),
{
}

} // verus!
