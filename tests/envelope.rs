use vault_cli::crypto::{decrypt_data, dervive_key, encrypt_data, encrypt_with_nonce};
use vault_cli::error::VaultError;
use vault_cli::manager::{init_message, vault_update_message, VaultManager, VaultState};
use vault_cli::protocol::split_blob;
use vault_cli::secret::{erase_key, erase_password};
use vault_cli::vault::{AddOutcome, DeleteOutcome, PasswordEntry};

const EMPTY_VAULT: &str = "{\"version\":1,\"entries\":{}}";

/// Splits what `init` sends into the salt and the vault blob.
fn split_init(m: &[u8]) -> (Vec<u8>, Vec<u8>) {
    let head = b"UPDATE_SALT:32\n";
    assert_eq!(&m[..head.len()], head);
    let salt = m[head.len()..head.len() + 32].to_vec();
    let rest = &m[head.len() + 32..];
    (salt, split_update_vault(rest))
}

/// The blob that an `UPDATE_VAULT` message carries.
fn split_update_vault(m: &[u8]) -> Vec<u8> {
    let head = b"UPDATE_VAULT:";
    assert_eq!(&m[..head.len()], head);
    let nl = m.iter().position(|b| *b == b'\n').unwrap();
    let len: usize = std::str::from_utf8(&m[head.len()..nl]).unwrap().parse().unwrap();
    let blob = m[nl + 1..].to_vec();
    assert_eq!(blob.len(), len);
    blob
}

fn unlocked(password: &str, salt: &[u8], blob: &[u8]) -> Result<(VaultManager, Vec<u8>), VaultError> {
    let mut m = VaultManager::new();
    m.check_vault_file("VAULT_EXISTS")?;
    let text = m.unlock(password, salt, blob)?;
    Ok((m, text))
}

#[test]
fn derive_then_encrypt_then_decrypt_round_trip() {
    let salt = [3u8; 32];
    let key = dervive_key("hunter2", &salt).unwrap();
    assert_eq!(dervive_key("hunter2", &salt).unwrap(), key);
    let (n, c, t) = encrypt_data(&key, b"plaintext message").unwrap();
    assert_eq!((n.len(), c.len(), t.len()), (12, 17, 16));
    assert_ne!(c, b"plaintext message".to_vec());
    assert_eq!(decrypt_data(&key, &n, &c, &t), Ok(b"plaintext message".to_vec()));
    let other = dervive_key("wrong", &salt).unwrap();
    assert_ne!(other, key);
    assert_eq!(decrypt_data(&other, &n, &c, &t), Err(VaultError::Auth));
}

#[test]
fn derive_key_rejects_short_salt() {
    assert_eq!(dervive_key("pw", &[1u8; 16]), Err(VaultError::Crypto));
}

#[test]
fn decrypt_rejects_malformed_lengths() {
    let key = [0u8; 32];
    assert_eq!(decrypt_data(&key, &[0u8; 11], &[], &[0u8; 16]), Err(VaultError::Crypto));
    assert_eq!(decrypt_data(&key, &[0u8; 12], &[], &[0u8; 15]), Err(VaultError::Crypto));
}

#[test]
fn tampered_tag_or_ciphertext_fails_auth() {
    let key = [9u8; 32];
    let (n, c, t) = encrypt_data(&key, b"abc").unwrap();
    let mut c2 = c.clone();
    c2[0] ^= 1;
    assert_eq!(decrypt_data(&key, &n, &c2, &t), Err(VaultError::Auth));
    let mut t2 = t.clone();
    t2[15] ^= 0x80;
    assert_eq!(decrypt_data(&key, &n, &c, &t2), Err(VaultError::Auth));
}

#[test]
fn empty_vault_survives_encrypt_and_decrypt() {
    let key = dervive_key("hunter2", &[5u8; 32]).unwrap();
    let (n, c, t) = encrypt_data(&key, EMPTY_VAULT.as_bytes()).unwrap();
    let text = decrypt_data(&key, &n, &c, &t).unwrap();
    let value: serde_json::Value = serde_json::from_slice(&text).unwrap();
    assert_eq!(value["version"].as_u64(), Some(1));
    assert!(value["entries"].as_object().unwrap().is_empty());
    let mut m = VaultManager::new();
    m.check_vault_file("VAULT_EXISTS").unwrap();
    let mut enc = vec![];
    enc.extend_from_slice(&n);
    enc.extend_from_slice(&c);
    enc.extend_from_slice(&t);
    assert!(m.unlock("other", &[5u8; 32], &enc).is_err());
}

#[test]
fn init_then_unlock_in_new_session() {
    let mut m = VaultManager::new();
    m.check_vault_file("VAULT_NOT_EXISTS").unwrap();
    assert_eq!(m.state(), VaultState::Uninitialized);
    assert_eq!(m.add_entry("a", "b", "c"), Err(VaultError::State));
    let msg = m.init("hunter2", EMPTY_VAULT.as_bytes().to_vec()).unwrap();
    assert_eq!(m.state(), VaultState::Unlocked);
    let (salt, blob) = split_init(&msg);
    assert_eq!(blob.len(), 12 + EMPTY_VAULT.len() + 16);
    drop(m);

    let (mut m2, text) = unlocked("hunter2", &salt, &blob).unwrap();
    assert_eq!(text, EMPTY_VAULT.as_bytes().to_vec());
    m2.load_vault(1, vec![]).unwrap();
    assert_eq!(m2.state(), VaultState::Unlocked);
    assert!(m2.get_entry(None, None).unwrap().is_empty());
}

#[test]
fn add_flush_and_wrong_password() {
    let mut m = VaultManager::new();
    m.check_vault_file("VAULT_NOT_EXISTS").unwrap();
    let msg = m.init("hunter2", EMPTY_VAULT.as_bytes().to_vec()).unwrap();
    let (salt, _) = split_init(&msg);
    assert_eq!(m.update_vault_file(b"unused".to_vec()), Ok(vec![]));
    assert_eq!(m.add_entry("github", "alice", "p@ss"), Ok(AddOutcome::Added));
    let got = m.get_entry(Some("github".to_string()), None).unwrap();
    assert_eq!(got.len(), 1);
    assert_eq!((got[0].service(), got[0].username(), got[0].password()), ("github", "alice", "p@ss"));
    assert_eq!(m.add_entry("github", "alice", "x"), Ok(AddOutcome::AlreadyPresent));
    assert!(m.needs_update());
    let text = b"{\"version\":1,\"entries\":{\"github|alice\":{}}}".to_vec();
    let update = m.update_vault_file(text.clone()).unwrap();
    assert!(!m.needs_update());
    let blob = split_update_vault(&update);

    let (mut m2, back) = unlocked("hunter2", &salt, &blob).unwrap();
    assert_eq!(back, text);
    m2.load_vault(1, vec![PasswordEntry::new("github", "alice", "p@ss")]).unwrap();
    assert_eq!(m2.get_entry(None, None).unwrap()[0].password(), "p@ss");
    assert_eq!(m2.add_entry("github", "alice", "x"), Ok(AddOutcome::AlreadyPresent));
    assert!(!m2.needs_update());
    assert_eq!(m2.delete_entry("github", "alice"), Ok(DeleteOutcome::Deleted));
    assert!(m2.needs_update());

    let mut m3 = VaultManager::new();
    m3.check_vault_file("VAULT_EXISTS").unwrap();
    assert_eq!(m3.unlock("wrong", &salt, &blob), Err(VaultError::Auth));
    assert_eq!(m3.state(), VaultState::Locked);
    assert_eq!(m3.add_entry("a", "b", "c"), Err(VaultError::State));
}

#[test]
fn tampered_blob_fails_unlock() {
    let mut m = VaultManager::new();
    m.check_vault_file("VAULT_NOT_EXISTS").unwrap();
    let msg = m.init("hunter2", EMPTY_VAULT.as_bytes().to_vec()).unwrap();
    let (salt, mut blob) = split_init(&msg);
    blob[14] ^= 0x01;
    let mut m2 = VaultManager::new();
    m2.check_vault_file("VAULT_EXISTS").unwrap();
    assert_eq!(m2.unlock("hunter2", &salt, &blob), Err(VaultError::Auth));
    assert!(m2.is_locked());
    assert_eq!(m2.load_vault(1, vec![]), Err(VaultError::State));
}

#[test]
fn manager_state_errors_and_reset() {
    let mut m = VaultManager::new();
    assert_eq!(m.state(), VaultState::Locked);
    assert_eq!(m.add_entry("a", "b", "c"), Err(VaultError::State));
    assert_eq!(m.check_vault_file("MAYBE"), Err(VaultError::Protocol));
    m.check_vault_file("VAULT_EXISTS").unwrap();
    assert_eq!(m.state(), VaultState::Locked);
    assert_eq!(m.init("pw", EMPTY_VAULT.as_bytes().to_vec()), Err(VaultError::State));
    assert_eq!(m.unlock("pw", &[0u8; 31], &[0u8; 40]), Err(VaultError::Crypto));
    assert_eq!(m.unlock("pw", &[0u8; 32], &[0u8; 27]), Err(VaultError::Protocol));
    assert!(m.get_entry(None, None).is_err());
    assert_eq!(m.reset("RESET_FAILED"), Ok(false));
    assert_eq!(m.state(), VaultState::Locked);
    assert_eq!(m.reset("RESET_OK"), Ok(true));
    assert_eq!(m.state(), VaultState::Uninitialized);
}

#[test]
fn load_vault_rejects_unknown_version() {
    let mut m = VaultManager::new();
    m.check_vault_file("VAULT_NOT_EXISTS").unwrap();
    let msg = m.init("pw", EMPTY_VAULT.as_bytes().to_vec()).unwrap();
    let (salt, blob) = split_init(&msg);
    let (mut m2, _) = unlocked("pw", &salt, &blob).unwrap();
    assert_eq!(m2.load_vault(2, vec![]), Err(VaultError::Serde));
    assert!(m2.is_locked());
    let (nonce, _, _) = split_blob(&blob).unwrap();
    assert_eq!(nonce.len(), 12);
}

#[test]
fn secrets_are_zero_after_a_failed_decrypt() {
    let mut password = "hunter2".to_string();
    let mut key = dervive_key(&password, &[8u8; 32]).unwrap();
    let (n, c, mut t) = encrypt_data(&key, b"secret entries").unwrap();
    t[0] ^= 0x01;
    assert_eq!(decrypt_data(&key, &n, &c, &t), Err(VaultError::Auth));
    erase_key(&mut key);
    erase_password(&mut password);
    assert_eq!(key, [0u8; 32]);
    assert!(password.is_empty());
}

#[test]
fn init_message_has_exact_layout() {
    let salt = [4u8; 32];
    let nonce = [6u8; 12];
    let m = init_message("hunter2", &salt, &nonce, EMPTY_VAULT.as_bytes()).unwrap();
    assert_eq!(init_message("hunter2", &salt, &nonce, EMPTY_VAULT.as_bytes()).unwrap(), m);
    let head = b"UPDATE_SALT:32\n";
    assert_eq!(&m[..head.len()], head);
    assert_eq!(&m[head.len()..head.len() + 32], &salt);
    let rest = &m[head.len() + 32..];
    assert_eq!(&rest[..16], b"UPDATE_VAULT:54\n");
    let blob = &rest[16..];
    assert_eq!(blob.len(), 54);
    let (n, c, t) = split_blob(blob).unwrap();
    assert_eq!(n, nonce.to_vec());
    let key = dervive_key("hunter2", &salt).unwrap();
    assert_eq!(decrypt_data(&key, &n, &c, &t), Ok(EMPTY_VAULT.as_bytes().to_vec()));
    assert_eq!(init_message("hunter2", &[4u8; 31], &nonce, b"x"), Err(VaultError::Crypto));
}

#[test]
fn encrypt_with_given_nonce_is_deterministic() {
    let key = [1u8; 32];
    let nonce = [2u8; 12];
    let (c, t) = encrypt_with_nonce(&key, &nonce, b"hello").unwrap();
    assert_eq!((c.len(), t.len()), (5, 16));
    assert_ne!(c, b"hello".to_vec());
    assert_eq!(encrypt_with_nonce(&key, &nonce, b"hello").unwrap(), (c.clone(), t.clone()));
    assert_eq!(decrypt_data(&key, &nonce, &c, &t), Ok(b"hello".to_vec()));
}

#[test]
fn vault_update_message_frames_sealed_text() {
    let key = [3u8; 32];
    let nonce = [7u8; 12];
    let m = vault_update_message(&key, &nonce, b"abc").unwrap();
    assert_eq!(&m[..16], b"UPDATE_VAULT:31\n");
    let (n, c, t) = split_blob(&m[16..]).unwrap();
    assert_eq!(n, nonce.to_vec());
    assert_eq!(decrypt_data(&key, &n, &c, &t), Ok(b"abc".to_vec()));
}

#[test]
fn device_without_vault_refuses_operations_but_keeps_state() {
    let mut m = VaultManager::new();
    m.check_vault_file("VAULT_NOT_EXISTS").unwrap();
    m.init("pw", EMPTY_VAULT.as_bytes().to_vec()).unwrap();
    m.add_entry("a", "b", "c").unwrap();
    m.check_vault_file("VAULT_NOT_EXISTS").unwrap();
    assert!(!m.is_init());
    assert!(!m.is_locked());
    assert_eq!(m.state(), VaultState::Uninitialized);
    assert_eq!(m.add_entry("d", "e", "f"), Err(VaultError::State));
    assert!(m.get_entry(None, None).is_err());
    assert_eq!(m.update_vault_file(b"x".to_vec()), Err(VaultError::State));
    m.check_vault_file("VAULT_EXISTS").unwrap();
    assert_eq!(m.get_entry(None, None).unwrap().len(), 1);
}
