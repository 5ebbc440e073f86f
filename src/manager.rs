use vstd::prelude::*;

use crate::constants::{MASTER_KEY_LEN, NONCE_LEN, SALT_LEN};
use crate::crypto::{
    aes_gcm_seal, argon2id_key, decrypt_data, decrypt_spec, dervive_key, encrypt_with_nonce, encrypted_as,
    os_random_bytes, password_fits, result_bytes, GCM_MAX_PLAINTEXT_LEN,
};
use crate::error::VaultError;
use crate::protocol::{
    blob_parts, decimal_text, frame_blob, framed, parse_reset_response, parse_vault_state,
    reset_response_spec, split_blob, update_salt_message, update_vault_message, vault_header_spec,
    vault_state_spec, MIN_BLOB_LEN,
};
use crate::secret::{wipe_bytes, wipe_key};
use crate::vault::{
    add_spec, delete_spec, entry_views, opt_chars, select, unique_keys, AddOutcome, DeleteOutcome, EntryView,
    PasswordEntry, PasswordVault,
};

verus! {

/// The three states of the vault as the host sees it.
#[derive(Debug, Clone, Copy, PartialEq, Eq, Structural)]
pub enum VaultState {
    Uninitialized,
    Locked,
    Unlocked,
}

/// The abstract value of a manager.
pub struct ManagerView {
    pub is_init: bool,
    pub is_locked: bool,
    pub needs_update: bool,
    pub key: Option<Seq<u8>>,
    pub vault: Option<Seq<EntryView>>,
}

pub open spec fn state_of(m: ManagerView) -> VaultState {
    if !m.is_init {
        VaultState::Uninitialized
    } else if m.is_locked {
        VaultState::Locked
    } else {
        VaultState::Unlocked
    }
}

/// A locked manager that holds no key and no vault.
pub open spec fn sealed(m: ManagerView, is_init: bool) -> bool {
    m == ManagerView { is_init, is_locked: true, needs_update: false, key: None, vault: None }
}

/// The manager of one session with the device: the key and the decrypted
/// vault while it is unlocked, and whether the vault changed since it was
/// last written. It performs no I/O: it reads the device's answers and
/// returns the bytes to send.
pub struct VaultManager {
    master_key: Option<[u8; 32]>,
    vault: Option<PasswordVault>,
    is_init: bool,
    is_locked: bool,
    needs_update: bool,
}

impl View for VaultManager {
    type V = ManagerView;

    closed spec fn view(&self) -> ManagerView {
        ManagerView {
            is_init: self.is_init,
            is_locked: self.is_locked,
            needs_update: self.needs_update,
            key: match self.master_key {
                None => None,
                Some(k) => Some(k@),
            },
            vault: match self.vault {
                None => None,
                Some(v) => Some(v@),
            },
        }
    }
}

/// The message that creates the vault on the device: `UPDATE_SALT` with the
/// salt, then `UPDATE_VAULT` with the nonce and the text sealed under the
/// key that the password and salt derive.
pub open spec fn init_message_spec(password: Seq<char>, salt: Seq<u8>, nonce: Seq<u8>, text: Seq<u8>) -> Seq<
    u8,
> {
    framed("UPDATE_SALT:"@, salt) + framed(
        "UPDATE_VAULT:"@,
        nonce + aes_gcm_seal(argon2id_key(password, salt), nonce, text),
    )
}

/// Derives the key and builds the creating message; the key is returned
/// for the manager to hold.
fn seal_for_init(password: &str, salt: &[u8], nonce: &[u8], text: &[u8]) -> (r: Result<
    ([u8; 32], Vec<u8>),
    VaultError,
>)
    requires
        nonce@.len() == NONCE_LEN,
    ensures
        salt@.len() != SALT_LEN ==> r is Err,
        salt@.len() == SALT_LEN && password_fits(password) && text@.len() <= GCM_MAX_PLAINTEXT_LEN
            ==> r is Ok,
        r matches Err(e) ==> e == VaultError::Crypto,
        r matches Ok((k, m)) ==> {
            &&& salt@.len() == SALT_LEN
            &&& k@ == argon2id_key(password@, salt@)
            &&& k@.len() == MASTER_KEY_LEN
            &&& m@ == init_message_spec(password@, salt@, nonce@, text@)
            &&& exists|c: Seq<u8>, t: Seq<u8>|
                encrypted_as(k@, text@, nonce@, c, t) && m@ == framed("UPDATE_SALT:"@, salt@) + framed(
                    "UPDATE_VAULT:"@,
                    nonce@ + c + t,
                )
        },
{
    let mut key = match dervive_key(password, salt) {
        Ok(k) => k,
        Err(e) => return Err(e),
    };
    let (c, t) = match encrypt_with_nonce(&key, nonce, text) {
        Ok(parts) => parts,
        Err(e) => {
            wipe_key(&mut key);
            return Err(e);
        },
    };
    let mut message = match update_salt_message(salt) {
        Ok(m) => m,
        Err(_) => {
            wipe_key(&mut key);
            return Err(VaultError::Crypto);
        },
    };
    let blob = frame_blob(nonce, c.as_slice(), t.as_slice());
    let mut vault_message = update_vault_message(blob.as_slice());
    message.append(&mut vault_message);
    assert(nonce@ + c@ + t@ =~= nonce@ + (c@ + t@));
    assert(encrypted_as(key@, text@, nonce@, c@, t@));
    Ok((key, message))
}

/// The message that creates the vault, for a salt and nonce already drawn.
/// It is refused for a salt of any length but 32 and, by the cipher, for a
/// password longer than `u32::MAX` bytes or a text longer than 2^36 bytes.
pub fn init_message(password: &str, salt: &[u8], nonce: &[u8], text: &[u8]) -> (r: Result<Vec<u8>, VaultError>)
    requires
        nonce@.len() == NONCE_LEN,
    ensures
        salt@.len() != SALT_LEN ==> r == Err::<Vec<u8>, VaultError>(VaultError::Crypto),
        salt@.len() == SALT_LEN && password_fits(password) && text@.len() <= GCM_MAX_PLAINTEXT_LEN
            ==> r is Ok,
        r matches Ok(m) ==> m@ == init_message_spec(password@, salt@, nonce@, text@),
        r matches Err(e) ==> e == VaultError::Crypto,
{
    match seal_for_init(password, salt, nonce, text) {
        Ok((mut key, message)) => {
            wipe_key(&mut key);
            Ok(message)
        },
        Err(e) => Err(e),
    }
}

/// `UPDATE_VAULT` with the nonce and the text sealed under the key.
pub open spec fn update_message_spec(key: Seq<u8>, nonce: Seq<u8>, text: Seq<u8>) -> Seq<u8> {
    framed("UPDATE_VAULT:"@, nonce + aes_gcm_seal(key, nonce, text))
}

/// The message that writes a vault's text back, for a nonce already drawn.
/// Refused only for a text longer than 2^36 bytes.
pub fn vault_update_message(key: &[u8; 32], nonce: &[u8], text: &[u8]) -> (r: Result<Vec<u8>, VaultError>)
    requires
        nonce@.len() == NONCE_LEN,
    ensures
        text@.len() <= GCM_MAX_PLAINTEXT_LEN ==> r is Ok,
        r matches Ok(m) ==> m@ == update_message_spec(key@, nonce@, text@) && exists|c: Seq<u8>, t: Seq<u8>|
            encrypted_as(key@, text@, nonce@, c, t) && m@ == framed("UPDATE_VAULT:"@, nonce@ + c + t),
        r matches Err(e) ==> e == VaultError::Crypto,
{
    match encrypt_with_nonce(key, nonce, text) {
        Ok((c, t)) => {
            let blob = frame_blob(nonce, c.as_slice(), t.as_slice());
            let m = update_vault_message(blob.as_slice());
            assert(nonce@ + c@ + t@ =~= nonce@ + (c@ + t@));
            assert(encrypted_as(key@, text@, nonce@, c@, t@));
            Ok(m)
        },
        Err(e) => Err(e),
    }
}

impl VaultManager {
    /// The manager's invariant: it is unlocked exactly when it holds a
    /// well-formed vault, and then it holds a key as well; a key alone is
    /// held while locked only between `unlock` and `load_vault`.
    pub closed spec fn wf(&self) -> bool {
        &&& self.is_locked ==> self.vault is None
        &&& !self.is_locked ==> self.master_key is Some && self.vault is Some
        &&& self.vault matches Some(v) ==> v.wf()
        &&& self.needs_update ==> !self.is_locked
    }

    /// What the invariant says of the manager's abstract value.
    pub proof fn lemma_wf(&self)
        requires
            self.wf(),
        ensures
            self@.is_locked ==> self@.vault is None,
            !self@.is_locked ==> self@.key is Some && self@.vault is Some,
            self@.vault matches Some(v) ==> unique_keys(v),
            self@.needs_update ==> !self@.is_locked,
    {
        if let Some(v) = self.vault {
            v.lemma_wf_unique();
        }
    }

    /// A manager in the locked state with no key and no vault; the device's
    /// answer to `CHECK_VAULT_FILE` may then make it uninitialized.
    pub fn new() -> (r: VaultManager)
        ensures
            r.wf(),
            sealed(r@, true),
            state_of(r@) == VaultState::Locked,
    {
        VaultManager { master_key: None, vault: None, is_init: true, is_locked: true, needs_update: false }
    }

    pub fn is_init(&self) -> (r: bool)
        ensures
            r == self@.is_init,
    {
        self.is_init
    }

    pub fn is_locked(&self) -> (r: bool)
        ensures
            r == self@.is_locked,
    {
        self.is_locked
    }

    /// Whether the vault changed since it was last written to the device.
    pub fn needs_update(&self) -> (r: bool)
        ensures
            r == self@.needs_update,
    {
        self.needs_update
    }

    pub fn state(&self) -> (r: VaultState)
        ensures
            r == state_of(self@),
    {
        if !self.is_init {
            VaultState::Uninitialized
        } else if self.is_locked {
            VaultState::Locked
        } else {
            VaultState::Unlocked
        }
    }

    /// Wipes the key and every entry, and leaves the manager locked.
    pub fn lock(&mut self)
        requires
            old(self).wf(),
        ensures
            final(self).wf(),
            sealed(final(self)@, old(self)@.is_init),
    {
        match &mut self.master_key {
            Some(k) => wipe_key(k),
            None => {},
        }
        self.master_key = None;
        match &mut self.vault {
            Some(v) => v.wipe(),
            None => {},
        }
        self.vault = None;
        self.is_locked = true;
        self.needs_update = false;
    }

    /// Takes the device's answer to `CHECK_VAULT_FILE` and records whether
    /// a vault exists; nothing else changes. Every operation but `init` is
    /// then refused while no vault exists.
    pub fn check_vault_file(&mut self, response: &str) -> (r: Result<(), VaultError>)
        requires
            old(self).wf(),
        ensures
            final(self).wf(),
            vault_state_spec(response@) is Err ==> r == Err::<(), VaultError>(VaultError::Protocol)
                && final(self)@ == old(self)@,
            vault_state_spec(response@) matches Ok(b) ==> r is Ok && final(self)@ == (ManagerView {
                is_init: b,
                ..old(self)@
            }),
    {
        match parse_vault_state(response) {
            Err(e) => Err(e),
            Ok(b) => {
                self.is_init = b;
                Ok(())
            },
        }
    }

    /// Creates the vault: draws a 32-byte salt and a nonce, derives the key,
    /// encrypts the empty vault's text and returns `UPDATE_SALT` with the salt
    /// followed by `UPDATE_VAULT` with the blob (see `init_message`). The
    /// manager is then unlocked with an empty vault. The text is wiped
    /// whatever the outcome.
    pub fn init(&mut self, password: &str, empty_vault_text: Vec<u8>) -> (r: Result<Vec<u8>, VaultError>)
        requires
            old(self).wf(),
        ensures
            final(self).wf(),
            old(self)@.is_init ==> r == Err::<Vec<u8>, VaultError>(VaultError::State),
            !old(self)@.is_init ==> (r matches Err(e) ==> e == VaultError::Crypto),
            r is Err ==> final(self)@ == old(self)@,
            r matches Ok(m) ==> exists|salt: Seq<u8>, nonce: Seq<u8>, c: Seq<u8>, t: Seq<u8>|
                {
                    &&& salt.len() == SALT_LEN
                    &&& argon2id_key(password@, salt).len() == MASTER_KEY_LEN
                    &&& m@ == init_message_spec(password@, salt, nonce, empty_vault_text@)
                    &&& encrypted_as(argon2id_key(password@, salt), empty_vault_text@, nonce, c, t)
                    &&& m@ == framed("UPDATE_SALT:"@, salt) + framed("UPDATE_VAULT:"@, nonce + c + t)
                    &&& final(self)@ == (ManagerView {
                        is_init: true,
                        is_locked: false,
                        needs_update: false,
                        key: Some(argon2id_key(password@, salt)),
                        vault: Some(Seq::<EntryView>::empty()),
                    })
                },
    {
        let mut text = empty_vault_text;
        if self.is_init {
            wipe_bytes(&mut text);
            return Err(VaultError::State);
        }
        let salt = match os_random_bytes(SALT_LEN) {
            Some(s) => s,
            None => {
                wipe_bytes(&mut text);
                return Err(VaultError::Crypto);
            },
        };
        let nonce = match os_random_bytes(NONCE_LEN) {
            Some(n) => n,
            None => {
                wipe_bytes(&mut text);
                return Err(VaultError::Crypto);
            },
        };
        let sealed_init = seal_for_init(password, salt.as_slice(), nonce.as_slice(), text.as_slice());
        let ghost text_view = text@;
        wipe_bytes(&mut text);
        match sealed_init {
            Err(e) => Err(e),
            Ok((key, message)) => {
                self.lock();
                self.master_key = Some(key);
                self.vault = Some(PasswordVault::new());
                self.is_init = true;
                self.is_locked = false;
                self.needs_update = false;
                assert(text_view == empty_vault_text@);
                Ok(message)
            },
        }
    }

    /// Derives the key from the password and the device's salt and decrypts
    /// the device's blob; returns the vault's text. On success the key is
    /// held and `load_vault` completes the unlock; on failure nothing is held
    /// and the manager stays locked.
    pub fn unlock(&mut self, password: &str, salt: &[u8], blob: &[u8]) -> (r: Result<Vec<u8>, VaultError>)
        requires
            old(self).wf(),
        ensures
            final(self).wf(),
            state_of(old(self)@) != VaultState::Locked ==> r == Err::<Vec<u8>, VaultError>(
                VaultError::State,
            ) && final(self)@ == old(self)@,
            state_of(old(self)@) == VaultState::Locked ==> {
                &&& salt@.len() != SALT_LEN ==> r == Err::<Vec<u8>, VaultError>(VaultError::Crypto)
                &&& salt@.len() == SALT_LEN && blob@.len() < MIN_BLOB_LEN ==> r == Err::<
                    Vec<u8>,
                    VaultError,
                >(VaultError::Protocol)
                &&& salt@.len() == SALT_LEN && blob@.len() >= MIN_BLOB_LEN && password_fits(password)
                    ==> (blob_parts(blob@) matches Ok((n, c, t)) && result_bytes(r) == decrypt_spec(
                    argon2id_key(password@, salt@),
                    n,
                    c,
                    t,
                ))
                &&& r matches Err(e) ==> e != VaultError::State
                &&& r is Err ==> sealed(final(self)@, true)
                &&& r is Ok ==> final(self)@ == (ManagerView {
                    key: Some(argon2id_key(password@, salt@)),
                    ..old(self)@
                }) && old(self)@.vault is None
            },
    {
        if !self.is_init || !self.is_locked {
            return Err(VaultError::State);
        }
        self.lock();
        if salt.len() != SALT_LEN {
            return Err(VaultError::Crypto);
        }
        let (nonce, ciphertext, tag) = match split_blob(blob) {
            Ok(parts) => parts,
            Err(e) => return Err(e),
        };
        let mut key = match dervive_key(password, salt) {
            Ok(k) => k,
            Err(e) => return Err(e),
        };
        match decrypt_data(&key, nonce.as_slice(), ciphertext.as_slice(), tag.as_slice()) {
            Ok(plaintext) => {
                self.master_key = Some(key);
                Ok(plaintext)
            },
            Err(e) => {
                wipe_key(&mut key);
                Err(e)
            },
        }
    }

    /// Completes an unlock with the decoded vault: its version must be the
    /// current one and its pairs unique, else the key is wiped and the
    /// manager stays locked.
    pub fn load_vault(&mut self, version: u8, entries: Vec<PasswordEntry>) -> (r: Result<(), VaultError>)
        requires
            old(self).wf(),
        ensures
            final(self).wf(),
            !(old(self)@.is_init && old(self)@.is_locked && old(self)@.key is Some) ==> r == Err::<
                (),
                VaultError,
            >(VaultError::State) && final(self)@ == old(self)@,
            old(self)@.is_init && old(self)@.is_locked && old(self)@.key is Some ==> {
                &&& (version == crate::vault::VAULT_VERSION && unique_keys(
                    entries@.map_values(|e: PasswordEntry| e@),
                )) ==> r is Ok && final(self)@ == (ManagerView {
                    is_locked: false,
                    needs_update: false,
                    vault: Some(entries@.map_values(|e: PasswordEntry| e@)),
                    ..old(self)@
                })
                &&& !(version == crate::vault::VAULT_VERSION && unique_keys(
                    entries@.map_values(|e: PasswordEntry| e@),
                )) ==> r == Err::<(), VaultError>(VaultError::Serde) && sealed(final(self)@, true)
            },
    {
        if !self.is_init || !self.is_locked || self.master_key.is_none() {
            return Err(VaultError::State);
        }
        match PasswordVault::from_parts(version, entries) {
            None => {
                self.lock();
                Err(VaultError::Serde)
            },
            Some(v) => {
                self.vault = Some(v);
                self.is_locked = false;
                self.needs_update = false;
                Ok(())
            },
        }
    }

    /// The unlocked vault, for reading.
    pub fn vault(&self) -> (r: Result<&PasswordVault, VaultError>)
        requires
            self.wf(),
        ensures
            state_of(self@) != VaultState::Unlocked ==> r == Err::<&PasswordVault, VaultError>(
                VaultError::State,
            ),
            state_of(self@) == VaultState::Unlocked ==> (r matches Ok(v) && self@.vault == Some(v@)),
    {
        if !self.is_init {
            return Err(VaultError::State);
        }
        match &self.vault {
            Some(v) => Ok(v),
            None => Err(VaultError::State),
        }
    }

    pub fn add_entry(&mut self, service: &str, username: &str, password: &str) -> (r: Result<
        AddOutcome,
        VaultError,
    >)
        requires
            old(self).wf(),
        ensures
            final(self).wf(),
            state_of(old(self)@) != VaultState::Unlocked ==> r == Err::<AddOutcome, VaultError>(
                VaultError::State,
            ) && final(self)@ == old(self)@,
            state_of(old(self)@) == VaultState::Unlocked ==> (old(self)@.vault matches Some(v0) && ({
                let (o, v) = add_spec(v0, service@, username@, password@);
                &&& r == Ok::<AddOutcome, VaultError>(o)
                &&& final(self)@ == (ManagerView {
                    vault: Some(v),
                    needs_update: old(self)@.needs_update || o == AddOutcome::Added,
                    ..old(self)@
                })
            })),
    {
        if !self.is_init || self.is_locked {
            return Err(VaultError::State);
        }
        let mut v = self.vault.take().unwrap();
        let o = v.add(service, username, password);
        self.vault = Some(v);
        if o == AddOutcome::Added {
            self.needs_update = true;
        }
        Ok(o)
    }

    pub fn get_entry(&self, service: Option<String>, username: Option<String>) -> (r: Result<
        Vec<&PasswordEntry>,
        VaultError,
    >)
        requires
            self.wf(),
        ensures
            state_of(self@) != VaultState::Unlocked ==> r is Err && r->Err_0 == VaultError::State,
            state_of(self@) == VaultState::Unlocked ==> (self@.vault matches Some(v0) && r matches Ok(
                es,
            ) && entry_views(es@) == select(v0, opt_chars(service), opt_chars(username))),
    {
        if !self.is_init {
            return Err(VaultError::State);
        }
        match &self.vault {
            Some(v) => Ok(v.get(service, username)),
            None => Err(VaultError::State),
        }
    }

    pub fn delete_entry(&mut self, service: &str, username: &str) -> (r: Result<DeleteOutcome, VaultError>)
        requires
            old(self).wf(),
        ensures
            final(self).wf(),
            state_of(old(self)@) != VaultState::Unlocked ==> r == Err::<DeleteOutcome, VaultError>(
                VaultError::State,
            ) && final(self)@ == old(self)@,
            state_of(old(self)@) == VaultState::Unlocked ==> (old(self)@.vault matches Some(v0) && ({
                let (o, v) = delete_spec(v0, service@, username@);
                &&& r == Ok::<DeleteOutcome, VaultError>(o)
                &&& final(self)@ == (ManagerView {
                    vault: Some(v),
                    needs_update: old(self)@.needs_update || o == DeleteOutcome::Deleted,
                    ..old(self)@
                })
            })),
    {
        if !self.is_init || self.is_locked {
            return Err(VaultError::State);
        }
        let mut v = self.vault.take().unwrap();
        let o = v.delete(service, username);
        self.vault = Some(v);
        if o == DeleteOutcome::Deleted {
            self.needs_update = true;
        }
        Ok(o)
    }

    /// Writes a changed vault back: when the vault changed, draws a nonce,
    /// encrypts the vault's text under the key and returns `UPDATE_VAULT` with
    /// the blob (see `vault_update_message`); when it did not, returns
    /// nothing to send. The text is wiped whatever the outcome.
    pub fn update_vault_file(&mut self, vault_text: Vec<u8>) -> (r: Result<Vec<u8>, VaultError>)
        requires
            old(self).wf(),
        ensures
            final(self).wf(),
            !old(self)@.needs_update ==> (r matches Ok(m) && m@.len() == 0) && final(self)@ == old(self)@,
            old(self)@.needs_update && state_of(old(self)@) != VaultState::Unlocked ==> r == Err::<
                Vec<u8>,
                VaultError,
            >(VaultError::State) && final(self)@ == old(self)@,
            old(self)@.needs_update && state_of(old(self)@) == VaultState::Unlocked ==> (r matches Err(e)
                ==> e == VaultError::Crypto && final(self)@ == old(self)@),
            old(self)@.needs_update && state_of(old(self)@) == VaultState::Unlocked ==> (r matches Ok(m)
                ==> exists|nonce: Seq<u8>, c: Seq<u8>, t: Seq<u8>|
                {
                    &&& m@ == update_message_spec(old(self)@.key->0, nonce, vault_text@)
                    &&& encrypted_as(old(self)@.key->0, vault_text@, nonce, c, t)
                    &&& m@ == framed("UPDATE_VAULT:"@, nonce + c + t)
                    &&& final(self)@ == (ManagerView { needs_update: false, ..old(self)@ })
                }),
    {
        let mut text = vault_text;
        if !self.needs_update {
            wipe_bytes(&mut text);
            return Ok(Vec::new());
        }
        if !self.is_init || self.is_locked {
            wipe_bytes(&mut text);
            return Err(VaultError::State);
        }
        let nonce = match os_random_bytes(NONCE_LEN) {
            Some(n) => n,
            None => {
                wipe_bytes(&mut text);
                return Err(VaultError::Crypto);
            },
        };
        let sealed_update = match &self.master_key {
            Some(k) => vault_update_message(k, nonce.as_slice(), text.as_slice()),
            None => Err(VaultError::State),
        };
        let ghost text_view = text@;
        wipe_bytes(&mut text);
        match sealed_update {
            Err(e) => Err(e),
            Ok(message) => {
                self.needs_update = false;
                assert(text_view == vault_text@);
                proof {
                    let key = old(self)@.key->0;
                    let (c, t) = choose|c: Seq<u8>, t: Seq<u8>|
                        encrypted_as(key, vault_text@, nonce@, c, t) && message@ == framed(
                            "UPDATE_VAULT:"@,
                            nonce@ + c + t,
                        );
                    assert(message@ == update_message_spec(key, nonce@, vault_text@));
                    assert(encrypted_as(key, vault_text@, nonce@, c, t));
                }
                Ok(message)
            },
        }
    }

    /// Takes the device's answer to `RESET_VAULT`. When the device erased the
    /// vault, the key and entries are wiped and the manager is uninitialized.
    pub fn reset(&mut self, response: &str) -> (r: Result<bool, VaultError>)
        requires
            old(self).wf(),
        ensures
            final(self).wf(),
            r == reset_response_spec(response@),
            r == Ok::<bool, VaultError>(true) ==> sealed(final(self)@, false),
            r != Ok::<bool, VaultError>(true) ==> final(self)@ == old(self)@,
    {
        match parse_reset_response(response) {
            Ok(true) => {
                self.lock();
                self.is_init = false;
                Ok(true)
            },
            other => other,
        }
    }
}

impl Drop for VaultManager {
    /// Wipes the key when the manager goes away; the vault wipes itself.
    fn drop(&mut self)
        opens_invariants none
        no_unwind
    {
        match &mut self.master_key {
            Some(k) => wipe_key(k),
            None => {},
        }
    }
}

/// What a flush sends, read back by `unlock` under the same password and
/// salt, is announced with a length that the header check accepts, splits
/// into the same nonce, ciphertext and tag, and decrypts to the text that
/// was flushed.
pub proof fn lemma_flush_then_unlock(
    password: Seq<char>,
    salt: Seq<u8>,
    text: Seq<u8>,
    nonce: Seq<u8>,
    c: Seq<u8>,
    t: Seq<u8>,
)
    requires
        argon2id_key(password, salt).len() == crate::constants::MASTER_KEY_LEN,
        encrypted_as(argon2id_key(password, salt), text, nonce, c, t),
        (nonce + c + t).len() <= usize::MAX,
    ensures
        (nonce + c + t).len() >= MIN_BLOB_LEN,
        vault_header_spec("VAULT:"@ + decimal_text((nonce + c + t).len())) == Ok::<usize, VaultError>(
            (nonce + c + t).len() as usize,
        ),
        blob_parts(nonce + c + t) == Ok::<(Seq<u8>, Seq<u8>, Seq<u8>), VaultError>((nonce, c, t)),
        decrypt_spec(argon2id_key(password, salt), nonce, c, t) == Ok::<Seq<u8>, VaultError>(text),
{
    crate::protocol::lemma_split_inverts_frame(nonce, c, t);
    crate::protocol::lemma_echoed_length_accepted(nonce + c + t);
}

} // verus!
