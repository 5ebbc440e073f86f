use vstd::prelude::*;

verus! {

/// The kinds of failure that the vault reports. None of them carries a
/// password, a key or an entry.
#[derive(Debug, Clone, Copy, PartialEq, Eq, Structural)]
pub enum VaultError {
    /// The serial link could not be found, opened, read or written.
    Transport,
    /// The device answered with something the protocol does not allow.
    Protocol,
    /// Key derivation failed, or a nonce, tag or key had the wrong length.
    Crypto,
    /// The authentication tag did not match: wrong password or tampered data.
    Auth,
    /// The operation is not allowed in the vault's current state.
    State,
    /// The decrypted bytes are not a vault of a known version.
    Serde,
}

impl VaultError {
    /// A message for the user.
    pub fn describe(&self) -> (r: &'static str) {
        match self {
            VaultError::Transport => "serial transport failure",
            VaultError::Protocol => "unexpected response from the device",
            VaultError::Crypto => "cryptographic failure",
            VaultError::Auth => "authentication failed: wrong password or tampered vault",
            VaultError::State => "operation not allowed in the current vault state",
            VaultError::Serde => "vault data is malformed or of an unknown version",
        }
    }
}

} // verus!
