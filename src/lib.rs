//! A password vault whose encrypted state lives on a microcontroller behind a
//! USB serial link: the authenticated envelope (Argon2id and AES-256-GCM), the
//! vault's entries, the framed wire protocol and the manager's state machine.

pub mod cli;
pub mod command;
pub mod constants;
pub mod crypto;
pub mod error;
pub mod manager;
pub mod protocol;
pub mod secret;
pub mod text;
pub mod transport;
pub mod vault;
