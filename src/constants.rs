use vstd::prelude::*;

verus! {

/// The serial link's speed, in baud.
pub const BAUD_RATE: u32 = 115200;

/// The serial link's read timeout, in milliseconds.
pub const READ_TIMEOUT_MS: u64 = 500;

pub const NONCE_LEN: usize = 12;

pub const AUTH_TAG_LEN: usize = 16;

pub const SALT_LEN: usize = 32;

pub const MASTER_KEY_LEN: usize = 32;

} // verus!
