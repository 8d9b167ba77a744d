//! Cryptographic envelopes built from a few named primitives.

pub mod certificate;
pub mod channel_keys;
pub mod dm;
pub mod encrypted_io;
pub mod key_exchange;
pub mod primitives;

use vstd::prelude::*;

verus! {

/// Why an envelope could not be made or opened.
#[derive(Clone, Copy, Debug, PartialEq, Eq, Structural)]
pub enum CryptoError {
    /// The input is too short to hold its fixed-size fields.
    TooShort,
    /// The plaintext has too many cipher blocks.
    TooLong,
    /// The ciphertext does not authenticate under the key.
    Unauthentic,
    /// The decrypted payload does not have the expected length.
    WrongLength,
}

} // verus!
