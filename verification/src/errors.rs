//! Error taxonomy of the vault, the cipher, relay resolution and publishing.

use vstd::prelude::*;

verus! {

/// Failures of the persisted vault record.
#[derive(Clone, Copy, Debug, PartialEq, Eq, Structural)]
pub enum VaultError {
    /// No record exists yet: the caller is on a first run.
    NotFound,
    /// A record exists but one of its fields cannot be decoded.
    MalformedRecord,
    /// The encrypted-key field does not carry a recognized scheme prefix.
    UnsupportedFormat,
}

/// Failures of the key cipher.
#[derive(Clone, Copy, Debug, PartialEq, Eq, Structural)]
pub enum CryptoError {
    /// The payload is shorter than a nonce, so it cannot even be split.
    MalformedPayload,
    /// The authentication tag did not verify: wrong passphrase, a corrupted
    /// record, or tampering. The three are deliberately indistinguishable.
    DecryptionFailed,
    /// The cipher refuses only messages past its length bound, so sealing
    /// the fixed-size secret never raises this; it names the remaining
    /// failure of the cipher for completeness.
    EncryptionFailed,
}

/// Failures of relay topology resolution.
#[derive(Clone, Copy, Debug, PartialEq, Eq, Structural)]
pub enum ResolveError {
    /// After the fallback step no relay at all was reachable.
    NoReachableRelays,
}

/// Failures while fetching events; a timeout is not one of them, it is a
/// flag on the collected result.
#[derive(Clone, Copy, Debug, PartialEq, Eq, Structural)]
pub enum FetchError {
    TransportFailure,
}

/// Failures of a publish action.
#[derive(Clone, Copy, Debug, PartialEq, Eq, Structural)]
pub enum PublishError {
    /// The status text exceeds the length cap; rejected before any
    /// network activity.
    StatusTooLong,
    /// No session is logged in.
    NotAuthenticated,
    TransportFailure,
}

/// Failures of a registration.
#[derive(Clone, Copy, Debug, PartialEq, Eq, Structural)]
pub enum RegisterError {
    /// The supplied text is not a valid secret key.
    InvalidKey,
}

/// Failures that abort a login and roll the session back to logged-out.
#[derive(Clone, Copy, Debug, PartialEq, Eq, Structural)]
pub enum LoginError {
    Vault(VaultError),
    Crypto(CryptoError),
    /// The decrypted bytes do not form a valid signing key.
    InvalidStoredKey,
    Resolve(ResolveError),
    /// The identity's own follow list could not be fetched in time;
    /// fatal for login.
    ContactListNotFound,
    Transport(FetchError),
}

} // verus!
