//! Credential vault and relay topology resolver for a Nostr status client.
//!
//! The library covers the logic of the client that is worth proving:
//! passphrase-based protection of the signing key at rest (key derivation
//! and authenticated encryption), the persisted vault-record format, the
//! decision rules of relay-list discovery with its fixed fallback, a
//! reusable bounded event collector, and the session state machine that
//! sequences login, registration, publishing and logout.
//!
//! Network transport, file storage and the user interface are external
//! collaborators: they live outside this crate and talk to it through
//! plain values.

pub mod collector;
pub mod crypto;
pub mod errors;
pub mod keys;
pub mod relay;
pub mod session;
pub mod vault;
