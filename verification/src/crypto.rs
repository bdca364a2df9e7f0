//! Key cipher: passphrase-based key derivation and authenticated
//! encryption of the 32-byte signing key.
//!
//! The sealed payload laid out by `encrypt` is `ciphertext-with-tag ‖ nonce`,
//! with a fresh random 12-byte nonce for every call.

use chacha20poly1305::aead::{Aead, KeyInit};
use chacha20poly1305::{ChaCha20Poly1305, Key, Nonce};
use rand::Rng;
use vstd::prelude::*;

use crate::errors::CryptoError;

verus! {

/// Length in bytes of the symmetric cipher key.
pub const KEY_LEN: usize = 32;

/// Length in bytes of the stored salt.
pub const SALT_LEN: usize = 16;

/// Length in bytes of the per-encryption nonce.
pub const NONCE_LEN: usize = 12;

/// Length in bytes of the authentication tag appended to the ciphertext.
pub const TAG_LEN: usize = 16;

/// Length in bytes of the signing key that the cipher protects.
pub const SECRET_LEN: usize = 32;

/// Iteration count of the key-derivation function; deliberately slow so a
/// stolen vault file resists brute force.
pub const PBKDF2_ROUNDS: u32 = 100000;

/// Longest message the cipher accepts, in bytes: (2^32 - 1) blocks of 64.
/// Past it the cipher's 32-bit block counter would wrap, and it refuses the
/// message instead.
pub const AEAD_MSG_MAX: u64 = 274877906880;

/// The key that PBKDF2-HMAC-SHA-256 derives from a passphrase and a salt:
/// a deterministic function of its arguments alone.
pub uninterp spec fn pbkdf2_key_of(passphrase: Seq<char>, salt: Seq<u8>, rounds: u32, out_len: nat) -> Seq<u8>;

/// The ciphertext-with-tag that the authenticated cipher produces from a
/// key, a nonce and a plaintext: a deterministic function of its arguments
/// alone.
pub uninterp spec fn aead_ct_of(key: Seq<u8>, nonce: Seq<u8>, plaintext: Seq<u8>) -> Seq<u8>;

/// Relies on pbkdf2::pbkdf2_hmac with sha2::Sha256: the output buffer is
/// filled with a key that depends only on the passphrase bytes, the salt,
/// the round count and the requested length.
#[verifier::external_body]
fn pbkdf2_sha256(passphrase: &str, salt: &Vec<u8>, rounds: u32, out_len: usize) -> (key: Vec<u8>)
    ensures
        key@.len() == out_len,
        key@ == pbkdf2_key_of(passphrase@, salt@, rounds, out_len as nat),
{
    let mut buf = vec![0u8; out_len];
    pbkdf2::pbkdf2_hmac::<sha2::Sha256>(passphrase.as_bytes(), salt.as_slice(), rounds, &mut buf);
    buf
}

/// Relies on chacha20poly1305::ChaCha20Poly1305 (Aead::encrypt): the result
/// is the ciphertext with a 16-byte postfix tag, a deterministic function
/// of key, nonce and plaintext. The cipher refuses only messages past its
/// length bound, which the precondition rules out, so sealing succeeds.
#[verifier::external_body]
fn aead_seal(key: &Vec<u8>, nonce: &Vec<u8>, plaintext: &Vec<u8>) -> (c: Vec<u8>)
    requires
        key@.len() == KEY_LEN,
        nonce@.len() == NONCE_LEN,
        plaintext@.len() < AEAD_MSG_MAX,
    ensures
        c@ == aead_ct_of(key@, nonce@, plaintext@),
        c@.len() == plaintext@.len() + TAG_LEN,
{
    let cipher = ChaCha20Poly1305::new(Key::from_slice(key.as_slice()));
    cipher
        .encrypt(Nonce::from_slice(nonce.as_slice()), plaintext.as_slice())
        .expect("a message within the cipher's length bound seals")
}

/// Relies on chacha20poly1305::ChaCha20Poly1305 (Aead::decrypt): decryption
/// inverts encryption under the same key and nonce, and a decryption that
/// verifies its tag returns exactly the plaintext whose encryption the
/// ciphertext is. Both quantified clauses speak only of plaintexts the
/// cipher accepts, those below its length bound.
#[verifier::external_body]
fn aead_open(key: &Vec<u8>, nonce: &Vec<u8>, ciphertext: &Vec<u8>) -> (r: Result<Vec<u8>, CryptoError>)
    requires
        key@.len() == KEY_LEN,
        nonce@.len() == NONCE_LEN,
    ensures
        r matches Ok(v) ==> ciphertext@ == aead_ct_of(key@, nonce@, v@)
            && v@.len() < AEAD_MSG_MAX
            && (forall|pt: Seq<u8>|
                pt.len() < AEAD_MSG_MAX && ciphertext@ == aead_ct_of(key@, nonce@, pt)
                    ==> v@ == pt),
        r is Err ==> forall|pt: Seq<u8>|
            pt.len() < AEAD_MSG_MAX ==> ciphertext@ != aead_ct_of(key@, nonce@, pt),
        r matches Err(e) ==> e == CryptoError::DecryptionFailed,
{
    let cipher = ChaCha20Poly1305::new(Key::from_slice(key.as_slice()));
    match cipher.decrypt(Nonce::from_slice(nonce.as_slice()), ciphertext.as_slice()) {
        Ok(v) => Ok(v),
        Err(_) => Err(CryptoError::DecryptionFailed),
    }
}

/// Relies on rand::rngs::OsRng (Rng::fill): the buffer is filled from the
/// operating system's cryptographically secure source. Nothing holds of
/// the values beyond the length; two calls may differ.
#[verifier::external_body]
pub(crate) fn random_bytes(n: usize) -> (r: Vec<u8>)
    ensures
        r@.len() == n,
{
    let mut buf = vec![0u8; n];
    rand::rngs::OsRng.fill(buf.as_mut_slice());
    buf
}

/// The payload that sealing `plaintext` under `key` with `nonce` lays out:
/// ciphertext-with-tag followed by the nonce.
pub open spec fn sealed_payload(key: Seq<u8>, nonce: Seq<u8>, plaintext: Seq<u8>) -> Seq<u8> {
    aead_ct_of(key, nonce, plaintext) + nonce
}

/// Holds when `payload` splits into a ciphertext part and a trailing nonce
/// such that the ciphertext is the encryption of `plaintext` under `key`
/// and that nonce. Only plaintexts the cipher accepts, those below its
/// length bound, can be sealed.
pub open spec fn payload_seals(key: Seq<u8>, payload: Seq<u8>, plaintext: Seq<u8>) -> bool {
    &&& plaintext.len() < AEAD_MSG_MAX
    &&& payload.len() >= NONCE_LEN
    &&& payload.subrange(0, payload.len() - NONCE_LEN) == aead_ct_of(
        key,
        payload.subrange(payload.len() - NONCE_LEN, payload.len() as int),
        plaintext,
    )
}

/// Derives the symmetric key from a passphrase and the stored salt.
/// Deterministic: the same passphrase and salt always yield the same key.
pub fn derive_key(passphrase: &str, salt: &Vec<u8>) -> (key: Vec<u8>)
    requires
        salt@.len() == SALT_LEN,
    ensures
        key@.len() == KEY_LEN,
        key@ == pbkdf2_key_of(passphrase@, salt@, PBKDF2_ROUNDS, KEY_LEN as nat),
{
    pbkdf2_sha256(passphrase, salt, PBKDF2_ROUNDS, KEY_LEN)
}

/// Encrypts the signing key under a fresh random nonce and returns
/// `ciphertext-with-tag ‖ nonce`. Sealing a 32-byte secret always
/// succeeds: the cipher refuses only messages past its length bound.
pub fn encrypt(key: &Vec<u8>, plaintext: &Vec<u8>) -> (payload: Vec<u8>)
    requires
        key@.len() == KEY_LEN,
        plaintext@.len() == SECRET_LEN,
    ensures
        payload@.len() == plaintext@.len() + TAG_LEN + NONCE_LEN,
        payload_seals(key@, payload@, plaintext@),
{
    let nonce = random_bytes(NONCE_LEN);
    let ct = aead_seal(key, &nonce, plaintext);
    let mut payload = ct;
    let ghost ct_view = payload@;
    let mut i: usize = 0;
    while i < nonce.len()
        invariant
            i <= nonce.len(),
            payload@ == ct_view + nonce@.subrange(0, i as int),
        decreases nonce.len() - i,
    {
        payload.push(nonce[i]);
        i = i + 1;
        proof {
            assert(ct_view + nonce@.subrange(0, i - 1) + seq![nonce@[i - 1]]
                =~= ct_view + nonce@.subrange(0, i as int));
        }
    }
    proof {
        assert(nonce@.subrange(0, nonce@.len() as int) =~= nonce@);
        assert(payload@.subrange(0, payload@.len() - NONCE_LEN) =~= ct_view);
        assert(payload@.subrange(payload@.len() - NONCE_LEN, payload@.len() as int) =~= nonce@);
    }
    payload
}

/// Decrypts a sealed payload. Rejects a payload shorter than a nonce as
/// malformed before any cryptography runs; any other failure is the single
/// `DecryptionFailed`, which does not distinguish a wrong key from
/// corrupted data.
pub fn decrypt(key: &Vec<u8>, payload: &Vec<u8>) -> (r: Result<Vec<u8>, CryptoError>)
    requires
        key@.len() == KEY_LEN,
    ensures
        forall|pt: Seq<u8>| payload_seals(key@, payload@, pt) ==> (r matches Ok(v) && v@ == pt),
        r matches Ok(v) ==> payload_seals(key@, payload@, v@),
        r matches Err(e) ==> (e == CryptoError::MalformedPayload <==> payload@.len() < NONCE_LEN),
        r matches Err(e) ==> e == CryptoError::MalformedPayload || e == CryptoError::DecryptionFailed,
{
    if payload.len() < NONCE_LEN {
        return Err(CryptoError::MalformedPayload);
    }
    let split = payload.len() - NONCE_LEN;
    let mut ct: Vec<u8> = Vec::new();
    let mut i: usize = 0;
    while i < split
        invariant
            i <= split,
            split == payload@.len() - NONCE_LEN,
            ct@ == payload@.subrange(0, i as int),
        decreases split - i,
    {
        ct.push(payload[i]);
        i = i + 1;
        proof {
            assert(payload@.subrange(0, i - 1) + seq![payload@[i - 1]]
                =~= payload@.subrange(0, i as int));
        }
    }
    let mut nonce: Vec<u8> = Vec::new();
    let mut j: usize = split;
    while j < payload.len()
        invariant
            split <= j <= payload@.len(),
            split == payload@.len() - NONCE_LEN,
            nonce@ == payload@.subrange(split as int, j as int),
        decreases payload@.len() - j,
    {
        nonce.push(payload[j]);
        j = j + 1;
        proof {
            assert(payload@.subrange(split as int, j - 1) + seq![payload@[j - 1]]
                =~= payload@.subrange(split as int, j as int));
        }
    }
    aead_open(key, &nonce, &ct)
}

/// Round-trip law: sealing `plaintext` under `key` with any 12-byte nonce
/// yields a payload from which `plaintext` is the unique value that
/// `payload_seals` admits, so `decrypt` with the same key returns exactly
/// `plaintext` (see `decrypt`'s postcondition).
pub proof fn lemma_round_trip(key: Seq<u8>, nonce: Seq<u8>, plaintext: Seq<u8>)
    requires
        nonce.len() == NONCE_LEN,
        plaintext.len() < AEAD_MSG_MAX,
    ensures
        payload_seals(key, sealed_payload(key, nonce, plaintext), plaintext),
{
    let payload = sealed_payload(key, nonce, plaintext);
    assert(payload.subrange(0, payload.len() - NONCE_LEN) =~= aead_ct_of(key, nonce, plaintext));
    assert(payload.subrange(payload.len() - NONCE_LEN, payload.len() as int) =~= nonce);
}

} // verus!
