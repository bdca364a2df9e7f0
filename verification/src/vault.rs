//! Vault store format: the persisted record holding the encrypted signing
//! key and the key-derivation salt, both carried as text fields.
//!
//! The encrypted-key field is a fixed scheme prefix followed by the base64
//! text of the sealed payload; the salt field is the base64 text of the 16
//! raw salt bytes. Reading and writing the surrounding file is the
//! caller's business; this module owns the field encoding alone.

use base64::Engine;
use vstd::prelude::*;
use vstd::string::*;

use crate::crypto::SALT_LEN;
use crate::errors::VaultError;

verus! {

/// Number of characters of the scheme prefix.
pub const SCHEME_PREFIX_LEN: usize = 7;

/// The scheme prefix that identifies the encryption format of the
/// encrypted-key field.
pub open spec fn scheme_prefix() -> Seq<char> {
    seq!['#', 'n', 'i', 'p', '4', '9', ':']
}

/// The canonical base64 text of a byte string (standard alphabet, with
/// padding): a deterministic function of the bytes.
pub uninterp spec fn base64_of(bytes: Seq<u8>) -> Seq<char>;

/// Relies on base64's general_purpose::STANDARD engine (encode): the
/// canonical padded base64 text of the bytes.
#[verifier::external_body]
fn b64_encode(bytes: &Vec<u8>) -> (r: String)
    ensures
        r@ == base64_of(bytes@),
{
    base64::engine::general_purpose::STANDARD.encode(bytes.as_slice())
}

/// Relies on base64's general_purpose::STANDARD engine (decode): it
/// requires canonical padding and zero trailing bits, so it succeeds
/// exactly on canonical encodings and inverts the encoding.
#[verifier::external_body]
fn b64_decode(text: &str) -> (r: Result<Vec<u8>, VaultError>)
    ensures
        r matches Ok(v) ==> text@ == base64_of(v@)
            && (forall|b: Seq<u8>| text@ == base64_of(b) ==> v@ == b),
        r is Err ==> forall|b: Seq<u8>| text@ != base64_of(b),
        r matches Err(e) ==> e == VaultError::MalformedRecord,
{
    match base64::engine::general_purpose::STANDARD.decode(text) {
        Ok(v) => Ok(v),
        Err(_) => Err(VaultError::MalformedRecord),
    }
}

/// The persisted vault record, in decoded form: the sealed payload and the
/// salt. Created at registration, read at every login, overwritten
/// wholesale on re-registration.
#[derive(Debug)]
pub struct VaultRecord {
    pub encrypted_payload: Vec<u8>,
    pub salt: Vec<u8>,
}

impl VaultRecord {
    /// The salt is always exactly 16 bytes.
    pub open spec fn wf(self) -> bool {
        self.salt@.len() == SALT_LEN
    }
}

/// The text of the encrypted-key field for a sealed payload: scheme
/// prefix, then the payload's base64 text.
pub open spec fn encrypted_field_of(payload: Seq<u8>) -> Seq<char> {
    scheme_prefix() + base64_of(payload)
}

/// Whether a field text starts with the scheme prefix.
pub open spec fn has_scheme_prefix(s: Seq<char>) -> bool {
    s.len() >= SCHEME_PREFIX_LEN && s.subrange(0, SCHEME_PREFIX_LEN as int) == scheme_prefix()
}

/// The character of the scheme prefix at a position.
fn scheme_prefix_char(i: usize) -> (c: char)
    requires
        i < SCHEME_PREFIX_LEN,
    ensures
        c == scheme_prefix()[i as int],
{
    if i == 0 {
        '#'
    } else if i == 1 {
        'n'
    } else if i == 2 {
        'i'
    } else if i == 3 {
        'p'
    } else if i == 4 {
        '4'
    } else if i == 5 {
        '9'
    } else {
        ':'
    }
}

/// Encodes a record into its two persisted text fields: the prefixed
/// base64 of the sealed payload, and the base64 of the salt.
pub fn encode_record_fields(record: &VaultRecord) -> (r: (String, String))
    ensures
        r.0@ == encrypted_field_of(record.encrypted_payload@),
        r.1@ == base64_of(record.salt@),
{
    let mut field = String::from_str("#nip49:");
    proof {
        reveal_strlit("#nip49:");
        assert("#nip49:"@ =~= scheme_prefix());
    }
    let payload_b64 = b64_encode(&record.encrypted_payload);
    field.append(payload_b64.as_str());
    let salt_b64 = b64_encode(&record.salt);
    (field, salt_b64)
}

/// Parses the two persisted text fields back into a record.
///
/// Fails with `UnsupportedFormat` exactly when the encrypted-key field
/// does not start with the scheme prefix; with `MalformedRecord` when a
/// base64 field does not decode or the salt is not 16 bytes. Fields that
/// `encode_record_fields` produced from a well-formed record parse back to
/// exactly that record.
pub fn parse_record_fields(encrypted_field: &str, salt_field: &str) -> (r: Result<
    VaultRecord,
    VaultError,
>)
    ensures
        r matches Ok(rec) ==> rec.wf()
            && encrypted_field@ == encrypted_field_of(rec.encrypted_payload@)
            && salt_field@ == base64_of(rec.salt@),
        r == Err::<VaultRecord, VaultError>(VaultError::UnsupportedFormat) <==> !has_scheme_prefix(encrypted_field@),
        r matches Err(e) ==> e == VaultError::UnsupportedFormat || e == VaultError::MalformedRecord,
        forall|p: Seq<u8>, s: Seq<u8>|
            (encrypted_field@ == encrypted_field_of(p) && salt_field@ == base64_of(s)
                && s.len() == SALT_LEN)
            ==> (r matches Ok(rec) && rec.encrypted_payload@ == p && rec.salt@ == s),
{
    let n = encrypted_field.unicode_len();
    if n < SCHEME_PREFIX_LEN {
        proof {
            assert(!has_scheme_prefix(encrypted_field@));
            assert forall|p: Seq<u8>| encrypted_field@ != encrypted_field_of(p) by {
                assert(encrypted_field_of(p).len() >= SCHEME_PREFIX_LEN);
            }
        }
        return Err(VaultError::UnsupportedFormat);
    }
    let mut i: usize = 0;
    while i < SCHEME_PREFIX_LEN
        invariant
            i <= SCHEME_PREFIX_LEN,
            n == encrypted_field@.len(),
            n >= SCHEME_PREFIX_LEN,
            forall|j: int| 0 <= j < i ==> encrypted_field@[j] == scheme_prefix()[j],
        decreases SCHEME_PREFIX_LEN - i,
    {
        if encrypted_field.get_char(i) != scheme_prefix_char(i) {
            proof {
                assert(encrypted_field@.subrange(0, SCHEME_PREFIX_LEN as int)[i as int]
                    != scheme_prefix()[i as int]);
                assert(!has_scheme_prefix(encrypted_field@));
                assert forall|p: Seq<u8>| encrypted_field@ != encrypted_field_of(p) by {
                    if encrypted_field@ == encrypted_field_of(p) {
                        assert(encrypted_field@[i as int] == scheme_prefix()[i as int]);
                    }
                }
            }
            return Err(VaultError::UnsupportedFormat);
        }
        i = i + 1;
    }
    proof {
        assert(encrypted_field@.subrange(0, SCHEME_PREFIX_LEN as int) =~= scheme_prefix());
    }
    let rest = encrypted_field.substring_char(SCHEME_PREFIX_LEN, n);
    proof {
        assert forall|p: Seq<u8>| encrypted_field@ == encrypted_field_of(p) implies rest@
            == base64_of(p) by {
            assert(encrypted_field@.subrange(
                SCHEME_PREFIX_LEN as int,
                encrypted_field@.len() as int,
            ) =~= base64_of(p));
        }
    }
    let payload = match b64_decode(rest) {
        Ok(v) => v,
        Err(e) => {
            return Err(e);
        },
    };
    let salt = match b64_decode(salt_field) {
        Ok(v) => v,
        Err(e) => {
            return Err(e);
        },
    };
    if salt.len() != SALT_LEN {
        return Err(VaultError::MalformedRecord);
    }
    proof {
        assert(encrypted_field@ =~= scheme_prefix() + encrypted_field@.subrange(
            SCHEME_PREFIX_LEN as int,
            encrypted_field@.len() as int,
        ));
    }
    Ok(VaultRecord { encrypted_payload: payload, salt })
}

} // verus!
