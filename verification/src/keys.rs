//! Identity: the signing keypair, parsed from user input or rebuilt from
//! decrypted secret bytes.

use vstd::prelude::*;
use vstd::slice::slice_to_vec;

use crate::crypto::SECRET_LEN;

verus! {

/// Length in bytes of an x-only public key.
pub const PUBKEY_LEN: usize = 32;

/// The keypair that the key parser yields for an input text (the hex or
/// bech32 form of a secret key): `None` when the text is not a valid
/// secret key, otherwise the secret bytes and the derived public key.
/// A deterministic function of the input text alone.
pub uninterp spec fn keys_of(input: Seq<char>) -> Option<(Seq<u8>, Seq<u8>)>;

/// The lowercase hex digit of a value below 16.
pub open spec fn hex_digit(n: int) -> char {
    if n == 0 {
        '0'
    } else if n == 1 {
        '1'
    } else if n == 2 {
        '2'
    } else if n == 3 {
        '3'
    } else if n == 4 {
        '4'
    } else if n == 5 {
        '5'
    } else if n == 6 {
        '6'
    } else if n == 7 {
        '7'
    } else if n == 8 {
        '8'
    } else if n == 9 {
        '9'
    } else if n == 10 {
        'a'
    } else if n == 11 {
        'b'
    } else if n == 12 {
        'c'
    } else if n == 13 {
        'd'
    } else if n == 14 {
        'e'
    } else {
        'f'
    }
}

/// The lowercase hex text of a byte string: two digits per byte, high
/// nibble first.
pub open spec fn hex_of(bytes: Seq<u8>) -> Seq<char>
    decreases bytes.len(),
{
    if bytes.len() == 0 {
        Seq::empty()
    } else {
        hex_of(bytes.drop_last()) + seq![
            hex_digit(bytes.last() as int / 16),
            hex_digit(bytes.last() as int % 16),
        ]
    }
}

/// Relies on String::push: appends exactly the one character.
#[verifier::external_body]
fn push_char(s: &mut String, c: char)
    ensures
        final(s)@ == old(s)@ + seq![c],
{
    s.push(c);
}

/// The lowercase hex digit of a value below 16.
fn hex_digit_char(n: u8) -> (c: char)
    requires
        n < 16,
    ensures
        c == hex_digit(n as int),
{
    if n == 0 {
        '0'
    } else if n == 1 {
        '1'
    } else if n == 2 {
        '2'
    } else if n == 3 {
        '3'
    } else if n == 4 {
        '4'
    } else if n == 5 {
        '5'
    } else if n == 6 {
        '6'
    } else if n == 7 {
        '7'
    } else if n == 8 {
        '8'
    } else if n == 9 {
        '9'
    } else if n == 10 {
        'a'
    } else if n == 11 {
        'b'
    } else if n == 12 {
        'c'
    } else if n == 13 {
        'd'
    } else if n == 14 {
        'e'
    } else {
        'f'
    }
}

/// The lowercase hex text of the bytes, exactly `hex_of`.
pub(crate) fn to_hex(bytes: &Vec<u8>) -> (r: String)
    ensures
        r@ == hex_of(bytes@),
{
    let mut out = String::new();
    let mut i: usize = 0;
    proof {
        assert(bytes@.subrange(0, 0) =~= Seq::<u8>::empty());
    }
    while i < bytes.len()
        invariant
            i <= bytes@.len(),
            out@ == hex_of(bytes@.subrange(0, i as int)),
        decreases bytes@.len() - i,
    {
        let b = bytes[i];
        push_char(&mut out, hex_digit_char(b / 16));
        push_char(&mut out, hex_digit_char(b % 16));
        i = i + 1;
        proof {
            let cur = bytes@.subrange(0, i as int);
            assert(cur.drop_last() =~= bytes@.subrange(0, i - 1));
            assert(cur.last() == bytes@[i - 1]);
            assert(hex_of(cur.drop_last()) + seq![hex_digit(bytes@[i - 1] as int / 16)]
                + seq![hex_digit(bytes@[i - 1] as int % 16)] =~= hex_of(cur));
        }
    }
    proof {
        assert(bytes@.subrange(0, bytes@.len() as int) =~= bytes@);
    }
    out
}

/// Relies on nostr::Keys::parse: parses the hex or bech32 form of a
/// 32-byte secret key and derives its x-only public key, both functions of
/// the input text alone. Parsing the lowercase hex form of a secret key it
/// accepted returns the same pair.
#[verifier::external_body]
fn parse_keys(input: &str) -> (r: Option<(Vec<u8>, Vec<u8>)>)
    ensures
        r matches Some(k) ==> keys_of(input@) == Some((k.0@, k.1@))
            && k.0@.len() == SECRET_LEN && k.1@.len() == PUBKEY_LEN
            && keys_of(hex_of(k.0@)) == Some((k.0@, k.1@))
            && (forall|b: Seq<u8>| input@ == hex_of(b) ==> k.0@ == b),
        r is None <==> keys_of(input@) is None,
{
    match nostr::key::Keys::parse(input) {
        Ok(keys) => {
            let secret = keys.secret_key().to_secret_bytes().to_vec();
            let public = keys.public_key().to_bytes().to_vec();
            Some((secret, public))
        }
        Err(_) => None,
    }
}

/// A public key on the pubsub network, as its 32 x-only bytes.
#[derive(Debug)]
pub struct PublicKey {
    pub bytes: Vec<u8>,
}

impl PublicKey {
    /// A copy holding the same bytes.
    pub fn duplicate(&self) -> (r: PublicKey)
        ensures
            r.bytes@ == self.bytes@,
    {
        PublicKey { bytes: slice_to_vec(self.bytes.as_slice()) }
    }
}

/// Byte-wise equality of two byte vectors.
pub fn bytes_eq(a: &Vec<u8>, b: &Vec<u8>) -> (r: bool)
    ensures
        r <==> a@ == b@,
{
    if a.len() != b.len() {
        return false;
    }
    let mut i: usize = 0;
    while i < a.len()
        invariant
            i <= a@.len(),
            a@.len() == b@.len(),
            forall|j: int| 0 <= j < i ==> a@[j] == b@[j],
        decreases a@.len() - i,
    {
        if a[i] != b[i] {
            return false;
        }
        i = i + 1;
    }
    proof {
        assert(a@ =~= b@);
    }
    true
}

/// The signing identity: the secret key and the public key derived from
/// it. Exists only in memory; a logout discards it.
#[derive(Debug)]
pub struct Identity {
    pub secret: Vec<u8>,
    pub public: Vec<u8>,
}

impl Identity {
    /// The public key is exactly the one the key parser derives for this
    /// secret.
    pub open spec fn wf(self) -> bool {
        &&& self.secret@.len() == SECRET_LEN
        &&& keys_of(hex_of(self.secret@)) == Some((self.secret@, self.public@))
    }

    /// Parses a user-supplied secret key (hex or bech32 form) into an
    /// identity. `None` exactly when the input is not a valid secret key.
    pub fn from_input(input: &str) -> (r: Option<Identity>)
        ensures
            r matches Some(id) ==> id.wf() && keys_of(input@) == Some((id.secret@, id.public@)),
            r is None <==> keys_of(input@) is None,
    {
        match parse_keys(input) {
            Some(k) => Some(Identity { secret: k.0, public: k.1 }),
            None => None,
        }
    }

    /// Rebuilds the identity from decrypted secret bytes, as stored at
    /// registration. `None` exactly when the bytes do not form a valid
    /// secret key.
    pub fn from_secret_bytes(secret: &Vec<u8>) -> (r: Option<Identity>)
        ensures
            r matches Some(id) ==> id.wf() && id.secret@ == secret@
                && keys_of(hex_of(secret@)) == Some((id.secret@, id.public@)),
            r is None <==> keys_of(hex_of(secret@)) is None,
    {
        let hex_text = to_hex(secret);
        match parse_keys(hex_text.as_str()) {
            Some(k) => Some(Identity { secret: k.0, public: k.1 }),
            None => None,
        }
    }
}

/// The public key of a well-formed identity is determined by its secret:
/// two well-formed identities over the same secret bytes carry the same
/// public key.
pub proof fn lemma_public_key_determined(id1: Identity, id2: Identity)
    requires
        id1.wf(),
        id2.wf(),
        id1.secret@ == id2.secret@,
    ensures
        id1.public@ == id2.public@,
{
}

} // verus!
