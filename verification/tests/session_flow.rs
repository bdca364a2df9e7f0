use nostr_status_core::collector::{EventTag, InboundEvent};
use nostr_status_core::crypto::{derive_key, encrypt};
use nostr_status_core::relay::RelayPolicy;
use nostr_status_core::errors::{CryptoError, LoginError, PublishError, RegisterError};
use nostr_status_core::keys::{Identity, PublicKey};
use nostr_status_core::relay::{decide_relays, default_relays, RelaySet};
use nostr_status_core::session::{
    contacts_outcome, register_identity, relay_list_outcome, status_entry_of,
    timeline_from_events, unlock_identity, AppTab, Session, SessionState,
};
use nostr_status_core::vault::{encode_record_fields, VaultRecord};

const K1_HEX: &str = "0000000000000000000000000000000000000000000000000000000000000001";
const G_X_HEX: &str = "79be667ef9dcbbac55a06295ce870b07029bfcdb2dce28d959f2815b16f81798";

fn key(n: u8) -> PublicKey {
    PublicKey { bytes: vec![n; 32] }
}

fn event(author: u8, kind: u32, tags: Vec<EventTag>, content: &str) -> InboundEvent {
    InboundEvent { author: key(author), kind, tags, content: content.to_string() }
}

fn logged_in_state() -> SessionState {
    let identity = Identity::from_input(K1_HEX).unwrap();
    let mut state = SessionState::new();
    state.complete_login(Session {
        identity,
        relays: RelaySet { urls: default_relays(), reachable: 3 },
        follows: vec![key(1)],
        timeline: vec![],
    });
    state
}

#[test]
fn identity_from_known_secret() {
    let id = Identity::from_input(K1_HEX).unwrap();
    assert_eq!(hex::encode(&id.secret), K1_HEX);
    assert_eq!(hex::encode(&id.public), G_X_HEX);
    // the same keypair the key crate derives
    let keys = nostr::key::Keys::parse(K1_HEX).unwrap();
    assert_eq!(id.public, keys.public_key().to_bytes().to_vec());
}

#[test]
fn invalid_secret_key_is_rejected() {
    assert!(Identity::from_input("not a key").is_none());
    // 32 bytes of 0xff exceed the curve order
    let too_big = "f".repeat(64);
    assert!(Identity::from_input(&too_big).is_none());
    assert_eq!(
        register_identity("not a key", "pw").unwrap_err(),
        RegisterError::InvalidKey
    );
}

#[test]
fn registration_then_login_recovers_identity() {
    // end-to-end: register, persist the fields, log back in
    let (identity, record) = register_identity(K1_HEX, "correct horse").unwrap();
    assert_eq!(hex::encode(&identity.public), G_X_HEX);
    let (enc_field, salt_field) = encode_record_fields(&record);
    let unlocked = unlock_identity(&enc_field, &salt_field, "correct horse").unwrap();
    assert_eq!(unlocked.secret, identity.secret);
    assert_eq!(unlocked.public, identity.public);
}

#[test]
fn login_with_wrong_passphrase_fails_as_decryption() {
    let (_, record) = register_identity(K1_HEX, "correct horse").unwrap();
    let (enc_field, salt_field) = encode_record_fields(&record);
    assert_eq!(
        unlock_identity(&enc_field, &salt_field, "wrong horse").unwrap_err(),
        LoginError::Crypto(CryptoError::DecryptionFailed)
    );
}

#[test]
fn login_with_invalid_stored_key_fails() {
    // seal 32 bytes that are no valid secret key (above the curve order)
    let salt: Vec<u8> = vec![4u8; 16];
    let key = derive_key("pw", &salt);
    let not_a_scalar: Vec<u8> = vec![0xffu8; 32];
    let payload = encrypt(&key, &not_a_scalar);
    let (enc_field, salt_field) =
        encode_record_fields(&VaultRecord { encrypted_payload: payload, salt });
    assert_eq!(
        unlock_identity(&enc_field, &salt_field, "pw").unwrap_err(),
        LoginError::InvalidStoredKey
    );
}

#[test]
fn status_length_boundary() {
    let state = logged_in_state();
    let ok_text = "a".repeat(140);
    assert!(state.prepare_status(&ok_text, None).is_ok());
    let long_text = "a".repeat(141);
    assert_eq!(
        state.prepare_status(&long_text, None).unwrap_err(),
        PublishError::StatusTooLong
    );
}

#[test]
fn status_length_counts_characters_not_bytes() {
    let state = logged_in_state();
    let ok_text = "é".repeat(140);
    assert!(state.prepare_status(&ok_text, None).is_ok());
    let long_text = "é".repeat(141);
    assert_eq!(
        state.prepare_status(&long_text, None).unwrap_err(),
        PublishError::StatusTooLong
    );
}

#[test]
fn publish_requires_login() {
    let state = SessionState::new();
    assert_eq!(
        state.prepare_status("hello", None).unwrap_err(),
        PublishError::NotAuthenticated
    );
}

#[test]
fn omitted_category_defaults_to_general() {
    let state = logged_in_state();
    let draft = state.prepare_status("hello", None).unwrap();
    assert_eq!(draft.category, "general");
    assert_eq!(draft.kind, 30315);
    assert_eq!(draft.text, "hello");
    let named = "work".to_string();
    let draft = state.prepare_status("busy", Some(&named)).unwrap();
    assert_eq!(draft.category, "work");
}

#[test]
fn logout_discards_the_session() {
    let mut state = logged_in_state();
    assert!(state.is_logged_in());
    state.logout();
    assert!(!state.is_logged_in());
}

#[test]
fn relay_list_event_resolves_to_write_relays() {
    // scenario: wss://a announced as write, wss://b as read
    let tags = vec![
        EventTag::Relay { url: "wss://a".to_string(), policy: Some(RelayPolicy::Write) },
        EventTag::Relay { url: "wss://b".to_string(), policy: Some(RelayPolicy::Read) },
    ];
    let events = vec![event(1, 10002, tags, "")];
    let received = relay_list_outcome(&events);
    let urls = decide_relays(&received);
    assert_eq!(urls, vec!["wss://a".to_string()]);
}

#[test]
fn no_relay_list_event_resolves_to_defaults() {
    let events: Vec<InboundEvent> = Vec::new();
    let received = relay_list_outcome(&events);
    assert!(received.is_none());
    assert_eq!(decide_relays(&received), default_relays());
}

#[test]
fn missing_contact_list_is_fatal() {
    let events: Vec<InboundEvent> = Vec::new();
    assert_eq!(
        contacts_outcome(&events).unwrap_err(),
        LoginError::ContactListNotFound
    );
}

#[test]
fn contact_list_replaces_follow_set() {
    let tags = vec![
        EventTag::Author { key: key(1) },
        EventTag::Author { key: key(2) },
        EventTag::Author { key: key(1) },
    ];
    let events = vec![event(7, 3, tags, "")];
    let follows = contacts_outcome(&events).unwrap();
    assert_eq!(follows.len(), 2);
}

#[test]
fn timeline_entries_carry_category_and_text() {
    let with_category = event(
        1,
        30315,
        vec![EventTag::Category { name: "music".to_string() }],
        "listening",
    );
    let without_category = event(2, 30315, vec![EventTag::Other], "idle");
    let entries = timeline_from_events(&vec![with_category, without_category]);
    assert_eq!(entries.len(), 2);
    assert_eq!(entries[0].category, "music");
    assert_eq!(entries[0].text, "listening");
    assert_eq!(entries[1].category, "general");
    assert_eq!(entries[1].text, "idle");
    let single = status_entry_of(&event(3, 30315, vec![], "plain"));
    assert_eq!(single.category, "general");
}

#[test]
fn empty_timeline_is_benign() {
    let entries = timeline_from_events(&Vec::new());
    assert!(entries.is_empty());
}

#[test]
fn app_tabs_compare() {
    assert_eq!(AppTab::Home, AppTab::Home);
    assert_ne!(AppTab::Home, AppTab::Relays);
    assert_ne!(AppTab::Relays, AppTab::Profile);
}

#[test]
fn registration_draws_fresh_salt_and_nonce() {
    let (_, record_a) = register_identity(K1_HEX, "pw").unwrap();
    let (_, record_b) = register_identity(K1_HEX, "pw").unwrap();
    assert_eq!(record_a.salt.len(), 16);
    assert_ne!(record_a.salt, record_b.salt, "two registrations shared a salt");
    assert_ne!(
        record_a.encrypted_payload, record_b.encrypted_payload,
        "two registrations shared a nonce and keystream"
    );
}
