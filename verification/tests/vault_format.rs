use base64::Engine;
use nostr_status_core::errors::VaultError;
use nostr_status_core::vault::{encode_record_fields, parse_record_fields, VaultRecord};

#[test]
fn encode_produces_prefixed_base64() {
    let record = VaultRecord {
        encrypted_payload: vec![0xde, 0xad, 0xbe, 0xef],
        salt: vec![0u8; 16],
    };
    let (enc, salt) = encode_record_fields(&record);
    assert_eq!(enc, "#nip49:3q2+7w==");
    assert_eq!(salt, "AAAAAAAAAAAAAAAAAAAAAA==");
}

#[test]
fn record_fields_round_trip() {
    let record = VaultRecord {
        encrypted_payload: (0u8..60).collect(),
        salt: (10u8..26).collect(),
    };
    let (enc, salt) = encode_record_fields(&record);
    let back = parse_record_fields(&enc, &salt).unwrap();
    assert_eq!(back.encrypted_payload, record.encrypted_payload);
    assert_eq!(back.salt, record.salt);
}

#[test]
fn missing_prefix_is_unsupported_format() {
    let r = parse_record_fields("xnip49:3q2+7w==", "AAAAAAAAAAAAAAAAAAAAAA==");
    assert_eq!(r.unwrap_err(), VaultError::UnsupportedFormat);
    let r = parse_record_fields("", "AAAAAAAAAAAAAAAAAAAAAA==");
    assert_eq!(r.unwrap_err(), VaultError::UnsupportedFormat);
}

#[test]
fn bad_base64_is_malformed_record() {
    let r = parse_record_fields("#nip49:!!!", "AAAAAAAAAAAAAAAAAAAAAA==");
    assert_eq!(r.unwrap_err(), VaultError::MalformedRecord);
    let r = parse_record_fields("#nip49:3q2+7w==", "not base64!");
    assert_eq!(r.unwrap_err(), VaultError::MalformedRecord);
}

#[test]
fn wrong_salt_length_is_malformed_record() {
    // 4 bytes of salt instead of 16
    let r = parse_record_fields("#nip49:3q2+7w==", "3q2+7w==");
    assert_eq!(r.unwrap_err(), VaultError::MalformedRecord);
}

#[test]
fn parse_agrees_with_base64_crate() {
    let payload: Vec<u8> = (0u8..33).collect();
    let salt: Vec<u8> = (50u8..66).collect();
    let enc = format!(
        "#nip49:{}",
        base64::engine::general_purpose::STANDARD.encode(&payload)
    );
    let salt_b64 = base64::engine::general_purpose::STANDARD.encode(&salt);
    let rec = parse_record_fields(&enc, &salt_b64).unwrap();
    assert_eq!(rec.encrypted_payload, payload);
    assert_eq!(rec.salt, salt);
}
