use nostr_status_core::keys::{bytes_eq, Identity, PublicKey};
use nostr_status_core::session::{contact_list_filter, relay_list_filter, timeline_filter};

#[test]
fn identity_rebuilds_from_secret_bytes() {
    // exercises the hex and key-parsing chain: the identity rebuilt from
    // the raw secret bytes carries the same keypair
    let hex_key = "0000000000000000000000000000000000000000000000000000000000000002";
    let id = Identity::from_input(hex_key).unwrap();
    let rebuilt = Identity::from_secret_bytes(&id.secret).unwrap();
    assert_eq!(rebuilt.secret, id.secret);
    assert_eq!(rebuilt.public, id.public);
    // bytes that form no valid secret key are rejected
    let invalid: Vec<u8> = vec![0u8; 32];
    assert!(Identity::from_secret_bytes(&invalid).is_none());
}

#[test]
fn byte_equality() {
    assert!(bytes_eq(&vec![1, 2, 3], &vec![1, 2, 3]));
    assert!(!bytes_eq(&vec![1, 2, 3], &vec![1, 2, 4]));
    assert!(!bytes_eq(&vec![1, 2, 3], &vec![1, 2]));
    assert!(bytes_eq(&Vec::new(), &Vec::new()));
}

#[test]
fn query_filters_carry_protocol_constants() {
    let me = PublicKey { bytes: vec![9u8; 32] };
    let f = relay_list_filter(&me);
    assert_eq!(f.kind, 10002);
    assert_eq!(f.limit, Some(1));
    assert_eq!(f.authors.len(), 1);
    assert_eq!(f.authors[0].bytes, me.bytes);

    let f = contact_list_filter(&me);
    assert_eq!(f.kind, 3);
    assert_eq!(f.limit, Some(1));

    let follows = vec![PublicKey { bytes: vec![1u8; 32] }, PublicKey { bytes: vec![2u8; 32] }];
    let f = timeline_filter(&follows);
    assert_eq!(f.kind, 30315);
    assert_eq!(f.limit, Some(20));
    assert_eq!(f.authors.len(), 2);
    assert_eq!(f.authors[1].bytes, follows[1].bytes);
}
