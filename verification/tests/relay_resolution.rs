use nostr_status_core::errors::ResolveError;
use nostr_status_core::relay::{
    bootstrap_relays, decide_relays, default_relays, select_write_relays, RelayDescriptor,
    RelayPolicy, ResolvePhase, Resolver,
};

fn descriptor(url: &str, policy: Option<RelayPolicy>) -> RelayDescriptor {
    RelayDescriptor { url: url.to_string(), policy }
}

#[test]
fn fixed_relay_lists() {
    assert_eq!(
        default_relays(),
        vec![
            "wss://relay.damus.io".to_string(),
            "wss://relay.nostr.wirednet.jp".to_string(),
            "wss://yabu.me".to_string(),
        ]
    );
    assert_eq!(
        bootstrap_relays(),
        vec!["wss://purplepag.es".to_string(), "wss://directory.yabu.me".to_string()]
    );
}

#[test]
fn write_and_unspecified_are_selected_read_is_not() {
    let descs = vec![
        descriptor("wss://a", Some(RelayPolicy::Write)),
        descriptor("wss://b", Some(RelayPolicy::Read)),
        descriptor("wss://c", None),
    ];
    assert_eq!(
        select_write_relays(&descs),
        vec!["wss://a".to_string(), "wss://c".to_string()]
    );
}

#[test]
fn decide_is_deterministic() {
    let descs = vec![
        descriptor("wss://a", Some(RelayPolicy::Write)),
        descriptor("wss://b", Some(RelayPolicy::Read)),
    ];
    let once = decide_relays(&Some(descs));
    let descs_again = vec![
        descriptor("wss://a", Some(RelayPolicy::Write)),
        descriptor("wss://b", Some(RelayPolicy::Read)),
    ];
    let twice = decide_relays(&Some(descs_again));
    assert_eq!(once, twice);
    assert_eq!(once, vec!["wss://a".to_string()]);
}

#[test]
fn no_event_falls_back_to_defaults() {
    assert_eq!(decide_relays(&None), default_relays());
}

#[test]
fn all_read_only_falls_back_to_defaults() {
    let descs = vec![
        descriptor("wss://a", Some(RelayPolicy::Read)),
        descriptor("wss://b", Some(RelayPolicy::Read)),
    ];
    assert_eq!(decide_relays(&Some(descs)), default_relays());
}

#[test]
fn resolver_commits_received_write_relays() {
    let mut resolver = Resolver::new();
    assert!(matches!(resolver.phase, ResolvePhase::Bootstrap));
    resolver.on_bootstrapped();
    assert!(matches!(resolver.phase, ResolvePhase::Query));
    let descs = vec![
        descriptor("wss://a", Some(RelayPolicy::Write)),
        descriptor("wss://b", Some(RelayPolicy::Read)),
    ];
    resolver.on_relay_list(&descs);
    let targets = match &resolver.phase {
        ResolvePhase::Commit { targets } => targets.clone(),
        other => panic!("unexpected phase rank {:?}", matches!(other, ResolvePhase::Done { .. })),
    };
    assert_eq!(targets, vec!["wss://a".to_string()]);
    resolver.on_committed(targets.clone(), targets.len());
    match &resolver.phase {
        ResolvePhase::Done { outcome } => {
            let set = outcome.as_ref().unwrap();
            assert_eq!(set.urls, vec!["wss://a".to_string()]);
            assert_eq!(set.reachable, 1);
        },
        _ => panic!("resolver did not finish"),
    }
}

#[test]
fn resolver_deadline_commits_default_list() {
    let mut resolver = Resolver::new();
    resolver.on_bootstrapped();
    resolver.on_query_deadline();
    let targets = match &resolver.phase {
        ResolvePhase::Commit { targets } => targets.clone(),
        _ => panic!("resolver did not reach commit"),
    };
    assert_eq!(targets, default_relays());
    resolver.on_committed(targets.clone(), 3);
    match &resolver.phase {
        ResolvePhase::Done { outcome } => {
            assert_eq!(outcome.as_ref().unwrap().urls, default_relays());
        },
        _ => panic!("resolver did not finish"),
    }
}

#[test]
fn zero_reachable_relays_is_fatal() {
    let mut resolver = Resolver::new();
    resolver.on_bootstrapped();
    resolver.on_query_deadline();
    let targets = match &resolver.phase {
        ResolvePhase::Commit { targets } => targets.clone(),
        _ => panic!("resolver did not reach commit"),
    };
    resolver.on_committed(targets, 0);
    match &resolver.phase {
        ResolvePhase::Done { outcome } => {
            assert_eq!(*outcome.as_ref().unwrap_err(), ResolveError::NoReachableRelays);
        },
        _ => panic!("resolver did not finish"),
    }
}
