//! Relay topology resolution: parse the relay-list event's entries, select
//! the relays this session may publish through, and fall back to a fixed
//! default set when discovery yields nothing.
//!
//! The resolver is a forward-only state machine (Bootstrap, Query, Decide,
//! Commit); the caller performs the network work of each phase and reports
//! its outcome back.

use vstd::prelude::*;
use vstd::string::*;

use crate::errors::ResolveError;

verus! {

/// The publishing policy a relay-list entry announces for one relay.
/// An entry may also leave the policy unspecified.
#[derive(Clone, Copy, Debug, PartialEq, Eq, Structural)]
pub enum RelayPolicy {
    Read,
    Write,
}

/// One entry of a relay-list event: a relay URL and its announced policy
/// (`None` when unspecified, meaning both read and write).
#[derive(Debug)]
pub struct RelayDescriptor {
    pub url: String,
    pub policy: Option<RelayPolicy>,
}

/// The set of relay URLs a session talks through, with the count of
/// relays that were actually reachable when it was committed.
#[derive(Debug)]
pub struct RelaySet {
    pub urls: Vec<String>,
    pub reachable: usize,
}

/// The views of a list of URL strings.
pub open spec fn urls_view(urls: Seq<String>) -> Seq<Seq<char>> {
    urls.map_values(|s: String| s@)
}

/// Whether a descriptor may be selected: the session needs to publish, so
/// every policy but read-only qualifies.
pub open spec fn selectable(d: RelayDescriptor) -> bool {
    d.policy != Some(RelayPolicy::Read)
}

/// The URLs of the selectable descriptors, in order.
pub open spec fn selected_urls(descs: Seq<RelayDescriptor>) -> Seq<Seq<char>>
    decreases descs.len(),
{
    if descs.len() == 0 {
        Seq::empty()
    } else {
        let rest = selected_urls(descs.drop_last());
        if selectable(descs.last()) {
            rest.push(descs.last().url@)
        } else {
            rest
        }
    }
}

/// The fixed default relays used when discovery yields nothing usable.
pub open spec fn default_relay_urls() -> Seq<Seq<char>> {
    seq!["wss://relay.damus.io"@, "wss://relay.nostr.wirednet.jp"@, "wss://yabu.me"@]
}

/// The well-known discovery relays queried for the relay-list event.
pub open spec fn bootstrap_relay_urls() -> Seq<Seq<char>> {
    seq!["wss://purplepag.es"@, "wss://directory.yabu.me"@]
}

/// The decision rule: the selectable URLs of the received relay-list
/// event, or the fixed defaults when no event arrived or nothing was
/// selectable.
pub open spec fn decide_urls(received: Option<Seq<RelayDescriptor>>) -> Seq<Seq<char>> {
    match received {
        Option::None => default_relay_urls(),
        Option::Some(descs) => {
            let s = selected_urls(descs);
            if s.len() == 0 {
                default_relay_urls()
            } else {
                s
            }
        },
    }
}

/// The fixed default relay list.
pub fn default_relays() -> (r: Vec<String>)
    ensures
        urls_view(r@) == default_relay_urls(),
{
    let mut v: Vec<String> = Vec::new();
    v.push(String::from_str("wss://relay.damus.io"));
    v.push(String::from_str("wss://relay.nostr.wirednet.jp"));
    v.push(String::from_str("wss://yabu.me"));
    proof {
        assert(urls_view(v@) =~= default_relay_urls());
    }
    v
}

/// The discovery relays contacted during the bootstrap phase.
pub fn bootstrap_relays() -> (r: Vec<String>)
    ensures
        urls_view(r@) == bootstrap_relay_urls(),
{
    let mut v: Vec<String> = Vec::new();
    v.push(String::from_str("wss://purplepag.es"));
    v.push(String::from_str("wss://directory.yabu.me"));
    proof {
        assert(urls_view(v@) =~= bootstrap_relay_urls());
    }
    v
}

/// Selects every descriptor whose policy is write or unspecified; never a
/// read-only one.
pub fn select_write_relays(descs: &Vec<RelayDescriptor>) -> (r: Vec<String>)
    ensures
        urls_view(r@) == selected_urls(descs@),
{
    let mut out: Vec<String> = Vec::new();
    let mut i: usize = 0;
    while i < descs.len()
        invariant
            i <= descs@.len(),
            urls_view(out@) == selected_urls(descs@.subrange(0, i as int)),
        decreases descs@.len() - i,
    {
        let d = &descs[i];
        let take = match d.policy {
            Option::Some(RelayPolicy::Read) => false,
            Option::Some(RelayPolicy::Write) => true,
            Option::None => true,
        };
        if take {
            out.push(d.url.clone());
        }
        i = i + 1;
        proof {
            let pre = descs@.subrange(0, i - 1);
            let cur = descs@.subrange(0, i as int);
            assert(cur.drop_last() =~= pre);
            assert(cur.last() == descs@[i - 1]);
            if selectable(descs@[i - 1]) {
                assert(urls_view(out@) =~= selected_urls(pre).push(descs@[i - 1].url@));
            } else {
                assert(urls_view(out@) =~= selected_urls(pre));
            }
        }
    }
    proof {
        assert(descs@.subrange(0, descs@.len() as int) =~= descs@);
    }
    out
}

/// Applies the decision rule to the outcome of the query phase.
pub fn decide_relays(received: &Option<Vec<RelayDescriptor>>) -> (r: Vec<String>)
    ensures
        received matches Some(descs) ==> urls_view(r@) == decide_urls(Some(descs@)),
        received is None ==> urls_view(r@) == decide_urls(None::<Seq<RelayDescriptor>>),
{
    match received {
        Option::Some(descs) => {
            let selected = select_write_relays(descs);
            if selected.len() == 0 {
                default_relays()
            } else {
                selected
            }
        },
        Option::None => default_relays(),
    }
}

/// The phases of one resolution run, in their forward-only order.
pub enum ResolvePhase {
    /// Connect to the discovery relays next.
    Bootstrap,
    /// The relay-list query is open; an event or the deadline ends it.
    Query,
    /// Connect to the decided target URLs next.
    Commit { targets: Vec<String> },
    /// The run ended, successfully or not.
    Done { outcome: Result<RelaySet, ResolveError> },
}

impl ResolvePhase {
    /// Position of a phase in the forward-only order.
    pub open spec fn rank(self) -> int {
        match self {
            ResolvePhase::Bootstrap => 0,
            ResolvePhase::Query => 1,
            ResolvePhase::Commit { .. } => 2,
            ResolvePhase::Done { .. } => 3,
        }
    }
}

/// One relay topology resolution run. The caller does the network work of
/// each phase and reports what happened; every transition moves strictly
/// forward.
pub struct Resolver {
    pub phase: ResolvePhase,
}

impl Resolver {
    /// A fresh run, about to bootstrap.
    pub fn new() -> (r: Resolver)
        ensures
            r.phase is Bootstrap,
    {
        Resolver { phase: ResolvePhase::Bootstrap }
    }

    /// The discovery relays have been contacted; the query phase begins.
    pub fn on_bootstrapped(&mut self)
        requires
            old(self).phase is Bootstrap,
        ensures
            final(self).phase is Query,
            final(self).phase.rank() > old(self).phase.rank(),
    {
        self.phase = ResolvePhase::Query;
    }

    /// The identity's own relay-list event arrived before the deadline:
    /// decide from its entries.
    pub fn on_relay_list(&mut self, descriptors: &Vec<RelayDescriptor>)
        requires
            old(self).phase is Query,
        ensures
            final(self).phase matches ResolvePhase::Commit { targets }
                && urls_view(targets@) == decide_urls(Some(descriptors@)),
            final(self).phase.rank() > old(self).phase.rank(),
    {
        let targets = decide_relays(&Some(slice_to_vec_descs(descriptors)));
        self.phase = ResolvePhase::Commit { targets };
    }

    /// The deadline elapsed with no relay-list event: fall back to the
    /// fixed default list.
    pub fn on_query_deadline(&mut self)
        requires
            old(self).phase is Query,
        ensures
            final(self).phase matches ResolvePhase::Commit { targets }
                && urls_view(targets@) == default_relay_urls(),
            final(self).phase.rank() > old(self).phase.rank(),
    {
        let targets = default_relays();
        self.phase = ResolvePhase::Commit { targets };
    }

    /// The connection attempts finished: `connected` holds the target URLs
    /// that were added without error, `reachable` how many relays are
    /// reachable. A run that ends with no reachable relay at all is the
    /// fatal `NoReachableRelays`.
    pub fn on_committed(&mut self, connected: Vec<String>, reachable: usize)
        requires
            old(self).phase is Commit,
        ensures
            final(self).phase matches ResolvePhase::Done { outcome },
            final(self).phase.rank() > old(self).phase.rank(),
            reachable == 0 ==> final(self).phase->outcome
                == Err::<RelaySet, ResolveError>(ResolveError::NoReachableRelays),
            reachable > 0 ==> (final(self).phase->outcome matches Ok(rs)
                && rs.urls == connected && rs.reachable == reachable),
    {
        let outcome = if reachable == 0 {
            Err(ResolveError::NoReachableRelays)
        } else {
            Ok(RelaySet { urls: connected, reachable })
        };
        self.phase = ResolvePhase::Done { outcome };
    }
}

/// A copy of a descriptor list.
fn slice_to_vec_descs(descs: &Vec<RelayDescriptor>) -> (r: Vec<RelayDescriptor>)
    ensures
        r@ == descs@,
{
    let mut out: Vec<RelayDescriptor> = Vec::new();
    let mut i: usize = 0;
    while i < descs.len()
        invariant
            i <= descs@.len(),
            out@ == descs@.subrange(0, i as int),
        decreases descs@.len() - i,
    {
        let d = &descs[i];
        out.push(RelayDescriptor { url: d.url.clone(), policy: d.policy });
        i = i + 1;
        proof {
            assert(descs@.subrange(0, i - 1).push(descs@[i - 1]) =~= descs@.subrange(0, i as int));
        }
    }
    proof {
        assert(descs@.subrange(0, descs@.len() as int) =~= descs@);
    }
    out
}

/// The decision is a pure function of the received relay-list entries:
/// equal entry lists always select the same URLs, however often the
/// decision runs.
pub proof fn lemma_decide_deterministic(d1: Seq<RelayDescriptor>, d2: Seq<RelayDescriptor>)
    requires
        d1 == d2,
    ensures
        decide_urls(Some(d1)) == decide_urls(Some(d2)),
{
}

/// Fallback law: with no relay-list event, the decided URLs are exactly
/// the fixed default list.
pub proof fn lemma_fallback_is_default()
    ensures
        decide_urls(None::<Seq<RelayDescriptor>>) == default_relay_urls(),
{
}

/// A read-only entry is never selected: every selected URL comes from a
/// selectable descriptor of the list.
pub proof fn lemma_no_read_only_selected(descs: Seq<RelayDescriptor>)
    ensures
        forall|u: Seq<char>| selected_urls(descs).contains(u)
            ==> exists|i: int| 0 <= i < descs.len() && descs[i].url@ == u && selectable(descs[i]),
    decreases descs.len(),
{
    if descs.len() > 0 {
        lemma_no_read_only_selected(descs.drop_last());
        assert forall|u: Seq<char>| selected_urls(descs).contains(u) implies exists|i: int|
            0 <= i < descs.len() && descs[i].url@ == u && selectable(descs[i]) by {
            let rest = selected_urls(descs.drop_last());
            if rest.contains(u) {
                let j = choose|j: int|
                    0 <= j < descs.drop_last().len() && descs.drop_last()[j].url@ == u
                        && selectable(descs.drop_last()[j]);
                assert(descs[j].url@ == u && selectable(descs[j]));
            } else {
                assert(selectable(descs.last()) && descs.last().url@ == u);
                assert(descs[descs.len() - 1].url@ == u);
            }
        }
    }
}

} // verus!
