//! Bounded event collector: one reusable algorithm behind relay-list
//! discovery, follow-list discovery and timeline retrieval.
//!
//! The caller opens a subscription for a filter, races a deadline against
//! the inbound stream, and reports each inbound event and the deadline to
//! the collector; the collector keeps the matching events and decides when
//! collection is over. Per run, at most one of a timeout and a successful
//! single-event collection is reported.

use vstd::prelude::*;

use crate::keys::{bytes_eq, PublicKey};
use crate::relay::{RelayDescriptor, RelayPolicy};

verus! {

/// A subscription filter: the authors of interest (empty means any), the
/// event kind, and an optional count hint for the relay.
pub struct EventFilter {
    pub authors: Vec<PublicKey>,
    pub kind: u32,
    pub limit: Option<u32>,
}

/// A tag of an inbound event, reduced to what the session reads.
pub enum EventTag {
    /// A relay-list entry: a relay URL with its announced policy.
    Relay { url: String, policy: Option<RelayPolicy> },
    /// A followed public key of a follow-list event.
    Author { key: PublicKey },
    /// The category identifier of a status event.
    Category { name: String },
    /// Any tag the session does not read.
    Other,
}

/// An inbound event, reduced to what the session reads.
pub struct InboundEvent {
    pub author: PublicKey,
    pub kind: u32,
    pub tags: Vec<EventTag>,
    pub content: String,
}

/// The byte views of a list of public keys.
pub open spec fn key_views(keys: Seq<PublicKey>) -> Seq<Seq<u8>> {
    keys.map_values(|k: PublicKey| k.bytes@)
}

/// Whether an inbound event matches a filter: the kind is the filter's,
/// and, where the filter names authors, the event's author is one of them.
pub open spec fn event_matches(filter: EventFilter, ev: InboundEvent) -> bool {
    &&& ev.kind == filter.kind
    &&& (filter.authors@.len() == 0 || key_views(filter.authors@).contains(ev.author.bytes@))
}

/// Whether an inbound event matches the filter.
pub fn matches_filter(filter: &EventFilter, ev: &InboundEvent) -> (r: bool)
    ensures
        r == event_matches(*filter, *ev),
{
    if ev.kind != filter.kind {
        return false;
    }
    if filter.authors.len() == 0 {
        return true;
    }
    let mut i: usize = 0;
    while i < filter.authors.len()
        invariant
            i <= filter.authors@.len(),
            ev.kind == filter.kind,
            forall|j: int| 0 <= j < i ==> filter.authors@[j].bytes@ != ev.author.bytes@,
        decreases filter.authors@.len() - i,
    {
        if bytes_eq(&filter.authors[i].bytes, &ev.author.bytes) {
            proof {
                assert(key_views(filter.authors@)[i as int] == ev.author.bytes@);
                assert(key_views(filter.authors@).contains(ev.author.bytes@));
            }
            return true;
        }
        i = i + 1;
    }
    proof {
        assert forall|j: int| 0 <= j < key_views(filter.authors@).len()
            implies key_views(filter.authors@)[j] != ev.author.bytes@ by {
            assert(filter.authors@[j].bytes@ != ev.author.bytes@);
        }
    }
    false
}

/// One bounded collection run: keeps every matching event that arrives
/// before the deadline, and ends early after the first match when the
/// caller asked for a single event.
pub struct Collector {
    pub filter: EventFilter,
    pub stop_after_first: bool,
    pub collected: Vec<InboundEvent>,
    pub done: bool,
    pub timed_out: bool,
}

impl Collector {
    /// Every kept event matches the filter; a single-event run keeps at
    /// most one event, and reports at most one of a timeout and a
    /// collected event.
    pub open spec fn wf(self) -> bool {
        &&& (self.timed_out ==> self.done)
        &&& (self.stop_after_first ==> self.collected@.len() <= 1)
        &&& (self.stop_after_first && self.timed_out ==> self.collected@.len() == 0)
        &&& (self.stop_after_first && self.collected@.len() == 1 ==> self.done)
        &&& (forall|i: int|
            0 <= i < self.collected@.len() ==> event_matches(
                self.filter,
                #[trigger] self.collected@[i],
            ))
    }

    /// Opens a run for a filter. `stop_after_first` asks for a single
    /// event; otherwise collection goes on until the deadline.
    pub fn new(filter: EventFilter, stop_after_first: bool) -> (r: Collector)
        ensures
            r.wf(),
            r.filter == filter,
            r.stop_after_first == stop_after_first,
            r.collected@.len() == 0,
            !r.done,
            !r.timed_out,
    {
        Collector {
            filter,
            stop_after_first,
            collected: Vec::new(),
            done: false,
            timed_out: false,
        }
    }

    /// Feeds one inbound event. A matching event is kept; a single-event
    /// run is then over. An event arriving after the run ended is dropped
    /// as a benign race. Returns whether the run is over.
    pub fn on_event(&mut self, ev: InboundEvent) -> (done: bool)
        requires
            old(self).wf(),
        ensures
            final(self).wf(),
            final(self).filter == old(self).filter,
            final(self).stop_after_first == old(self).stop_after_first,
            done == final(self).done,
            old(self).done ==> *final(self) == *old(self),
            (!old(self).done && event_matches(old(self).filter, ev)) ==> {
                &&& final(self).collected@ == old(self).collected@.push(ev)
                &&& final(self).done == old(self).stop_after_first
                &&& final(self).timed_out == old(self).timed_out
            },
            (!old(self).done && !event_matches(old(self).filter, ev)) ==> *final(self) == *old(self),
    {
        if self.done {
            return true;
        }
        if matches_filter(&self.filter, &ev) {
            self.collected.push(ev);
            if self.stop_after_first {
                self.done = true;
            }
        }
        self.done
    }

    /// The deadline elapsed: the run is over, flagged as timed out, with
    /// whatever was collected so far. A deadline after the run already
    /// ended changes nothing.
    pub fn on_deadline(&mut self)
        requires
            old(self).wf(),
        ensures
            final(self).wf(),
            final(self).filter == old(self).filter,
            final(self).stop_after_first == old(self).stop_after_first,
            final(self).done,
            old(self).done ==> *final(self) == *old(self),
            !old(self).done ==> {
                &&& final(self).timed_out
                &&& final(self).collected@ == old(self).collected@
            },
    {
        if !self.done {
            self.done = true;
            self.timed_out = true;
        }
    }

    /// Hands out the collected events and the timeout flag. An empty
    /// collection is not an error; the caller decides what emptiness
    /// means.
    pub fn results(self) -> (r: (Vec<InboundEvent>, bool))
        ensures
            r.0 == self.collected,
            r.1 == self.timed_out,
    {
        (self.collected, self.timed_out)
    }
}

/// The relay-list entries among an event's tags, in order.
pub open spec fn spec_relay_descriptors(tags: Seq<EventTag>) -> Seq<RelayDescriptor>
    decreases tags.len(),
{
    if tags.len() == 0 {
        Seq::empty()
    } else {
        let rest = spec_relay_descriptors(tags.drop_last());
        match tags.last() {
            EventTag::Relay { url, policy } => rest.push(RelayDescriptor { url, policy }),
            _ => rest,
        }
    }
}

/// Extracts the relay-list entries of a relay-list event's tags.
pub fn relay_descriptors_of(tags: &Vec<EventTag>) -> (r: Vec<RelayDescriptor>)
    ensures
        r@ == spec_relay_descriptors(tags@),
{
    let mut out: Vec<RelayDescriptor> = Vec::new();
    let mut i: usize = 0;
    while i < tags.len()
        invariant
            i <= tags@.len(),
            out@ == spec_relay_descriptors(tags@.subrange(0, i as int)),
        decreases tags@.len() - i,
    {
        match &tags[i] {
            EventTag::Relay { url, policy } => {
                out.push(RelayDescriptor { url: url.clone(), policy: *policy });
            },
            _ => {},
        }
        i = i + 1;
        proof {
            let cur = tags@.subrange(0, i as int);
            assert(cur.drop_last() =~= tags@.subrange(0, i - 1));
            assert(cur.last() == tags@[i - 1]);
        }
    }
    proof {
        assert(tags@.subrange(0, tags@.len() as int) =~= tags@);
    }
    out
}

/// The byte views of the followed keys among an event's tags, in order,
/// duplicates included.
pub open spec fn tag_author_keys(tags: Seq<EventTag>) -> Seq<Seq<u8>>
    decreases tags.len(),
{
    if tags.len() == 0 {
        Seq::empty()
    } else {
        let rest = tag_author_keys(tags.drop_last());
        match tags.last() {
            EventTag::Author { key } => rest.push(key.bytes@),
            _ => rest,
        }
    }
}

/// Whether a list of keys holds one with these bytes.
pub fn contains_key(keys: &Vec<PublicKey>, key: &PublicKey) -> (r: bool)
    ensures
        r == key_views(keys@).contains(key.bytes@),
{
    let mut i: usize = 0;
    while i < keys.len()
        invariant
            i <= keys@.len(),
            forall|j: int| 0 <= j < i ==> keys@[j].bytes@ != key.bytes@,
        decreases keys@.len() - i,
    {
        if bytes_eq(&keys[i].bytes, &key.bytes) {
            proof {
                assert(key_views(keys@)[i as int] == key.bytes@);
                assert(key_views(keys@).contains(key.bytes@));
            }
            return true;
        }
        i = i + 1;
    }
    proof {
        assert forall|j: int| 0 <= j < key_views(keys@).len() implies key_views(keys@)[j]
            != key.bytes@ by {
            assert(keys@[j].bytes@ != key.bytes@);
        }
    }
    false
}

/// Extracts the followed keys of a follow-list event's tags: exactly the
/// keys the tags announce, each once, replacing any previous follow set.
pub fn follow_keys_of(tags: &Vec<EventTag>) -> (r: Vec<PublicKey>)
    ensures
        forall|i: int, j: int| 0 <= i < j < r@.len() ==> r@[i].bytes@ != r@[j].bytes@,
        forall|b: Seq<u8>| #[trigger] key_views(r@).contains(b) <==> tag_author_keys(tags@).contains(b),
{
    let mut out: Vec<PublicKey> = Vec::new();
    let mut i: usize = 0;
    while i < tags.len()
        invariant
            i <= tags@.len(),
            forall|p: int, q: int| 0 <= p < q < out@.len() ==> out@[p].bytes@ != out@[q].bytes@,
            forall|b: Seq<u8>| #[trigger] key_views(out@).contains(b) <==> tag_author_keys(
                tags@.subrange(0, i as int),
            ).contains(b),
        decreases tags@.len() - i,
    {
        let ghost prev = out@;
        let ghost prev_keys = tag_author_keys(tags@.subrange(0, i as int));
        match &tags[i] {
            EventTag::Author { key } => {
                if !contains_key(&out, key) {
                    out.push(key.duplicate());
                }
            },
            _ => {},
        }
        i = i + 1;
        proof {
            let cur = tags@.subrange(0, i as int);
            assert(cur.drop_last() =~= tags@.subrange(0, i - 1));
            assert(cur.last() == tags@[i - 1]);
            match tags@[i - 1] {
                EventTag::Author { key } => {
                    assert(tag_author_keys(cur) == prev_keys.push(key.bytes@));
                    lemma_push_contains(prev_keys, key.bytes@);
                    if out@.len() > prev.len() {
                        // a fresh key was appended
                        assert(out@[out@.len() - 1].bytes@ == key.bytes@);
                        assert(key_views(out@) =~= key_views(prev).push(key.bytes@));
                        lemma_push_contains(key_views(prev), key.bytes@);
                        assert(!key_views(prev).contains(key.bytes@));
                        assert forall|p: int| 0 <= p < prev.len() implies out@[p].bytes@
                            != key.bytes@ by {
                            assert(key_views(prev)[p] == prev[p].bytes@);
                        }
                        assert forall|b: Seq<u8>| #[trigger] key_views(out@).contains(b)
                            <==> tag_author_keys(cur).contains(b) by {
                            assert(key_views(out@).contains(b) <==> key_views(prev).push(
                                key.bytes@,
                            ).contains(b));
                            assert(key_views(prev).contains(b) <==> prev_keys.contains(b));
                        }
                    } else {
                        // the key was already present
                        assert(key_views(out@).contains(key.bytes@));
                        assert forall|b: Seq<u8>| #[trigger] key_views(out@).contains(b)
                            <==> tag_author_keys(cur).contains(b) by {
                            assert(key_views(prev).contains(b) <==> prev_keys.contains(b));
                        }
                    }
                },
                _ => {
                    assert(tag_author_keys(cur) == prev_keys);
                },
            }
        }
    }
    proof {
        assert(tags@.subrange(0, tags@.len() as int) =~= tags@);
    }
    out
}

/// A sequence extended by one element holds exactly the old elements and
/// the new one.
proof fn lemma_push_contains(s: Seq<Seq<u8>>, x: Seq<u8>)
    ensures
        forall|b: Seq<u8>| #[trigger] s.push(x).contains(b) <==> (s.contains(b) || b == x),
{
    assert forall|b: Seq<u8>| #[trigger] s.push(x).contains(b) implies (s.contains(b) || b == x) by {
        let j = choose|j: int| 0 <= j < s.push(x).len() && s.push(x)[j] == b;
        if j < s.len() {
            assert(s[j] == b);
        }
    }
    assert forall|b: Seq<u8>| (s.contains(b) || b == x) implies #[trigger] s.push(x).contains(
        b,
    ) by {
        if s.contains(b) {
            let j = choose|j: int| 0 <= j < s.len() && s[j] == b;
            assert(s.push(x)[j] == b);
        } else {
            assert(s.push(x)[s.len() as int] == b);
        }
    }
}

} // verus!
