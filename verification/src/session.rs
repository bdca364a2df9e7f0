//! Identity session: the orchestrator's decision logic.
//!
//! Login runs Authenticating, Discovering Relays, Fetching Follows and
//! Fetching Timeline before the session is logged in; any failure on the
//! way leaves the state logged out. The caller drives the network phases
//! and feeds their outcomes to the stage functions here.

use vstd::prelude::*;
use vstd::string::*;

use crate::collector::{
    key_views, spec_relay_descriptors, tag_author_keys, EventFilter, EventTag, InboundEvent,
    follow_keys_of, relay_descriptors_of,
};
use crate::crypto::{decrypt, derive_key, encrypt, pbkdf2_key_of, payload_seals, random_bytes};
use crate::crypto::{KEY_LEN, PBKDF2_ROUNDS, SALT_LEN};
use crate::errors::{CryptoError, LoginError, PublishError, RegisterError, VaultError};
use crate::keys::{hex_of, keys_of, Identity, PublicKey};
use crate::relay::{RelayDescriptor, RelaySet};
use crate::vault::{base64_of, encrypted_field_of, has_scheme_prefix, parse_record_fields, VaultRecord};

verus! {

/// Event kind of a relay-list announcement.
pub const RELAY_LIST_KIND: u32 = 10002;

/// Event kind of a follow-list announcement.
pub const CONTACT_LIST_KIND: u32 = 3;

/// Event kind of a status post.
pub const STATUS_KIND: u32 = 30315;

/// Count hint sent with the timeline subscription.
pub const TIMELINE_LIMIT: u32 = 20;

/// Longest status text accepted, in characters.
pub const MAX_STATUS_LEN: usize = 140;

/// The tab the user interface currently shows.
#[derive(Debug, PartialEq, Eq, Copy, Clone)]
pub enum AppTab {
    Home,
    Relays,
    Profile,
}

/// One entry of the status timeline.
#[derive(Debug)]
pub struct StatusEntry {
    pub author: PublicKey,
    pub category: String,
    pub text: String,
}

/// A status event ready to be signed and published.
#[derive(Debug)]
pub struct StatusDraft {
    pub kind: u32,
    pub category: String,
    pub text: String,
}

/// A ready session: the decrypted identity, the committed relay set, the
/// follow set, and the fetched timeline.
pub struct Session {
    pub identity: Identity,
    pub relays: RelaySet,
    pub follows: Vec<PublicKey>,
    pub timeline: Vec<StatusEntry>,
}

impl Session {
    pub open spec fn wf(self) -> bool {
        self.identity.wf()
    }
}

/// The session state visible to the interface: logged out, or logged in
/// with a ready session. No partially initialized state is ever exposed.
pub enum SessionState {
    LoggedOut,
    LoggedIn { session: Session },
}

impl SessionState {
    /// A logged-in state always carries a well-formed session.
    pub open spec fn wf(self) -> bool {
        self matches SessionState::LoggedIn { session } ==> session.wf()
    }

    /// The initial, logged-out state.
    pub fn new() -> (r: SessionState)
        ensures
            r is LoggedOut,
            r.wf(),
    {
        SessionState::LoggedOut
    }

    /// Whether a session is logged in.
    pub fn is_logged_in(&self) -> (r: bool)
        ensures
            r == (self is LoggedIn),
    {
        match self {
            SessionState::LoggedIn { .. } => true,
            SessionState::LoggedOut => false,
        }
    }

    /// Installs a fully assembled session: the one transition into the
    /// logged-in state.
    pub fn complete_login(&mut self, session: Session)
        requires
            *old(self) is LoggedOut,
            session.wf(),
        ensures
            final(self).wf(),
            *final(self) matches SessionState::LoggedIn { session: s } && s == session,
    {
        *self = SessionState::LoggedIn { session };
    }

    /// Logs out: discards the identity and every fetched collection.
    pub fn logout(&mut self)
        ensures
            *final(self) is LoggedOut,
            final(self).wf(),
    {
        *self = SessionState::LoggedOut;
    }

    /// Builds a status draft, or rejects it locally: publishing needs a
    /// logged-in session, and the text may hold at most 140 characters.
    /// A missing category becomes "general". No network is touched here.
    pub fn prepare_status(&self, text: &str, category: Option<&String>) -> (r: Result<
        StatusDraft,
        PublishError,
    >)
        ensures
            self is LoggedOut <==> r == Err::<StatusDraft, PublishError>(
                PublishError::NotAuthenticated,
            ),
            (self is LoggedIn && text@.len() > MAX_STATUS_LEN) <==> r == Err::<
                StatusDraft,
                PublishError,
            >(PublishError::StatusTooLong),
            (self is LoggedIn && text@.len() <= MAX_STATUS_LEN) ==> (r matches Ok(d) && {
                &&& d.kind == STATUS_KIND
                &&& d.text@ == text@
                &&& d.category@ == match category {
                    Option::Some(c) => c@,
                    Option::None => "general"@,
                }
            }),
    {
        match self {
            SessionState::LoggedOut => Err(PublishError::NotAuthenticated),
            SessionState::LoggedIn { .. } => {
                if text.unicode_len() > MAX_STATUS_LEN {
                    Err(PublishError::StatusTooLong)
                } else {
                    let name = match category {
                        Option::Some(c) => (*c).clone(),
                        Option::None => String::from_str("general"),
                    };
                    Ok(StatusDraft { kind: STATUS_KIND, category: name, text: String::from_str(text) })
                }
            },
        }
    }
}

/// Authenticating: parses the stored record fields, derives the key from
/// the passphrase, decrypts the secret key and rebuilds the identity.
///
/// The central promise is the round trip: when the fields hold a record
/// whose payload was sealed from a secret key under this passphrase's
/// derived key, exactly that identity comes back. The vault is never
/// mutated, whatever the outcome.
pub fn unlock_identity(encrypted_field: &str, salt_field: &str, passphrase: &str) -> (r: Result<
    Identity,
    LoginError,
>)
    ensures
        r matches Ok(id) ==> id.wf(),
        forall|p: Seq<u8>, s: Seq<u8>, secret: Seq<u8>, public: Seq<u8>|
            {
                &&& encrypted_field@ == encrypted_field_of(p)
                &&& salt_field@ == base64_of(s)
                &&& s.len() == SALT_LEN
                &&& payload_seals(pbkdf2_key_of(passphrase@, s, PBKDF2_ROUNDS, KEY_LEN as nat), p, secret)
                &&& keys_of(hex_of(secret)) == Some((secret, public))
            } ==> (r matches Ok(id) && id.secret@ == secret && id.public@ == public),
        r == Err::<Identity, LoginError>(LoginError::Vault(VaultError::UnsupportedFormat))
            <==> !has_scheme_prefix(encrypted_field@),
        r matches Err(e) ==> {
            ||| (e matches LoginError::Vault(ve) && (ve == VaultError::UnsupportedFormat
                || ve == VaultError::MalformedRecord))
            ||| (e matches LoginError::Crypto(ce) && (ce == CryptoError::MalformedPayload
                || ce == CryptoError::DecryptionFailed))
            ||| e == LoginError::InvalidStoredKey
        },
{
    let record = match parse_record_fields(encrypted_field, salt_field) {
        Ok(rec) => rec,
        Err(e) => {
            return Err(LoginError::Vault(e));
        },
    };
    let key = derive_key(passphrase, &record.salt);
    let secret = match decrypt(&key, &record.encrypted_payload) {
        Ok(v) => v,
        Err(e) => {
            return Err(LoginError::Crypto(e));
        },
    };
    match Identity::from_secret_bytes(&secret) {
        Option::Some(id) => Ok(id),
        Option::None => Err(LoginError::InvalidStoredKey),
    }
}

/// Registering: parses the supplied secret key, draws a fresh 16-byte
/// salt, seals the secret under the passphrase's derived key, and returns
/// the identity with the record to persist. Succeeds exactly when the
/// supplied text is a valid secret key.
pub fn register_identity(secret_key_input: &str, passphrase: &str) -> (r: Result<
    (Identity, VaultRecord),
    RegisterError,
>)
    ensures
        r is Ok <==> keys_of(secret_key_input@) is Some,
        r matches Ok(pair) ==> {
            &&& pair.0.wf()
            &&& keys_of(secret_key_input@) == Some((pair.0.secret@, pair.0.public@))
            &&& pair.1.wf()
            &&& payload_seals(
                pbkdf2_key_of(passphrase@, pair.1.salt@, PBKDF2_ROUNDS, KEY_LEN as nat),
                pair.1.encrypted_payload@,
                pair.0.secret@,
            )
        },
        r matches Err(e) ==> e == RegisterError::InvalidKey,
{
    let id = match Identity::from_input(secret_key_input) {
        Option::Some(id) => id,
        Option::None => {
            return Err(RegisterError::InvalidKey);
        },
    };
    let salt = random_bytes(SALT_LEN);
    let key = derive_key(passphrase, &salt);
    let payload = encrypt(&key, &id.secret);
    Ok((id, VaultRecord { encrypted_payload: payload, salt }))
}

/// The filter of the relay-list query: the identity's own relay-list
/// event, a single one.
pub fn relay_list_filter(author: &PublicKey) -> (f: EventFilter)
    ensures
        f.kind == RELAY_LIST_KIND,
        f.authors@.len() == 1,
        f.authors@[0].bytes@ == author.bytes@,
        f.limit == Some(1u32),
{
    let mut authors: Vec<PublicKey> = Vec::new();
    authors.push(author.duplicate());
    EventFilter { authors, kind: RELAY_LIST_KIND, limit: Some(1) }
}

/// The filter of the follow-list query: the identity's own follow-list
/// event, a single one.
pub fn contact_list_filter(author: &PublicKey) -> (f: EventFilter)
    ensures
        f.kind == CONTACT_LIST_KIND,
        f.authors@.len() == 1,
        f.authors@[0].bytes@ == author.bytes@,
        f.limit == Some(1u32),
{
    let mut authors: Vec<PublicKey> = Vec::new();
    authors.push(author.duplicate());
    EventFilter { authors, kind: CONTACT_LIST_KIND, limit: Some(1) }
}

/// The filter of a timeline fetch: status events of the followed keys.
pub fn timeline_filter(follows: &Vec<PublicKey>) -> (f: EventFilter)
    ensures
        f.kind == STATUS_KIND,
        f.authors@.len() == follows@.len(),
        forall|i: int| 0 <= i < follows@.len()
            ==> (#[trigger] f.authors@[i]).bytes@ == follows@[i].bytes@,
        f.limit == Some(TIMELINE_LIMIT),
{
    let mut authors: Vec<PublicKey> = Vec::new();
    let mut i: usize = 0;
    while i < follows.len()
        invariant
            i <= follows@.len(),
            authors@.len() == i,
            forall|j: int| 0 <= j < i ==> (#[trigger] authors@[j]).bytes@ == follows@[j].bytes@,
        decreases follows@.len() - i,
    {
        authors.push(follows[i].duplicate());
        i = i + 1;
    }
    EventFilter { authors, kind: STATUS_KIND, limit: Some(TIMELINE_LIMIT) }
}

/// Discovering Relays, after the bounded wait: the collected single event
/// yields the relay-list entries; no event means no relay list.
pub fn relay_list_outcome(events: &Vec<InboundEvent>) -> (r: Option<Vec<RelayDescriptor>>)
    ensures
        events@.len() == 0 <==> r is None,
        r matches Some(d) ==> d@ == spec_relay_descriptors(events@[0].tags@),
{
    if events.len() == 0 {
        None
    } else {
        Some(relay_descriptors_of(&events[0].tags))
    }
}

/// Fetching Follows, after the bounded wait: no follow-list event before
/// the deadline is fatal for login; otherwise the event's keys replace the
/// follow set wholesale, each key once.
pub fn contacts_outcome(events: &Vec<InboundEvent>) -> (r: Result<Vec<PublicKey>, LoginError>)
    ensures
        events@.len() == 0 <==> r == Err::<Vec<PublicKey>, LoginError>(
            LoginError::ContactListNotFound,
        ),
        r matches Err(e) ==> e == LoginError::ContactListNotFound,
        r matches Ok(keys) ==> {
            &&& (forall|i: int, j: int|
                0 <= i < j < keys@.len() ==> keys@[i].bytes@ != keys@[j].bytes@)
            &&& (forall|b: Seq<u8>| #[trigger] key_views(keys@).contains(b) <==> tag_author_keys(
                events@[0].tags@,
            ).contains(b))
        },
{
    if events.len() == 0 {
        Err(LoginError::ContactListNotFound)
    } else {
        Ok(follow_keys_of(&events[0].tags))
    }
}

/// The category a status event carries: the first category tag's name, or
/// "general" when none is present.
pub open spec fn spec_category_of(tags: Seq<EventTag>) -> Seq<char>
    decreases tags.len(),
{
    if tags.len() == 0 {
        "general"@
    } else {
        match tags.first() {
            EventTag::Category { name } => name@,
            _ => spec_category_of(tags.drop_first()),
        }
    }
}

/// A status event without a category tag falls under "general".
pub proof fn lemma_category_default(tags: Seq<EventTag>)
    requires
        forall|i: int| 0 <= i < tags.len() ==> !(#[trigger] tags[i] is Category),
    ensures
        spec_category_of(tags) == "general"@,
    decreases tags.len(),
{
    if tags.len() > 0 {
        assert(!(tags[0] is Category));
        assert forall|i: int| 0 <= i < tags.drop_first().len() implies !(
        #[trigger] tags.drop_first()[i] is Category) by {
            assert(tags.drop_first()[i] == tags[i + 1]);
        }
        lemma_category_default(tags.drop_first());
    }
}

/// The category of a status event's tags.
pub fn category_of(tags: &Vec<EventTag>) -> (r: String)
    ensures
        r@ == spec_category_of(tags@),
{
    let mut i: usize = 0;
    proof {
        assert(tags@.subrange(0, tags@.len() as int) =~= tags@);
    }
    while i < tags.len()
        invariant
            i <= tags@.len(),
            spec_category_of(tags@) == spec_category_of(
                tags@.subrange(i as int, tags@.len() as int),
            ),
        decreases tags@.len() - i,
    {
        let ghost rest = tags@.subrange(i as int, tags@.len() as int);
        proof {
            assert(rest.first() == tags@[i as int]);
            assert(rest.drop_first() =~= tags@.subrange(i + 1, tags@.len() as int));
        }
        match &tags[i] {
            EventTag::Category { name } => {
                return name.clone();
            },
            _ => {},
        }
        i = i + 1;
    }
    proof {
        assert(tags@.subrange(tags@.len() as int, tags@.len() as int)
            =~= Seq::<EventTag>::empty());
    }
    String::from_str("general")
}

/// Reduces one collected status event to a timeline entry.
pub fn status_entry_of(ev: &InboundEvent) -> (r: StatusEntry)
    ensures
        r.author.bytes@ == ev.author.bytes@,
        r.text@ == ev.content@,
        r.category@ == spec_category_of(ev.tags@),
{
    StatusEntry {
        author: ev.author.duplicate(),
        category: category_of(&ev.tags),
        text: ev.content.clone(),
    }
}

/// Fetching Timeline, after the bounded wait: every collected status
/// event becomes an entry, in arrival order; the collection replaces any
/// previous timeline. Empty is not an error.
pub fn timeline_from_events(events: &Vec<InboundEvent>) -> (r: Vec<StatusEntry>)
    ensures
        r@.len() == events@.len(),
        forall|i: int| 0 <= i < events@.len() ==> {
            &&& (#[trigger] r@[i]).author.bytes@ == events@[i].author.bytes@
            &&& r@[i].text@ == events@[i].content@
            &&& r@[i].category@ == spec_category_of(events@[i].tags@)
        },
{
    let mut out: Vec<StatusEntry> = Vec::new();
    let mut i: usize = 0;
    while i < events.len()
        invariant
            i <= events@.len(),
            out@.len() == i,
            forall|j: int| 0 <= j < i ==> {
                &&& (#[trigger] out@[j]).author.bytes@ == events@[j].author.bytes@
                &&& out@[j].text@ == events@[j].content@
                &&& out@[j].category@ == spec_category_of(events@[j].tags@)
            },
        decreases events@.len() - i,
    {
        let entry = status_entry_of(&events[i]);
        out.push(entry);
        i = i + 1;
    }
    out
}

} // verus!
