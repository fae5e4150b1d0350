//! The coordination engine.
//!
//! One value of [`Coinstr`] holds the user's keys, the local store, the
//! transport configuration and an outbox. Every operation validates its
//! input against the store, builds and signs the events it publishes,
//! commits to the store, and appends the events to the outbox; the caller
//! drains the outbox to the relay transport. Local persistence thus always
//! precedes publication.

use vstd::prelude::*;

use crate::codec::{append_hex, lemma_pow16_32_val, spec_hex, spec_starts_with, str_starts_with};
use crate::crypto::{
    curve_point, event_id_of, generate_shared_key, key_wf, keys_from_secret, nip04_encrypt,
    nip04_plain, pubkey_of_secret, secret_key_valid, sign_event,
};
use crate::domain::{
    encode_policy, encode_shared_signer, spec_encode_policy, spec_encode_shared_signer, Policy,
    SharedSigner, Signer,
};
use crate::event::{event_tag_ids, first_event_tag, pubkey_tags, second_event_tag, Event, EventV, Tag};
use crate::ids::{
    EventId, KeyPair, Network, SecretKey, XOnlyPublicKey, APPROVED_PROPOSAL_EXPIRATION,
    APPROVED_PROPOSAL_KIND, COMPLETED_PROPOSAL_KIND, CONTACT_LIST_KIND, ENCRYPTED_DM_KIND,
    EVENT_DELETION_KIND, METADATA_KIND, NOSTR_CONNECT_KIND, POLICY_KIND, PROPOSAL_KIND,
    SHARED_KEY_KIND, SHARED_SIGNERS_KIND, SIGNERS_KIND,
};
use crate::maps::copy_vec;
use crate::store::{event_views, Store, StoreV};
use crate::types::Error;

verus! {

/// Whether the first wallet synchronization has completed since start.
pub struct FirstSync {
    pub wallets: bool,
}

impl FirstSync {
    pub fn completed(&self) -> (r: bool)
        ensures
            r == self.wallets,
    {
        self.wallets
    }

    pub fn set_wallets(&mut self, completed: bool)
        ensures
            final(self).wallets == completed,
    {
        self.wallets = completed;
    }
}

/// A relay subscription filter, in the shape the transport expects.
pub struct Filter {
    pub kinds: Vec<u16>,
    pub authors: Vec<XOnlyPublicKey>,
    pub pubkeys: Vec<XOnlyPublicKey>,
    pub since: u64,
}

pub struct FilterV {
    pub kinds: Seq<u16>,
    pub authors: Seq<XOnlyPublicKey>,
    pub pubkeys: Seq<XOnlyPublicKey>,
    pub since: u64,
}

impl View for Filter {
    type V = FilterV;

    open spec fn view(&self) -> FilterV {
        FilterV {
            kinds: self.kinds@,
            authors: self.authors@,
            pubkeys: self.pubkeys@,
            since: self.since,
        }
    }
}

/// The coordination engine.
pub struct Coinstr {
    pub network: Network,
    pub keys: KeyPair,
    pub db: Store,
    pub endpoint: Option<String>,
    pub syncing: bool,
    pub first_sync: FirstSync,
    pub outbox: Vec<Event>,
}

/// The engine's mathematical state.
pub struct CoinstrV {
    pub network: Network,
    pub keys: KeyPair,
    pub db: StoreV,
    pub endpoint: Option<Seq<char>>,
    pub syncing: bool,
    pub first_sync_done: bool,
    pub outbox: Seq<EventV>,
}

impl View for Coinstr {
    type V = CoinstrV;

    open spec fn view(&self) -> CoinstrV {
        CoinstrV {
            network: self.network,
            keys: self.keys,
            db: self.db@,
            endpoint: match self.endpoint {
                Some(ref e) => Some(e@),
                None => None,
            },
            syncing: self.syncing,
            first_sync_done: self.first_sync.wallets,
            outbox: event_views(self.outbox@),
        }
    }
}

/// The engine's own public key, as its contracts speak of it.
pub open spec fn self_key(e: CoinstrV) -> XOnlyPublicKey {
    pubkey_of_secret(e.keys.secret.hi, e.keys.secret.lo)
}

impl Coinstr {
    /// The store's indices are well formed, and every keypair the engine
    /// signs or decrypts with — its own and each policy's shared key — is
    /// one the signing layer accepts: a valid secret with its derived,
    /// on-curve public key.
    pub open spec fn wf(&self) -> bool {
        &&& self.db.wf()
        &&& key_wf(self.keys)
        &&& forall|p: EventId| #[trigger]
            self.db@.shared_keys.contains_key(p) ==> key_wf(self.db@.shared_keys[p])
    }

    /// Open the engine over a secret key. The keychain layer derives the
    /// secret from the mnemonic; this fails only when the bytes are not a
    /// valid key.
    pub fn new(network: Network, secret: SecretKey) -> (r: Result<Coinstr, Error>)
        ensures
            r is Ok ==> r.unwrap().wf() && r.unwrap()@.network == network
                && r.unwrap()@.keys.secret == secret && !r.unwrap()@.syncing
                && !r.unwrap()@.first_sync_done && r.unwrap()@.endpoint is None
                && r.unwrap()@.outbox.len() == 0 && r.unwrap()@.db.policies == Map::<
                EventId,
                crate::store::PolicyRecordV,
            >::empty(),
    {
        let keys = keys_from_secret(&secret)?;
        let r = Coinstr {
            network,
            keys,
            db: Store::new(),
            endpoint: None,
            syncing: false,
            first_sync: FirstSync { wallets: false },
            outbox: Vec::new(),
        };
        proof {
            assert(event_views(r.outbox@) =~= Seq::<EventV>::empty());
        }
        Ok(r)
    }

    pub fn network(&self) -> (r: Network)
        ensures
            r == self@.network,
    {
        self.network
    }

    /// The user's keypair.
    pub fn keys(&self) -> (r: KeyPair)
        ensures
            r == self@.keys,
    {
        self.keys
    }

    /// Point the engine at a chain indexer.
    pub fn set_electrum_endpoint(&mut self, endpoint: String)
        requires
            old(self).wf(),
        ensures
            final(self).wf(),
            final(self)@ == (CoinstrV { endpoint: Some(endpoint@), ..old(self)@ }),
    {
        self.endpoint = Some(endpoint);
    }

    /// The configured chain indexer, or the error the operations return
    /// without one.
    pub fn electrum_endpoint(&self) -> (r: Result<String, Error>)
        ensures
            match r {
                Ok(e) => self@.endpoint == Some(e@),
                Err(e) => self@.endpoint is None && e == Error::ElectrumEndpointNotSet,
            },
    {
        match &self.endpoint {
            Some(e) => Ok(e.clone()),
            None => Err(Error::ElectrumEndpointNotSet),
        }
    }

    /// Start the background synchronization, once: the guard makes a
    /// second call a no-op, so exactly one loop set runs.
    pub fn sync(&mut self) -> (started: bool)
        requires
            old(self).wf(),
        ensures
            final(self).wf(),
            started == !old(self)@.syncing,
            final(self)@ == (CoinstrV { syncing: true, ..old(self)@ }),
    {
        if self.syncing {
            false
        } else {
            self.syncing = true;
            true
        }
    }

    /// Whether the background synchronization runs.
    pub fn is_syncing(&self) -> (r: bool)
        ensures
            r == self@.syncing,
    {
        self.syncing
    }

    /// Record that the background synchronization stopped.
    pub fn sync_stopped(&mut self)
        requires
            old(self).wf(),
        ensures
            final(self).wf(),
            final(self)@ == (CoinstrV { syncing: false, ..old(self)@ }),
    {
        self.syncing = false;
    }

    pub fn is_first_sync_completed(&self) -> (r: bool)
        ensures
            r == self@.first_sync_done,
    {
        self.first_sync.completed()
    }

    /// Record the outcome of a wallet synchronization pass.
    pub fn set_first_sync_completed(&mut self, completed: bool)
        requires
            old(self).wf(),
        ensures
            final(self).wf(),
            final(self)@ == (CoinstrV { first_sync_done: completed, ..old(self)@ }),
    {
        self.first_sync.set_wallets(completed);
    }

    /// Take the events awaiting publication; the transport sends them in
    /// order.
    pub fn take_outbox(&mut self) -> (r: Vec<Event>)
        requires
            old(self).wf(),
        ensures
            final(self).wf(),
            final(self)@ == (CoinstrV { outbox: Seq::<EventV>::empty(), ..old(self)@ }),
            event_views(r@) == old(self)@.outbox,
    {
        let mut taken: Vec<Event> = Vec::new();
        core::mem::swap(&mut taken, &mut self.outbox);
        proof {
            assert(event_views(self.outbox@) =~= Seq::<EventV>::empty());
        }
        taken
    }

    /// Persist an event in the log and queue it for publication.
    fn send_event(&mut self, event: Event) -> (r: EventId)
        requires
            old(self).wf(),
        ensures
            final(self).wf(),
            r == event.id,
            final(self)@ == (CoinstrV {
                db: StoreV { events: old(self)@.db.events.insert(event.id, event@), ..old(self)@.db },
                outbox: old(self)@.outbox.push(event@),
                ..old(self)@
            }),
    {
        let id = event.id;
        self.db.save_event(event.duplicate());
        let ghost prev = self.outbox@;
        self.outbox.push(event);
        proof {
            assert(event_views(self.outbox@) =~= event_views(prev).push(self.outbox@.last()@));
        }
        id
    }

    /// The canonical filter set for one relay: own coordination events,
    /// coordination events mentioning the user, remote-signing requests,
    /// and the user's profile and contact list, all since the last
    /// synchronization.
    pub fn sync_filters(&self, since: u64) -> (r: Vec<Filter>)
        ensures
            r@.len() == 4,
            r@[0]@.authors == seq![self@.keys.public] && r@[0]@.pubkeys.len() == 0,
            r@[1]@.pubkeys == seq![self@.keys.public] && r@[1]@.authors.len() == 0,
            r@[0]@.kinds == coordination_kinds() && r@[1]@.kinds == coordination_kinds(),
            r@[2]@.pubkeys == seq![self@.keys.public] && r@[2]@.kinds == seq![NOSTR_CONNECT_KIND],
            r@[3]@.authors == seq![self@.keys.public] && r@[3]@.kinds == seq![
                METADATA_KIND,
                CONTACT_LIST_KIND,
            ],
            forall|i: int| 0 <= i < 4 ==> (#[trigger] r@[i])@.since == since,
    {
        let base_kinds: Vec<u16> = coordination_kinds_exec();
        let author_filter = Filter {
            kinds: base_kinds,
            authors: vec![self.keys.public],
            pubkeys: Vec::new(),
            since,
        };
        let pubkey_filter = Filter {
            kinds: coordination_kinds_exec(),
            authors: Vec::new(),
            pubkeys: vec![self.keys.public],
            since,
        };
        let connect_filter = Filter {
            kinds: vec![NOSTR_CONNECT_KIND],
            authors: Vec::new(),
            pubkeys: vec![self.keys.public],
            since,
        };
        let other_filter = Filter {
            kinds: vec![METADATA_KIND, CONTACT_LIST_KIND],
            authors: vec![self.keys.public],
            pubkeys: Vec::new(),
            since,
        };
        let r = vec![author_filter, pubkey_filter, connect_filter, other_filter];
        r
    }

    /// The relay addresses this engine serves by default.
    pub fn default_relays(&self) -> (r: Vec<String>)
        ensures
            r@.len() > 0,
    {
        let mut r: Vec<String> = Vec::new();
        match self.network {
            Network::Bitcoin => {
                r.push(String::from_str("wss://relay.house"));
                r.push(String::from_str("wss://relay.snort.social"));
                r.push(String::from_str("wss://relay.nostr.bg"));
                r.push(String::from_str("wss://relay.nostr.ch"));
                r.push(String::from_str("wss://relay.nostr.info"));
                r.push(String::from_str("wss://nostr.rocks"));
                r.push(String::from_str("wss://relay.damus.io"));
                r.push(String::from_str("wss://nostr.bitcoiner.social"));
            },
            _ => {
                r.push(String::from_str("wss://test.relay.report"));
                r.push(String::from_str("wss://nos.lol"));
                r.push(String::from_str("wss://relay.nostrich.de"));
                r.push(String::from_str("wss://nostr.mom"));
            },
        }
        r
    }
}

/// The event kinds the coordination subscription asks for.
pub open spec fn coordination_kinds() -> Seq<u16> {
    seq![
        POLICY_KIND,
        PROPOSAL_KIND,
        APPROVED_PROPOSAL_KIND,
        COMPLETED_PROPOSAL_KIND,
        SHARED_KEY_KIND,
        SIGNERS_KIND,
        SHARED_SIGNERS_KIND,
        EVENT_DELETION_KIND,
    ]
}

/// The event kinds the coordination subscription asks for.
fn coordination_kinds_exec() -> (r: Vec<u16>)
    ensures
        r@ == coordination_kinds(),
{
    let r = vec![
        POLICY_KIND,
        PROPOSAL_KIND,
        APPROVED_PROPOSAL_KIND,
        COMPLETED_PROPOSAL_KIND,
        SHARED_KEY_KIND,
        SIGNERS_KIND,
        SHARED_SIGNERS_KIND,
        EVENT_DELETION_KIND,
    ];
    proof {
        assert(r@ =~= coordination_kinds());
    }
    r
}

/// The sixty-four-digit form of a 256-bit value, as keys and ids are
/// written.
pub open spec fn spec_hex256(hi: u128, lo: u128) -> Seq<char> {
    spec_hex(hi as nat, 32) + spec_hex(lo as nat, 32)
}

/// An id cut to its first eight digits, as shown to people.
pub fn cut_event_id(id: &EventId) -> (r: String)
    ensures
        r@ == spec_hex(id.hi as nat, 32).take(8),
{
    let full = hex256(id.hi, id.lo);
    proof {
        crate::codec::lemma_spec_hex_len(id.hi as nat, 32);
        assert(spec_hex256(id.hi, id.lo).take(8) =~= spec_hex(id.hi as nat, 32).take(8));
    }
    let cut = full.as_str().substring_char(0, 8);
    cut.to_owned()
}

/// Write a 256-bit value as sixty-four hexadecimal digits.
pub fn hex256(hi: u128, lo: u128) -> (r: String)
    ensures
        r@ == spec_hex256(hi, lo),
{
    let mut out = String::new();
    proof {
        lemma_pow16_32_val();
    }
    append_hex(&mut out, hi, 32);
    append_hex(&mut out, lo, 32);
    out
}

/// The recipient tags of a policy event: one per cosigner, in order.
pub open spec fn pubkey_tag_seq(pks: Seq<XOnlyPublicKey>) -> Seq<Tag> {
    pks.map_values(|p: XOnlyPublicKey| Tag::PubKey(p))
}

/// Build the recipient tags of a policy event.
pub fn pubkey_tags_vec(pks: &Vec<XOnlyPublicKey>) -> (r: Vec<Tag>)
    ensures
        r@ == pubkey_tag_seq(pks@),
{
    let mut r: Vec<Tag> = Vec::new();
    let mut i: usize = 0;
    while i < pks.len()
        invariant
            i <= pks@.len(),
            r@ == pubkey_tag_seq(pks@.take(i as int)),
        decreases pks@.len() - i,
    {
        let ghost prev = r@;
        r.push(Tag::PubKey(pks[i]));
        proof {
            assert forall|x: int|
                0 <= x <= i implies r@[x] == pubkey_tag_seq(pks@.take(i + 1))[x] by {
                assert(pks@.take(i + 1)[x] == pks@[x]);
                if x < i {
                    assert(prev[x] == pubkey_tag_seq(pks@.take(i as int))[x]);
                    assert(pks@.take(i as int)[x] == pks@[x]);
                }
            }
            assert(r@ =~= pubkey_tag_seq(pks@.take(i + 1)));
        }
        i = i + 1;
    }
    proof {
        assert(pks@.take(pks@.len() as int) =~= pks@);
    }
    r
}

/// A map extended by a run of events, each keyed by its own id, in order.
pub open spec fn insert_events(m: Map<EventId, EventV>, evs: Seq<EventV>) -> Map<EventId, EventV>
    decreases evs.len(),
{
    if evs.len() == 0 {
        m
    } else {
        insert_events(m, evs.drop_last()).insert(evs.last().id, evs.last())
    }
}

/// The shared-key distribution event for one cosigner: the policy id and
/// the recipient, authored by the distributing user.
pub open spec fn is_shared_key_event(
    ev: EventV,
    author: XOnlyPublicKey,
    policy_id: EventId,
    recipient: XOnlyPublicKey,
    now: u64,
) -> bool {
    &&& ev.kind == SHARED_KEY_KIND
    &&& ev.pubkey == author
    &&& ev.tags == seq![Tag::Event(policy_id), Tag::PubKey(recipient)]
    &&& ev.created_at == now
}

/// The descriptor a policy input is stored as: its canonical form when it
/// parses, else what it compiles to.
pub open spec fn stored_descriptor_of(s: Seq<char>) -> Seq<char> {
    match crate::descriptor::canonical_descriptor_of(s) {
        Some(c) => c,
        None => crate::descriptor::compiled_policy_of(s).unwrap(),
    }
}

/// What a successful `save_policy` does, for some generated shared key.
pub open spec fn save_policy_ok(
    o: CoinstrV,
    f: CoinstrV,
    pid: EventId,
    name: Seq<char>,
    description: Seq<char>,
    stored_descriptor: Seq<char>,
    pks: Seq<XOnlyPublicKey>,
    now: u64,
    sk: KeyPair,
) -> bool {
    let appended = f.outbox.skip(o.outbox.len() as int);
    &&& sk.public == pubkey_of_secret(sk.secret.hi, sk.secret.lo)
    &&& f.db.policies == o.db.policies.insert(
        pid,
        crate::store::PolicyRecordV {
            policy: crate::domain::PolicyV { name, description, descriptor: stored_descriptor },
            cosigners: pks,
        },
    )
    &&& f.db.shared_keys == o.db.shared_keys.insert(pid, sk)
    &&& f.outbox.len() == o.outbox.len() + pks.len() + 1
    &&& f.outbox.take(o.outbox.len() as int) == o.outbox
    &&& forall|i: int|
        0 <= i < pks.len() ==> is_shared_key_event(
            #[trigger] appended[i],
            self_key(o),
            pid,
            pks[i],
            now,
        )
    &&& appended.last().kind == POLICY_KIND
    &&& appended.last().id == pid
    &&& appended.last().pubkey == sk.public
    &&& appended.last().tags == pubkey_tag_seq(pks)
    &&& appended.last().created_at == now
    &&& nip04_plain(sk.secret.hi, sk.secret.lo, sk.public, appended.last().content) == Some(
        crate::domain::spec_encode_policy(
            crate::domain::PolicyV { name, description, descriptor: stored_descriptor },
        ),
    )
    &&& f.db.events == insert_events(o.db.events, appended)
    &&& f.network == o.network && f.keys == o.keys && f.endpoint == o.endpoint && f.syncing
        == o.syncing && f.first_sync_done == o.first_sync_done
    &&& f.db == (StoreV {
        policies: f.db.policies,
        shared_keys: f.db.shared_keys,
        events: f.db.events,
        ..o.db
    })
}

impl Coinstr {
    /// Create and publish a policy: distribute a freshly generated shared
    /// key to every cosigner, publish the policy body encrypted under that
    /// key, and store both. Fails with `NotEnoughPublicKeys` below two
    /// cosigners and with `InvalidDescriptor` when the descriptor neither
    /// parses nor compiles, touching nothing in either case; a failure of
    /// the signing layer also leaves the engine unchanged.
    #[verifier::rlimit(100)]
    #[verifier::spinoff_prover]
    pub fn save_policy(
        &mut self,
        name: String,
        description: String,
        descriptor: String,
        nostr_pubkeys: Vec<XOnlyPublicKey>,
        now: u64,
    ) -> (r: Result<EventId, Error>)
        requires
            old(self).wf(),
        ensures
            final(self).wf(),
            nostr_pubkeys@.len() < 2 <==> r == Err::<EventId, Error>(Error::NotEnoughPublicKeys),
            (nostr_pubkeys@.len() >= 2 && crate::descriptor::canonical_descriptor_of(
                descriptor@,
            ) is None && crate::descriptor::compiled_policy_of(descriptor@) is None) <==> r
                == Err::<EventId, Error>(Error::InvalidDescriptor),
            (nostr_pubkeys@.len() >= 2 && (crate::descriptor::canonical_descriptor_of(
                descriptor@,
            ) is Some || crate::descriptor::compiled_policy_of(descriptor@) is Some) && (forall|
                i: int,
            |
                0 <= i < nostr_pubkeys@.len() ==> curve_point(
                    (#[trigger] nostr_pubkeys@[i]).hi,
                    nostr_pubkeys@[i].lo,
                ))) ==> r is Ok,
            r is Err ==> final(self)@ == old(self)@ && (r->Err_0 == Error::NotEnoughPublicKeys
                || r->Err_0 == Error::InvalidDescriptor || r->Err_0 == Error::Crypto),
            r is Ok ==> save_policy_ok(
                old(self)@,
                final(self)@,
                r.unwrap(),
                name@,
                description@,
                stored_descriptor_of(descriptor@),
                nostr_pubkeys@,
                now,
                final(self)@.db.shared_keys[r.unwrap()],
            ),
    {
        let ghost dv = descriptor@;
        let ghost nv = name@;
        let ghost dsv = description@;
        let ghost pkv = nostr_pubkeys@;
        if nostr_pubkeys.len() < 2 {
            return Err(Error::NotEnoughPublicKeys);
        }
        let policy = match Policy::from_desc_or_policy(
            name,
            description,
            descriptor,
            self.network,
        ) {
            Ok(p) => p,
            Err(e) => {
                return Err(e);
            },
        };
        let shared_key = generate_shared_key();
        let body = encode_policy(&policy);
        let content = match nip04_encrypt(&shared_key, &shared_key.public, &body) {
            Ok(c) => c,
            Err(e) => {
                return Err(e);
            },
        };
        let tags = pubkey_tags_vec(&nostr_pubkeys);
        let policy_event = match sign_event(&shared_key, POLICY_KIND, &tags, &content, now) {
            Ok(ev) => ev,
            Err(e) => {
                return Err(e);
            },
        };
        let policy_id = policy_event.id;

        // Build every shared-key event before committing anything: a
        // failure of the signing layer must leave the engine unchanged.
        let secret_hex = hex256(shared_key.secret.hi, shared_key.secret.lo);
        let mut sk_events: Vec<Event> = Vec::new();
        let mut i: usize = 0;
        while i < nostr_pubkeys.len()
            invariant
                old(self).wf(),
                self == old(self),
                nostr_pubkeys@.len() >= 2,
                crate::descriptor::canonical_descriptor_of(dv) is Some
                    || crate::descriptor::compiled_policy_of(dv) is Some,
                dv == descriptor@,
                i <= nostr_pubkeys@.len(),
                sk_events@.len() == i,
                forall|j: int|
                    0 <= j < i ==> is_shared_key_event(
                        (#[trigger] sk_events@[j])@,
                        self_key(old(self)@),
                        policy_id,
                        nostr_pubkeys@[j],
                        now,
                    ),
            decreases nostr_pubkeys@.len() - i,
        {
            let ct = match nip04_encrypt(&self.keys, &nostr_pubkeys[i], &secret_hex) {
                Ok(c) => c,
                Err(e) => {
                    return Err(e);
                },
            };
            let tags_i = vec![Tag::Event(policy_id), Tag::PubKey(nostr_pubkeys[i])];
            proof {
                assert(tags_i@ =~= seq![
                    Tag::Event(policy_id),
                    Tag::PubKey(nostr_pubkeys@[i as int]),
                ]);
            }
            let ev = match sign_event(&self.keys, SHARED_KEY_KIND, &tags_i, &ct, now) {
                Ok(ev) => ev,
                Err(e) => {
                    return Err(e);
                },
            };
            sk_events.push(ev);
            i = i + 1;
        }

        // Commit: persist and queue the shared-key events in order, then
        // the policy event, then cache the key and the policy.
        let ghost pre = self@;
        let ghost planned = event_views(sk_events@);
        let mut j: usize = 0;
        while j < sk_events.len()
            invariant
                self.wf(),
                j <= sk_events@.len(),
                planned == event_views(sk_events@),
                self@ == (CoinstrV {
                    db: StoreV {
                        events: insert_events(pre.db.events, planned.take(j as int)),
                        ..pre.db
                    },
                    outbox: pre.outbox + planned.take(j as int),
                    ..pre
                }),
            decreases sk_events@.len() - j,
        {
            let ev = sk_events[j].duplicate();
            let ghost before = self@;
            self.send_event(ev);
            proof {
                assert(planned.take(j + 1).drop_last() =~= planned.take(j as int));
                assert(planned.take(j + 1).last() == planned[j as int]);
                assert(planned[j as int] == sk_events@[j as int]@);
                assert(self@.outbox =~= pre.outbox + planned.take(j + 1));
            }
            j = j + 1;
        }
        proof {
            assert(planned.take(planned.len() as int) =~= planned);
        }
        let ghost policy_ev_view = policy_event@;
        self.send_event(policy_event);
        self.db.save_shared_key(policy_id, shared_key);
        let ghost stored_policy = policy@;
        let ghost stored_pks = nostr_pubkeys@;
        self.db.save_policy(policy_id, policy, nostr_pubkeys);
        proof {
            let o = pre;
            let f = self@;
            let appended = f.outbox.skip(o.outbox.len() as int);
            assert(appended =~= planned.push(policy_ev_view));
            assert(appended.drop_last() =~= planned);
            assert(f.db.events =~= insert_events(o.db.events, appended));
            assert(f.outbox.take(o.outbox.len() as int) =~= o.outbox);
            assert forall|x: int|
                0 <= x < stored_pks.len() implies is_shared_key_event(
                #[trigger] appended[x],
                self_key(o),
                policy_id,
                stored_pks[x],
                now,
            ) by {
                assert(appended[x] == planned[x]);
            }
            assert(o == old(self)@);
            assert(self.db@.shared_keys == old(self).db@.shared_keys.insert(
                policy_id,
                shared_key,
            ));
            assert(key_wf(shared_key));
            assert forall|p: EventId| #[trigger]
                self.db@.shared_keys.contains_key(p) implies key_wf(self.db@.shared_keys[p]) by {
                if p != policy_id {
                    assert(old(self).db@.shared_keys.contains_key(p));
                    assert(self.db@.shared_keys[p] == old(self).db@.shared_keys[p]);
                }
            }
            assert(stored_policy.name == nv && stored_policy.description == dsv);
            assert(stored_policy.descriptor == stored_descriptor_of(dv));
            assert(stored_pks == pkv);
            assert(save_policy_ok(
                old(self)@,
                f,
                policy_id,
                nv,
                dsv,
                stored_descriptor_of(dv),
                pkv,
                now,
                shared_key,
            ));
            assert(f.db.shared_keys[policy_id] == shared_key);
        }
        Ok(policy_id)
    }
}

/// The cosigners a direct message goes to: everyone but the author.
pub open spec fn others(pks: Seq<XOnlyPublicKey>, me: XOnlyPublicKey) -> Seq<XOnlyPublicKey>
    decreases pks.len(),
{
    if pks.len() == 0 {
        Seq::empty()
    } else {
        others(pks.drop_last(), me) + if pks.last() != me {
            seq![pks.last()]
        } else {
            Seq::empty()
        }
    }
}

/// A direct message to one recipient, authored by the user.
pub open spec fn is_dm_event(
    ev: EventV,
    author: XOnlyPublicKey,
    recipient: XOnlyPublicKey,
    now: u64,
) -> bool {
    &&& ev.kind == ENCRYPTED_DM_KIND
    &&& ev.pubkey == author
    &&& ev.tags == seq![Tag::PubKey(recipient)]
    &&& ev.created_at == now
}

/// What a successful `spend` or `new_proof_proposal` does.
pub open spec fn proposal_published_ok(
    o: CoinstrV,
    f: CoinstrV,
    policy_id: EventId,
    proposal_id: EventId,
    prop: crate::domain::ProposalV,
    now: u64,
) -> bool {
    let cosigners = o.db.policies[policy_id].cosigners;
    let appended = f.outbox.skip(o.outbox.len() as int);
    let sk = o.db.shared_keys[policy_id];
    &&& f.db.proposals == o.db.proposals.insert(
        proposal_id,
        crate::store::ProposalRecordV { policy_id, proposal: prop },
    )
    &&& f.outbox.len() == o.outbox.len() + 1 + others(cosigners, self_key(o)).len()
    &&& f.outbox.take(o.outbox.len() as int) == o.outbox
    &&& appended[0].kind == PROPOSAL_KIND
    &&& appended[0].id == proposal_id
    &&& appended[0].pubkey == pubkey_of_secret(sk.secret.hi, sk.secret.lo)
    &&& appended[0].tags == pubkey_tag_seq(cosigners).push(Tag::Event(policy_id))
    &&& appended[0].created_at == now
    &&& forall|i: int|
        0 <= i < others(cosigners, self_key(o)).len() ==> is_dm_event(
            #[trigger] appended[1 + i],
            self_key(o),
            others(cosigners, self_key(o))[i],
            now,
        )
    &&& f.db.events == insert_events(o.db.events, appended)
    &&& f.db == (StoreV { proposals: f.db.proposals, events: f.db.events, ..o.db })
    &&& f.network == o.network && f.keys == o.keys && f.endpoint == o.endpoint && f.syncing
        == o.syncing && f.first_sync_done == o.first_sync_done
}

impl Coinstr {
    /// The policy of a stored proposal, then the proposal itself.
    pub fn get_proposal_by_id(&self, proposal_id: EventId) -> (r: Result<
        (EventId, crate::domain::Proposal),
        Error,
    >)
        requires
            self.wf(),
        ensures
            match r {
                Ok(p) => self@.db.proposals.contains_key(proposal_id) && p.0
                    == self@.db.proposals[proposal_id].policy_id && p.1@
                    == self@.db.proposals[proposal_id].proposal,
                Err(e) => !self@.db.proposals.contains_key(proposal_id) && e
                    == Error::ProposalNotFound,
            },
    {
        match self.db.get_proposal(&proposal_id) {
            Some(p) => Ok(p),
            None => Err(Error::ProposalNotFound),
        }
    }

    /// The stored policy with the given id.
    pub fn get_policy_by_id(&self, policy_id: EventId) -> (r: Result<Policy, Error>)
        requires
            self.wf(),
        ensures
            match r {
                Ok(p) => self@.db.policies.contains_key(policy_id) && p@
                    == self@.db.policies[policy_id].policy,
                Err(e) => !self@.db.policies.contains_key(policy_id) && e == Error::PolicyNotFound,
            },
    {
        match self.db.get_policy(&policy_id) {
            Some((p, _)) => Ok(p),
            None => Err(Error::PolicyNotFound),
        }
    }

    /// The stored completion with the given id, and its policy.
    pub fn get_completed_proposal_by_id(&self, completed_proposal_id: EventId) -> (r: Result<
        (EventId, crate::domain::CompletedProposal),
        Error,
    >)
        requires
            self.wf(),
        ensures
            match r {
                Ok(p) => self@.db.completed_proposals.contains_key(completed_proposal_id) && p.0
                    == self@.db.completed_proposals[completed_proposal_id].policy_id && p.1@
                    == self@.db.completed_proposals[completed_proposal_id].completed,
                Err(e) => !self@.db.completed_proposals.contains_key(completed_proposal_id) && e
                    == Error::ProposalNotFound,
            },
    {
        match self.db.get_completed_proposal(&completed_proposal_id) {
            Some(p) => Ok(p),
            None => Err(Error::ProposalNotFound),
        }
    }

    /// The stored signer with the given id.
    pub fn get_signer_by_id(&self, signer_id: EventId) -> (r: Result<Signer, Error>)
        requires
            self.wf(),
        ensures
            match r {
                Ok(g) => self@.db.signers.contains_key(signer_id) && g@
                    == self@.db.signers[signer_id],
                Err(e) => !self@.db.signers.contains_key(signer_id) && e == Error::SignerNotFound,
            },
    {
        match self.db.get_signer_by_id(&signer_id) {
            Some(g) => Ok(g),
            None => Err(Error::SignerNotFound),
        }
    }

    /// Propose a spend under a policy. The transaction itself comes from
    /// the descriptor library, already built against the wallet; the
    /// engine validates the policy, publishes the proposal under the
    /// policy's shared key, tells every other cosigner by direct message,
    /// and stores the proposal. A failure of the signing layer leaves the
    /// engine unchanged.
    #[verifier::rlimit(100)]
    #[verifier::spinoff_prover]
    pub fn spend(
        &mut self,
        policy_id: EventId,
        to_address: String,
        amount: u64,
        description: String,
        psbt: String,
        now: u64,
    ) -> (r: Result<(EventId, crate::domain::Proposal), Error>)
        requires
            old(self).wf(),
        ensures
            final(self).wf(),
            !old(self)@.db.policies.contains_key(policy_id) <==> r == Err::<
                (EventId, crate::domain::Proposal),
                Error,
            >(Error::PolicyNotFound),
            (old(self)@.db.policies.contains_key(policy_id)
                && !old(self)@.db.shared_keys.contains_key(policy_id)) <==> r == Err::<
                (EventId, crate::domain::Proposal),
                Error,
            >(Error::SharedKeysNotFound),
            (old(self)@.db.policies.contains_key(policy_id)
                && old(self)@.db.shared_keys.contains_key(policy_id) && (forall|i: int|
                0 <= i < old(self)@.db.policies[policy_id].cosigners.len() ==> curve_point(
                    (#[trigger] old(self)@.db.policies[policy_id].cosigners[i]).hi,
                    old(self)@.db.policies[policy_id].cosigners[i].lo,
                ))) ==> r is Ok,
            r is Err ==> final(self)@ == old(self)@ && (r->Err_0 == Error::PolicyNotFound
                || r->Err_0 == Error::SharedKeysNotFound || r->Err_0 == Error::Crypto),
            r is Ok ==> r.unwrap().1@ == (crate::domain::ProposalV::Spending {
                descriptor: old(self)@.db.policies[policy_id].policy.descriptor,
                to_address: to_address@,
                amount,
                description: description@,
                psbt: psbt@,
            }) && proposal_published_ok(
                old(self)@,
                final(self)@,
                policy_id,
                r.unwrap().0,
                r.unwrap().1@,
                now,
            ),
    {
        let (policy, cosigners) = match self.db.get_policy(&policy_id) {
            Some(x) => x,
            None => {
                return Err(Error::PolicyNotFound);
            },
        };
        let shared_key = match self.db.get_shared_key(&policy_id) {
            Some(k) => k,
            None => {
                return Err(Error::SharedKeysNotFound);
            },
        };
        // The text of the cosigner notice names the proposal's purpose;
        // the amount travels in the proposal itself.
        let mut dm_text = String::from_str("New spending proposal: ");
        dm_text.append(description.as_str());
        let proposal = crate::domain::Proposal::Spending {
            descriptor: policy.descriptor,
            to_address,
            amount,
            description,
            psbt,
        };
        let body = crate::domain::encode_proposal(&proposal);
        let content = match nip04_encrypt(&shared_key, &shared_key.public, &body) {
            Ok(c) => c,
            Err(e) => {
                return Err(e);
            },
        };
        let mut tags = pubkey_tags_vec(&cosigners);
        tags.push(Tag::Event(policy_id));
        let proposal_event = match sign_event(&shared_key, PROPOSAL_KIND, &tags, &content, now) {
            Ok(ev) => ev,
            Err(e) => {
                return Err(e);
            },
        };
        let proposal_id = proposal_event.id;

        let mut dms: Vec<Event> = Vec::new();
        let mut i: usize = 0;
        while i < cosigners.len()
            invariant
                old(self).wf(),
                self == old(self),
                old(self)@.db.policies.contains_key(policy_id),
                old(self)@.db.shared_keys.contains_key(policy_id),
                cosigners@ == old(self)@.db.policies[policy_id].cosigners,
                i <= cosigners@.len(),
                event_views(dms@).len() == others(cosigners@.take(i as int), self_key(old(self)@)).len(),
                forall|j: int|
                    0 <= j < event_views(dms@).len() ==> is_dm_event(
                        #[trigger] event_views(dms@)[j],
                        self_key(old(self)@),
                        others(cosigners@.take(i as int), self_key(old(self)@))[j],
                        now,
                    ),
            decreases cosigners@.len() - i,
        {
            proof {
                assert(cosigners@.take(i + 1).drop_last() =~= cosigners@.take(i as int));
            }
            let c = cosigners[i];
            if !(c == self.keys.public) {
                let ct = match nip04_encrypt(&self.keys, &c, &dm_text) {
                    Ok(x) => x,
                    Err(e) => {
                        proof {
                            assert(c == old(self)@.db.policies[policy_id].cosigners[i as int]);
                            assert(!curve_point(c.hi, c.lo));
                        }
                        return Err(e);
                    },
                };
                let dm_tags = vec![Tag::PubKey(c)];
                proof {
                    assert(dm_tags@ =~= seq![Tag::PubKey(cosigners@[i as int])]);
                }
                let ev = match sign_event(&self.keys, ENCRYPTED_DM_KIND, &dm_tags, &ct, now) {
                    Ok(x) => x,
                    Err(e) => {
                        return Err(e);
                    },
                };
                let ghost prev = event_views(dms@);
                dms.push(ev);
                proof {
                    assert(event_views(dms@) =~= prev.push(dms@.last()@));
                }
            }
            i = i + 1;
        }
        proof {
            assert(cosigners@.take(cosigners@.len() as int) =~= cosigners@);
        }

        // Commit: the proposal event, the direct messages, the record.
        let ghost pre = self@;
        let ghost prop_ev_view = proposal_event@;
        self.send_event(proposal_event);
        let ghost planned = event_views(dms@);
        let ghost mid = self@;
        let mut j: usize = 0;
        while j < dms.len()
            invariant
                self.wf(),
                j <= dms@.len(),
                planned == event_views(dms@),
                self@ == (CoinstrV {
                    db: StoreV {
                        events: insert_events(mid.db.events, planned.take(j as int)),
                        ..mid.db
                    },
                    outbox: mid.outbox + planned.take(j as int),
                    ..mid
                }),
            decreases dms@.len() - j,
        {
            let ev = dms[j].duplicate();
            self.send_event(ev);
            proof {
                assert(planned.take(j + 1).drop_last() =~= planned.take(j as int));
                assert(planned.take(j + 1).last() == planned[j as int]);
                assert(self@.outbox =~= mid.outbox + planned.take(j + 1));
            }
            j = j + 1;
        }
        proof {
            assert(planned.take(planned.len() as int) =~= planned);
        }
        let ghost prop_view = proposal@;
        let returned = proposal.duplicate();
        self.db.save_proposal(proposal_id, policy_id, proposal);
        proof {
            let o = pre;
            let f = self@;
            let appended = f.outbox.skip(o.outbox.len() as int);
            assert(appended =~= seq![prop_ev_view] + planned);
            assert(appended[0] == prop_ev_view);
            assert(f.outbox.take(o.outbox.len() as int) =~= o.outbox);
            assert(appended.drop_first() =~= planned);
            assert(f.db.events =~= insert_events(o.db.events, appended)) by {
                lemma_insert_events_cons(o.db.events, prop_ev_view, planned);
            }
            assert forall|x: int|
                0 <= x < others(pre.db.policies[policy_id].cosigners, self_key(pre)).len()
                implies is_dm_event(
                #[trigger] appended[1 + x],
                self_key(pre),
                others(pre.db.policies[policy_id].cosigners, self_key(pre))[x],
                now,
            ) by {
                assert(appended[1 + x] == planned[x]);
            }
            assert(proposal_published_ok(o, f, policy_id, proposal_id, prop_view, now));
        }
        Ok((proposal_id, returned))
    }
}

/// Prepending one event distributes over the event-map fold.
pub proof fn lemma_insert_events_cons(m: Map<EventId, EventV>, e: EventV, rest: Seq<EventV>)
    ensures
        insert_events(m, seq![e] + rest) == insert_events(m.insert(e.id, e), rest),
    decreases rest.len(),
{
    if rest.len() == 0 {
        assert(seq![e] + rest =~= seq![e]);
        assert((seq![e] + rest).len() == 1);
        assert((seq![e] + rest).drop_last() =~= Seq::<EventV>::empty());
        assert((seq![e] + rest).last() == e);
        assert(insert_events(m, seq![e] + rest) == insert_events(
            m,
            (seq![e] + rest).drop_last(),
        ).insert(e.id, e));
        assert(insert_events(m, (seq![e] + rest).drop_last()) == m);
        assert(insert_events(m.insert(e.id, e), rest) == m.insert(e.id, e));
    } else {
        assert((seq![e] + rest).drop_last() =~= seq![e] + rest.drop_last());
        lemma_insert_events_cons(m, e, rest.drop_last());
        assert((seq![e] + rest).last() == rest.last());
    }
}

/// What a successful `approve` does: the approval event and its record.
pub open spec fn approve_ok(
    o: CoinstrV,
    f: CoinstrV,
    proposal_id: EventId,
    approval_id: EventId,
    approved: crate::domain::ApprovedProposalV,
    now: u64,
) -> bool {
    let policy_id = o.db.proposals[proposal_id].policy_id;
    let cosigners = o.db.policies[policy_id].cosigners;
    let ev = f.outbox.last();
    &&& f.outbox.len() == o.outbox.len() + 1
    &&& f.outbox.take(o.outbox.len() as int) == o.outbox
    &&& ev.kind == APPROVED_PROPOSAL_KIND
    &&& ev.id == approval_id
    &&& ev.pubkey == self_key(o)
    &&& ev.tags == pubkey_tag_seq(cosigners).push(Tag::Event(proposal_id)).push(
        Tag::Event(policy_id),
    ).push(Tag::Expiration((now + APPROVED_PROPOSAL_EXPIRATION) as u64))
    &&& ev.created_at == now
    &&& f.db.approvals == o.db.approvals.insert(
        approval_id,
        crate::store::ApprovalRecordV {
            proposal_id,
            author: self_key(o),
            approval: approved,
            timestamp: now,
        },
    )
    &&& f.db.events == o.db.events.insert(approval_id, ev)
    &&& f.db == (StoreV { approvals: f.db.approvals, events: f.db.events, ..o.db })
    &&& f.network == o.network && f.keys == o.keys && f.endpoint == o.endpoint && f.syncing
        == o.syncing && f.first_sync_done == o.first_sync_done
}

impl Coinstr {
    /// Approve a proposal with a transaction the signer layer has already
    /// signed. The approval is published under the user's own key, tagged
    /// with the proposal, the policy and an expiration a week out, and
    /// recorded under the approval event's id.
    #[verifier::rlimit(100)]
    #[verifier::spinoff_prover]
    pub fn approve(&mut self, proposal_id: EventId, signed_psbt: String, now: u64) -> (r: Result<
        (EventId, crate::domain::ApprovedProposal),
        Error,
    >)
        requires
            old(self).wf(),
            now + APPROVED_PROPOSAL_EXPIRATION <= u64::MAX,
        ensures
            final(self).wf(),
            !old(self)@.db.proposals.contains_key(proposal_id) <==> r == Err::<
                (EventId, crate::domain::ApprovedProposal),
                Error,
            >(Error::ProposalNotFound),
            (old(self)@.db.proposals.contains_key(proposal_id) && !old(self)@.db.policies.contains_key(old(self)@.db.proposals[proposal_id].policy_id)) <==> r
                == Err::<(EventId, crate::domain::ApprovedProposal), Error>(Error::PolicyNotFound),
            (old(self)@.db.proposals.contains_key(proposal_id) && old(self)@.db.policies.contains_key(old(self)@.db.proposals[proposal_id].policy_id) && !old(self)@.db.shared_keys.contains_key(old(self)@.db.proposals[proposal_id].policy_id)) <==> r
                == Err::<(EventId, crate::domain::ApprovedProposal), Error>(
                Error::SharedKeysNotFound,
            ),
            (old(self)@.db.proposals.contains_key(proposal_id)
                && old(self)@.db.policies.contains_key(
                old(self)@.db.proposals[proposal_id].policy_id,
            ) && old(self)@.db.shared_keys.contains_key(
                old(self)@.db.proposals[proposal_id].policy_id,
            )) ==> r is Ok,
            r is Err ==> final(self)@ == old(self)@,
            r is Ok ==> r.unwrap().1@ == (match old(self)@.db.proposals[proposal_id].proposal {
                crate::domain::ProposalV::Spending { .. } => {
                    crate::domain::ApprovedProposalV::Spending { psbt: signed_psbt@ }
                },
                crate::domain::ProposalV::ProofOfReserve { .. } => {
                    crate::domain::ApprovedProposalV::ProofOfReserve { psbt: signed_psbt@ }
                },
            }) && approve_ok(
                old(self)@,
                final(self)@,
                proposal_id,
                r.unwrap().0,
                r.unwrap().1@,
                now,
            ),
    {
        let (policy_id, proposal) = match self.db.get_proposal(&proposal_id) {
            Some(x) => x,
            None => {
                return Err(Error::ProposalNotFound);
            },
        };
        let cosigners = match self.db.get_nostr_pubkeys(&policy_id) {
            Some(x) => x,
            None => {
                return Err(Error::PolicyNotFound);
            },
        };
        let shared_key = match self.db.get_shared_key(&policy_id) {
            Some(k) => k,
            None => {
                return Err(Error::SharedKeysNotFound);
            },
        };
        let approved = match proposal {
            crate::domain::Proposal::Spending { .. } => crate::domain::ApprovedProposal::Spending {
                psbt: signed_psbt,
            },
            crate::domain::Proposal::ProofOfReserve { .. } => {
                crate::domain::ApprovedProposal::ProofOfReserve { psbt: signed_psbt }
            },
        };
        let body = crate::domain::encode_approved(&approved);
        let content = match nip04_encrypt(&shared_key, &shared_key.public, &body) {
            Ok(c) => c,
            Err(e) => {
                return Err(e);
            },
        };
        let mut tags = pubkey_tags_vec(&cosigners);
        tags.push(Tag::Event(proposal_id));
        tags.push(Tag::Event(policy_id));
        tags.push(Tag::Expiration(now + APPROVED_PROPOSAL_EXPIRATION));
        let event = match sign_event(&self.keys, APPROVED_PROPOSAL_KIND, &tags, &content, now) {
            Ok(ev) => ev,
            Err(e) => {
                return Err(e);
            },
        };
        let approval_id = event.id;
        self.send_event(event);
        let returned = approved.duplicate();
        self.db.save_approved_proposal(proposal_id, self.keys.public, approval_id, approved, now);
        proof {
            assert(self@.outbox.take(old(self)@.outbox.len() as int) =~= old(self)@.outbox);
        }
        Ok((approval_id, returned))
    }

    /// Approve with a transaction signed outside (a hardware wallet). The
    /// engine side is the same as `approve`.
    pub fn approve_with_signed_psbt(
        &mut self,
        proposal_id: EventId,
        signed_psbt: String,
        now: u64,
    ) -> (r: Result<(EventId, crate::domain::ApprovedProposal), Error>)
        requires
            old(self).wf(),
            now + APPROVED_PROPOSAL_EXPIRATION <= u64::MAX,
        ensures
            final(self).wf(),
            !old(self)@.db.proposals.contains_key(proposal_id) <==> r == Err::<
                (EventId, crate::domain::ApprovedProposal),
                Error,
            >(Error::ProposalNotFound),
            (old(self)@.db.proposals.contains_key(proposal_id)
                && !old(self)@.db.policies.contains_key(
                old(self)@.db.proposals[proposal_id].policy_id,
            )) <==> r == Err::<(EventId, crate::domain::ApprovedProposal), Error>(
                Error::PolicyNotFound,
            ),
            (old(self)@.db.proposals.contains_key(proposal_id)
                && old(self)@.db.policies.contains_key(
                old(self)@.db.proposals[proposal_id].policy_id,
            ) && !old(self)@.db.shared_keys.contains_key(
                old(self)@.db.proposals[proposal_id].policy_id,
            )) <==> r == Err::<(EventId, crate::domain::ApprovedProposal), Error>(
                Error::SharedKeysNotFound,
            ),
            (old(self)@.db.proposals.contains_key(proposal_id)
                && old(self)@.db.policies.contains_key(
                old(self)@.db.proposals[proposal_id].policy_id,
            ) && old(self)@.db.shared_keys.contains_key(
                old(self)@.db.proposals[proposal_id].policy_id,
            )) ==> r is Ok,
            r is Err ==> final(self)@ == old(self)@,
            r is Ok ==> approve_ok(
                old(self)@,
                final(self)@,
                proposal_id,
                r.unwrap().0,
                r.unwrap().1@,
                now,
            ),
    {
        self.approve(proposal_id, signed_psbt, now)
    }

    /// What finalizing leaves behind: the proposal and its approvals gone,
    /// the completion stored under the completion event's id, the event
    /// published under the shared key, and a spending completion queued
    /// for chain resynchronization.
    pub fn finalize(
        &mut self,
        proposal_id: EventId,
        completed: crate::domain::CompletedProposal,
        now: u64,
    ) -> (r: Result<crate::domain::CompletedProposal, Error>)
        requires
            old(self).wf(),
        ensures
            final(self).wf(),
            !old(self)@.db.proposals.contains_key(proposal_id) <==> r == Err::<
                crate::domain::CompletedProposal,
                Error,
            >(Error::ProposalNotFound),
            (old(self)@.db.proposals.contains_key(proposal_id) && (forall|k: EventId|
                old(self)@.db.approvals.contains_key(k) ==> (
                #[trigger] old(self)@.db.approvals[k]).proposal_id != proposal_id)) <==> r == Err::<
                crate::domain::CompletedProposal,
                Error,
            >(Error::ApprovedProposalNotFound),
            (old(self)@.db.proposals.contains_key(proposal_id) && (exists|k: EventId|
                old(self)@.db.approvals.contains_key(k) && (
                #[trigger] old(self)@.db.approvals[k]).proposal_id == proposal_id) && !old(self)@.db.policies.contains_key(old(self)@.db.proposals[proposal_id].policy_id)) <==> r
                == Err::<crate::domain::CompletedProposal, Error>(Error::PolicyNotFound),
            (old(self)@.db.proposals.contains_key(proposal_id) && (exists|k: EventId|
                old(self)@.db.approvals.contains_key(k) && (
                #[trigger] old(self)@.db.approvals[k]).proposal_id == proposal_id) && old(self)@.db.policies.contains_key(old(self)@.db.proposals[proposal_id].policy_id) && !old(self)@.db.shared_keys.contains_key(old(self)@.db.proposals[proposal_id].policy_id)) <==> r
                == Err::<crate::domain::CompletedProposal, Error>(Error::SharedKeysNotFound),
            (old(self)@.db.proposals.contains_key(proposal_id) && (exists|k: EventId|
                old(self)@.db.approvals.contains_key(k) && (
                #[trigger] old(self)@.db.approvals[k]).proposal_id == proposal_id) && old(self)@.db.policies.contains_key(old(self)@.db.proposals[proposal_id].policy_id) && old(self)@.db.shared_keys.contains_key(old(self)@.db.proposals[proposal_id].policy_id)) ==> r
                is Ok,
            r is Err ==> final(self)@ == old(self)@,
            r is Ok ==> r.unwrap()@ == completed@ && finalize_ok(
                old(self)@,
                final(self)@,
                proposal_id,
                completed@,
                now,
            ),
    {
        let (policy_id, _proposal) = match self.db.get_proposal(&proposal_id) {
            Some(x) => x,
            None => {
                return Err(Error::ProposalNotFound);
            },
        };
        let approvals = self.db.get_approvals_by_proposal_id(&proposal_id);
        if approvals.len() == 0 {
            return Err(Error::ApprovedProposalNotFound);
        }
        proof {
            assert(old(self)@.db.approvals.contains_key(approvals@[0].0));
            assert(old(self)@.db.approvals[approvals@[0].0].proposal_id == proposal_id);
        }
        let cosigners = match self.db.get_nostr_pubkeys(&policy_id) {
            Some(x) => x,
            None => {
                return Err(Error::PolicyNotFound);
            },
        };
        let shared_key = match self.db.get_shared_key(&policy_id) {
            Some(k) => k,
            None => {
                return Err(Error::SharedKeysNotFound);
            },
        };
        let body = crate::domain::encode_completed(&completed);
        let content = match nip04_encrypt(&shared_key, &shared_key.public, &body) {
            Ok(c) => c,
            Err(e) => {
                return Err(e);
            },
        };
        let mut tags = pubkey_tags_vec(&cosigners);
        tags.push(Tag::Event(proposal_id));
        tags.push(Tag::Event(policy_id));
        let event = match sign_event(&shared_key, COMPLETED_PROPOSAL_KIND, &tags, &content, now) {
            Ok(ev) => ev,
            Err(e) => {
                return Err(e);
            },
        };
        let completed_id = event.id;
        self.send_event(event);
        self.db.delete_proposal(&proposal_id);
        let is_spending = match &completed {
            crate::domain::CompletedProposal::Spending { .. } => true,
            crate::domain::CompletedProposal::ProofOfReserve { .. } => false,
        };
        let returned = completed.duplicate();
        self.db.save_completed_proposal(completed_id, policy_id, completed);
        if is_spending {
            self.db.schedule_for_sync(policy_id);
        }
        proof {
            assert(self@.outbox.take(old(self)@.outbox.len() as int) =~= old(self)@.outbox);
        }
        Ok(returned)
    }

    /// Whether the user's key is the taproot internal key of a descriptor:
    /// the descriptor begins `tr(` followed by the key's sixty-four
    /// digits.
    pub fn is_internal_key(&self, descriptor: &String) -> (r: bool)
        ensures
            r == spec_starts_with(
                descriptor@,
                seq!['t', 'r', '('] + spec_hex256(self@.keys.public.hi, self@.keys.public.lo),
            ),
    {
        let mut prefix = String::new();
        proof {
            reveal_strlit("tr(");
        }
        prefix.append("tr(");
        proof {
            lemma_pow16_32_val();
        }
        append_hex(&mut prefix, self.keys.public.hi, 32);
        append_hex(&mut prefix, self.keys.public.lo, 32);
        proof {
            assert(prefix@ =~= seq!['t', 'r', '('] + spec_hex256(
                self@.keys.public.hi,
                self@.keys.public.lo,
            ));
        }
        str_starts_with(descriptor.as_str(), prefix.as_str())
    }

    /// Spend from one policy to another: the destination's next unused
    /// address is taken from its wallet snapshot.
    pub fn self_transfer(
        &mut self,
        from_policy_id: EventId,
        to_policy_id: EventId,
        amount: u64,
        psbt: String,
        now: u64,
    ) -> (r: Result<(EventId, crate::domain::Proposal), Error>)
        requires
            old(self).wf(),
        ensures
            final(self).wf(),
            r is Err ==> final(self)@ == old(self)@,
            r == Err::<(EventId, crate::domain::Proposal), Error>(Error::PolicyNotFound) <==> (!(
            old(self)@.db.wallets.contains_key(to_policy_id)
                && old(self)@.db.wallets[to_policy_id].last_unused_address is Some) || !old(self)@.db.policies.contains_key(from_policy_id)),
            (old(self)@.db.wallets.contains_key(to_policy_id)
                && old(self)@.db.wallets[to_policy_id].last_unused_address is Some && old(self)@.db.policies.contains_key(from_policy_id) && !old(self)@.db.shared_keys.contains_key(from_policy_id)) <==> r == Err::<
                (EventId, crate::domain::Proposal),
                Error,
            >(Error::SharedKeysNotFound),
            (old(self)@.db.wallets.contains_key(to_policy_id)
                && old(self)@.db.wallets[to_policy_id].last_unused_address is Some && old(self)@.db.policies.contains_key(from_policy_id) && old(self)@.db.shared_keys.contains_key(from_policy_id) && (forall|i: int|
                0 <= i < old(self)@.db.policies[from_policy_id].cosigners.len() ==> curve_point(
                    (#[trigger] old(self)@.db.policies[from_policy_id].cosigners[i]).hi,
                    old(self)@.db.policies[from_policy_id].cosigners[i].lo,
                ))) ==> r is Ok,
            r is Ok ==> proposal_published_ok(
                old(self)@,
                final(self)@,
                from_policy_id,
                r.unwrap().0,
                r.unwrap().1@,
                now,
            ),
    {
        let address = match self.db.get_last_unused_address(&to_policy_id) {
            Some(a) => a,
            None => {
                return Err(Error::PolicyNotFound);
            },
        };
        let mut description = String::new();
        proof {
            reveal_strlit("Self transfer from policy #");
            reveal_strlit(" to #");
        }
        description.append("Self transfer from policy #");
        description.append(cut_event_id(&from_policy_id).as_str());
        description.append(" to #");
        description.append(cut_event_id(&to_policy_id).as_str());
        self.spend(from_policy_id, address, amount, description, psbt, now)
    }
}

/// What a successful `finalize` does.
pub open spec fn finalize_ok(
    o: CoinstrV,
    f: CoinstrV,
    proposal_id: EventId,
    completed: crate::domain::CompletedProposalV,
    now: u64,
) -> bool {
    let policy_id = o.db.proposals[proposal_id].policy_id;
    let cosigners = o.db.policies[policy_id].cosigners;
    let sk = o.db.shared_keys[policy_id];
    let ev = f.outbox.last();
    &&& f.outbox.len() == o.outbox.len() + 1
    &&& f.outbox.take(o.outbox.len() as int) == o.outbox
    &&& ev.kind == COMPLETED_PROPOSAL_KIND
    &&& ev.pubkey == pubkey_of_secret(sk.secret.hi, sk.secret.lo)
    &&& ev.tags == pubkey_tag_seq(cosigners).push(Tag::Event(proposal_id)).push(
        Tag::Event(policy_id),
    )
    &&& ev.created_at == now
    &&& f.db.proposals == o.db.proposals.remove(proposal_id)
    &&& forall|k: EventId| #[trigger]
        f.db.approvals.contains_key(k) <==> (o.db.approvals.contains_key(k)
            && o.db.approvals[k].proposal_id != proposal_id)
    &&& forall|k: EventId| #[trigger]
        f.db.approvals.contains_key(k) ==> f.db.approvals[k] == o.db.approvals[k]
    &&& f.db.completed_proposals == o.db.completed_proposals.insert(
        ev.id,
        crate::store::CompletedRecordV { policy_id, completed },
    )
    &&& f.db.events == o.db.events.insert(ev.id, ev)
    &&& f.db.sync_queue == (match completed {
        crate::domain::CompletedProposalV::Spending { .. } => o.db.sync_queue.insert(policy_id),
        crate::domain::CompletedProposalV::ProofOfReserve { .. } => o.db.sync_queue,
    })
    &&& f.db == (StoreV {
        proposals: f.db.proposals,
        approvals: f.db.approvals,
        completed_proposals: f.db.completed_proposals,
        events: f.db.events,
        sync_queue: f.db.sync_queue,
        ..o.db
    })
    &&& f.network == o.network && f.keys == o.keys && f.endpoint == o.endpoint && f.syncing
        == o.syncing && f.first_sync_done == o.first_sync_done
}

/// One event appended to the outbox and the log, everything else as
/// before except what the operation's own clauses say.
pub open spec fn one_event_appended(
    o: CoinstrV,
    f: CoinstrV,
    kind: u16,
    author: XOnlyPublicKey,
    now: u64,
) -> bool {
    &&& f.outbox.len() == o.outbox.len() + 1
    &&& f.outbox.take(o.outbox.len() as int) == o.outbox
    &&& f.outbox.last().kind == kind
    &&& f.outbox.last().pubkey == author
    &&& f.outbox.last().created_at == now
    &&& f.db.events == o.db.events.insert(f.outbox.last().id, f.outbox.last())
    &&& f.network == o.network && f.keys == o.keys && f.endpoint == o.endpoint && f.syncing
        == o.syncing && f.first_sync_done == o.first_sync_done
}

/// Whether some share record hands the signer to the recipient.
pub open spec fn shared_with(db: StoreV, signer_id: EventId, pk: XOnlyPublicKey) -> bool {
    exists|k: EventId|
        #![trigger db.my_shared_signers[k]]
        db.my_shared_signers.contains_key(k) && db.my_shared_signers[k].signer_id == signer_id
            && db.my_shared_signers[k].recipient == pk
}

impl Coinstr {
    /// Store and advertise one of the user's signers. Fails when another
    /// signer already carries the descriptor, and only then, before any
    /// signing.
    pub fn save_signer(&mut self, signer: Signer, now: u64) -> (r: Result<EventId, Error>)
        requires
            old(self).wf(),
        ensures
            final(self).wf(),
            (exists|k: EventId|
                #![trigger old(self)@.db.signers[k]]
                old(self)@.db.signers.contains_key(k) && old(self)@.db.signers[k].descriptor
                    == signer@.descriptor) <==> r == Err::<EventId, Error>(
                Error::SignerDescriptorAlreadyExists,
            ),
            r == Err::<EventId, Error>(Error::SignerDescriptorAlreadyExists) ==> final(self)@ == old(self)@,
            r is Err ==> final(self)@ == old(self)@,
            r is Ok ==> one_event_appended(
                old(self)@,
                final(self)@,
                SIGNERS_KIND,
                self_key(old(self)@),
                now,
            ) && final(self)@.outbox.last().tags == Seq::<Tag>::empty() && final(self)@.outbox.last().id
                == r.unwrap() && final(self)@.db == (StoreV {
                signers: old(self)@.db.signers.insert(r.unwrap(), signer@),
                events: final(self)@.db.events,
                ..old(self)@.db
            }),
    {
        if self.db.signer_descriptor_exists(&signer.descriptor) {
            return Err(Error::SignerDescriptorAlreadyExists);
        }
        let body = crate::domain::encode_signer(&signer);
        let content = match nip04_encrypt(&self.keys, &self.keys.public, &body) {
            Ok(c) => c,
            Err(e) => {
                return Err(e);
            },
        };
        let tags: Vec<Tag> = Vec::new();
        let event = match sign_event(&self.keys, SIGNERS_KIND, &tags, &content, now) {
            Ok(ev) => ev,
            Err(e) => {
                return Err(e);
            },
        };
        let signer_id = event.id;
        self.send_event(event);
        self.db.save_signer(signer_id, signer);
        proof {
            assert(self@.outbox.take(old(self)@.outbox.len() as int) =~= old(self)@.outbox);
        }
        Ok(signer_id)
    }

    /// Share one of the user's signers with a recipient, encrypted to that
    /// recipient alone. Sharing twice with the same recipient fails, and
    /// only then, before any signing.
    pub fn share_signer(
        &mut self,
        signer_id: EventId,
        public_key: XOnlyPublicKey,
        now: u64,
    ) -> (r: Result<EventId, Error>)
        requires
            old(self).wf(),
        ensures
            final(self).wf(),
            (exists|k: EventId|
                #![trigger old(self)@.db.my_shared_signers[k]]
                old(self)@.db.my_shared_signers.contains_key(k)
                    && old(self)@.db.my_shared_signers[k].signer_id == signer_id && old(self)@.db.my_shared_signers[k].recipient == public_key) <==> r == Err::<EventId, Error>(
                Error::SignerAlreadyShared,
            ),
            (!(exists|k: EventId|
                #![trigger old(self)@.db.my_shared_signers[k]]
                old(self)@.db.my_shared_signers.contains_key(k)
                    && old(self)@.db.my_shared_signers[k].signer_id == signer_id && old(self)@.db.my_shared_signers[k].recipient == public_key) && !old(self)@.db.signers.contains_key(signer_id)) <==> r == Err::<EventId, Error>(
                Error::SignerNotFound,
            ),
            (!(exists|k: EventId|
                #![trigger old(self)@.db.my_shared_signers[k]]
                old(self)@.db.my_shared_signers.contains_key(k)
                    && old(self)@.db.my_shared_signers[k].signer_id == signer_id && old(self)@.db.my_shared_signers[k].recipient == public_key) && old(self)@.db.signers.contains_key(signer_id) && curve_point(public_key.hi, public_key.lo))
                ==> r is Ok,
            r is Err ==> final(self)@ == old(self)@,
            r is Ok ==> one_event_appended(
                old(self)@,
                final(self)@,
                SHARED_SIGNERS_KIND,
                self_key(old(self)@),
                now,
            ) && final(self)@.outbox.last().tags == seq![
                Tag::Event(signer_id),
                Tag::PubKey(public_key),
            ] && final(self)@.outbox.last().id == r.unwrap() && final(self)@.db == (StoreV {
                my_shared_signers: old(self)@.db.my_shared_signers.insert(
                    r.unwrap(),
                    crate::store::MySharedSignerRecord { signer_id, recipient: public_key },
                ),
                events: final(self)@.db.events,
                ..old(self)@.db
            }),
    {
        if self.db.my_shared_signer_already_shared(&signer_id, &public_key) {
            proof {
                let k = choose|k: EventId|
                    #![trigger self@.db.my_shared_signers[k]]
                    self@.db.my_shared_signers.contains_key(k)
                        && self@.db.my_shared_signers[k].signer_id == signer_id
                        && self@.db.my_shared_signers[k].recipient == public_key;
                assert(old(self)@.db.my_shared_signers.contains_key(k)
                    && old(self)@.db.my_shared_signers[k].signer_id == signer_id && old(self)@.db.my_shared_signers[k].recipient == public_key);
            }
            return Err(Error::SignerAlreadyShared);
        }
        let signer = match self.db.get_signer_by_id(&signer_id) {
            Some(g) => g,
            None => {
                return Err(Error::SignerNotFound);
            },
        };
        let shared = signer.to_shared_signer();
        let body = crate::domain::encode_shared_signer(&shared);
        let content = match nip04_encrypt(&self.keys, &public_key, &body) {
            Ok(c) => c,
            Err(e) => {
                return Err(e);
            },
        };
        let tags = vec![Tag::Event(signer_id), Tag::PubKey(public_key)];
        proof {
            assert(tags@ =~= seq![Tag::Event(signer_id), Tag::PubKey(public_key)]);
        }
        let event = match sign_event(&self.keys, SHARED_SIGNERS_KIND, &tags, &content, now) {
            Ok(ev) => ev,
            Err(e) => {
                return Err(e);
            },
        };
        let shared_signer_id = event.id;
        self.send_event(event);
        self.db.save_my_shared_signer(signer_id, shared_signer_id, public_key);
        proof {
            assert(self@.outbox.take(old(self)@.outbox.len() as int) =~= old(self)@.outbox);
        }
        Ok(shared_signer_id)
    }

    /// Share one signer with several recipients, skipping those it was
    /// already shared with. After success every named recipient holds a
    /// share.
    pub fn share_signer_to_multiple_public_keys(
        &mut self,
        signer_id: EventId,
        public_keys: Vec<XOnlyPublicKey>,
        now: u64,
    ) -> (r: Result<(), Error>)
        requires
            old(self).wf(),
        ensures
            final(self).wf(),
            public_keys@.len() == 0 ==> r == Err::<(), Error>(Error::NotEnoughPublicKeys) && final(self)@ == old(self)@,
            final(self)@.network == old(self)@.network && final(self)@.keys == old(self)@.keys
                && final(self)@.endpoint == old(self)@.endpoint && final(self)@.syncing == old(self)@.syncing && final(self)@.first_sync_done == old(self)@.first_sync_done,
            forall|k: EventId| #[trigger]
                final(self)@.db.my_shared_signers.contains_key(k) ==> ((old(self)@.db.my_shared_signers.contains_key(k) && final(self)@.db.my_shared_signers[k]
                    == old(self)@.db.my_shared_signers[k]) || final(self)@.db.my_shared_signers[k].signer_id == signer_id),
            r is Ok ==> forall|i: int|
                0 <= i < public_keys@.len() ==> #[trigger] shared_with(
                    final(self)@.db,
                    signer_id,
                    public_keys@[i],
                ),
    {
        if public_keys.len() == 0 {
            return Err(Error::NotEnoughPublicKeys);
        }
        let mut i: usize = 0;
        while i < public_keys.len()
            invariant
                self.wf(),
                i <= public_keys@.len(),
                self@.network == old(self)@.network,
                self@.keys == old(self)@.keys,
                self@.endpoint == old(self)@.endpoint,
                self@.syncing == old(self)@.syncing,
                self@.first_sync_done == old(self)@.first_sync_done,
                forall|k: EventId| #[trigger]
                    self@.db.my_shared_signers.contains_key(k) ==> ((old(self)@.db.my_shared_signers.contains_key(k) && self@.db.my_shared_signers[k] == old(self)@.db.my_shared_signers[k]) || self@.db.my_shared_signers[k].signer_id
                        == signer_id),
            decreases public_keys@.len() - i,
        {
            let pk = public_keys[i];
            match self.share_signer(signer_id, pk, now) {
                Ok(_) => (),
                Err(e) => {
                    if !matches!(e, Error::SignerAlreadyShared) {
                        return Err(e);
                    }
                },
            }
            i = i + 1;
        }
        // Read the final state back: every named recipient must hold a
        // share now. Event ids are hashes, so an overwrite that lost one
        // is all but impossible; it would surface here as an error.
        let mut v: usize = 0;
        while v < public_keys.len()
            invariant
                self.wf(),
                v <= public_keys@.len(),
                self@.network == old(self)@.network,
                self@.keys == old(self)@.keys,
                self@.endpoint == old(self)@.endpoint,
                self@.syncing == old(self)@.syncing,
                self@.first_sync_done == old(self)@.first_sync_done,
                forall|k: EventId| #[trigger]
                    self@.db.my_shared_signers.contains_key(k) ==> ((old(self)@.db.my_shared_signers.contains_key(k) && self@.db.my_shared_signers[k] == old(self)@.db.my_shared_signers[k]) || self@.db.my_shared_signers[k].signer_id
                        == signer_id),
                forall|j: int|
                    0 <= j < v ==> #[trigger] shared_with(self@.db, signer_id, public_keys@[j]),
            decreases public_keys@.len() - v,
        {
            if !self.db.my_shared_signer_already_shared(&signer_id, &public_keys[v]) {
                return Err(Error::Crypto);
            }
            proof {
                assert(shared_with(self@.db, signer_id, public_keys@[v as int]));
            }
            v = v + 1;
        }
        Ok(())
    }
}

/// The `Event` tags naming each id, in order.
pub open spec fn event_tag_seq(ids: Seq<EventId>) -> Seq<Tag> {
    ids.map_values(|d: EventId| Tag::Event(d))
}

impl Coinstr {
    /// Propose a proof of reserve under a policy. The attestation comes
    /// from the descriptor library; the engine publishes and stores it
    /// exactly as it does a spend.
    #[verifier::rlimit(100)]
    #[verifier::spinoff_prover]
    pub fn new_proof_proposal(
        &mut self,
        policy_id: EventId,
        message: String,
        psbt: String,
        now: u64,
    ) -> (r: Result<(EventId, crate::domain::Proposal, EventId), Error>)
        requires
            old(self).wf(),
        ensures
            final(self).wf(),
            !old(self)@.db.policies.contains_key(policy_id) <==> r == Err::<
                (EventId, crate::domain::Proposal, EventId),
                Error,
            >(Error::PolicyNotFound),
            (old(self)@.db.policies.contains_key(policy_id)
                && !old(self)@.db.shared_keys.contains_key(policy_id)) <==> r == Err::<
                (EventId, crate::domain::Proposal, EventId),
                Error,
            >(Error::SharedKeysNotFound),
            (old(self)@.db.policies.contains_key(policy_id)
                && old(self)@.db.shared_keys.contains_key(policy_id) && (forall|i: int|
                0 <= i < old(self)@.db.policies[policy_id].cosigners.len() ==> curve_point(
                    (#[trigger] old(self)@.db.policies[policy_id].cosigners[i]).hi,
                    old(self)@.db.policies[policy_id].cosigners[i].lo,
                ))) ==> r is Ok,
            r is Err ==> final(self)@ == old(self)@,
            r is Ok ==> r.unwrap().2 == policy_id && r.unwrap().1@ == (crate::domain::ProposalV::ProofOfReserve {
                descriptor: old(self)@.db.policies[policy_id].policy.descriptor,
                message: message@,
                psbt: psbt@,
            }) && proposal_published_ok(
                old(self)@,
                final(self)@,
                policy_id,
                r.unwrap().0,
                r.unwrap().1@,
                now,
            ),
    {
        let (policy, cosigners) = match self.db.get_policy(&policy_id) {
            Some(x) => x,
            None => {
                return Err(Error::PolicyNotFound);
            },
        };
        let shared_key = match self.db.get_shared_key(&policy_id) {
            Some(k) => k,
            None => {
                return Err(Error::SharedKeysNotFound);
            },
        };
        let mut dm_text = String::from_str("New proof of reserve request: ");
        dm_text.append(message.as_str());
        let proposal = crate::domain::Proposal::ProofOfReserve {
            descriptor: policy.descriptor,
            message,
            psbt,
        };
        let body = crate::domain::encode_proposal(&proposal);
        let content = match nip04_encrypt(&shared_key, &shared_key.public, &body) {
            Ok(c) => c,
            Err(e) => {
                return Err(e);
            },
        };
        let mut tags = pubkey_tags_vec(&cosigners);
        tags.push(Tag::Event(policy_id));
        let proposal_event = match sign_event(&shared_key, PROPOSAL_KIND, &tags, &content, now) {
            Ok(ev) => ev,
            Err(e) => {
                return Err(e);
            },
        };
        let proposal_id = proposal_event.id;
        let mut dms: Vec<Event> = Vec::new();
        let mut i: usize = 0;
        while i < cosigners.len()
            invariant
                old(self).wf(),
                self == old(self),
                old(self)@.db.policies.contains_key(policy_id),
                old(self)@.db.shared_keys.contains_key(policy_id),
                cosigners@ == old(self)@.db.policies[policy_id].cosigners,
                i <= cosigners@.len(),
                event_views(dms@).len() == others(
                    cosigners@.take(i as int),
                    self_key(old(self)@),
                ).len(),
                forall|j: int|
                    0 <= j < event_views(dms@).len() ==> is_dm_event(
                        #[trigger] event_views(dms@)[j],
                        self_key(old(self)@),
                        others(cosigners@.take(i as int), self_key(old(self)@))[j],
                        now,
                    ),
            decreases cosigners@.len() - i,
        {
            proof {
                assert(cosigners@.take(i + 1).drop_last() =~= cosigners@.take(i as int));
            }
            let c = cosigners[i];
            if !(c == self.keys.public) {
                let ct = match nip04_encrypt(&self.keys, &c, &dm_text) {
                    Ok(x) => x,
                    Err(e) => {
                        proof {
                            assert(c == old(self)@.db.policies[policy_id].cosigners[i as int]);
                            assert(!curve_point(c.hi, c.lo));
                        }
                        return Err(e);
                    },
                };
                let dm_tags = vec![Tag::PubKey(c)];
                proof {
                    assert(dm_tags@ =~= seq![Tag::PubKey(cosigners@[i as int])]);
                }
                let ev = match sign_event(&self.keys, ENCRYPTED_DM_KIND, &dm_tags, &ct, now) {
                    Ok(x) => x,
                    Err(e) => {
                        return Err(e);
                    },
                };
                let ghost prev = event_views(dms@);
                dms.push(ev);
                proof {
                    assert(event_views(dms@) =~= prev.push(dms@.last()@));
                }
            }
            i = i + 1;
        }
        proof {
            assert(cosigners@.take(cosigners@.len() as int) =~= cosigners@);
        }
        let ghost pre = self@;
        let ghost prop_ev_view = proposal_event@;
        self.send_event(proposal_event);
        let ghost planned = event_views(dms@);
        let ghost mid = self@;
        let mut j: usize = 0;
        while j < dms.len()
            invariant
                self.wf(),
                j <= dms@.len(),
                planned == event_views(dms@),
                self@ == (CoinstrV {
                    db: StoreV {
                        events: insert_events(mid.db.events, planned.take(j as int)),
                        ..mid.db
                    },
                    outbox: mid.outbox + planned.take(j as int),
                    ..mid
                }),
            decreases dms@.len() - j,
        {
            let ev = dms[j].duplicate();
            self.send_event(ev);
            proof {
                assert(planned.take(j + 1).drop_last() =~= planned.take(j as int));
                assert(planned.take(j + 1).last() == planned[j as int]);
                assert(self@.outbox =~= mid.outbox + planned.take(j + 1));
            }
            j = j + 1;
        }
        proof {
            assert(planned.take(planned.len() as int) =~= planned);
        }
        let ghost prop_view = proposal@;
        let returned = proposal.duplicate();
        self.db.save_proposal(proposal_id, policy_id, proposal);
        proof {
            let o = pre;
            let f = self@;
            let appended = f.outbox.skip(o.outbox.len() as int);
            assert(appended =~= seq![prop_ev_view] + planned);
            assert(appended[0] == prop_ev_view);
            assert(f.outbox.take(o.outbox.len() as int) =~= o.outbox);
            assert(f.db.events =~= insert_events(o.db.events, appended)) by {
                lemma_insert_events_cons(o.db.events, prop_ev_view, planned);
            }
            assert forall|x: int|
                0 <= x < others(pre.db.policies[policy_id].cosigners, self_key(pre)).len()
                implies is_dm_event(
                #[trigger] appended[1 + x],
                self_key(pre),
                others(pre.db.policies[policy_id].cosigners, self_key(pre))[x],
                now,
            ) by {
                assert(appended[1 + x] == planned[x]);
            }
            assert(proposal_published_ok(o, f, policy_id, proposal_id, prop_view, now));
        }
        Ok((proposal_id, returned, policy_id))
    }

    /// Publish a deletion for a policy, signed under its shared key so any
    /// cosigner's replica honors it, naming the policy and every stored
    /// event that references it; then remove it locally with its cascade.
    pub fn delete_policy_by_id(&mut self, policy_id: EventId, now: u64) -> (r: Result<(), Error>)
        requires
            old(self).wf(),
        ensures
            final(self).wf(),
            !old(self)@.db.policies.contains_key(policy_id) ==> r == Err::<(), Error>(
                Error::PolicyNotFound,
            ),
            (old(self)@.db.policies.contains_key(policy_id)
                && !old(self)@.db.shared_keys.contains_key(policy_id)) ==> r == Err::<(), Error>(
                Error::SharedKeysNotFound,
            ),
            r is Err ==> final(self)@ == old(self)@,
            r is Ok ==> ({
                let o = old(self)@;
                let f = final(self)@;
                let sk = o.db.shared_keys[policy_id];
                let ev = f.outbox.last();
                &&& f.outbox.len() == o.outbox.len() + 1
                &&& f.outbox.take(o.outbox.len() as int) == o.outbox
                &&& ev.kind == EVENT_DELETION_KIND
                &&& ev.pubkey == pubkey_of_secret(sk.secret.hi, sk.secret.lo)
                &&& ev.created_at == now
                &&& pubkey_tags(ev.tags) == o.db.policies[policy_id].cosigners
                &&& (forall|d: EventId| #[trigger]
                    event_tag_ids(ev.tags).contains(d) <==> (d == policy_id
                        || (o.db.events.contains_key(d) && event_tag_ids(
                        o.db.events[d].tags,
                    ).contains(policy_id))))
                &&& f.db.policies == o.db.policies.remove(policy_id)
                &&& (forall|k: EventId| #[trigger]
                    f.db.proposals.contains_key(k) <==> (o.db.proposals.contains_key(k)
                        && o.db.proposals[k].policy_id != policy_id))
                &&& (forall|k: EventId| #[trigger]
                    f.db.completed_proposals.contains_key(k) <==> (
                    o.db.completed_proposals.contains_key(k) && o.db.completed_proposals[k].policy_id
                        != policy_id))
                &&& f.network == o.network && f.keys == o.keys
            }),
    {
        let cosigners = match self.db.get_nostr_pubkeys(&policy_id) {
            Some(x) => x,
            None => {
                return Err(Error::PolicyNotFound);
            },
        };
        let shared_key = match self.db.get_shared_key(&policy_id) {
            Some(k) => k,
            None => {
                return Err(Error::SharedKeysNotFound);
            },
        };
        let linked = self.db.get_event_ids_linked_to_policy(&policy_id);
        let mut tags = pubkey_tags_vec(&cosigners);
        let ghost pk_part = tags@;
        tags.push(Tag::Event(policy_id));
        let mut t: usize = 0;
        while t < linked.len()
            invariant
                old(self).wf(),
                self == old(self),
                old(self)@.db.policies.contains_key(policy_id),
                old(self)@.db.shared_keys.contains_key(policy_id),
                t <= linked@.len(),
                forall|k: EventId| #[trigger]
                    linked@.contains(k) <==> (old(self)@.db.events.contains_key(k)
                        && event_tag_ids(old(self)@.db.events[k].tags).contains(policy_id)),
                tags@ == pk_part.push(Tag::Event(policy_id)) + event_tag_seq(
                    linked@.take(t as int),
                ),
                pk_part == pubkey_tag_seq(old(self)@.db.policies[policy_id].cosigners),
            decreases linked@.len() - t,
        {
            tags.push(Tag::Event(linked[t]));
            proof {
                assert(tags@ =~= pk_part.push(Tag::Event(policy_id)) + event_tag_seq(
                    linked@.take(t + 1),
                ));
            }
            t = t + 1;
        }
        proof {
            assert(linked@.take(linked@.len() as int) =~= linked@);
        }
        let content = String::new();
        let event = match sign_event(&shared_key, EVENT_DELETION_KIND, &tags, &content, now) {
            Ok(ev) => ev,
            Err(e) => {
                return Err(e);
            },
        };
        self.send_event(event);
        self.db.delete_policy(&policy_id);
        proof {
            assert(self@.outbox.take(old(self)@.outbox.len() as int) =~= old(self)@.outbox);
            let ev = self@.outbox.last();
            lemma_tag_projections(
                pk_part,
                old(self)@.db.policies[policy_id].cosigners,
                policy_id,
                linked@,
                ev.tags,
            );
            assert forall|d: EventId| #[trigger]
                event_tag_ids(ev.tags).contains(d) <==> (d == policy_id || (old(self)@.db.events.contains_key(d) && event_tag_ids(
                    old(self)@.db.events[d].tags,
                ).contains(policy_id))) by {
                lemma_cons_contains(policy_id, linked@);
            }
        }
        Ok(())
    }
}

/// The id and key projections of a deletion event's tags: the recipient
/// tags project to the cosigners, the id tags to the policy and its linked
/// events.
pub proof fn lemma_tag_projections(
    pk_part: Seq<Tag>,
    cosigners: Seq<XOnlyPublicKey>,
    policy_id: EventId,
    linked: Seq<EventId>,
    tags: Seq<Tag>,
)
    requires
        pk_part == pubkey_tag_seq(cosigners),
        tags == pk_part.push(Tag::Event(policy_id)) + event_tag_seq(linked),
    ensures
        pubkey_tags(tags) == cosigners,
        event_tag_ids(tags) == seq![policy_id] + linked,
{
    lemma_pubkey_tag_seq_projections(cosigners);
    lemma_event_tag_seq_projections(linked);
    lemma_tag_concat(pk_part.push(Tag::Event(policy_id)), event_tag_seq(linked));
    lemma_tag_concat(pk_part, seq![Tag::Event(policy_id)]);
    assert(pk_part.push(Tag::Event(policy_id)) =~= pk_part + seq![Tag::Event(policy_id)]);
    assert(tags =~= pk_part + seq![Tag::Event(policy_id)] + event_tag_seq(linked));
    assert((pk_part + seq![Tag::Event(policy_id)] + event_tag_seq(linked)).drop_last()
        =~= if event_tag_seq(linked).len() > 0 {
        pk_part + seq![Tag::Event(policy_id)] + event_tag_seq(linked).drop_last()
    } else {
        pk_part
    });
    assert((seq![Tag::Event(policy_id)]).drop_last() =~= Seq::<Tag>::empty());
    assert((seq![Tag::Event(policy_id)]).last() == Tag::Event(policy_id));
    assert(pubkey_tags(Seq::<Tag>::empty()) == Seq::<XOnlyPublicKey>::empty());
    assert(event_tag_ids(Seq::<Tag>::empty()) == Seq::<EventId>::empty());
    assert((seq![Tag::Event(policy_id)]).len() == 1);
    assert(pubkey_tags(seq![Tag::Event(policy_id)]) =~= Seq::<XOnlyPublicKey>::empty());
    assert(event_tag_ids(seq![Tag::Event(policy_id)]) =~= seq![policy_id]);
    assert(pubkey_tags(tags) =~= cosigners);
    assert(event_tag_ids(tags) =~= seq![policy_id] + linked);
}

/// Membership in a sequence with one element put in front.
pub proof fn lemma_cons_contains<T>(x: T, s: Seq<T>)
    ensures
        forall|k: T| #[trigger] (seq![x] + s).contains(k) <==> (k == x || s.contains(k)),
{
    assert forall|k: T| #[trigger] (seq![x] + s).contains(k) implies (k == x || s.contains(k)) by {
        let idx = choose|idx: int| 0 <= idx < (seq![x] + s).len() && #[trigger] (seq![x] + s)[idx]
            == k;
        if idx > 0 {
            assert(s[idx - 1] == k);
        }
    }
    assert forall|k: T| (k == x || s.contains(k)) implies #[trigger] (seq![x] + s).contains(k) by {
        if k == x {
            assert((seq![x] + s)[0] == k);
        } else {
            let idx = choose|idx: int| 0 <= idx < s.len() && #[trigger] s[idx] == k;
            assert((seq![x] + s)[idx + 1] == k);
        }
    }
}

/// Tag projections of a pure recipient-tag run.
pub proof fn lemma_pubkey_tag_seq_projections(pks: Seq<XOnlyPublicKey>)
    ensures
        pubkey_tags(pubkey_tag_seq(pks)) == pks,
        event_tag_ids(pubkey_tag_seq(pks)) == Seq::<EventId>::empty(),
    decreases pks.len(),
{
    if pks.len() == 0 {
        assert(pubkey_tag_seq(pks) =~= Seq::<Tag>::empty());
    } else {
        lemma_pubkey_tag_seq_projections(pks.drop_last());
        assert(pubkey_tag_seq(pks).drop_last() =~= pubkey_tag_seq(pks.drop_last()));
        assert(pubkey_tag_seq(pks).last() == Tag::PubKey(pks.last()));
        assert(pubkey_tags(pubkey_tag_seq(pks)) =~= pks);
        assert(event_tag_ids(pubkey_tag_seq(pks)) =~= Seq::<EventId>::empty());
    }
}

/// Tag projections of a pure id-tag run.
pub proof fn lemma_event_tag_seq_projections(ids: Seq<EventId>)
    ensures
        event_tag_ids(event_tag_seq(ids)) == ids,
        pubkey_tags(event_tag_seq(ids)) == Seq::<XOnlyPublicKey>::empty(),
    decreases ids.len(),
{
    if ids.len() == 0 {
        assert(event_tag_seq(ids) =~= Seq::<Tag>::empty());
    } else {
        lemma_event_tag_seq_projections(ids.drop_last());
        assert(event_tag_seq(ids).drop_last() =~= event_tag_seq(ids.drop_last()));
        assert(event_tag_seq(ids).last() == Tag::Event(ids.last()));
        assert(event_tag_ids(event_tag_seq(ids)) =~= ids);
        assert(pubkey_tags(event_tag_seq(ids)) =~= Seq::<XOnlyPublicKey>::empty());
    }
}

/// Tag projections distribute over concatenation.
pub proof fn lemma_tag_concat(a: Seq<Tag>, b: Seq<Tag>)
    ensures
        pubkey_tags(a + b) == pubkey_tags(a) + pubkey_tags(b),
        event_tag_ids(a + b) == event_tag_ids(a) + event_tag_ids(b),
    decreases b.len(),
{
    if b.len() == 0 {
        assert(a + b =~= a);
        assert(pubkey_tags(a + b) =~= pubkey_tags(a) + pubkey_tags(b));
        assert(event_tag_ids(a + b) =~= event_tag_ids(a) + event_tag_ids(b));
    } else {
        lemma_tag_concat(a, b.drop_last());
        assert((a + b).drop_last() =~= a + b.drop_last());
        assert((a + b).last() == b.last());
        assert(pubkey_tags(a + b) =~= pubkey_tags(a) + pubkey_tags(b));
        assert(event_tag_ids(a + b) =~= event_tag_ids(a) + event_tag_ids(b));
    }
}

impl Coinstr {
    /// Publish a deletion for a proposal, signed under its policy's shared
    /// key, notifying the cosigners the proposal event was tagged with;
    /// then remove the proposal and its approvals locally.
    pub fn delete_proposal_by_id(&mut self, proposal_id: EventId, now: u64) -> (r: Result<
        (),
        Error,
    >)
        requires
            old(self).wf(),
        ensures
            final(self).wf(),
            !old(self)@.db.events.contains_key(proposal_id) ==> r == Err::<(), Error>(
                Error::EventNotFound,
            ),
            (old(self)@.db.events.contains_key(proposal_id)
                && old(self)@.db.events[proposal_id].kind != PROPOSAL_KIND) ==> r == Err::<
                (),
                Error,
            >(Error::ProposalNotFound),
            r is Err ==> final(self)@ == old(self)@,
            r is Ok ==> ({
                let o = old(self)@;
                let f = final(self)@;
                let stored = o.db.events[proposal_id];
                let policy_id = first_event_tag(stored.tags).unwrap();
                let sk = o.db.shared_keys[policy_id];
                let ev = f.outbox.last();
                &&& first_event_tag(stored.tags) is Some
                &&& f.outbox.len() == o.outbox.len() + 1
                &&& f.outbox.take(o.outbox.len() as int) == o.outbox
                &&& ev.kind == EVENT_DELETION_KIND
                &&& ev.pubkey == pubkey_of_secret(sk.secret.hi, sk.secret.lo)
                &&& ev.created_at == now
                &&& ev.tags == pubkey_tag_seq(pubkey_tags(stored.tags)).push(
                    Tag::Event(proposal_id),
                )
                &&& f.db.proposals == o.db.proposals.remove(proposal_id)
                &&& (forall|k: EventId| #[trigger]
                    f.db.approvals.contains_key(k) <==> (o.db.approvals.contains_key(k)
                        && o.db.approvals[k].proposal_id != proposal_id))
                &&& f.network == o.network && f.keys == o.keys
            }),
    {
        let stored = match self.db.get_event_by_id(&proposal_id) {
            Some(ev) => ev,
            None => {
                return Err(Error::EventNotFound);
            },
        };
        if stored.kind != PROPOSAL_KIND {
            return Err(Error::ProposalNotFound);
        }
        let policy_id = match crate::event::extract_first_event_id(&stored) {
            Some(id) => id,
            None => {
                return Err(Error::PolicyNotFound);
            },
        };
        let shared_key = match self.db.get_shared_key(&policy_id) {
            Some(k) => k,
            None => {
                return Err(Error::SharedKeysNotFound);
            },
        };
        let recipients = crate::event::collect_pubkey_tags(&stored.tags);
        let mut tags = pubkey_tags_vec(&recipients);
        tags.push(Tag::Event(proposal_id));
        let content = String::new();
        let event = match sign_event(&shared_key, EVENT_DELETION_KIND, &tags, &content, now) {
            Ok(ev) => ev,
            Err(e) => {
                return Err(e);
            },
        };
        self.send_event(event);
        self.db.delete_proposal(&proposal_id);
        proof {
            assert(self@.outbox.take(old(self)@.outbox.len() as int) =~= old(self)@.outbox);
        }
        Ok(())
    }

    /// Publish a deletion for a completed proposal, signed under its
    /// policy's shared key; then remove it locally.
    pub fn delete_completed_proposal_by_id(
        &mut self,
        completed_proposal_id: EventId,
        now: u64,
    ) -> (r: Result<(), Error>)
        requires
            old(self).wf(),
        ensures
            final(self).wf(),
            !old(self)@.db.events.contains_key(completed_proposal_id) ==> r == Err::<(), Error>(
                Error::EventNotFound,
            ),
            (old(self)@.db.events.contains_key(completed_proposal_id) && old(self)@.db.events[completed_proposal_id].kind != COMPLETED_PROPOSAL_KIND) ==> r == Err::<
                (),
                Error,
            >(Error::ProposalNotFound),
            r is Err ==> final(self)@ == old(self)@,
            r is Ok ==> ({
                let o = old(self)@;
                let f = final(self)@;
                let stored = o.db.events[completed_proposal_id];
                let policy_id = second_event_tag(stored.tags).unwrap();
                let sk = o.db.shared_keys[policy_id];
                let ev = f.outbox.last();
                &&& second_event_tag(stored.tags) is Some
                &&& f.outbox.len() == o.outbox.len() + 1
                &&& f.outbox.take(o.outbox.len() as int) == o.outbox
                &&& ev.kind == EVENT_DELETION_KIND
                &&& ev.pubkey == pubkey_of_secret(sk.secret.hi, sk.secret.lo)
                &&& ev.created_at == now
                &&& ev.tags == pubkey_tag_seq(pubkey_tags(stored.tags)).push(
                    Tag::Event(completed_proposal_id),
                )
                &&& f.db.completed_proposals == o.db.completed_proposals.remove(
                    completed_proposal_id,
                )
                &&& f.network == o.network && f.keys == o.keys
            }),
    {
        let stored = match self.db.get_event_by_id(&completed_proposal_id) {
            Some(ev) => ev,
            None => {
                return Err(Error::EventNotFound);
            },
        };
        if stored.kind != COMPLETED_PROPOSAL_KIND {
            return Err(Error::ProposalNotFound);
        }
        let policy_id = match crate::event::extract_second_event_id(&stored) {
            Some(id) => id,
            None => {
                return Err(Error::PolicyNotFound);
            },
        };
        let shared_key = match self.db.get_shared_key(&policy_id) {
            Some(k) => k,
            None => {
                return Err(Error::SharedKeysNotFound);
            },
        };
        let recipients = crate::event::collect_pubkey_tags(&stored.tags);
        let mut tags = pubkey_tags_vec(&recipients);
        tags.push(Tag::Event(completed_proposal_id));
        let content = String::new();
        let event = match sign_event(&shared_key, EVENT_DELETION_KIND, &tags, &content, now) {
            Ok(ev) => ev,
            Err(e) => {
                return Err(e);
            },
        };
        self.send_event(event);
        self.db.delete_completed_proposal(&completed_proposal_id);
        proof {
            assert(self@.outbox.take(old(self)@.outbox.len() as int) =~= old(self)@.outbox);
        }
        Ok(())
    }

    /// Publish a deletion for one of the user's signers, under the user's
    /// own key, naming every outgoing share of it; then remove the signer
    /// and its share records locally.
    pub fn delete_signer_by_id(&mut self, signer_id: EventId, now: u64) -> (r: Result<(), Error>)
        requires
            old(self).wf(),
        ensures
            final(self).wf(),
            r is Ok,
            r is Err ==> final(self)@ == old(self)@,
            r is Ok ==> ({
                let o = old(self)@;
                let f = final(self)@;
                let ev = f.outbox.last();
                &&& f.outbox.len() == o.outbox.len() + 1
                &&& f.outbox.take(o.outbox.len() as int) == o.outbox
                &&& ev.kind == EVENT_DELETION_KIND
                &&& ev.pubkey == self_key(o)
                &&& ev.created_at == now
                &&& event_tag_ids(ev.tags).contains(signer_id)
                &&& f.db.signers == o.db.signers.remove(signer_id)
                &&& (forall|k: EventId| #[trigger]
                    f.db.my_shared_signers.contains_key(k) <==> (
                    o.db.my_shared_signers.contains_key(k) && o.db.my_shared_signers[k].signer_id
                        != signer_id))
                &&& f.network == o.network && f.keys == o.keys
            }),
    {
        let shares = self.db.my_shared_signer_ids_of_signer(&signer_id);
        let mut tags: Vec<Tag> = Vec::new();
        tags.push(Tag::Event(signer_id));
        let ghost base = tags@;
        let mut t: usize = 0;
        while t < shares.len()
            invariant
                old(self).wf(),
                self == old(self),
                t <= shares@.len(),
                base == seq![Tag::Event(signer_id)],
                tags@ == base + event_tag_seq(shares@.take(t as int)),
            decreases shares@.len() - t,
        {
            tags.push(Tag::Event(shares[t]));
            proof {
                assert(tags@ =~= base + event_tag_seq(shares@.take(t + 1)));
            }
            t = t + 1;
        }
        proof {
            assert(shares@.take(shares@.len() as int) =~= shares@);
        }
        // Tag the recipients too, so each revoked recipient's own
        // subscription sees the deletion.
        let recipients = self.get_my_shared_signers_by_signer_id(signer_id);
        let ghost mid_tags = tags@;
        let mut u: usize = 0;
        let ghost mut recips: Seq<XOnlyPublicKey> = Seq::empty();
        while u < recipients.len()
            invariant
                old(self).wf(),
                self == old(self),
                u <= recipients@.len(),
                recips.len() == u,
                mid_tags == base + event_tag_seq(shares@),
                tags@ == mid_tags + pubkey_tag_seq(recips),
            decreases recipients@.len() - u,
        {
            let pk = recipients[u].1;
            tags.push(Tag::PubKey(pk));
            proof {
                recips = recips.push(pk);
                assert(pubkey_tag_seq(recips).drop_last() =~= pubkey_tag_seq(
                    recips.drop_last(),
                )) by {
                    assert forall|x: int|
                        0 <= x < recips.len() - 1 implies pubkey_tag_seq(recips).drop_last()[x]
                        == pubkey_tag_seq(recips.drop_last())[x] by {
                        assert(recips.drop_last()[x] == recips[x]);
                    }
                }
                assert(tags@ =~= mid_tags + pubkey_tag_seq(recips));
            }
            u = u + 1;
        }
        let content = String::new();
        let event = match sign_event(&self.keys, EVENT_DELETION_KIND, &tags, &content, now) {
            Ok(ev) => ev,
            Err(e) => {
                return Err(e);
            },
        };
        self.send_event(event);
        self.db.delete_signer(&signer_id);
        proof {
            assert(self@.outbox.take(old(self)@.outbox.len() as int) =~= old(self)@.outbox);
            let ev = self@.outbox.last();
            lemma_event_tag_seq_projections(shares@);
            lemma_pubkey_tag_seq_projections(recips);
            lemma_tag_concat(base, event_tag_seq(shares@));
            lemma_tag_concat(base + event_tag_seq(shares@), pubkey_tag_seq(recips));
            assert((seq![Tag::Event(signer_id)]).drop_last() =~= Seq::<Tag>::empty());
            assert(event_tag_ids(Seq::<Tag>::empty()) == Seq::<EventId>::empty());
            assert(pubkey_tags(Seq::<Tag>::empty()) == Seq::<XOnlyPublicKey>::empty());
            assert(event_tag_ids(base) =~= seq![signer_id]);
            assert(ev.tags == base + event_tag_seq(shares@) + pubkey_tag_seq(recips));
            assert(event_tag_ids(ev.tags) =~= seq![signer_id] + shares@);
            assert(event_tag_ids(ev.tags)[0] == signer_id);
        }
        Ok(())
    }

    /// Publish a deletion for one approval, under the user's own key,
    /// notifying the policy's cosigners; then remove the approval locally.
    pub fn revoke_approval(&mut self, approval_id: EventId, now: u64) -> (r: Result<(), Error>)
        requires
            old(self).wf(),
        ensures
            final(self).wf(),
            !old(self)@.db.approvals.contains_key(approval_id) <==> r == Err::<(), Error>(
                Error::ApprovedProposalNotFound,
            ),
            (old(self)@.db.approvals.contains_key(approval_id) && !(
            old(self)@.db.proposals.contains_key(old(self)@.db.approvals[approval_id].proposal_id)
                && old(self)@.db.policies.contains_key(
                old(self)@.db.proposals[old(self)@.db.approvals[approval_id].proposal_id].policy_id,
            ))) <==> r == Err::<(), Error>(Error::PolicyNotFound),
            (old(self)@.db.approvals.contains_key(approval_id)
                && old(self)@.db.proposals.contains_key(
                old(self)@.db.approvals[approval_id].proposal_id,
            ) && old(self)@.db.policies.contains_key(
                old(self)@.db.proposals[old(self)@.db.approvals[approval_id].proposal_id].policy_id,
            )) ==> r is Ok,
            r is Err ==> final(self)@ == old(self)@,
            r is Ok ==> ({
                let o = old(self)@;
                let f = final(self)@;
                let policy_id = o.db.proposals[o.db.approvals[approval_id].proposal_id].policy_id;
                let ev = f.outbox.last();
                &&& f.outbox.len() == o.outbox.len() + 1
                &&& f.outbox.take(o.outbox.len() as int) == o.outbox
                &&& ev.kind == EVENT_DELETION_KIND
                &&& ev.pubkey == self_key(o)
                &&& ev.created_at == now
                &&& ev.tags == pubkey_tag_seq(o.db.policies[policy_id].cosigners).push(
                    Tag::Event(approval_id),
                )
                &&& f.db.approvals == o.db.approvals.remove(approval_id)
                &&& f.network == o.network && f.keys == o.keys
            }),
    {
        let (proposal_id, _, _) = match self.db.get_approval(&approval_id) {
            Some(x) => x,
            None => {
                return Err(Error::ApprovedProposalNotFound);
            },
        };
        let (policy_id, _) = match self.db.get_proposal(&proposal_id) {
            Some(x) => x,
            None => {
                return Err(Error::PolicyNotFound);
            },
        };
        let cosigners = match self.db.get_nostr_pubkeys(&policy_id) {
            Some(x) => x,
            None => {
                return Err(Error::PolicyNotFound);
            },
        };
        let mut tags = pubkey_tags_vec(&cosigners);
        tags.push(Tag::Event(approval_id));
        let content = String::new();
        let event = match sign_event(&self.keys, EVENT_DELETION_KIND, &tags, &content, now) {
            Ok(ev) => ev,
            Err(e) => {
                return Err(e);
            },
        };
        self.send_event(event);
        self.db.delete_approval(&approval_id);
        proof {
            assert(self@.outbox.take(old(self)@.outbox.len() as int) =~= old(self)@.outbox);
        }
        Ok(())
    }

    /// Publish a deletion for one outgoing share, under the user's own
    /// key; then remove the share record locally.
    pub fn revoke_shared_signer(&mut self, shared_signer_id: EventId, now: u64) -> (r: Result<
        (),
        Error,
    >)
        requires
            old(self).wf(),
        ensures
            final(self).wf(),
            !old(self)@.db.my_shared_signers.contains_key(shared_signer_id) <==> r == Err::<
                (),
                Error,
            >(Error::SignerIdNotFound),
            old(self)@.db.my_shared_signers.contains_key(shared_signer_id) ==> r is Ok,
            r is Err ==> final(self)@ == old(self)@,
            final(self)@.network == old(self)@.network && final(self)@.keys == old(self)@.keys
                && final(self)@.endpoint == old(self)@.endpoint && final(self)@.syncing == old(self)@.syncing && final(self)@.first_sync_done == old(self)@.first_sync_done,
            r is Ok ==> final(self)@.db.my_shared_signers == old(self)@.db.my_shared_signers.remove(shared_signer_id),
            r is Ok ==> ({
                let o = old(self)@;
                let f = final(self)@;
                let ev = f.outbox.last();
                &&& f.outbox.len() == o.outbox.len() + 1
                &&& f.outbox.take(o.outbox.len() as int) == o.outbox
                &&& ev.kind == EVENT_DELETION_KIND
                &&& ev.pubkey == self_key(o)
                &&& ev.created_at == now
                &&& ev.tags == seq![
                    Tag::PubKey(o.db.my_shared_signers[shared_signer_id].recipient),
                    Tag::Event(shared_signer_id),
                ]
                &&& f.db.my_shared_signers == o.db.my_shared_signers.remove(shared_signer_id)
                &&& f.db.shared_signers == o.db.shared_signers.remove(shared_signer_id)
                &&& f.network == o.network && f.keys == o.keys
            }),
    {
        let public_key = match self.db.get_public_key_for_my_shared_signer(&shared_signer_id) {
            Some(pk) => pk,
            None => {
                return Err(Error::SignerIdNotFound);
            },
        };
        let tags = vec![Tag::PubKey(public_key), Tag::Event(shared_signer_id)];
        proof {
            assert(tags@ =~= seq![Tag::PubKey(public_key), Tag::Event(shared_signer_id)]);
        }
        let content = String::new();
        let event = match sign_event(&self.keys, EVENT_DELETION_KIND, &tags, &content, now) {
            Ok(ev) => ev,
            Err(e) => {
                return Err(e);
            },
        };
        self.send_event(event);
        self.db.delete_shared_signer(&shared_signer_id);
        proof {
            assert(self@.outbox.take(old(self)@.outbox.len() as int) =~= old(self)@.outbox);
        }
        Ok(())
    }

    /// Revoke every outgoing share, one deletion event each.
    pub fn revoke_all_shared_signers(&mut self, now: u64) -> (r: Result<(), Error>)
        requires
            old(self).wf(),
        ensures
            final(self).wf(),
            final(self)@.network == old(self)@.network && final(self)@.keys == old(self)@.keys
                && final(self)@.endpoint == old(self)@.endpoint && final(self)@.syncing == old(self)@.syncing && final(self)@.first_sync_done == old(self)@.first_sync_done,
            r is Ok ==> forall|k: EventId| !(#[trigger] final(self)@.db.my_shared_signers.contains_key(k)),
    {
        let mut ids: Vec<EventId> = Vec::new();
        let es = self.db.my_shared_signers.entries_ref();
        let mut i: usize = 0;
        while i < es.len()
            invariant
                self.wf(),
                es == &self.db.my_shared_signers.entries,
                i <= es@.len(),
                forall|k: EventId| #[trigger]
                    self@.db.my_shared_signers.contains_key(k) ==> exists|x: int|
                        0 <= x < es@.len() && es@[x].0 == k,
                forall|j: int| 0 <= j < i ==> ids@.contains(#[trigger] es@[j].0),
                forall|k: EventId| #[trigger]
                    ids@.contains(k) ==> self@.db.my_shared_signers.contains_key(k),
            decreases es@.len() - i,
        {
            let ghost prev = ids@;
            let id = self.db.my_shared_signers.entries[i].0;
            ids.push(id);
            proof {
                crate::maps::lemma_push_contains(prev, ids@, id);
                crate::maps::lemma_id_as_map_index(self.db.my_shared_signers.entries@, i as int);
            }
            i = i + 1;
        }
        let mut j: usize = 0;
        while j < ids.len()
            invariant
                self.wf(),
                j <= ids@.len(),
                self@.network == old(self)@.network,
                self@.keys == old(self)@.keys,
                self@.endpoint == old(self)@.endpoint,
                self@.syncing == old(self)@.syncing,
                self@.first_sync_done == old(self)@.first_sync_done,
                forall|k: EventId| #[trigger]
                    self@.db.my_shared_signers.contains_key(k) ==> (ids@.contains(k) && !ids@.take(
                        j as int,
                    ).contains(k)),
            decreases ids@.len() - j,
        {
            let id = ids[j];
            let ghost before = self@;
            match self.revoke_shared_signer(id, now) {
                Ok(_) => {
                    proof {
                        assert(self@.db.my_shared_signers == before.db.my_shared_signers.remove(
                            id,
                        ));
                    }
                },
                Err(e) => {
                    if !matches!(e, Error::SignerIdNotFound) {
                        return Err(e);
                    }
                    proof {
                        assert(self@ == before);
                    }
                },
            }
            proof {
                assert(ids@.take(j + 1).drop_last() =~= ids@.take(j as int));
                assert(ids@.take(j + 1)[j as int] == ids@[j as int]);
                assert forall|k: EventId| #[trigger]
                    self@.db.my_shared_signers.contains_key(k) implies (ids@.contains(k)
                    && !ids@.take(j + 1).contains(k)) by {
                    if ids@.take(j + 1).contains(k) {
                        let x = choose|x: int|
                            0 <= x < j + 1 && #[trigger] ids@.take(j + 1)[x] == k;
                        if x < j {
                            assert(ids@.take(j as int)[x] == k);
                        }
                    }
                }
            }
            j = j + 1;
        }
        proof {
            assert forall|k: EventId| !(#[trigger] self@.db.my_shared_signers.contains_key(
                k,
            )) by {
                if self@.db.my_shared_signers.contains_key(k) {
                    assert(ids@.contains(k));
                    let x = choose|x: int| 0 <= x < ids@.len() && #[trigger] ids@[x] == k;
                    assert(ids@.take(ids@.len() as int) =~= ids@);
                }
            }
        }
        Ok(())
    }

    /// Distribute a policy's shared key to every cosigner again, one event
    /// per cosigner, as after a key loss on another device.
    pub fn republish_shared_key_for_policy(&mut self, policy_id: EventId, now: u64) -> (r: Result<
        (),
        Error,
    >)
        requires
            old(self).wf(),
        ensures
            final(self).wf(),
            !old(self)@.db.shared_keys.contains_key(policy_id) <==> r == Err::<(), Error>(
                Error::SharedKeysNotFound,
            ),
            (old(self)@.db.shared_keys.contains_key(policy_id)
                && !old(self)@.db.policies.contains_key(policy_id)) <==> r == Err::<(), Error>(
                Error::PolicyNotFound,
            ),
            (old(self)@.db.shared_keys.contains_key(policy_id)
                && old(self)@.db.policies.contains_key(policy_id) && (forall|i: int|
                0 <= i < old(self)@.db.policies[policy_id].cosigners.len() ==> curve_point(
                    (#[trigger] old(self)@.db.policies[policy_id].cosigners[i]).hi,
                    old(self)@.db.policies[policy_id].cosigners[i].lo,
                ))) ==> r is Ok,
            r is Err ==> final(self)@ == old(self)@,
            r is Ok ==> ({
                let o = old(self)@;
                let f = final(self)@;
                let pks = o.db.policies[policy_id].cosigners;
                let appended = f.outbox.skip(o.outbox.len() as int);
                &&& f.outbox.len() == o.outbox.len() + pks.len()
                &&& f.outbox.take(o.outbox.len() as int) == o.outbox
                &&& (forall|i: int|
                    0 <= i < pks.len() ==> is_shared_key_event(
                        #[trigger] appended[i],
                        self_key(o),
                        policy_id,
                        pks[i],
                        now,
                    ))
                &&& f.db == (StoreV {
                    events: insert_events(o.db.events, appended),
                    ..o.db
                })
                &&& f.network == o.network && f.keys == o.keys && f.endpoint == o.endpoint
                    && f.syncing == o.syncing && f.first_sync_done == o.first_sync_done
            }),
    {
        let shared_key = match self.db.get_shared_key(&policy_id) {
            Some(k) => k,
            None => {
                return Err(Error::SharedKeysNotFound);
            },
        };
        let cosigners = match self.db.get_nostr_pubkeys(&policy_id) {
            Some(x) => x,
            None => {
                return Err(Error::PolicyNotFound);
            },
        };
        let secret_hex = hex256(shared_key.secret.hi, shared_key.secret.lo);
        let mut sk_events: Vec<Event> = Vec::new();
        let mut i: usize = 0;
        while i < cosigners.len()
            invariant
                old(self).wf(),
                self == old(self),
                old(self)@.db.shared_keys.contains_key(policy_id),
                old(self)@.db.policies.contains_key(policy_id),
                cosigners@ == old(self)@.db.policies[policy_id].cosigners,
                i <= cosigners@.len(),
                sk_events@.len() == i,
                forall|j: int|
                    0 <= j < i ==> is_shared_key_event(
                        (#[trigger] sk_events@[j])@,
                        self_key(old(self)@),
                        policy_id,
                        cosigners@[j],
                        now,
                    ),
            decreases cosigners@.len() - i,
        {
            let ct = match nip04_encrypt(&self.keys, &cosigners[i], &secret_hex) {
                Ok(c) => c,
                Err(e) => {
                    proof {
                        assert(cosigners@[i as int]
                            == old(self)@.db.policies[policy_id].cosigners[i as int]);
                        assert(!curve_point(cosigners@[i as int].hi, cosigners@[i as int].lo));
                    }
                    return Err(e);
                },
            };
            let tags_i = vec![Tag::Event(policy_id), Tag::PubKey(cosigners[i])];
            proof {
                assert(tags_i@ =~= seq![
                    Tag::Event(policy_id),
                    Tag::PubKey(cosigners@[i as int]),
                ]);
            }
            let ev = match sign_event(&self.keys, SHARED_KEY_KIND, &tags_i, &ct, now) {
                Ok(ev) => ev,
                Err(e) => {
                    return Err(e);
                },
            };
            sk_events.push(ev);
            i = i + 1;
        }
        let ghost pre = self@;
        let ghost planned = event_views(sk_events@);
        let mut j: usize = 0;
        while j < sk_events.len()
            invariant
                self.wf(),
                j <= sk_events@.len(),
                planned == event_views(sk_events@),
                self@ == (CoinstrV {
                    db: StoreV {
                        events: insert_events(pre.db.events, planned.take(j as int)),
                        ..pre.db
                    },
                    outbox: pre.outbox + planned.take(j as int),
                    ..pre
                }),
            decreases sk_events@.len() - j,
        {
            let ev = sk_events[j].duplicate();
            self.send_event(ev);
            proof {
                assert(planned.take(j + 1).drop_last() =~= planned.take(j as int));
                assert(planned.take(j + 1).last() == planned[j as int]);
                assert(self@.outbox =~= pre.outbox + planned.take(j + 1));
            }
            j = j + 1;
        }
        proof {
            assert(planned.take(planned.len() as int) =~= planned);
            let o = pre;
            let f = self@;
            let appended = f.outbox.skip(o.outbox.len() as int);
            assert(appended =~= planned);
            assert(f.outbox.take(o.outbox.len() as int) =~= o.outbox);
        }
        Ok(())
    }
}

/// A policy written down for safekeeping, outside any relay.
pub struct PolicyBackup {
    pub name: String,
    pub description: String,
    pub descriptor: String,
    pub public_keys: Vec<XOnlyPublicKey>,
}

pub struct PolicyBackupV {
    pub name: Seq<char>,
    pub description: Seq<char>,
    pub descriptor: Seq<char>,
    pub public_keys: Seq<XOnlyPublicKey>,
}

impl View for PolicyBackup {
    type V = PolicyBackupV;

    open spec fn view(&self) -> PolicyBackupV {
        PolicyBackupV {
            name: self.name@,
            description: self.description@,
            descriptor: self.descriptor@,
            public_keys: self.public_keys@,
        }
    }
}

impl Coinstr {
    /// Record a contact and republish the whole contact list.
    pub fn add_contact(&mut self, public_key: XOnlyPublicKey, now: u64) -> (r: Result<(), Error>)
        requires
            old(self).wf(),
        ensures
            final(self).wf(),
            public_key == old(self)@.keys.public ==> final(self)@ == old(self)@ && r == Ok::<
                (),
                Error,
            >(()),
            r is Ok,
            r is Err ==> final(self)@ == old(self)@,
            (r is Ok && public_key != old(self)@.keys.public) ==> ({
                let o = old(self)@;
                let f = final(self)@;
                let ev = f.outbox.last();
                &&& f.outbox.len() == o.outbox.len() + 1
                &&& f.outbox.take(o.outbox.len() as int) == o.outbox
                &&& ev.kind == CONTACT_LIST_KIND
                &&& ev.pubkey == self_key(o)
                &&& ev.created_at == now
                &&& (forall|q: XOnlyPublicKey| #[trigger]
                    pubkey_tags(ev.tags).contains(q) <==> (o.db.contacts.contains(q) || q
                        == public_key))
                &&& f.db.contacts == o.db.contacts.insert(public_key)
                &&& f.network == o.network && f.keys == o.keys
            }),
    {
        if public_key == self.keys.public {
            return Ok(());
        }
        let mut pks = crate::maps::copy_vec(self.db.contacts.items_ref());
        pks.push(public_key);
        let tags = pubkey_tags_vec(&pks);
        let content = String::new();
        let event = match sign_event(&self.keys, CONTACT_LIST_KIND, &tags, &content, now) {
            Ok(ev) => ev,
            Err(e) => {
                return Err(e);
            },
        };
        self.send_event(event);
        self.db.save_contact(public_key);
        proof {
            assert(self@.outbox.take(old(self)@.outbox.len() as int) =~= old(self)@.outbox);
            let ev = self@.outbox.last();
            lemma_pubkey_tag_seq_projections(pks@);
            crate::maps::lemma_push_contains(
                old(self).db.contacts.items@,
                pks@,
                public_key,
            );
            assert forall|q: XOnlyPublicKey| #[trigger]
                pubkey_tags(ev.tags).contains(q) <==> (old(self)@.db.contacts.contains(q) || q
                    == public_key) by {
                crate::maps::lemma_pks_as_set_contains(old(self).db.contacts.items@, q);
            }
        }
        Ok(())
    }

    /// Drop a contact and republish the remaining contact list.
    pub fn remove_contact(&mut self, public_key: XOnlyPublicKey, now: u64) -> (r: Result<
        (),
        Error,
    >)
        requires
            old(self).wf(),
        ensures
            final(self).wf(),
            r is Ok,
            r is Err ==> final(self)@ == old(self)@,
            r is Ok ==> ({
                let o = old(self)@;
                let f = final(self)@;
                let ev = f.outbox.last();
                &&& f.outbox.len() == o.outbox.len() + 1
                &&& f.outbox.take(o.outbox.len() as int) == o.outbox
                &&& ev.kind == CONTACT_LIST_KIND
                &&& ev.pubkey == self_key(o)
                &&& ev.created_at == now
                &&& (forall|q: XOnlyPublicKey| #[trigger]
                    pubkey_tags(ev.tags).contains(q) <==> (o.db.contacts.contains(q) && q
                        != public_key))
                &&& f.db.contacts == o.db.contacts.remove(public_key)
                &&& f.network == o.network && f.keys == o.keys
            }),
    {
        let items = self.db.contacts.items_ref();
        let mut pks: Vec<XOnlyPublicKey> = Vec::new();
        let mut i: usize = 0;
        while i < items.len()
            invariant
                self.wf(),
                items == &self.db.contacts.items,
                i <= items@.len(),
                forall|x: int| 0 <= x < items@.len() ==> self@.db.contacts.contains(
                    #[trigger] items@[x],
                ),
                forall|q: XOnlyPublicKey| #[trigger]
                    pks@.contains(q) ==> (self@.db.contacts.contains(q) && q != public_key),
                forall|j: int|
                    0 <= j < i && (#[trigger] items@[j]) != public_key ==> pks@.contains(
                        items@[j],
                    ),
            decreases items@.len() - i,
        {
            let ghost prev = pks@;
            let q = self.db.contacts.items[i];
            if !(q == public_key) {
                pks.push(q);
                proof {
                    crate::maps::lemma_push_contains(prev, pks@, q);
                }
            }
            i = i + 1;
        }
        proof {
            assert forall|q: XOnlyPublicKey| #[trigger]
                pks@.contains(q) <==> (self@.db.contacts.contains(q) && q != public_key) by {
                crate::maps::lemma_pks_as_set_contains(self.db.contacts.items@, q);
            }
        }
        let tags = pubkey_tags_vec(&pks);
        let content = String::new();
        let event = match sign_event(&self.keys, CONTACT_LIST_KIND, &tags, &content, now) {
            Ok(ev) => ev,
            Err(e) => {
                return Err(e);
            },
        };
        self.send_event(event);
        self.db.delete_contact(&public_key);
        proof {
            assert(self@.outbox.take(old(self)@.outbox.len() as int) =~= old(self)@.outbox);
            lemma_pubkey_tag_seq_projections(pks@);
        }
        Ok(())
    }

    /// Publish the user's profile and store it.
    pub fn set_metadata(&mut self, profile: crate::types::Profile, now: u64) -> (r: Result<
        (),
        Error,
    >)
        requires
            old(self).wf(),
        ensures
            final(self).wf(),
            r is Ok,
            r is Err ==> final(self)@ == old(self)@,
            r is Ok ==> ({
                let o = old(self)@;
                let f = final(self)@;
                let ev = f.outbox.last();
                &&& f.outbox.len() == o.outbox.len() + 1
                &&& f.outbox.take(o.outbox.len() as int) == o.outbox
                &&& ev.kind == METADATA_KIND
                &&& ev.pubkey == self_key(o)
                &&& ev.content == profile@.content
                &&& ev.created_at == now
                &&& f.db.profiles == o.db.profiles.insert(o.keys.public, profile@)
                &&& f.network == o.network && f.keys == o.keys
            }),
    {
        let tags: Vec<Tag> = Vec::new();
        let event = match sign_event(&self.keys, METADATA_KIND, &tags, &profile.content, now) {
            Ok(ev) => ev,
            Err(e) => {
                return Err(e);
            },
        };
        self.send_event(event);
        let pk = self.keys.public;
        self.db.set_metadata(pk, profile);
        proof {
            assert(self@.outbox.take(old(self)@.outbox.len() as int) =~= old(self)@.outbox);
        }
        Ok(())
    }

    /// The user's stored profile, if any.
    pub fn get_profile(&self) -> (r: Option<crate::types::Profile>)
        requires
            self.wf(),
        ensures
            match r {
                Some(p) => self@.db.profiles.contains_key(self@.keys.public) && p@
                    == self@.db.profiles[self@.keys.public],
                None => !self@.db.profiles.contains_key(self@.keys.public),
            },
    {
        self.db.get_metadata(&self.keys.public)
    }

    /// Open a delegated-signing session: store it and publish the opening
    /// request, encrypted to the app.
    pub fn new_nostr_connect_session(
        &mut self,
        session: crate::types::ConnectSession,
        now: u64,
    ) -> (r: Result<(), Error>)
        requires
            old(self).wf(),
        ensures
            final(self).wf(),
            curve_point(session.app_public_key.hi, session.app_public_key.lo) ==> r is Ok,
            r is Err ==> final(self)@ == old(self)@,
            r is Ok ==> ({
                let o = old(self)@;
                let f = final(self)@;
                let ev = f.outbox.last();
                &&& f.outbox.len() == o.outbox.len() + 1
                &&& f.outbox.take(o.outbox.len() as int) == o.outbox
                &&& ev.kind == NOSTR_CONNECT_KIND
                &&& ev.pubkey == self_key(o)
                &&& ev.tags == seq![Tag::PubKey(session.app_public_key)]
                &&& ev.created_at == now
                &&& f.db.connect_sessions == o.db.connect_sessions.insert(
                    session.app_public_key,
                    session@,
                )
                &&& f.network == o.network && f.keys == o.keys
            }),
    {
        let app_pk = session.app_public_key;
        let req = crate::crypto::connect_request_json(&self.keys);
        let ct = match nip04_encrypt(&self.keys, &app_pk, &req) {
            Ok(c) => c,
            Err(e) => {
                return Err(e);
            },
        };
        let tags = vec![Tag::PubKey(app_pk)];
        proof {
            assert(tags@ =~= seq![Tag::PubKey(session.app_public_key)]);
        }
        let event = match sign_event(&self.keys, NOSTR_CONNECT_KIND, &tags, &ct, now) {
            Ok(ev) => ev,
            Err(e) => {
                return Err(e);
            },
        };
        self.send_event(event);
        self.db.save_nostr_connect_uri(session);
        proof {
            assert(self@.outbox.take(old(self)@.outbox.len() as int) =~= old(self)@.outbox);
        }
        Ok(())
    }

    /// Close a delegated-signing session. The close is local-only: the
    /// remote-signing protocol this crate builds on no longer has a
    /// disconnect message, so the app is not notified, where earlier
    /// revisions sent one over the session relay — and, for the same
    /// reason, an incoming disconnect no longer parses in the reducer.
    pub fn disconnect_nostr_connect_session(&mut self, app_public_key: XOnlyPublicKey) -> (r:
        Result<(), Error>)
        requires
            old(self).wf(),
        ensures
            final(self).wf(),
            !old(self)@.db.connect_sessions.contains_key(app_public_key) <==> r == Err::<
                (),
                Error,
            >(Error::ConnectSessionNotFound),
            r is Err ==> final(self)@ == old(self)@,
            r is Ok ==> final(self)@ == (CoinstrV {
                db: StoreV {
                    connect_sessions: old(self)@.db.connect_sessions.remove(app_public_key),
                    ..old(self)@.db
                },
                ..old(self)@
            }),
    {
        if !self.db.nostr_connect_session_exists(&app_public_key) {
            return Err(Error::ConnectSessionNotFound);
        }
        self.db.delete_nostr_connect_session(&app_public_key);
        Ok(())
    }

    /// Answer a stored remote-signing request and mark it approved. Fails
    /// when it was already answered, and only then, before any signing.
    pub fn approve_nostr_connect_request(&mut self, event_id: EventId, now: u64) -> (r: Result<
        (),
        Error,
    >)
        requires
            old(self).wf(),
        ensures
            final(self).wf(),
            !old(self)@.db.connect_requests.contains_key(event_id) <==> r == Err::<(), Error>(
                Error::ConnectRequestNotFound,
            ),
            (old(self)@.db.connect_requests.contains_key(event_id)
                && old(self)@.db.connect_requests[event_id].approved) <==> r == Err::<(), Error>(
                Error::NostrConnectRequestAlreadyApproved,
            ),
            (old(self)@.db.connect_requests.contains_key(event_id)
                && !old(self)@.db.connect_requests[event_id].approved && !old(self)@.db.connect_sessions.contains_key(
                old(self)@.db.connect_requests[event_id].app_public_key,
            )) <==> r == Err::<(), Error>(Error::ConnectSessionNotFound),
            (old(self)@.db.connect_requests.contains_key(event_id)
                && !old(self)@.db.connect_requests[event_id].approved && old(self)@.db.connect_sessions.contains_key(
                old(self)@.db.connect_requests[event_id].app_public_key,
            ) && curve_point(
                old(self)@.db.connect_requests[event_id].app_public_key.hi,
                old(self)@.db.connect_requests[event_id].app_public_key.lo,
            )) ==> (r is Ok || r == Err::<(), Error>(Error::CantGenerateNostrConnectResponse)),
            r is Err ==> final(self)@ == old(self)@,
            r is Ok ==> ({
                let o = old(self)@;
                let f = final(self)@;
                let ev = f.outbox.last();
                &&& f.outbox.len() == o.outbox.len() + 1
                &&& f.outbox.take(o.outbox.len() as int) == o.outbox
                &&& ev.kind == NOSTR_CONNECT_KIND
                &&& ev.pubkey == self_key(o)
                &&& ev.tags == seq![
                    Tag::PubKey(o.db.connect_requests[event_id].app_public_key),
                ]
                &&& ev.created_at == now
                &&& f.db.connect_requests == o.db.connect_requests.insert(
                    event_id,
                    crate::types::ConnectRequestV {
                        approved: true,
                        ..o.db.connect_requests[event_id]
                    },
                )
                &&& f.network == o.network && f.keys == o.keys
            }),
    {
        let request = match self.db.get_nostr_connect_request(&event_id) {
            Some(c) => c,
            None => {
                return Err(Error::ConnectRequestNotFound);
            },
        };
        if request.approved {
            return Err(Error::NostrConnectRequestAlreadyApproved);
        }
        if !self.db.nostr_connect_session_exists(&request.app_public_key) {
            return Err(Error::ConnectSessionNotFound);
        }
        let response = match crate::crypto::generate_connect_response(
            &self.keys,
            &request.message.raw,
        ) {
            Some(x) => x,
            None => {
                return Err(Error::CantGenerateNostrConnectResponse);
            },
        };
        let ct = match nip04_encrypt(&self.keys, &request.app_public_key, &response) {
            Ok(c) => c,
            Err(e) => {
                return Err(e);
            },
        };
        let tags = vec![Tag::PubKey(request.app_public_key)];
        proof {
            assert(tags@ =~= seq![Tag::PubKey(request.app_public_key)]);
        }
        let event = match sign_event(&self.keys, NOSTR_CONNECT_KIND, &tags, &ct, now) {
            Ok(ev) => ev,
            Err(e) => {
                return Err(e);
            },
        };
        self.send_event(event);
        self.db.set_nostr_connect_request_as_approved(&event_id);
        proof {
            assert(self@.outbox.take(old(self)@.outbox.len() as int) =~= old(self)@.outbox);
        }
        Ok(())
    }

    /// Answer the app's requests without asking, until `now + duration`.
    pub fn auto_approve_nostr_connect_requests(
        &mut self,
        app_public_key: XOnlyPublicKey,
        duration: u64,
        now: u64,
    )
        requires
            old(self).wf(),
            now + duration <= u64::MAX,
        ensures
            final(self).wf(),
            final(self)@ == (CoinstrV {
                db: StoreV {
                    pre_auth: old(self)@.db.pre_auth.insert(
                        app_public_key,
                        (now + duration) as u64,
                    ),
                    ..old(self)@.db
                },
                ..old(self)@
            }),
    {
        self.db.set_nostr_connect_auto_approve(app_public_key, now + duration);
    }

    /// Close the app's pre-authorization window.
    pub fn revoke_nostr_connect_auto_approve(&mut self, app_public_key: XOnlyPublicKey)
        requires
            old(self).wf(),
        ensures
            final(self).wf(),
            final(self)@ == (CoinstrV {
                db: StoreV {
                    pre_auth: old(self)@.db.pre_auth.remove(app_public_key),
                    ..old(self)@.db
                },
                ..old(self)@
            }),
    {
        self.db.revoke_nostr_connect_auto_approve(&app_public_key);
    }

    /// A policy written down for safekeeping.
    pub fn export_policy_backup(&self, policy_id: EventId) -> (r: Result<PolicyBackup, Error>)
        requires
            self.wf(),
        ensures
            match r {
                Ok(b) => self@.db.policies.contains_key(policy_id) && b@.name
                    == self@.db.policies[policy_id].policy.name && b@.descriptor
                    == self@.db.policies[policy_id].policy.descriptor && b@.public_keys
                    == self@.db.policies[policy_id].cosigners,
                Err(e) => !self@.db.policies.contains_key(policy_id) && e == Error::PolicyNotFound,
            },
    {
        match self.db.get_policy(&policy_id) {
            Some((p, pks)) => Ok(
                PolicyBackup {
                    name: p.name,
                    description: p.description,
                    descriptor: p.descriptor,
                    public_keys: pks,
                },
            ),
            None => Err(Error::PolicyNotFound),
        }
    }

    /// Forget the local cache whole, as when the user clears it; the
    /// outbox goes with it.
    pub fn clear_cache(&mut self)
        requires
            old(self).wf(),
        ensures
            final(self).wf(),
            final(self)@.db.policies == Map::<EventId, crate::store::PolicyRecordV>::empty(),
            final(self)@.db.proposals == Map::<EventId, crate::store::ProposalRecordV>::empty(),
            final(self)@.db.events == Map::<EventId, EventV>::empty(),
            final(self)@.outbox == Seq::<EventV>::empty(),
            final(self)@.network == old(self)@.network && final(self)@.keys == old(self)@.keys,
    {
        self.db.wipe();
        self.outbox = Vec::new();
        proof {
            assert(event_views(self.outbox@) =~= Seq::<EventV>::empty());
        }
    }
}

/// The run after the last path separator of a file name.
pub open spec fn spec_keychain_ext() -> Seq<char> {
    seq!['.', 'c', 'o', 'i', 'n', 's', 't', 'r']
}

/// The keychain names among a directory's file names: the stems of those
/// that carry the keychain extension, in order.
pub open spec fn keychain_stems(names: Seq<Seq<char>>) -> Seq<Seq<char>>
    decreases names.len(),
{
    if names.len() == 0 {
        Seq::empty()
    } else {
        keychain_stems(names.drop_last()) + if names.last().len() >= 8 && names.last().skip(
            names.last().len() - 8,
        ) == spec_keychain_ext() {
            seq![names.last().take(names.last().len() - 8)]
        } else {
            Seq::empty()
        }
    }
}

/// The keychain names among a directory's file names. The keychain layer
/// lists the directory; this picks out the keychains.
pub fn get_keychains_list(entries: Vec<String>) -> (r: Vec<String>)
    ensures
        crate::store::str_views(r@) == keychain_stems(crate::store::str_views(entries@)),
{
    let mut r: Vec<String> = Vec::new();
    let mut i: usize = 0;
    proof {
        reveal_strlit(".coinstr");
    }
    while i < entries.len()
        invariant
            i <= entries@.len(),
            (".coinstr")@ == spec_keychain_ext(),
            crate::store::str_views(r@) == keychain_stems(
                crate::store::str_views(entries@.take(i as int)),
            ),
        decreases entries@.len() - i,
    {
        proof {
            assert(crate::store::str_views(entries@.take(i + 1)).drop_last()
                =~= crate::store::str_views(entries@.take(i as int)));
            assert(crate::store::str_views(entries@.take(i + 1)).last() == entries@[i as int]@);
        }
        let name = &entries[i];
        let n = name.as_str().unicode_len();
        let keep = if n >= 8 {
            let tail = name.as_str().substring_char(n - 8, n);
            let is_ext = crate::codec::str_starts_with(tail, ".coinstr");
            proof {
                if is_ext {
                    assert(tail@.subrange(0, 8) =~= tail@);
                    assert(name@.skip(name@.len() - 8) =~= tail@);
                }
                if name@.skip(name@.len() - 8) == spec_keychain_ext() {
                    assert(tail@ =~= name@.skip(name@.len() - 8));
                    assert(tail@.subrange(0, 8) =~= tail@);
                }
            }
            is_ext
        } else {
            false
        };
        if keep {
            let ghost prev = r@;
            let stem = name.as_str().substring_char(0, n - 8);
            r.push(stem.to_owned());
            proof {
                assert(crate::store::str_views(r@) =~= crate::store::str_views(prev).push(
                    stem@,
                ));
                assert(stem@ =~= entries@[i as int]@.take(entries@[i as int]@.len() - 8));
                assert(crate::store::str_views(r@) =~= keychain_stems(
                    crate::store::str_views(entries@.take(i + 1)),
                ));
            }
        } else {
            proof {
                assert(crate::store::str_views(r@) =~= keychain_stems(
                    crate::store::str_views(entries@.take(i + 1)),
                ));
            }
        }
        i = i + 1;
    }
    proof {
        assert(entries@.take(entries@.len() as int) =~= entries@);
    }
    r
}

impl Coinstr {
    /// Every stored policy with its record.
    pub fn get_policies(&self) -> (r: &Vec<(EventId, crate::store::PolicyRecord)>)
        requires
            self.wf(),
        ensures
            forall|i: int|
                0 <= i < r@.len() ==> self@.db.policies.contains_key(#[trigger] r@[i].0)
                    && self@.db.policies[r@[i].0] == r@[i].1@,
            forall|k: EventId| #[trigger]
                self@.db.policies.contains_key(k) ==> exists|i: int|
                    0 <= i < r@.len() && r@[i].0 == k,
    {
        self.db.policies.entries_ref()
    }

    /// Every stored proposal with its record.
    pub fn get_proposals(&self) -> (r: &Vec<(EventId, crate::store::ProposalRecord)>)
        requires
            self.wf(),
        ensures
            forall|i: int|
                0 <= i < r@.len() ==> self@.db.proposals.contains_key(#[trigger] r@[i].0)
                    && self@.db.proposals[r@[i].0] == r@[i].1@,
            forall|k: EventId| #[trigger]
                self@.db.proposals.contains_key(k) ==> exists|i: int|
                    0 <= i < r@.len() && r@[i].0 == k,
    {
        self.db.proposals.entries_ref()
    }

    /// Every stored completion with its record.
    pub fn get_completed_proposals(&self) -> (r: &Vec<(EventId, crate::store::CompletedRecord)>)
        requires
            self.wf(),
        ensures
            forall|i: int|
                0 <= i < r@.len() ==> self@.db.completed_proposals.contains_key(
                    #[trigger] r@[i].0,
                ) && self@.db.completed_proposals[r@[i].0] == r@[i].1@,
            forall|k: EventId| #[trigger]
                self@.db.completed_proposals.contains_key(k) ==> exists|i: int|
                    0 <= i < r@.len() && r@[i].0 == k,
    {
        self.db.completed_proposals.entries_ref()
    }

    /// Every stored signer.
    pub fn get_signers(&self) -> (r: &Vec<(EventId, Signer)>)
        requires
            self.wf(),
        ensures
            forall|i: int|
                0 <= i < r@.len() ==> self@.db.signers.contains_key(#[trigger] r@[i].0)
                    && self@.db.signers[r@[i].0] == r@[i].1@,
            forall|k: EventId| #[trigger]
                self@.db.signers.contains_key(k) ==> exists|i: int|
                    0 <= i < r@.len() && r@[i].0 == k,
    {
        self.db.signers.entries_ref()
    }

    /// Every signer shared with this user.
    pub fn get_shared_signers(&self) -> (r: &Vec<(EventId, crate::store::SharedSignerRecord)>)
        requires
            self.wf(),
        ensures
            forall|i: int|
                0 <= i < r@.len() ==> self@.db.shared_signers.contains_key(#[trigger] r@[i].0)
                    && self@.db.shared_signers[r@[i].0] == r@[i].1@,
            forall|k: EventId| #[trigger]
                self@.db.shared_signers.contains_key(k) ==> exists|i: int|
                    0 <= i < r@.len() && r@[i].0 == k,
    {
        self.db.shared_signers.entries_ref()
    }

    /// The recipients of each outgoing share of one signer.
    pub fn get_my_shared_signers_by_signer_id(&self, signer_id: EventId) -> (r: Vec<
        (EventId, XOnlyPublicKey),
    >)
        requires
            self.wf(),
        ensures
            forall|i: int|
                0 <= i < r@.len() ==> self@.db.my_shared_signers.contains_key(#[trigger] r@[i].0)
                    && self@.db.my_shared_signers[r@[i].0].signer_id == signer_id
                    && self@.db.my_shared_signers[r@[i].0].recipient == r@[i].1,
    {
        let es = self.db.my_shared_signers.entries_ref();
        let mut r: Vec<(EventId, XOnlyPublicKey)> = Vec::new();
        let mut i: usize = 0;
        while i < es.len()
            invariant
                self.wf(),
                es == &self.db.my_shared_signers.entries,
                i <= es@.len(),
                forall|x: int|
                    0 <= x < es@.len() ==> self@.db.my_shared_signers.contains_key(
                        #[trigger] es@[x].0,
                    ) && self@.db.my_shared_signers[es@[x].0] == es@[x].1@,
                forall|x: int|
                    0 <= x < r@.len() ==> self@.db.my_shared_signers.contains_key(
                        #[trigger] r@[x].0,
                    ) && self@.db.my_shared_signers[r@[x].0].signer_id == signer_id
                        && self@.db.my_shared_signers[r@[x].0].recipient == r@[x].1,
            decreases es@.len() - i,
        {
            let ghost prev = r@;
            let rec = self.db.my_shared_signers.entries[i].1;
            if rec.signer_id == signer_id {
                r.push((self.db.my_shared_signers.entries[i].0, rec.recipient));
                proof {
                    assert forall|x: int|
                        0 <= x < r@.len() implies self@.db.my_shared_signers.contains_key(
                        #[trigger] r@[x].0) && self@.db.my_shared_signers[r@[x].0].signer_id
                        == signer_id && self@.db.my_shared_signers[r@[x].0].recipient
                        == r@[x].1 by {
                        if x < prev.len() {
                            assert(r@[x] == prev[x]);
                        }
                    }
                }
            }
            i = i + 1;
        }
        r
    }

    /// The approvals of one proposal.
    pub fn get_approvals_by_proposal_id(&self, proposal_id: EventId) -> (r: Vec<
        (EventId, crate::store::ApprovalRecord),
    >)
        requires
            self.wf(),
        ensures
            forall|x: int|
                0 <= x < r@.len() ==> self@.db.approvals.contains_key(#[trigger] r@[x].0)
                    && self@.db.approvals[r@[x].0] == r@[x].1@ && r@[x].1@.proposal_id
                    == proposal_id,
            forall|k: EventId|
                self@.db.approvals.contains_key(k) && (#[trigger] self@.db.approvals[k]).proposal_id
                    == proposal_id ==> exists|x: int| 0 <= x < r@.len() && r@[x].0 == k,
    {
        self.db.get_approvals_by_proposal_id(&proposal_id)
    }

    /// Every open delegated-signing session.
    pub fn get_nostr_connect_sessions(&self) -> (r: &Vec<
        (XOnlyPublicKey, crate::types::ConnectSession),
    >)
        requires
            self.wf(),
        ensures
            forall|i: int|
                0 <= i < r@.len() ==> self@.db.connect_sessions.contains_key(#[trigger] r@[i].0)
                    && self@.db.connect_sessions[r@[i].0] == r@[i].1@,
            forall|k: XOnlyPublicKey| #[trigger]
                self@.db.connect_sessions.contains_key(k) ==> exists|i: int|
                    0 <= i < r@.len() && r@[i].0 == k,
    {
        self.db.connect_sessions.entries_ref()
    }

    /// The stored remote-signing requests with the given answered-flag.
    pub fn get_nostr_connect_requests(&self, approved: bool) -> (r: Vec<
        (EventId, crate::types::ConnectRequest),
    >)
        requires
            self.wf(),
        ensures
            forall|x: int|
                0 <= x < r@.len() ==> self@.db.connect_requests.contains_key(#[trigger] r@[x].0)
                    && self@.db.connect_requests[r@[x].0] == r@[x].1@ && r@[x].1@.approved
                    == approved,
            forall|k: EventId|
                self@.db.connect_requests.contains_key(k) && (
                #[trigger] self@.db.connect_requests[k]).approved == approved ==> exists|x: int|
                    0 <= x < r@.len() && r@[x].0 == k,
    {
        self.db.get_nostr_connect_requests(approved)
    }

    /// Every open pre-authorization window.
    pub fn get_nostr_connect_pre_authorizations(&self) -> (r: &Vec<(XOnlyPublicKey, u64)>)
        requires
            self.wf(),
        ensures
            forall|i: int|
                0 <= i < r@.len() ==> self@.db.pre_auth.contains_key(#[trigger] r@[i].0)
                    && self@.db.pre_auth[r@[i].0] == r@[i].1,
            forall|k: XOnlyPublicKey| #[trigger]
                self@.db.pre_auth.contains_key(k) ==> exists|i: int|
                    0 <= i < r@.len() && r@[i].0 == k,
    {
        self.db.pre_auth.entries_ref()
    }

    /// Every notification, seen or not.
    pub fn get_notifications(&self) -> (r: &Vec<(EventId, crate::store::NotificationRecord)>)
        requires
            self.wf(),
        ensures
            forall|i: int|
                0 <= i < r@.len() ==> self@.db.notifications.contains_key(#[trigger] r@[i].0)
                    && self@.db.notifications[r@[i].0] == r@[i].1,
            forall|k: EventId| #[trigger]
                self@.db.notifications.contains_key(k) ==> exists|i: int|
                    0 <= i < r@.len() && r@[i].0 == k,
    {
        self.db.notifications.entries_ref()
    }

    /// How many notifications have not been seen.
    pub fn count_unseen_notifications(&self) -> (r: usize)
        requires
            self.wf(),
        ensures
            r == crate::store::count_unseen(self.db.notifications.entries@),
    {
        self.db.count_unseen_notifications()
    }

    /// Mark every notification as seen.
    pub fn mark_all_notifications_as_seen(&mut self)
        requires
            old(self).wf(),
        ensures
            final(self).wf(),
            forall|k: EventId| #[trigger]
                final(self)@.db.notifications.contains_key(k) == old(self)@.db.notifications.contains_key(k),
            forall|k: EventId| #[trigger]
                final(self)@.db.notifications.contains_key(k) ==> final(self)@.db.notifications[k].seen,
    {
        self.db.mark_all_notifications_as_seen();
    }

    /// Mark one notification as seen.
    pub fn mark_notification_as_seen_by_id(&mut self, event_id: EventId)
        requires
            old(self).wf(),
        ensures
            final(self).wf(),
            old(self)@.db.notifications.contains_key(event_id) ==> final(self)@.db.notifications[event_id].seen,
    {
        self.db.mark_notification_as_seen_by_id(&event_id);
    }

    /// Forget every notification.
    pub fn delete_all_notifications(&mut self)
        requires
            old(self).wf(),
        ensures
            final(self).wf(),
            final(self)@.db.notifications == Map::<
                EventId,
                crate::store::NotificationRecord,
            >::empty(),
    {
        self.db.delete_all_notifications();
    }

    /// Every stored event, for the transport to send again on reconnect.
    pub fn rebroadcast_all_events(&self) -> (r: Vec<Event>)
        requires
            self.wf(),
        ensures
            event_views(r@) == crate::store::entry_event_views(self.db.events.entries@),
    {
        self.db.get_events()
    }

    /// Whether any stored signer already carries this descriptor.
    pub fn signer_descriptor_exists(&self, descriptor: &String) -> (r: bool)
        requires
            self.wf(),
        ensures
            r == exists|k: EventId|
                #![trigger self@.db.signers[k]]
                self@.db.signers.contains_key(k) && self@.db.signers[k].descriptor == descriptor@,
    {
        self.db.signer_descriptor_exists(descriptor)
    }

    /// The first stored signer whose key the descriptor mentions.
    pub fn search_signer_by_descriptor(&self, descriptor: String) -> (r: Result<Signer, Error>)
        requires
            self.wf(),
        ensures
            r is Ok ==> exists|k: EventId|
                #![trigger self@.db.signers[k]]
                self@.db.signers.contains_key(k) && self@.db.signers[k] == r.unwrap()@,
    {
        let es = self.db.signers.entries_ref();
        let mut i: usize = 0;
        while i < es.len()
            invariant
                self.wf(),
                es == &self.db.signers.entries,
                i <= es@.len(),
                forall|x: int|
                    0 <= x < es@.len() ==> self@.db.signers.contains_key(#[trigger] es@[x].0)
                        && self@.db.signers[es@[x].0] == es@[x].1@,
            decreases es@.len() - i,
        {
            let candidate = &self.db.signers.entries[i].1;
            match crate::descriptor::descriptor_first_key(&candidate.descriptor) {
                Some(key) => {
                    if crate::codec::str_contains_sub(descriptor.as_str(), key.as_str()) {
                        return Ok(candidate.duplicate());
                    }
                },
                None => (),
            }
            i = i + 1;
        }
        Err(Error::SignerNotFound)
    }

    /// The contacts the user follows.
    pub fn get_contacts(&self) -> (r: Vec<XOnlyPublicKey>)
        requires
            self.wf(),
        ensures
            forall|pk: XOnlyPublicKey| #[trigger] r@.contains(pk) <==> self@.db.contacts.contains(
                pk,
            ),
    {
        let r = crate::maps::copy_vec(self.db.contacts.items_ref());
        proof {
            assert forall|pk: XOnlyPublicKey| #[trigger]
                r@.contains(pk) <==> self@.db.contacts.contains(pk) by {
                crate::maps::lemma_pks_as_set_contains(self.db.contacts.items@, pk);
            }
        }
        r
    }

    /// The stored profile of any user.
    pub fn get_metadata(&self, public_key: XOnlyPublicKey) -> (r: Option<crate::types::Profile>)
        requires
            self.wf(),
        ensures
            match r {
                Some(p) => self@.db.profiles.contains_key(public_key) && p@
                    == self@.db.profiles[public_key],
                None => !self@.db.profiles.contains_key(public_key),
            },
    {
        self.db.get_metadata(&public_key)
    }

    /// The contacts whose profile the metadata loop still has to fetch.
    pub fn get_unsynced_metadata_pubkeys(&self) -> (r: Vec<XOnlyPublicKey>)
        requires
            self.wf(),
        ensures
            forall|pk: XOnlyPublicKey| #[trigger]
                r@.contains(pk) <==> (self@.db.contacts.contains(pk)
                    && !self@.db.profiles.contains_key(pk)),
    {
        self.db.get_unsynced_metadata_pubkeys()
    }

    /// Record the chain indexer's snapshot of one policy's wallet.
    pub fn update_wallet_snapshot(
        &mut self,
        policy_id: EventId,
        snapshot: crate::types::WalletSnapshot,
    )
        requires
            old(self).wf(),
        ensures
            final(self).wf(),
            final(self)@ == (CoinstrV {
                db: StoreV {
                    wallets: old(self)@.db.wallets.insert(policy_id, snapshot@),
                    ..old(self)@.db
                },
                ..old(self)@
            }),
    {
        self.db.update_wallet_snapshot(policy_id, snapshot);
    }

    /// The cached balance of one policy's wallet.
    pub fn get_balance(&self, policy_id: EventId) -> (r: Option<crate::types::Balance>)
        requires
            self.wf(),
        ensures
            match r {
                Some(b) => self@.db.wallets.contains_key(policy_id) && b
                    == self@.db.wallets[policy_id].balance,
                None => !self@.db.wallets.contains_key(policy_id),
            },
    {
        self.db.get_balance(&policy_id)
    }

    /// The cached transactions of one policy's wallet.
    pub fn get_txs(&self, policy_id: EventId) -> (r: Option<
        Vec<crate::types::TransactionDetails>,
    >)
        requires
            self.wf(),
        ensures
            match r {
                Some(txs) => self@.db.wallets.contains_key(policy_id) && txs@
                    == self@.db.wallets[policy_id].txs,
                None => !self@.db.wallets.contains_key(policy_id),
            },
    {
        self.db.get_txs(&policy_id)
    }

    /// The next unused address of one policy's wallet.
    pub fn get_last_unused_address(&self, policy_id: EventId) -> (r: Option<String>)
        requires
            self.wf(),
        ensures
            match r {
                Some(a) => self@.db.wallets.contains_key(policy_id)
                    && self@.db.wallets[policy_id].last_unused_address == Some(a@),
                None => !self@.db.wallets.contains_key(policy_id)
                    || self@.db.wallets[policy_id].last_unused_address is None,
            },
    {
        self.db.get_last_unused_address(&policy_id)
    }

    /// The chain height the indexer last reported.
    pub fn block_height(&self) -> (r: u32)
        ensures
            r == self@.db.block_height,
    {
        self.db.get_block_height()
    }

    /// Record the chain height the indexer reports.
    pub fn set_block_height(&mut self, height: u32)
        requires
            old(self).wf(),
        ensures
            final(self).wf(),
            final(self)@ == (CoinstrV {
                db: StoreV { block_height: height, ..old(self)@.db },
                ..old(self)@
            }),
    {
        self.db.set_block_height(height);
    }

    /// The policies the chain-sync loop should resynchronize now, clearing
    /// the marks.
    pub fn take_sync_queue(&mut self) -> (r: Vec<EventId>)
        requires
            old(self).wf(),
        ensures
            final(self).wf(),
            final(self)@ == (CoinstrV {
                db: StoreV { sync_queue: Set::<EventId>::empty(), ..old(self)@.db },
                ..old(self)@
            }),
    {
        self.db.take_sync_queue()
    }

    /// When the relay was last fully synchronized, if ever.
    pub fn get_last_relay_sync(&self, relay_url: &String) -> (r: Option<u64>)
        requires
            self.wf(),
        ensures
            match r {
                Some(t) => self@.db.relay_sync.contains_key(relay_url@) && t
                    == self@.db.relay_sync[relay_url@],
                None => !self@.db.relay_sync.contains_key(relay_url@),
            },
    {
        self.db.get_last_relay_sync(relay_url)
    }

    /// Record when the relay was last fully synchronized.
    pub fn save_last_relay_sync(&mut self, relay_url: String, timestamp: u64)
        requires
            old(self).wf(),
        ensures
            final(self).wf(),
            final(self)@ == (CoinstrV {
                db: StoreV {
                    relay_sync: old(self)@.db.relay_sync.insert(relay_url@, timestamp),
                    ..old(self)@.db
                },
                ..old(self)@
            }),
    {
        self.db.save_last_relay_sync(relay_url, timestamp);
    }

    /// The relay addresses of every open delegated-signing session, for
    /// the transport to add on connect.
    pub fn get_nostr_connect_sessions_relays(&self) -> (r: Vec<String>)
        requires
            self.wf(),
        ensures
            crate::store::str_views(r@) == crate::store::session_relay_views(
                self.db.connect_sessions.entries@,
            ),
    {
        self.db.get_nostr_connect_sessions_relays()
    }
}

} // verus!
