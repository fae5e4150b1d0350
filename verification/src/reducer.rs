//! The event reducer: classify an inbound relay event, enforce dependency
//! order by deferral, and update the store.
//!
//! Tombstoned events are dropped, expired events are dropped, everything
//! else except remote-signing traffic is first written to the event log.
//! A policy without its shared key, and policy-scoped events without their
//! parents, wait in the pending queue for the retry loop.
//!
//! Remote-signing requests answer `get_public_key` outright, answer inside
//! a pre-authorization window, and otherwise wait for the user. The
//! protocol revision this crate builds on has no disconnect message, so no
//! incoming disconnect exists to handle; sessions close locally.

use vstd::prelude::*;

use crate::codec::spec_parse_hex;
use crate::crypto::{
    generate_connect_response, keys_from_secret, nip04_decrypt, nip04_encrypt, nip04_plain,
    nip46_parsed, parse_connect_message, sign_event,
};
use crate::domain::{
    parse_approved, parse_completed, parse_policy, parse_shared_signer, parse_signer,
    spec_parse_approved, spec_parse_completed, spec_parse_policy, spec_parse_shared_signer,
    spec_parse_signer,
};
use crate::crypto::connect_response_json;
use crate::engine::{hex256, self_key, Coinstr, CoinstrV};
use crate::event::{
    event_tag_ids, expiration_of, first_event_tag, pubkey_tags, second_event_tag, spec_is_expired,
    Event, EventV, Tag,
};
use crate::ids::{
    EventId, KeyPair, SecretKey, XOnlyPublicKey, APPROVED_PROPOSAL_KIND, COMPLETED_PROPOSAL_KIND,
    CONTACT_LIST_KIND, EVENT_DELETION_KIND, METADATA_KIND, NOSTR_CONNECT_KIND, POLICY_KIND,
    PROPOSAL_KIND, SHARED_KEY_KIND, SHARED_SIGNERS_KIND, SIGNERS_KIND,
};
use crate::store::{event_views, StoreV};
use crate::types::{ConnectMethod, Error, Message, Notification, Profile};

verus! {

/// A store with one more event in its log.
pub open spec fn logged(o: StoreV, ev: EventV) -> StoreV {
    StoreV { events: o.events.insert(ev.id, ev), ..o }
}

/// A store with one more event waiting for its dependency.
pub open spec fn deferred(o: StoreV, ev: EventV) -> StoreV {
    StoreV {
        events: o.events.insert(ev.id, ev),
        pending_events: o.pending_events.insert(ev.id, ev),
        ..o
    }
}

/// The secret key written as sixty-four digits, as a shared key travels.
pub open spec fn spec_parse_secret(s: Seq<char>) -> Option<SecretKey> {
    if s.len() == 64 {
        match spec_parse_hex(s.subrange(0, 32)) {
            Some(hi) => match spec_parse_hex(s.subrange(32, 64)) {
                Some(lo) => Some(SecretKey { hi: hi as u128, lo: lo as u128 }),
                None => None,
            },
            None => None,
        }
    } else {
        None
    }
}

/// What a shared-key event decrypts to for this engine: the distributed
/// secret, when the ciphertext opens and holds one.
pub open spec fn shared_secret_of(o: CoinstrV, ev: EventV) -> Option<SecretKey> {
    match nip04_plain(o.keys.secret.hi, o.keys.secret.lo, ev.pubkey, ev.content) {
        Some(plain) => spec_parse_secret(plain),
        None => None,
    }
}

/// What a policy-scoped ciphertext decrypts to under a policy's shared key.
pub open spec fn policy_plain_of(o: CoinstrV, policy_id: EventId, content: Seq<char>) -> Option<
    Seq<char>,
> {
    let sk = o.db.shared_keys[policy_id];
    nip04_plain(sk.secret.hi, sk.secret.lo, sk.public, content)
}

impl Coinstr {
    /// Reduce one inbound event into the store.
    ///
    /// Deletion dominates: a tombstoned event changes nothing, ever. An
    /// expired event changes nothing. A shared key is stored first-seen-
    /// wins. A policy without its key, and a proposal, approval or
    /// completion without its policy's key, defer. Everything stored emits
    /// its notification. Decrypt and decode failures return an error with
    /// the event kept only in the log, so one bad event cannot poison the
    /// stream.
    #[verifier::rlimit(100)]
    #[verifier::spinoff_prover]
    pub fn handle_event(&mut self, event: Event, now: u64) -> (r: Result<Option<Message>, Error>)
        requires
            old(self).wf(),
        ensures
            final(self).wf(),
            final(self)@.network == old(self)@.network && final(self)@.keys == old(self)@.keys
                && final(self)@.endpoint == old(self)@.endpoint && final(self)@.syncing == old(self)@.syncing && final(self)@.first_sync_done == old(self)@.first_sync_done,
            // Tombstone dominance: a deleted event is dropped whole.
            old(self)@.db.deleted_ids.contains(event.id) ==> final(self)@ == old(self)@ && r == Ok::<
                Option<Message>,
                Error,
            >(None),
            // An expired event is dropped whole.
            (!old(self)@.db.deleted_ids.contains(event.id) && spec_is_expired(event@.tags, now))
                ==> final(self)@ == old(self)@ && r == Ok::<Option<Message>, Error>(None),
            // An approval is persisted only live and unexpired.
            (old(self)@.db.deleted_ids.contains(event.id) || spec_is_expired(event@.tags, now))
                ==> final(self)@.db.approvals == old(self)@.db.approvals,
            // A shared key already known stays as first seen.
            (live(old(self)@, event@, now) && event@.kind == SHARED_KEY_KIND && first_event_tag(
                event@.tags,
            ) is Some && old(self)@.db.shared_keys.contains_key(
                first_event_tag(event@.tags).unwrap(),
            )) ==> final(self)@.db == logged(old(self)@.db, event@) && r == Ok::<
                Option<Message>,
                Error,
            >(None),
            // A new shared key is stored when it decrypts to a valid one.
            (live(old(self)@, event@, now) && event@.kind == SHARED_KEY_KIND && first_event_tag(
                event@.tags,
            ) is Some && !old(self)@.db.shared_keys.contains_key(
                first_event_tag(event@.tags).unwrap(),
            ) && shared_secret_of(old(self)@, event@) is Some && r is Ok) ==> final(self)@.db
                == (StoreV {
                shared_keys: logged(old(self)@.db, event@).shared_keys.insert(
                    first_event_tag(event@.tags).unwrap(),
                    final(self)@.db.shared_keys[first_event_tag(event@.tags).unwrap()],
                ),
                ..logged(old(self)@.db, event@)
            }) && final(self)@.db.shared_keys[first_event_tag(event@.tags).unwrap()].secret
                == shared_secret_of(old(self)@, event@).unwrap(),
            // Re-delivery of an already-applied object only logs the event:
            // the reducer is idempotent per object.
            (live(old(self)@, event@, now) && event@.kind == POLICY_KIND
                && old(self)@.db.policies.contains_key(event@.id)) ==> final(self)@.db == logged(
                old(self)@.db,
                event@,
            ) && r == Ok::<Option<Message>, Error>(None),
            (live(old(self)@, event@, now) && event@.kind == PROPOSAL_KIND
                && old(self)@.db.proposals.contains_key(event@.id)) ==> final(self)@.db == logged(
                old(self)@.db,
                event@,
            ) && r == Ok::<Option<Message>, Error>(None),
            (live(old(self)@, event@, now) && event@.kind == APPROVED_PROPOSAL_KIND
                && old(self)@.db.approvals.contains_key(event@.id)) ==> final(self)@.db == logged(
                old(self)@.db,
                event@,
            ) && r == Ok::<Option<Message>, Error>(None),
            (live(old(self)@, event@, now) && event@.kind == COMPLETED_PROPOSAL_KIND
                && old(self)@.db.completed_proposals.contains_key(event@.id)) ==> final(self)@.db
                == logged(old(self)@.db, event@) && r == Ok::<Option<Message>, Error>(None),
            // Every live event except remote-signing traffic lands in the
            // log, whatever else happens — unless a deletion names itself.
            (live(old(self)@, event@, now) && event@.kind != NOSTR_CONNECT_KIND && !(event@.kind
                == EVENT_DELETION_KIND && event_tag_ids(event@.tags).contains(event@.id))) ==> final(self)@.db.events.contains_key(event@.id) && final(self)@.db.events[event@.id] == event@,
            // The pending queue grows by nothing but the event in hand.
            forall|d: EventId| #[trigger]
                final(self)@.db.pending_events.contains_key(d) ==> ((old(self)@.db.pending_events.contains_key(d) && final(self)@.db.pending_events[d] == old(self)@.db.pending_events[d]) || (d == event.id && final(self)@.db.pending_events[d]
                    == event@)),
            // A policy waits for its shared key.
            (live(old(self)@, event@, now) && event@.kind == POLICY_KIND && !old(self)@.db.policies.contains_key(event@.id) && !old(self)@.db.shared_keys.contains_key(
                event@.id,
            )) ==> final(self)@.db == deferred(old(self)@.db, event@) && r == Ok::<
                Option<Message>,
                Error,
            >(None),
            // A policy whose key is known is stored and announced.
            (live(old(self)@, event@, now) && event@.kind == POLICY_KIND && !old(self)@.db.policies.contains_key(event@.id) && old(self)@.db.shared_keys.contains_key(
                event@.id,
            ) && policy_plain_of(old(self)@, event@.id, event@.content) is Some
                && spec_parse_policy(
                policy_plain_of(old(self)@, event@.id, event@.content).unwrap(),
            ) is Some && pubkey_tags(event@.tags).len() > 0) ==> final(self)@.db == (StoreV {
                policies: logged(old(self)@.db, event@).policies.insert(
                    event@.id,
                    crate::store::PolicyRecordV {
                        policy: spec_parse_policy(
                            policy_plain_of(old(self)@, event@.id, event@.content).unwrap(),
                        ).unwrap(),
                        cosigners: pubkey_tags(event@.tags),
                    },
                ),
                notifications: logged(old(self)@.db, event@).notifications.insert(
                    event@.id,
                    crate::store::NotificationRecord {
                        notification: Notification::NewPolicy(event@.id),
                        timestamp: now,
                        seen: false,
                    },
                ),
                ..logged(old(self)@.db, event@)
            }) && r == Ok::<Option<Message>, Error>(
                Some(Message::Notification(Notification::NewPolicy(event@.id))),
            ),
            // A proposal waits for its policy's shared key.
            (live(old(self)@, event@, now) && event@.kind == PROPOSAL_KIND && !old(self)@.db.proposals.contains_key(event@.id) && first_event_tag(event@.tags) is Some && !old(self)@.db.shared_keys.contains_key(first_event_tag(event@.tags).unwrap())) ==> final(self)@.db == deferred(old(self)@.db, event@) && r == Ok::<Option<Message>, Error>(None),
            // A proposal whose policy key is known is stored and announced.
            (live(old(self)@, event@, now) && event@.kind == PROPOSAL_KIND && !old(self)@.db.proposals.contains_key(event@.id) && first_event_tag(event@.tags) is Some && old(self)@.db.shared_keys.contains_key(first_event_tag(event@.tags).unwrap())
                && policy_plain_of(
                old(self)@,
                first_event_tag(event@.tags).unwrap(),
                event@.content,
            ) is Some && spec_parse_proposal_of(old(self)@, event@) is Some) ==> final(self)@.db
                == (StoreV {
                proposals: logged(old(self)@.db, event@).proposals.insert(
                    event@.id,
                    crate::store::ProposalRecordV {
                        policy_id: first_event_tag(event@.tags).unwrap(),
                        proposal: spec_parse_proposal_of(old(self)@, event@).unwrap(),
                    },
                ),
                notifications: logged(old(self)@.db, event@).notifications.insert(
                    event@.id,
                    crate::store::NotificationRecord {
                        notification: Notification::NewProposal(event@.id),
                        timestamp: now,
                        seen: false,
                    },
                ),
                ..logged(old(self)@.db, event@)
            }) && r == Ok::<Option<Message>, Error>(
                Some(Message::Notification(Notification::NewProposal(event@.id))),
            ),
            // An approval whose policy key is known is stored keyed by its
            // own id, attributed to its author, and announced.
            (live(old(self)@, event@, now) && event@.kind == APPROVED_PROPOSAL_KIND && !old(self)@.db.approvals.contains_key(event@.id) && first_event_tag(event@.tags) is Some
                && second_event_tag(event@.tags) is Some && old(self)@.db.shared_keys.contains_key(second_event_tag(event@.tags).unwrap())
                && spec_parse_approved_of(old(self)@, event@) is Some) ==> final(self)@.db
                == (StoreV {
                approvals: logged(old(self)@.db, event@).approvals.insert(
                    event@.id,
                    crate::store::ApprovalRecordV {
                        proposal_id: first_event_tag(event@.tags).unwrap(),
                        author: event@.pubkey,
                        approval: spec_parse_approved_of(old(self)@, event@).unwrap(),
                        timestamp: event@.created_at,
                    },
                ),
                notifications: logged(old(self)@.db, event@).notifications.insert(
                    event@.id,
                    crate::store::NotificationRecord {
                        notification: Notification::NewApproval {
                            proposal_id: first_event_tag(event@.tags).unwrap(),
                            public_key: event@.pubkey,
                        },
                        timestamp: now,
                        seen: false,
                    },
                ),
                ..logged(old(self)@.db, event@)
            }),
            // A completion first removes its source proposal, tolerating a
            // missing row; then it stores the completion when the key is
            // known, defers when not, and queues a recent completion's
            // policy for resynchronization either way.
            (live(old(self)@, event@, now) && event@.kind == COMPLETED_PROPOSAL_KIND && !old(self)@.db.completed_proposals.contains_key(event@.id) && first_event_tag(
                event@.tags,
            ) is Some && second_event_tag(event@.tags) is None) ==> proposal_purged(
                logged(old(self)@.db, event@),
                final(self)@.db,
                first_event_tag(event@.tags).unwrap(),
            ) && final(self)@.db == (StoreV {
                proposals: final(self)@.db.proposals,
                approvals: final(self)@.db.approvals,
                ..logged(old(self)@.db, event@)
            }) && r == Ok::<Option<Message>, Error>(None),
            (live(old(self)@, event@, now) && event@.kind == COMPLETED_PROPOSAL_KIND && !old(self)@.db.completed_proposals.contains_key(event@.id) && first_event_tag(
                event@.tags,
            ) is Some && second_event_tag(event@.tags) is Some && !old(self)@.db.shared_keys.contains_key(second_event_tag(event@.tags).unwrap())) ==> proposal_purged(
                logged(old(self)@.db, event@),
                final(self)@.db,
                first_event_tag(event@.tags).unwrap(),
            ) && final(self)@.db == (StoreV {
                proposals: final(self)@.db.proposals,
                approvals: final(self)@.db.approvals,
                pending_events: logged(old(self)@.db, event@).pending_events.insert(
                    event@.id,
                    event@,
                ),
                sync_queue: if wants_resync(event@.created_at, now) {
                    old(self)@.db.sync_queue.insert(second_event_tag(event@.tags).unwrap())
                } else {
                    old(self)@.db.sync_queue
                },
                ..logged(old(self)@.db, event@)
            }) && r == Ok::<Option<Message>, Error>(None),
            (live(old(self)@, event@, now) && event@.kind == COMPLETED_PROPOSAL_KIND && !old(self)@.db.completed_proposals.contains_key(event@.id) && first_event_tag(
                event@.tags,
            ) is Some && second_event_tag(event@.tags) is Some && old(self)@.db.shared_keys.contains_key(second_event_tag(event@.tags).unwrap())
                && policy_plain_of(
                old(self)@,
                second_event_tag(event@.tags).unwrap(),
                event@.content,
            ) is Some && spec_parse_completed(
                policy_plain_of(
                    old(self)@,
                    second_event_tag(event@.tags).unwrap(),
                    event@.content,
                ).unwrap(),
            ) is Some) ==> proposal_purged(
                logged(old(self)@.db, event@),
                final(self)@.db,
                first_event_tag(event@.tags).unwrap(),
            ) && final(self)@.db == (StoreV {
                proposals: final(self)@.db.proposals,
                approvals: final(self)@.db.approvals,
                completed_proposals: logged(old(self)@.db, event@).completed_proposals.insert(
                    event@.id,
                    crate::store::CompletedRecordV {
                        policy_id: second_event_tag(event@.tags).unwrap(),
                        completed: spec_parse_completed(
                            policy_plain_of(
                                old(self)@,
                                second_event_tag(event@.tags).unwrap(),
                                event@.content,
                            ).unwrap(),
                        ).unwrap(),
                    },
                ),
                sync_queue: if wants_resync(event@.created_at, now) {
                    old(self)@.db.sync_queue.insert(second_event_tag(event@.tags).unwrap())
                } else {
                    old(self)@.db.sync_queue
                },
                ..logged(old(self)@.db, event@)
            }) && r == Ok::<Option<Message>, Error>(None),
            // A deletion tombstones every id the event names; nothing is
            // ever added back by it.
            (live(old(self)@, event@, now) && event@.kind == EVENT_DELETION_KIND) ==> (forall|
                d: EventId,
            | #[trigger]
                final(self)@.db.deleted_ids.contains(d) <==> (logged(
                    old(self)@.db,
                    event@,
                ).deleted_ids.contains(d) || event_tag_ids(event@.tags).contains(d))) && (forall|
                d: EventId,
            |
                event_tag_ids(event@.tags).contains(d) ==> !(
                #[trigger] final(self)@.db.policies.contains_key(d))
                    && !final(self)@.db.proposals.contains_key(d)
                    && !final(self)@.db.approvals.contains_key(d)
                    && !final(self)@.db.completed_proposals.contains_key(d)
                    && !final(self)@.db.signers.contains_key(d)) && r == Ok::<
                Option<Message>,
                Error,
            >(None),
            // A remote-signing request in the pre-authorization window is
            // answered, not stored; outside it, it is stored unanswered.
            (live(old(self)@, event@, now) && event@.kind == NOSTR_CONNECT_KIND && old(self)@.db.connect_sessions.contains_key(event@.pubkey) && connect_plain_of(
                old(self)@,
                event@,
            ) is Some && nip46_parsed(connect_plain_of(old(self)@, event@).unwrap()) is Some
                && nip46_parsed(connect_plain_of(old(self)@, event@).unwrap()).unwrap().1
                != ConnectMethod::GetPublicKey && !(old(self)@.db.pre_auth.contains_key(
                event@.pubkey,
            ) && now < old(self)@.db.pre_auth[event@.pubkey])) ==> r == Ok::<
                Option<Message>,
                Error,
            >(None) && final(self)@.db == (StoreV {
                connect_requests: old(self)@.db.connect_requests.insert(
                    event@.id,
                    crate::types::ConnectRequestV {
                        app_public_key: event@.pubkey,
                        message: crate::types::ConnectMessageV {
                            id: nip46_parsed(
                                connect_plain_of(old(self)@, event@).unwrap(),
                            ).unwrap().0,
                            method: nip46_parsed(
                                connect_plain_of(old(self)@, event@).unwrap(),
                            ).unwrap().1,
                            raw: connect_plain_of(old(self)@, event@).unwrap(),
                        },
                        timestamp: event@.created_at,
                        approved: false,
                    },
                ),
                ..old(self)@.db
            }) && final(self)@.outbox == old(self)@.outbox,
            (live(old(self)@, event@, now) && event@.kind == NOSTR_CONNECT_KIND && old(self)@.db.connect_sessions.contains_key(event@.pubkey) && connect_plain_of(
                old(self)@,
                event@,
            ) is Some && nip46_parsed(connect_plain_of(old(self)@, event@).unwrap()) is Some
                && nip46_parsed(connect_plain_of(old(self)@, event@).unwrap()).unwrap().1
                != ConnectMethod::GetPublicKey && (old(self)@.db.pre_auth.contains_key(
                event@.pubkey,
            ) && now < old(self)@.db.pre_auth[event@.pubkey]) && r is Ok) ==> final(self)@.db == old(self)@.db && final(self)@.outbox.len() == old(self)@.outbox.len() + 1 && final(self)@.outbox.last().kind == NOSTR_CONNECT_KIND,
    {
        if self.db.event_was_deleted(&event.id) {
            return Ok(None);
        }
        if crate::event::is_expired(&event, now) {
            return Ok(None);
        }
        let kind = event.kind;
        if kind != NOSTR_CONNECT_KIND {
            self.db.save_event(event.duplicate());
        }
        if kind == SHARED_KEY_KIND {
            let policy_id = match crate::event::extract_first_event_id(&event) {
                Some(id) => id,
                None => {
                    return Err(Error::PolicyNotFound);
                },
            };
            if !self.db.shared_key_exists_for_policy(&policy_id) {
                let plain = match nip04_decrypt(&self.keys, &event.pubkey, &event.content) {
                    Ok(p) => p,
                    Err(e) => {
                        return Err(e);
                    },
                };
                let secret = match parse_secret_exec(&plain) {
                    Some(sk) => sk,
                    None => {
                        return Err(Error::Crypto);
                    },
                };
                let shared_key = match keys_from_secret(&secret) {
                    Ok(k) => k,
                    Err(e) => {
                        return Err(e);
                    },
                };
                self.db.save_shared_key(policy_id, shared_key);
            }
            Ok(None)
        } else if kind == POLICY_KIND {
            if self.db.policy_exists(&event.id) {
                return Ok(None);
            }
            let shared_key = match self.db.get_shared_key(&event.id) {
                Some(k) => k,
                None => {
                    self.db.save_pending_event(event);
                    return Ok(None);
                },
            };
            let plain = match nip04_decrypt(&shared_key, &shared_key.public, &event.content) {
                Ok(p) => p,
                Err(e) => {
                    return Err(e);
                },
            };
            let policy = match parse_policy(plain.as_str()) {
                Some(p) => p,
                None => {
                    return Err(Error::Crypto);
                },
            };
            let cosigners = crate::event::collect_pubkey_tags(&event.tags);
            if cosigners.len() == 0 {
                return Ok(None);
            }
            self.db.save_policy(event.id, policy, cosigners);
            let note = Notification::NewPolicy(event.id);
            self.db.save_notification(event.id, note, now);
            Ok(Some(Message::Notification(note)))
        } else if kind == PROPOSAL_KIND {
            if self.db.proposal_exists(&event.id) {
                return Ok(None);
            }
            let policy_id = match crate::event::extract_first_event_id(&event) {
                Some(id) => id,
                None => {
                    return Ok(None);
                },
            };
            let shared_key = match self.db.get_shared_key(&policy_id) {
                Some(k) => k,
                None => {
                    self.db.save_pending_event(event);
                    return Ok(None);
                },
            };
            let plain = match nip04_decrypt(&shared_key, &shared_key.public, &event.content) {
                Ok(p) => p,
                Err(e) => {
                    return Err(e);
                },
            };
            let proposal = match crate::domain::parse_proposal(plain.as_str()) {
                Some(p) => p,
                None => {
                    return Err(Error::Crypto);
                },
            };
            self.db.save_proposal(event.id, policy_id, proposal);
            let note = Notification::NewProposal(event.id);
            self.db.save_notification(event.id, note, now);
            Ok(Some(Message::Notification(note)))
        } else if kind == APPROVED_PROPOSAL_KIND {
            if self.db.approved_proposal_exists(&event.id) {
                return Ok(None);
            }
            let proposal_id = match crate::event::extract_first_event_id(&event) {
                Some(id) => id,
                None => {
                    return Ok(None);
                },
            };
            let policy_id = match crate::event::extract_second_event_id(&event) {
                Some(id) => id,
                None => {
                    return Ok(None);
                },
            };
            let shared_key = match self.db.get_shared_key(&policy_id) {
                Some(k) => k,
                None => {
                    self.db.save_pending_event(event);
                    return Ok(None);
                },
            };
            let plain = match nip04_decrypt(&shared_key, &shared_key.public, &event.content) {
                Ok(p) => p,
                Err(e) => {
                    return Err(e);
                },
            };
            let approved = match parse_approved(plain.as_str()) {
                Some(a) => a,
                None => {
                    return Err(Error::Crypto);
                },
            };
            let note = Notification::NewApproval { proposal_id, public_key: event.pubkey };
            self.db.save_approved_proposal(
                proposal_id,
                event.pubkey,
                event.id,
                approved,
                event.created_at,
            );
            self.db.save_notification(event.id, note, now);
            Ok(Some(Message::Notification(note)))
        } else if kind == COMPLETED_PROPOSAL_KIND {
            self.handle_completed(event, now)
        } else if kind == SIGNERS_KIND {
            let plain = match nip04_decrypt(&self.keys, &self.keys.public, &event.content) {
                Ok(p) => p,
                Err(e) => {
                    return Err(e);
                },
            };
            let signer = match parse_signer(plain.as_str()) {
                Some(g) => g,
                None => {
                    return Err(Error::Crypto);
                },
            };
            self.db.save_signer(event.id, signer);
            Ok(None)
        } else if kind == SHARED_SIGNERS_KIND {
            let public_key = match crate::event::extract_first_public_key(&event) {
                Some(pk) => pk,
                None => {
                    return Err(Error::PublicKeyNotFound);
                },
            };
            if event.pubkey == self.keys.public {
                let signer_id = match crate::event::extract_first_event_id(&event) {
                    Some(id) => id,
                    None => {
                        return Err(Error::SignerIdNotFound);
                    },
                };
                self.db.save_my_shared_signer(signer_id, event.id, public_key);
                Ok(None)
            } else {
                let plain = match nip04_decrypt(&self.keys, &event.pubkey, &event.content) {
                    Ok(p) => p,
                    Err(e) => {
                        return Err(e);
                    },
                };
                let shared_signer = match parse_shared_signer(plain.as_str()) {
                    Some(g) => g,
                    None => {
                        return Err(Error::Crypto);
                    },
                };
                let note = Notification::NewSharedSigner {
                    shared_signer_id: event.id,
                    owner_public_key: event.pubkey,
                };
                self.db.save_shared_signer(event.id, event.pubkey, shared_signer);
                self.db.save_notification(event.id, note, now);
                Ok(Some(Message::Notification(note)))
            }
        } else if kind == EVENT_DELETION_KIND {
            self.handle_deletion(event)
        } else if kind == CONTACT_LIST_KIND {
            let contacts = crate::event::collect_pubkey_tags(&event.tags);
            self.db.save_contacts(&contacts);
            Ok(None)
        } else if kind == METADATA_KIND {
            let profile = Profile { content: event.content };
            self.db.set_metadata(event.pubkey, profile);
            Ok(None)
        } else if kind == NOSTR_CONNECT_KIND {
            if !self.db.nostr_connect_session_exists(&event.pubkey) {
                return Ok(None);
            }
            let plain = match nip04_decrypt(&self.keys, &event.pubkey, &event.content) {
                Ok(p) => p,
                Err(e) => {
                    return Err(e);
                },
            };
            let (msg_id, method) = match parse_connect_message(&plain) {
                Ok(m) => m,
                Err(e) => {
                    return Err(e);
                },
            };
            if method == ConnectMethod::GetPublicKey {
                let result = hex256(self.keys.public.hi, self.keys.public.lo);
                let response = connect_response_json(&msg_id, &result);
                self.respond_connect(&event.pubkey, response, now)?;
                Ok(None)
            } else {
                let pre_authorized = self.db.is_nostr_connect_session_pre_authorized(
                    &event.pubkey,
                    now,
                );
                if pre_authorized {
                    let response = match generate_connect_response(&self.keys, &plain) {
                        Some(r) => r,
                        None => {
                            return Err(Error::CantGenerateNostrConnectResponse);
                        },
                    };
                    self.respond_connect(&event.pubkey, response, now)?;
                    Ok(None)
                } else {
                    let message = crate::types::ConnectMessage {
                        id: msg_id,
                        method,
                        raw: plain,
                    };
                    self.db.save_nostr_connect_request(
                        event.id,
                        event.pubkey,
                        message,
                        event.created_at,
                    );
                    Ok(None)
                }
            }
        } else {
            Ok(None)
        }
    }

    /// Reduce a completion event, already logged: remove its source
    /// proposal (a missing row is tolerated — the finalizing replica
    /// deleted it first), store the completion when the policy's key is
    /// known, defer when not, and queue a recent completion's policy for
    /// resynchronization either way.
    #[verifier::rlimit(100)]
    #[verifier::spinoff_prover]
    fn handle_completed(&mut self, event: Event, now: u64) -> (r: Result<Option<Message>, Error>)
        requires
            old(self).wf(),
            event@.kind == COMPLETED_PROPOSAL_KIND,
        ensures
            final(self).wf(),
            final(self)@.network == old(self)@.network && final(self)@.keys == old(self)@.keys
                && final(self)@.endpoint == old(self)@.endpoint && final(self)@.syncing == old(self)@.syncing && final(self)@.first_sync_done == old(self)@.first_sync_done,
            final(self)@.outbox == old(self)@.outbox,
            final(self)@.db.events == old(self)@.db.events,
            (old(self)@.db.completed_proposals.contains_key(event@.id) || first_event_tag(
                event@.tags,
            ) is None) ==> final(self)@.db == old(self)@.db && r == Ok::<Option<Message>, Error>(
                None,
            ),
            (!old(self)@.db.completed_proposals.contains_key(event@.id) && first_event_tag(
                event@.tags,
            ) is Some && second_event_tag(event@.tags) is None) ==> proposal_purged(
                old(self)@.db,
                final(self)@.db,
                first_event_tag(event@.tags).unwrap(),
            ) && final(self)@.db == (StoreV {
                proposals: final(self)@.db.proposals,
                approvals: final(self)@.db.approvals,
                ..old(self)@.db
            }) && r == Ok::<Option<Message>, Error>(None),
            (!old(self)@.db.completed_proposals.contains_key(event@.id) && first_event_tag(
                event@.tags,
            ) is Some && second_event_tag(event@.tags) is Some && !old(self)@.db.shared_keys.contains_key(second_event_tag(event@.tags).unwrap())) ==> proposal_purged(
                old(self)@.db,
                final(self)@.db,
                first_event_tag(event@.tags).unwrap(),
            ) && final(self)@.db == (StoreV {
                proposals: final(self)@.db.proposals,
                approvals: final(self)@.db.approvals,
                pending_events: old(self)@.db.pending_events.insert(event@.id, event@),
                sync_queue: if wants_resync(event@.created_at, now) {
                    old(self)@.db.sync_queue.insert(second_event_tag(event@.tags).unwrap())
                } else {
                    old(self)@.db.sync_queue
                },
                ..old(self)@.db
            }) && r == Ok::<Option<Message>, Error>(None),
            (!old(self)@.db.completed_proposals.contains_key(event@.id) && first_event_tag(
                event@.tags,
            ) is Some && second_event_tag(event@.tags) is Some && old(self)@.db.shared_keys.contains_key(second_event_tag(event@.tags).unwrap()) && policy_plain_of(
                old(self)@,
                second_event_tag(event@.tags).unwrap(),
                event@.content,
            ) is Some && spec_parse_completed(
                policy_plain_of(
                    old(self)@,
                    second_event_tag(event@.tags).unwrap(),
                    event@.content,
                ).unwrap(),
            ) is Some) ==> proposal_purged(
                old(self)@.db,
                final(self)@.db,
                first_event_tag(event@.tags).unwrap(),
            ) && final(self)@.db == (StoreV {
                proposals: final(self)@.db.proposals,
                approvals: final(self)@.db.approvals,
                completed_proposals: old(self)@.db.completed_proposals.insert(
                    event@.id,
                    crate::store::CompletedRecordV {
                        policy_id: second_event_tag(event@.tags).unwrap(),
                        completed: spec_parse_completed(
                            policy_plain_of(
                                old(self)@,
                                second_event_tag(event@.tags).unwrap(),
                                event@.content,
                            ).unwrap(),
                        ).unwrap(),
                    },
                ),
                sync_queue: if wants_resync(event@.created_at, now) {
                    old(self)@.db.sync_queue.insert(second_event_tag(event@.tags).unwrap())
                } else {
                    old(self)@.db.sync_queue
                },
                ..old(self)@.db
            }) && r == Ok::<Option<Message>, Error>(None),
            forall|d: EventId| #[trigger]
                final(self)@.db.pending_events.contains_key(d) ==> ((old(self)@.db.pending_events.contains_key(d) && final(self)@.db.pending_events[d] == old(self)@.db.pending_events[d]) || (d == event.id
                    && final(self)@.db.pending_events[d] == event@)),
    {
        if self.db.completed_proposal_exists(&event.id) {
            return Ok(None);
        }
        let proposal_id = match crate::event::extract_first_event_id(&event) {
            Some(id) => id,
            None => {
                return Ok(None);
            },
        };
        self.db.delete_proposal(&proposal_id);
        let policy_id = match crate::event::extract_second_event_id(&event) {
            Some(id) => id,
            None => {
                return Ok(None);
            },
        };
        if event.created_at <= u64::MAX - 60 && event.created_at + 60 >= now {
            self.db.schedule_for_sync(policy_id);
        }
        let shared_key = match self.db.get_shared_key(&policy_id) {
            Some(k) => k,
            None => {
                self.db.save_pending_event(event);
                return Ok(None);
            },
        };
        let plain = match nip04_decrypt(&shared_key, &shared_key.public, &event.content) {
            Ok(p) => p,
            Err(e) => {
                return Err(e);
            },
        };
        let completed = match parse_completed(plain.as_str()) {
            Some(c) => c,
            None => {
                return Err(Error::Crypto);
            },
        };
        self.db.save_completed_proposal(event.id, policy_id, completed);
        Ok(None)
    }

    /// Reduce a deletion event, already logged: tombstone every id the
    /// event names and remove whatever entity each named, with the policy
    /// cascade. Nothing is ever added back.
    #[verifier::rlimit(100)]
    #[verifier::spinoff_prover]
    fn handle_deletion(&mut self, event: Event) -> (r: Result<Option<Message>, Error>)
        requires
            old(self).wf(),
            event@.kind == EVENT_DELETION_KIND,
        ensures
            final(self).wf(),
            final(self)@.network == old(self)@.network && final(self)@.keys == old(self)@.keys
                && final(self)@.endpoint == old(self)@.endpoint && final(self)@.syncing == old(self)@.syncing && final(self)@.first_sync_done == old(self)@.first_sync_done,
            final(self)@.outbox == old(self)@.outbox,
            r == Ok::<Option<Message>, Error>(None),
            forall|d: EventId| #[trigger]
                final(self)@.db.deleted_ids.contains(d) <==> (old(self)@.db.deleted_ids.contains(d)
                    || event_tag_ids(event@.tags).contains(d)),
            forall|d: EventId|
                event_tag_ids(event@.tags).contains(d) ==> !(
                #[trigger] final(self)@.db.policies.contains_key(d))
                    && !final(self)@.db.proposals.contains_key(d)
                    && !final(self)@.db.approvals.contains_key(d)
                    && !final(self)@.db.completed_proposals.contains_key(d)
                    && !final(self)@.db.signers.contains_key(d),
            forall|d: EventId|
                !event_tag_ids(event@.tags).contains(d) ==> ((#[trigger] final(self)@.db.events.contains_key(d)) <==> old(self)@.db.events.contains_key(d)) && (final(self)@.db.events.contains_key(d) ==> final(self)@.db.events[d] == old(self)@.db.events[d]),
            forall|d: EventId| #[trigger]
                final(self)@.db.pending_events.contains_key(d) ==> (old(self)@.db.pending_events.contains_key(d) && final(self)@.db.pending_events[d] == old(self)@.db.pending_events[d]),
    {
        let ids = crate::event::collect_event_tag_ids(&event.tags);
        let ghost mid = self@.db;
        let mut i: usize = 0;
        while i < ids.len()
            invariant
                self.wf(),
                i <= ids@.len(),
                self@.keys == old(self)@.keys,
                self@.network == old(self)@.network,
                self@.endpoint == old(self)@.endpoint,
                self@.syncing == old(self)@.syncing,
                self@.first_sync_done == old(self)@.first_sync_done,
                self@.outbox == old(self)@.outbox,
                mid == old(self)@.db,
                forall|d: EventId| #[trigger]
                    self@.db.deleted_ids.contains(d) <==> (mid.deleted_ids.contains(d)
                        || ids@.take(i as int).contains(d)),
                forall|d: EventId| #[trigger]
                    self@.db.policies.contains_key(d) ==> mid.policies.contains_key(d),
                forall|d: EventId| #[trigger]
                    self@.db.proposals.contains_key(d) ==> mid.proposals.contains_key(d),
                forall|d: EventId| #[trigger]
                    self@.db.approvals.contains_key(d) ==> mid.approvals.contains_key(d),
                forall|d: EventId| #[trigger]
                    self@.db.completed_proposals.contains_key(d)
                        ==> mid.completed_proposals.contains_key(d),
                forall|d: EventId| #[trigger]
                    self@.db.signers.contains_key(d) ==> mid.signers.contains_key(d),
                forall|j: int|
                    0 <= j < i ==> !(#[trigger] self@.db.policies.contains_key(ids@[j]))
                        && !self@.db.proposals.contains_key(ids@[j])
                        && !self@.db.approvals.contains_key(ids@[j])
                        && !self@.db.completed_proposals.contains_key(ids@[j])
                        && !self@.db.signers.contains_key(ids@[j]),
                forall|d: EventId|
                    !ids@.contains(d) ==> ((#[trigger] self@.db.events.contains_key(d))
                        <==> mid.events.contains_key(d)) && (self@.db.events.contains_key(d)
                        ==> self@.db.events[d] == mid.events[d]),
                forall|d: EventId| #[trigger]
                    self@.db.pending_events.contains_key(d) ==> (mid.pending_events.contains_key(d)
                        && self@.db.pending_events[d] == mid.pending_events[d]),
            decreases ids@.len() - i,
        {
            let ghost before = self@.db;
            self.db.delete_generic_event_id(ids[i]);
            proof {
                assert(ids@.take(i + 1).drop_last() =~= ids@.take(i as int));
                assert(ids@.take(i + 1).last() == ids@[i as int]);
                assert(ids@.contains(ids@[i as int]));
                assert forall|j: int|
                    0 <= j <= i implies !(#[trigger] self@.db.policies.contains_key(ids@[j]))
                    && !self@.db.proposals.contains_key(ids@[j])
                    && !self@.db.approvals.contains_key(ids@[j])
                    && !self@.db.completed_proposals.contains_key(ids@[j])
                    && !self@.db.signers.contains_key(ids@[j]) by {
                    if j < i {
                        assert(!before.policies.contains_key(ids@[j]));
                        assert(!before.proposals.contains_key(ids@[j]));
                        assert(!before.approvals.contains_key(ids@[j]));
                        assert(!before.completed_proposals.contains_key(ids@[j]));
                        assert(!before.signers.contains_key(ids@[j]));
                    }
                    assert(self@.db.signers == before.signers.remove(ids@[i as int]));
                }
                assert forall|d: EventId| #[trigger]
                    self@.db.deleted_ids.contains(d) <==> (mid.deleted_ids.contains(d)
                        || ids@.take(i + 1).contains(d)) by {
                    if ids@.take(i + 1).contains(d) {
                        let x = choose|x: int|
                            0 <= x < i + 1 && #[trigger] ids@.take(i + 1)[x] == d;
                        if x < i {
                            assert(ids@.take(i as int)[x] == d);
                        }
                    }
                    if ids@.take(i as int).contains(d) {
                        let x = choose|x: int|
                            0 <= x < i && #[trigger] ids@.take(i as int)[x] == d;
                        assert(ids@.take(i + 1)[x] == d);
                    }
                }
            }
            i = i + 1;
        }
        proof {
            assert(ids@.take(ids@.len() as int) =~= ids@);
            assert forall|d: EventId|
                event_tag_ids(event@.tags).contains(d) implies !(
            #[trigger] self@.db.policies.contains_key(d)) && !self@.db.proposals.contains_key(
                d,
            ) && !self@.db.approvals.contains_key(d)
                && !self@.db.completed_proposals.contains_key(d)
                && !self@.db.signers.contains_key(d) by {
                let tids = event_tag_ids(event@.tags);
                let x = choose|x: int| 0 <= x < tids.len() && #[trigger] tids[x] == d;
                assert(ids@[x] == d);
                assert(!self@.db.policies.contains_key(ids@[x]));
            }
        }
        Ok(None)
    }

    /// Encrypt and publish one remote-signing response to an app.
    fn respond_connect(
        &mut self,
        app_public_key: &XOnlyPublicKey,
        response: String,
        now: u64,
    ) -> (r: Result<(), Error>)
        requires
            old(self).wf(),
        ensures
            final(self).wf(),
            r is Err ==> final(self)@ == old(self)@,
            final(self)@.db == old(self)@.db,
            final(self)@.network == old(self)@.network && final(self)@.keys == old(self)@.keys
                && final(self)@.endpoint == old(self)@.endpoint && final(self)@.syncing == old(self)@.syncing && final(self)@.first_sync_done == old(self)@.first_sync_done,
            r is Ok ==> final(self)@.outbox.len() == old(self)@.outbox.len() + 1 && final(self)@.outbox.take(old(self)@.outbox.len() as int) == old(self)@.outbox && final(self)@.outbox.last().kind == NOSTR_CONNECT_KIND && final(self)@.outbox.last().tags == seq![
                Tag::PubKey(*app_public_key),
            ] && final(self)@.outbox.last().pubkey == self_key(old(self)@),
    {
        let ct = match nip04_encrypt(&self.keys, app_public_key, &response) {
            Ok(c) => c,
            Err(e) => {
                return Err(e);
            },
        };
        let tags = vec![Tag::PubKey(*app_public_key)];
        proof {
            assert(tags@ =~= seq![Tag::PubKey(*app_public_key)]);
        }
        let ev = match sign_event(&self.keys, NOSTR_CONNECT_KIND, &tags, &ct, now) {
            Ok(ev) => ev,
            Err(e) => {
                return Err(e);
            },
        };
        let ghost pre = self@;
        self.outbox.push(ev);
        proof {
            assert(event_views(self.outbox@) =~= pre.outbox.push(self.outbox@.last()@));
            assert(self@.outbox.take(pre.outbox.len() as int) =~= pre.outbox);
        }
        Ok(())
    }

    /// Retry every deferred event once, collecting the notifications of
    /// those that now apply. An event that still lacks its dependency goes
    /// back on the queue through the reducer itself.
    pub fn handle_pending_events(&mut self, now: u64) -> (r: Vec<Message>)
        requires
            old(self).wf(),
        ensures
            final(self).wf(),
            final(self)@.network == old(self)@.network && final(self)@.keys == old(self)@.keys
                && final(self)@.endpoint == old(self)@.endpoint && final(self)@.syncing == old(self)@.syncing && final(self)@.first_sync_done == old(self)@.first_sync_done,
            // The queue is drained and each event re-fed through the
            // reducer, so afterwards it holds only events that deferred
            // again: a subset of what it held, under the same ids.
            forall|d: EventId| #[trigger]
                final(self)@.db.pending_events.contains_key(d) ==> (old(self)@.db.pending_events.contains_key(d) && final(self)@.db.pending_events[d] == old(self)@.db.pending_events[d]),
            // An empty queue leaves the engine untouched.
            old(self)@.db.pending_events == Map::<EventId, EventV>::empty() ==> final(self)@ == old(
                self,
            )@ && r@ == Seq::<Message>::empty(),
    {
        let ghost pe = self.db.pending_events.entries@;
        proof {
            assert forall|x: int|
                0 <= x < pe.len() implies old(self)@.db.pending_events.contains_key(
                (#[trigger] pe[x]).0,
            ) && old(self)@.db.pending_events[pe[x].0] == pe[x].1@ && pe[x].1@.id == pe[x].0 by {
                crate::maps::lemma_id_as_map_index(pe, x);
            }
        }
        let mut events = self.db.drain_pending_events();
        proof {
            if old(self)@.db.pending_events == Map::<EventId, EventV>::empty() {
                if pe.len() > 0 {
                    assert(old(self)@.db.pending_events.contains_key(pe[0].0));
                }
                assert(self@.db.pending_events =~= old(self)@.db.pending_events);
                assert(self@.db == old(self)@.db);
                assert(self@ == old(self)@);
            }
        }
        let mut msgs: Vec<Message> = Vec::new();
        let ghost total = pe.len() as int;
        let ghost done: int = 0;
        while events.len() > 0
            invariant
                self.wf(),
                self@.network == old(self)@.network,
                self@.keys == old(self)@.keys,
                self@.endpoint == old(self)@.endpoint,
                self@.syncing == old(self)@.syncing,
                self@.first_sync_done == old(self)@.first_sync_done,
                0 <= done <= total,
                total == pe.len(),
                event_views(events@) == crate::store::entry_event_views(pe).skip(done),
                forall|x: int|
                    0 <= x < pe.len() ==> old(self)@.db.pending_events.contains_key(
                        (#[trigger] pe[x]).0,
                    ) && old(self)@.db.pending_events[pe[x].0] == pe[x].1@ && pe[x].1@.id
                        == pe[x].0,
                forall|d: EventId| #[trigger]
                    self@.db.pending_events.contains_key(d) ==> (old(self)@.db.pending_events.contains_key(d) && self@.db.pending_events[d] == old(self)@.db.pending_events[d]),
                old(self)@.db.pending_events == Map::<EventId, EventV>::empty() ==> (self@ == old(
                    self,
                )@ && msgs@ == Seq::<Message>::empty()),
            decreases events@.len(),
        {
            let ghost pre_events = events@;
            let ev = events.remove(0);
            proof {
                assert(event_views(pre_events).len() == pre_events.len());
                assert(ev@ == event_views(pre_events)[0]);
                assert(ev@ == crate::store::entry_event_views(pe)[done]);
                assert(ev@ == pe[done].1@);
                assert(ev.id == pe[done].0);
                assert(old(self)@.db.pending_events.contains_key(ev.id)
                    && old(self)@.db.pending_events[ev.id] == ev@);
                assert(event_views(events@) =~= crate::store::entry_event_views(pe).skip(
                    done + 1,
                )) by {
                    assert(event_views(pre_events).drop_first() =~= event_views(events@));
                    assert(crate::store::entry_event_views(pe).skip(done).drop_first()
                        =~= crate::store::entry_event_views(pe).skip(done + 1));
                }
            }
            match self.handle_event(ev, now) {
                Ok(Some(m)) => msgs.push(m),
                Ok(None) => (),
                Err(_) => (),
            }
            proof {
                done = done + 1;
            }
        }
        msgs
    }
}

/// The source proposal and its approvals removed, values kept elsewhere.
pub open spec fn proposal_purged(o: StoreV, f: StoreV, proposal_id: EventId) -> bool {
    &&& f.proposals == o.proposals.remove(proposal_id)
    &&& (forall|k: EventId| #[trigger]
        f.approvals.contains_key(k) <==> (o.approvals.contains_key(k)
            && o.approvals[k].proposal_id != proposal_id))
    &&& (forall|k: EventId| #[trigger]
        f.approvals.contains_key(k) ==> f.approvals[k] == o.approvals[k])
}

/// Whether a completion event asks for an on-chain resynchronization: it
/// was created within the last minute.
pub open spec fn wants_resync(created_at: u64, now: u64) -> bool {
    created_at <= u64::MAX - 60 && created_at + 60 >= now
}

/// Whether an event is neither tombstoned nor expired.
pub open spec fn live(o: CoinstrV, ev: EventV, now: u64) -> bool {
    !o.db.deleted_ids.contains(ev.id) && !spec_is_expired(ev.tags, now)
}

/// What a remote-signing message decrypts to for this engine.
pub open spec fn connect_plain_of(o: CoinstrV, ev: EventV) -> Option<Seq<char>> {
    nip04_plain(o.keys.secret.hi, o.keys.secret.lo, ev.pubkey, ev.content)
}

/// What a proposal event decrypts and parses to, under its policy's key.
pub open spec fn spec_parse_proposal_of(o: CoinstrV, ev: EventV) -> Option<
    crate::domain::ProposalV,
> {
    match policy_plain_of(o, first_event_tag(ev.tags).unwrap(), ev.content) {
        Some(plain) => crate::domain::spec_parse_proposal(plain),
        None => None,
    }
}

/// What an approval event decrypts and parses to, under its policy's key.
pub open spec fn spec_parse_approved_of(o: CoinstrV, ev: EventV) -> Option<
    crate::domain::ApprovedProposalV,
> {
    match policy_plain_of(o, second_event_tag(ev.tags).unwrap(), ev.content) {
        Some(plain) => spec_parse_approved(plain),
        None => None,
    }
}

/// Read a distributed secret: sixty-four digits exactly.
fn parse_secret_exec(s: &String) -> (r: Option<SecretKey>)
    ensures
        r == spec_parse_secret(s@),
{
    let n = s.as_str().unicode_len();
    if n != 64 {
        return None;
    }
    let hi = match crate::codec::parse_hex(s.as_str(), 0, 32) {
        Some(x) => x,
        None => {
            return None;
        },
    };
    let lo = match crate::codec::parse_hex(s.as_str(), 32, 32) {
        Some(x) => x,
        None => {
            return None;
        },
    };
    proof {
        assert(s@.subrange(0, 32) =~= s@.subrange(0, 0 + 32int));
        assert(s@.subrange(32, 64) =~= s@.subrange(32, 32 + 32int));
    }
    Some(SecretKey { hi, lo })
}

} // verus!
