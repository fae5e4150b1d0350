//! The local store: every domain entity the engine owns, indexed for the
//! reducer and the coordination operations.
//!
//! Writes are per-entity; compound removals (a policy cascade) state
//! pointwise which keys stay. The whole store abstracts to [`StoreV`], a
//! record of maps and sets over which the reducer's contracts and the
//! library's laws are stated.

use vstd::prelude::*;

use crate::domain::{
    ApprovedProposal, ApprovedProposalV, CompletedProposal, CompletedProposalV, Policy, PolicyV,
    Proposal, ProposalV, SharedSigner, SharedSignerV, Signer, SignerV,
};
use crate::event::{Event, EventV};
use crate::ids::{EventId, KeyPair, XOnlyPublicKey};
use crate::maps::{IdMap, IdSet, PkMap, PkSet, StrMap};
use crate::types::{
    Balance, ConnectMessage, ConnectRequest, ConnectRequestV, ConnectSession, ConnectSessionV,
    Notification, Profile, ProfileV, TransactionDetails, WalletSnapshot, WalletSnapshotV,
};

verus! {

/// A policy with the cosigner set its publishing event was tagged with.
#[derive(Clone, Debug)]
pub struct PolicyRecord {
    pub policy: Policy,
    pub cosigners: Vec<XOnlyPublicKey>,
}

pub struct PolicyRecordV {
    pub policy: PolicyV,
    pub cosigners: Seq<XOnlyPublicKey>,
}

impl View for PolicyRecord {
    type V = PolicyRecordV;

    open spec fn view(&self) -> PolicyRecordV {
        PolicyRecordV { policy: self.policy@, cosigners: self.cosigners@ }
    }
}

/// A proposal and the policy it belongs to.
#[derive(Clone, Debug)]
pub struct ProposalRecord {
    pub policy_id: EventId,
    pub proposal: Proposal,
}

pub struct ProposalRecordV {
    pub policy_id: EventId,
    pub proposal: ProposalV,
}

impl View for ProposalRecord {
    type V = ProposalRecordV;

    open spec fn view(&self) -> ProposalRecordV {
        ProposalRecordV { policy_id: self.policy_id, proposal: self.proposal@ }
    }
}

/// An approval, keyed by its own event id.
#[derive(Clone, Debug)]
pub struct ApprovalRecord {
    pub proposal_id: EventId,
    pub author: XOnlyPublicKey,
    pub approval: ApprovedProposal,
    pub timestamp: u64,
}

pub struct ApprovalRecordV {
    pub proposal_id: EventId,
    pub author: XOnlyPublicKey,
    pub approval: ApprovedProposalV,
    pub timestamp: u64,
}

impl View for ApprovalRecord {
    type V = ApprovalRecordV;

    open spec fn view(&self) -> ApprovalRecordV {
        ApprovalRecordV {
            proposal_id: self.proposal_id,
            author: self.author,
            approval: self.approval@,
            timestamp: self.timestamp,
        }
    }
}

/// A completed proposal and the policy it belongs to.
#[derive(Clone, Debug)]
pub struct CompletedRecord {
    pub policy_id: EventId,
    pub completed: CompletedProposal,
}

pub struct CompletedRecordV {
    pub policy_id: EventId,
    pub completed: CompletedProposalV,
}

impl View for CompletedRecord {
    type V = CompletedRecordV;

    open spec fn view(&self) -> CompletedRecordV {
        CompletedRecordV { policy_id: self.policy_id, completed: self.completed@ }
    }
}

/// A signer someone shared with this user.
#[derive(Clone, Debug)]
pub struct SharedSignerRecord {
    pub owner: XOnlyPublicKey,
    pub shared_signer: SharedSigner,
}

pub struct SharedSignerRecordV {
    pub owner: XOnlyPublicKey,
    pub shared_signer: SharedSignerV,
}

impl View for SharedSignerRecord {
    type V = SharedSignerRecordV;

    open spec fn view(&self) -> SharedSignerRecordV {
        SharedSignerRecordV { owner: self.owner, shared_signer: self.shared_signer@ }
    }
}

/// An outgoing share of one of the user's signers, keyed by the id of the
/// sharing event.
#[derive(Clone, Copy, PartialEq, Eq, Structural, Debug)]
pub struct MySharedSignerRecord {
    pub signer_id: EventId,
    pub recipient: XOnlyPublicKey,
}

impl View for MySharedSignerRecord {
    type V = MySharedSignerRecord;

    open spec fn view(&self) -> MySharedSignerRecord {
        *self
    }
}

/// A notification with its seen flag, keyed by the triggering event id.
#[derive(Clone, Copy, PartialEq, Eq, Structural, Debug)]
pub struct NotificationRecord {
    pub notification: Notification,
    pub timestamp: u64,
    pub seen: bool,
}

impl View for NotificationRecord {
    type V = NotificationRecord;

    open spec fn view(&self) -> NotificationRecord {
        *self
    }
}

/// The views of a sequence of events.
pub open spec fn event_views(s: Seq<Event>) -> Seq<EventV> {
    s.map_values(|e: Event| e@)
}

/// The views of the events in a sequence of index entries.
pub open spec fn entry_event_views(s: Seq<(EventId, Event)>) -> Seq<EventV> {
    s.map_values(|p: (EventId, Event)| p.1@)
}

/// The store's mathematical state.
pub struct StoreV {
    pub policies: Map<EventId, PolicyRecordV>,
    pub shared_keys: Map<EventId, KeyPair>,
    pub proposals: Map<EventId, ProposalRecordV>,
    pub approvals: Map<EventId, ApprovalRecordV>,
    pub completed_proposals: Map<EventId, CompletedRecordV>,
    pub signers: Map<EventId, SignerV>,
    pub my_shared_signers: Map<EventId, MySharedSignerRecord>,
    pub shared_signers: Map<EventId, SharedSignerRecordV>,
    pub events: Map<EventId, EventV>,
    pub deleted_ids: Set<EventId>,
    pub pending_events: Map<EventId, EventV>,
    pub notifications: Map<EventId, NotificationRecord>,
    pub contacts: Set<XOnlyPublicKey>,
    pub profiles: Map<XOnlyPublicKey, ProfileV>,
    pub connect_sessions: Map<XOnlyPublicKey, ConnectSessionV>,
    pub connect_requests: Map<EventId, ConnectRequestV>,
    pub pre_auth: Map<XOnlyPublicKey, u64>,
    pub relay_sync: Map<Seq<char>, u64>,
    pub sync_queue: Set<EventId>,
    pub wallets: Map<EventId, WalletSnapshotV>,
    pub block_height: u32,
}

/// The local store.
pub struct Store {
    pub policies: IdMap<PolicyRecord>,
    pub shared_keys: IdMap<KeyPair>,
    pub proposals: IdMap<ProposalRecord>,
    pub approvals: IdMap<ApprovalRecord>,
    pub completed_proposals: IdMap<CompletedRecord>,
    pub signers: IdMap<Signer>,
    pub my_shared_signers: IdMap<MySharedSignerRecord>,
    pub shared_signers: IdMap<SharedSignerRecord>,
    pub events: IdMap<Event>,
    pub deleted_ids: IdSet,
    pub pending_events: IdMap<Event>,
    pub notifications: IdMap<NotificationRecord>,
    pub contacts: PkSet,
    pub profiles: PkMap<Profile>,
    pub connect_sessions: PkMap<ConnectSession>,
    pub connect_requests: IdMap<ConnectRequest>,
    pub pre_auth: PkMap<u64>,
    pub relay_sync: StrMap<u64>,
    pub sync_queue: IdSet,
    pub wallets: IdMap<WalletSnapshot>,
    pub block_height: u32,
}

impl View for Store {
    type V = StoreV;

    open spec fn view(&self) -> StoreV {
        StoreV {
            policies: self.policies@,
            shared_keys: self.shared_keys@,
            proposals: self.proposals@,
            approvals: self.approvals@,
            completed_proposals: self.completed_proposals@,
            signers: self.signers@,
            my_shared_signers: self.my_shared_signers@,
            shared_signers: self.shared_signers@,
            events: self.events@,
            deleted_ids: self.deleted_ids@,
            pending_events: self.pending_events@,
            notifications: self.notifications@,
            contacts: self.contacts@,
            profiles: self.profiles@,
            connect_sessions: self.connect_sessions@,
            connect_requests: self.connect_requests@,
            pre_auth: self.pre_auth@,
            relay_sync: self.relay_sync@,
            sync_queue: self.sync_queue@,
            wallets: self.wallets@,
            block_height: self.block_height,
        }
    }
}

impl Store {
    /// Every index has pairwise-distinct keys, and a deferred event waits
    /// under its own id.
    pub open spec fn wf(&self) -> bool {
        &&& (forall|k: EventId| #[trigger]
            self.pending_events@.contains_key(k) ==> self.pending_events@[k].id == k)
        &&& self.policies.wf()
        &&& self.shared_keys.wf()
        &&& self.proposals.wf()
        &&& self.approvals.wf()
        &&& self.completed_proposals.wf()
        &&& self.signers.wf()
        &&& self.my_shared_signers.wf()
        &&& self.shared_signers.wf()
        &&& self.events.wf()
        &&& self.deleted_ids.wf()
        &&& self.pending_events.wf()
        &&& self.notifications.wf()
        &&& self.contacts.wf()
        &&& self.profiles.wf()
        &&& self.connect_sessions.wf()
        &&& self.connect_requests.wf()
        &&& self.pre_auth.wf()
        &&& self.relay_sync.wf()
        &&& self.sync_queue.wf()
        &&& self.wallets.wf()
    }

    /// An empty store: what a fresh keychain starts from.
    pub fn new() -> (r: Self)
        ensures
            r.wf(),
            r@.policies == Map::<EventId, PolicyRecordV>::empty(),
            r@.shared_keys == Map::<EventId, KeyPair>::empty(),
            r@.proposals == Map::<EventId, ProposalRecordV>::empty(),
            r@.approvals == Map::<EventId, ApprovalRecordV>::empty(),
            r@.completed_proposals == Map::<EventId, CompletedRecordV>::empty(),
            r@.signers == Map::<EventId, SignerV>::empty(),
            r@.my_shared_signers == Map::<EventId, MySharedSignerRecord>::empty(),
            r@.shared_signers == Map::<EventId, SharedSignerRecordV>::empty(),
            r@.events == Map::<EventId, EventV>::empty(),
            r@.deleted_ids == Set::<EventId>::empty(),
            r@.pending_events == Map::<EventId, EventV>::empty(),
            r@.notifications == Map::<EventId, NotificationRecord>::empty(),
            r@.contacts == Set::<XOnlyPublicKey>::empty(),
            r@.profiles == Map::<XOnlyPublicKey, ProfileV>::empty(),
            r@.connect_sessions == Map::<XOnlyPublicKey, ConnectSessionV>::empty(),
            r@.connect_requests == Map::<EventId, ConnectRequestV>::empty(),
            r@.pre_auth == Map::<XOnlyPublicKey, u64>::empty(),
            r@.relay_sync == Map::<Seq<char>, u64>::empty(),
            r@.sync_queue == Set::<EventId>::empty(),
            r@.wallets == Map::<EventId, WalletSnapshotV>::empty(),
            r@.block_height == 0,
    {
        Store {
            policies: IdMap::new(),
            shared_keys: IdMap::new(),
            proposals: IdMap::new(),
            approvals: IdMap::new(),
            completed_proposals: IdMap::new(),
            signers: IdMap::new(),
            my_shared_signers: IdMap::new(),
            shared_signers: IdMap::new(),
            events: IdMap::new(),
            deleted_ids: IdSet::new(),
            pending_events: IdMap::new(),
            notifications: IdMap::new(),
            contacts: PkSet::new(),
            profiles: PkMap::new(),
            connect_sessions: PkMap::new(),
            connect_requests: IdMap::new(),
            pre_auth: PkMap::new(),
            relay_sync: StrMap::new(),
            sync_queue: IdSet::new(),
            wallets: IdMap::new(),
            block_height: 0,
        }
    }

    /// Record a raw event in the event log.
    pub fn save_event(&mut self, e: Event)
        requires
            old(self).wf(),
        ensures
            final(self).wf(),
            final(self)@ == (StoreV { events: old(self)@.events.insert(e.id, e@), ..old(self)@ }),
    {
        let id = e.id;
        self.events.insert(id, e);
    }

    /// Whether the event id is in the tombstone set.
    pub fn event_was_deleted(&self, id: &EventId) -> (r: bool)
        requires
            self.wf(),
        ensures
            r == self@.deleted_ids.contains(*id),
    {
        self.deleted_ids.contains(id)
    }

    /// Hold an event until its dependency arrives.
    pub fn save_pending_event(&mut self, e: Event)
        requires
            old(self).wf(),
        ensures
            final(self).wf(),
            final(self)@ == (StoreV {
                pending_events: old(self)@.pending_events.insert(e.id, e@),
                ..old(self)@
            }),
    {
        let id = e.id;
        self.pending_events.insert(id, e);
    }

    /// Take every deferred event out of the queue, to be retried.
    pub fn drain_pending_events(&mut self) -> (r: Vec<Event>)
        requires
            old(self).wf(),
        ensures
            final(self).wf(),
            final(self)@ == (StoreV {
                pending_events: Map::<EventId, EventV>::empty(),
                ..old(self)@
            }),
            event_views(r@) == entry_event_views(old(self).pending_events.entries@),
    {
        let mut taken: Vec<(EventId, Event)> = Vec::new();
        core::mem::swap(&mut taken, &mut self.pending_events.entries);
        let ghost orig = taken@;
        let mut r: Vec<Event> = Vec::new();
        while taken.len() > 0
            invariant
                r@.len() + taken@.len() == orig.len(),
                taken@ == orig.skip(r@.len() as int),
                event_views(r@) == entry_event_views(orig.take(r@.len() as int)),
            decreases taken@.len(),
        {
            let ghost k = r@.len() as int;
            let ghost r_before = r@;
            let (_, e) = taken.remove(0);
            r.push(e);
            proof {
                assert(orig.skip(k)[0] == orig[k]);
                assert(e == orig[k].1);
                assert forall|i: int| 0 <= i <= k implies event_views(r@)[i] == entry_event_views(
                    orig.take(k + 1),
                )[i] by {
                    assert(orig.take(k + 1)[i] == orig[i]);
                    if i < k {
                        assert(event_views(r_before)[i] == entry_event_views(orig.take(k))[i]);
                        assert(orig.take(k)[i] == orig[i]);
                        assert(r@[i] == r_before[i]);
                    } else {
                        assert(r@[k] == e);
                    }
                }
                assert(taken@ =~= orig.skip(k + 1));
                assert(event_views(r@) =~= entry_event_views(orig.take(k + 1)));
            }
        }
        proof {
            assert(orig.take(orig.len() as int) =~= orig);
            assert(self.pending_events@ =~= Map::<EventId, EventV>::empty());
        }
        r
    }

    /// Store the shared key for a policy.
    pub fn save_shared_key(&mut self, policy_id: EventId, shared_key: KeyPair)
        requires
            old(self).wf(),
        ensures
            final(self).wf(),
            final(self)@ == (StoreV {
                shared_keys: old(self)@.shared_keys.insert(policy_id, shared_key),
                ..old(self)@
            }),
    {
        self.shared_keys.insert(policy_id, shared_key);
    }

    /// Whether a shared key is known for the policy.
    pub fn shared_key_exists_for_policy(&self, policy_id: &EventId) -> (r: bool)
        requires
            self.wf(),
        ensures
            r == self@.shared_keys.contains_key(*policy_id),
    {
        self.shared_keys.contains_key(policy_id)
    }

/// The shared key of a policy, if known.
    pub fn get_shared_key(&self, policy_id: &EventId) -> (r: Option<KeyPair>)
        requires
            self.wf(),
        ensures
            match r {
                Some(k) => self@.shared_keys.contains_key(*policy_id) && k
                    == self@.shared_keys[*policy_id],
                None => !self@.shared_keys.contains_key(*policy_id),
            },
    {
        match self.shared_keys.get(policy_id) {
            Some(k) => Some(*k),
            None => None,
        }
    }

    /// Whether an approval's proposal belongs to the policy.
    pub open spec fn spec_approval_in_policy(s: StoreV, k: EventId, policy_id: EventId) -> bool {
        s.approvals.contains_key(k) && s.proposals.contains_key(s.approvals[k].proposal_id)
            && s.proposals[s.approvals[k].proposal_id].policy_id == policy_id
    }

    /// Store a policy with the cosigner set of its publishing event.
    pub fn save_policy(&mut self, policy_id: EventId, policy: Policy, nostr_pubkeys: Vec<XOnlyPublicKey>)
        requires
            old(self).wf(),
        ensures
            final(self).wf(),
            final(self)@ == (StoreV {
                policies: old(self)@.policies.insert(
                    policy_id,
                    PolicyRecordV { policy: policy@, cosigners: nostr_pubkeys@ },
                ),
                ..old(self)@
            }),
    {
        self.policies.insert(policy_id, PolicyRecord { policy, cosigners: nostr_pubkeys });
    }

    pub fn policy_exists(&self, policy_id: &EventId) -> (r: bool)
        requires
            self.wf(),
        ensures
            r == self@.policies.contains_key(*policy_id),
    {
        self.policies.contains_key(policy_id)
    }

    /// The policy and its cosigners, if stored.
    pub fn get_policy(&self, policy_id: &EventId) -> (r: Option<(Policy, Vec<XOnlyPublicKey>)>)
        requires
            self.wf(),
        ensures
            match r {
                Some(p) => self@.policies.contains_key(*policy_id) && p.0@
                    == self@.policies[*policy_id].policy && p.1@
                    == self@.policies[*policy_id].cosigners,
                None => !self@.policies.contains_key(*policy_id),
            },
    {
        match self.policies.get(policy_id) {
            Some(rec) => Some((rec.policy.duplicate(), crate::maps::copy_vec(&rec.cosigners))),
            None => None,
        }
    }

    /// The cosigner keys tagged on the policy's publishing event.
    pub fn get_nostr_pubkeys(&self, policy_id: &EventId) -> (r: Option<Vec<XOnlyPublicKey>>)
        requires
            self.wf(),
        ensures
            match r {
                Some(p) => self@.policies.contains_key(*policy_id) && p@
                    == self@.policies[*policy_id].cosigners,
                None => !self@.policies.contains_key(*policy_id),
            },
    {
        match self.policies.get(policy_id) {
            Some(rec) => Some(crate::maps::copy_vec(&rec.cosigners)),
            None => None,
        }
    }

    /// The ids of the proposals that belong to the policy.
    pub fn proposal_ids_of_policy(&self, policy_id: &EventId) -> (r: Vec<EventId>)
        requires
            self.wf(),
        ensures
            forall|k: EventId| #[trigger]
                r@.contains(k) <==> (self@.proposals.contains_key(k)
                    && self@.proposals[k].policy_id == *policy_id),
    {
        let es = self.proposals.entries_ref();
        let mut r: Vec<EventId> = Vec::new();
        let mut i: usize = 0;
        while i < es.len()
            invariant
                self.wf(),
                es == &self.proposals.entries,
                i <= es@.len(),
                forall|x: int|
                    0 <= x < es@.len() ==> self@.proposals.contains_key(#[trigger] es@[x].0)
                        && self@.proposals[es@[x].0] == es@[x].1@,
                forall|k: EventId| #[trigger]
                    r@.contains(k) ==> (self@.proposals.contains_key(k)
                        && self@.proposals[k].policy_id == *policy_id),
                forall|j: int|
                    0 <= j < i && (#[trigger] es@[j].1).policy_id == *policy_id ==> r@.contains(
                        es@[j].0,
                    ),
            decreases es@.len() - i,
        {
            let ghost prev = r@;
            if self.proposals.entries[i].1.policy_id == *policy_id {
                let id = self.proposals.entries[i].0;
                r.push(id);
                proof {
                    crate::maps::lemma_push_contains(prev, r@, id);
                }
            }
            i = i + 1;
        }
        proof {
            assert forall|k: EventId|
                self@.proposals.contains_key(k) && self@.proposals[k].policy_id
                    == *policy_id implies #[trigger] r@.contains(k) by {
                crate::maps::lemma_id_as_map_contains(self.proposals.entries@, k);
                let j = choose|j: int|
                    0 <= j < self.proposals.entries@.len() && self.proposals.entries@[j].0 == k;
                assert(self.proposals.entries@[j].1@ == self@.proposals[k]);
            }
        }
        r
    }

    /// The ids of the completions that belong to the policy.
    pub fn completed_ids_of_policy(&self, policy_id: &EventId) -> (r: Vec<EventId>)
        requires
            self.wf(),
        ensures
            forall|k: EventId| #[trigger]
                r@.contains(k) <==> (self@.completed_proposals.contains_key(k)
                    && self@.completed_proposals[k].policy_id == *policy_id),
    {
        let es = self.completed_proposals.entries_ref();
        let mut r: Vec<EventId> = Vec::new();
        let mut i: usize = 0;
        while i < es.len()
            invariant
                self.wf(),
                es == &self.completed_proposals.entries,
                i <= es@.len(),
                forall|x: int|
                    0 <= x < es@.len() ==> self@.completed_proposals.contains_key(
                        #[trigger] es@[x].0,
                    ) && self@.completed_proposals[es@[x].0] == es@[x].1@,
                forall|k: EventId| #[trigger]
                    r@.contains(k) ==> (self@.completed_proposals.contains_key(k)
                        && self@.completed_proposals[k].policy_id == *policy_id),
                forall|j: int|
                    0 <= j < i && (#[trigger] es@[j].1).policy_id == *policy_id ==> r@.contains(
                        es@[j].0,
                    ),
            decreases es@.len() - i,
        {
            let ghost prev = r@;
            if self.completed_proposals.entries[i].1.policy_id == *policy_id {
                let id = self.completed_proposals.entries[i].0;
                r.push(id);
                proof {
                    crate::maps::lemma_push_contains(prev, r@, id);
                }
            }
            i = i + 1;
        }
        proof {
            assert forall|k: EventId|
                self@.completed_proposals.contains_key(k) && self@.completed_proposals[k].policy_id
                    == *policy_id implies #[trigger] r@.contains(k) by {
                crate::maps::lemma_id_as_map_contains(self.completed_proposals.entries@, k);
                let j = choose|j: int|
                    0 <= j < self.completed_proposals.entries@.len()
                        && self.completed_proposals.entries@[j].0 == k;
                assert(self.completed_proposals.entries@[j].1@ == self@.completed_proposals[k]);
            }
        }
        r
    }

    /// The ids of the approvals whose proposal belongs to the policy.
    pub fn approval_ids_in_policy(&self, policy_id: &EventId) -> (r: Vec<EventId>)
        requires
            self.wf(),
        ensures
            forall|k: EventId| #[trigger]
                r@.contains(k) <==> Self::spec_approval_in_policy(self@, k, *policy_id),
    {
        let es = self.approvals.entries_ref();
        let mut r: Vec<EventId> = Vec::new();
        let mut i: usize = 0;
        while i < es.len()
            invariant
                self.wf(),
                es == &self.approvals.entries,
                i <= es@.len(),
                forall|x: int|
                    0 <= x < es@.len() ==> self@.approvals.contains_key(#[trigger] es@[x].0)
                        && self@.approvals[es@[x].0] == es@[x].1@,
                forall|k: EventId| #[trigger]
                    r@.contains(k) ==> Self::spec_approval_in_policy(self@, k, *policy_id),
                forall|j: int|
                    0 <= j < i && Self::spec_approval_in_policy(
                        self@,
                        (#[trigger] es@[j]).0,
                        *policy_id,
                    ) ==> r@.contains(es@[j].0),
            decreases es@.len() - i,
        {
            let ghost prev = r@;
            let pid = self.approvals.entries[i].1.proposal_id;
            let keep = match self.proposals.get(&pid) {
                Some(rec) => rec.policy_id == *policy_id,
                None => false,
            };
            if keep {
                let id = self.approvals.entries[i].0;
                r.push(id);
                proof {
                    crate::maps::lemma_push_contains(prev, r@, id);
                }
            }
            i = i + 1;
        }
        proof {
            assert forall|k: EventId|
                Self::spec_approval_in_policy(self@, k, *policy_id) implies #[trigger] r@.contains(
                k,
            ) by {
                crate::maps::lemma_id_as_map_contains(self.approvals.entries@, k);
                let j = choose|j: int|
                    0 <= j < self.approvals.entries@.len() && self.approvals.entries@[j].0 == k;
                assert(self.approvals.entries@[j].1@ == self@.approvals[k]);
            }
        }
        r
    }

    /// Remove the policy with everything that hangs off it: its proposals,
    /// their approvals, and its completions.
    pub fn delete_policy(&mut self, policy_id: &EventId)
        requires
            old(self).wf(),
        ensures
            final(self).wf(),
            final(self)@.policies == old(self)@.policies.remove(*policy_id),
            forall|k: EventId| #[trigger]
                final(self)@.proposals.contains_key(k) <==> (old(self)@.proposals.contains_key(k)
                    && old(self)@.proposals[k].policy_id != *policy_id),
            forall|k: EventId| #[trigger]
                final(self)@.proposals.contains_key(k) ==> final(self)@.proposals[k] == old(self)@.proposals[k],
            forall|k: EventId| #[trigger]
                final(self)@.approvals.contains_key(k) <==> (old(self)@.approvals.contains_key(k)
                    && !Self::spec_approval_in_policy(old(self)@, k, *policy_id)),
            forall|k: EventId| #[trigger]
                final(self)@.approvals.contains_key(k) ==> final(self)@.approvals[k] == old(self)@.approvals[k],
            forall|k: EventId| #[trigger]
                final(self)@.completed_proposals.contains_key(k) <==> (old(self)@.completed_proposals.contains_key(k) && old(self)@.completed_proposals[k].policy_id
                    != *policy_id),
            forall|k: EventId| #[trigger]
                final(self)@.completed_proposals.contains_key(k) ==> final(self)@.completed_proposals[k] == old(self)@.completed_proposals[k],
            final(self)@.shared_keys == old(self)@.shared_keys,
            final(self)@.signers == old(self)@.signers,
            final(self)@.my_shared_signers == old(self)@.my_shared_signers,
            final(self)@.shared_signers == old(self)@.shared_signers,
            final(self)@.events == old(self)@.events,
            final(self)@.deleted_ids == old(self)@.deleted_ids,
            final(self)@.pending_events == old(self)@.pending_events,
            final(self)@.notifications == old(self)@.notifications,
            final(self)@.contacts == old(self)@.contacts,
            final(self)@.profiles == old(self)@.profiles,
            final(self)@.connect_sessions == old(self)@.connect_sessions,
            final(self)@.connect_requests == old(self)@.connect_requests,
            final(self)@.pre_auth == old(self)@.pre_auth,
            final(self)@.relay_sync == old(self)@.relay_sync,
            final(self)@.sync_queue == old(self)@.sync_queue,
            final(self)@.wallets == old(self)@.wallets,
            final(self)@.block_height == old(self)@.block_height,
    {
        let doomed_approvals = self.approval_ids_in_policy(policy_id);
        let doomed_proposals = self.proposal_ids_of_policy(policy_id);
        let doomed_completed = self.completed_ids_of_policy(policy_id);
        self.approvals.remove_all(&doomed_approvals);
        self.proposals.remove_all(&doomed_proposals);
        self.completed_proposals.remove_all(&doomed_completed);
        self.policies.remove(policy_id);
    }

    /// Store a proposal under the policy it belongs to.
    pub fn save_proposal(&mut self, proposal_id: EventId, policy_id: EventId, proposal: Proposal)
        requires
            old(self).wf(),
        ensures
            final(self).wf(),
            final(self)@ == (StoreV {
                proposals: old(self)@.proposals.insert(
                    proposal_id,
                    ProposalRecordV { policy_id, proposal: proposal@ },
                ),
                ..old(self)@
            }),
    {
        self.proposals.insert(proposal_id, ProposalRecord { policy_id, proposal });
    }

    pub fn proposal_exists(&self, proposal_id: &EventId) -> (r: bool)
        requires
            self.wf(),
        ensures
            r == self@.proposals.contains_key(*proposal_id),
    {
        self.proposals.contains_key(proposal_id)
    }

    /// The proposal and the policy it belongs to, if stored.
    pub fn get_proposal(&self, proposal_id: &EventId) -> (r: Option<(EventId, Proposal)>)
        requires
            self.wf(),
        ensures
            match r {
                Some(p) => self@.proposals.contains_key(*proposal_id) && p.0
                    == self@.proposals[*proposal_id].policy_id && p.1@
                    == self@.proposals[*proposal_id].proposal,
                None => !self@.proposals.contains_key(*proposal_id),
            },
    {
        match self.proposals.get(proposal_id) {
            Some(rec) => Some((rec.policy_id, rec.proposal.duplicate())),
            None => None,
        }
    }

    /// Remove a proposal and its approvals.
    pub fn delete_proposal(&mut self, proposal_id: &EventId)
        requires
            old(self).wf(),
        ensures
            final(self).wf(),
            final(self)@.proposals == old(self)@.proposals.remove(*proposal_id),
            forall|k: EventId| #[trigger]
                final(self)@.approvals.contains_key(k) <==> (old(self)@.approvals.contains_key(k)
                    && old(self)@.approvals[k].proposal_id != *proposal_id),
            forall|k: EventId| #[trigger]
                final(self)@.approvals.contains_key(k) ==> final(self)@.approvals[k] == old(self)@.approvals[k],
            final(self)@.policies == old(self)@.policies,
            final(self)@.shared_keys == old(self)@.shared_keys,
            final(self)@.completed_proposals == old(self)@.completed_proposals,
            final(self)@.signers == old(self)@.signers,
            final(self)@.my_shared_signers == old(self)@.my_shared_signers,
            final(self)@.shared_signers == old(self)@.shared_signers,
            final(self)@.events == old(self)@.events,
            final(self)@.deleted_ids == old(self)@.deleted_ids,
            final(self)@.pending_events == old(self)@.pending_events,
            final(self)@.notifications == old(self)@.notifications,
            final(self)@.contacts == old(self)@.contacts,
            final(self)@.profiles == old(self)@.profiles,
            final(self)@.connect_sessions == old(self)@.connect_sessions,
            final(self)@.connect_requests == old(self)@.connect_requests,
            final(self)@.pre_auth == old(self)@.pre_auth,
            final(self)@.relay_sync == old(self)@.relay_sync,
            final(self)@.sync_queue == old(self)@.sync_queue,
            final(self)@.wallets == old(self)@.wallets,
            final(self)@.block_height == old(self)@.block_height,
    {
        let doomed = self.approval_ids_of_proposal(proposal_id);
        self.approvals.remove_all(&doomed);
        self.proposals.remove(proposal_id);
    }

    /// The ids of the approvals of one proposal.
    pub fn approval_ids_of_proposal(&self, proposal_id: &EventId) -> (r: Vec<EventId>)
        requires
            self.wf(),
        ensures
            forall|k: EventId| #[trigger]
                r@.contains(k) <==> (self@.approvals.contains_key(k)
                    && self@.approvals[k].proposal_id == *proposal_id),
    {
        let es = self.approvals.entries_ref();
        let mut r: Vec<EventId> = Vec::new();
        let mut i: usize = 0;
        while i < es.len()
            invariant
                self.wf(),
                es == &self.approvals.entries,
                i <= es@.len(),
                forall|x: int|
                    0 <= x < es@.len() ==> self@.approvals.contains_key(#[trigger] es@[x].0)
                        && self@.approvals[es@[x].0] == es@[x].1@,
                forall|k: EventId| #[trigger]
                    r@.contains(k) ==> (self@.approvals.contains_key(k)
                        && self@.approvals[k].proposal_id == *proposal_id),
                forall|j: int|
                    0 <= j < i && (#[trigger] es@[j].1).proposal_id == *proposal_id
                        ==> r@.contains(es@[j].0),
            decreases es@.len() - i,
        {
            let ghost prev = r@;
            if self.approvals.entries[i].1.proposal_id == *proposal_id {
                let id = self.approvals.entries[i].0;
                r.push(id);
                proof {
                    crate::maps::lemma_push_contains(prev, r@, id);
                }
            }
            i = i + 1;
        }
        proof {
            assert forall|k: EventId|
                self@.approvals.contains_key(k) && self@.approvals[k].proposal_id
                    == *proposal_id implies #[trigger] r@.contains(k) by {
                crate::maps::lemma_id_as_map_contains(self.approvals.entries@, k);
                let j = choose|j: int|
                    0 <= j < self.approvals.entries@.len() && self.approvals.entries@[j].0 == k;
                assert(self.approvals.entries@[j].1@ == self@.approvals[k]);
            }
        }
        r
    }

    /// Store an approval keyed by its own event id.
    pub fn save_approved_proposal(
        &mut self,
        proposal_id: EventId,
        author: XOnlyPublicKey,
        approval_id: EventId,
        approval: ApprovedProposal,
        timestamp: u64,
    )
        requires
            old(self).wf(),
        ensures
            final(self).wf(),
            final(self)@ == (StoreV {
                approvals: old(self)@.approvals.insert(
                    approval_id,
                    ApprovalRecordV { proposal_id, author, approval: approval@, timestamp },
                ),
                ..old(self)@
            }),
    {
        self.approvals.insert(
            approval_id,
            ApprovalRecord { proposal_id, author, approval, timestamp },
        );
    }

    pub fn approved_proposal_exists(&self, approval_id: &EventId) -> (r: bool)
        requires
            self.wf(),
        ensures
            r == self@.approvals.contains_key(*approval_id),
    {
        self.approvals.contains_key(approval_id)
    }

    /// The proposal an approval belongs to, if the approval is stored.
    pub fn get_approval(&self, approval_id: &EventId) -> (r: Option<(EventId, XOnlyPublicKey, u64)>)
        requires
            self.wf(),
        ensures
            match r {
                Some(p) => self@.approvals.contains_key(*approval_id) && p.0
                    == self@.approvals[*approval_id].proposal_id && p.1
                    == self@.approvals[*approval_id].author && p.2
                    == self@.approvals[*approval_id].timestamp,
                None => !self@.approvals.contains_key(*approval_id),
            },
    {
        match self.approvals.get(approval_id) {
            Some(rec) => Some((rec.proposal_id, rec.author, rec.timestamp)),
            None => None,
        }
    }

    /// Remove one approval.
    pub fn delete_approval(&mut self, approval_id: &EventId)
        requires
            old(self).wf(),
        ensures
            final(self).wf(),
            final(self)@ == (StoreV {
                approvals: old(self)@.approvals.remove(*approval_id),
                ..old(self)@
            }),
    {
        self.approvals.remove(approval_id);
    }

    /// Store a completed proposal under its policy.
    pub fn save_completed_proposal(
        &mut self,
        completed_id: EventId,
        policy_id: EventId,
        completed: CompletedProposal,
    )
        requires
            old(self).wf(),
        ensures
            final(self).wf(),
            final(self)@ == (StoreV {
                completed_proposals: old(self)@.completed_proposals.insert(
                    completed_id,
                    CompletedRecordV { policy_id, completed: completed@ },
                ),
                ..old(self)@
            }),
    {
        self.completed_proposals.insert(completed_id, CompletedRecord { policy_id, completed });
    }

    pub fn completed_proposal_exists(&self, completed_id: &EventId) -> (r: bool)
        requires
            self.wf(),
        ensures
            r == self@.completed_proposals.contains_key(*completed_id),
    {
        self.completed_proposals.contains_key(completed_id)
    }

    /// The completed proposal and its policy, if stored.
    pub fn get_completed_proposal(&self, completed_id: &EventId) -> (r: Option<
        (EventId, CompletedProposal),
    >)
        requires
            self.wf(),
        ensures
            match r {
                Some(p) => self@.completed_proposals.contains_key(*completed_id) && p.0
                    == self@.completed_proposals[*completed_id].policy_id && p.1@
                    == self@.completed_proposals[*completed_id].completed,
                None => !self@.completed_proposals.contains_key(*completed_id),
            },
    {
        match self.completed_proposals.get(completed_id) {
            Some(rec) => Some((rec.policy_id, rec.completed.duplicate())),
            None => None,
        }
    }

    /// Remove one completed proposal.
    pub fn delete_completed_proposal(&mut self, completed_id: &EventId)
        requires
            old(self).wf(),
        ensures
            final(self).wf(),
            final(self)@ == (StoreV {
                completed_proposals: old(self)@.completed_proposals.remove(*completed_id),
                ..old(self)@
            }),
    {
        self.completed_proposals.remove(completed_id);
    }

    /// The stored event with the given id, if any.
    pub fn get_event_by_id(&self, event_id: &EventId) -> (r: Option<Event>)
        requires
            self.wf(),
        ensures
            match r {
                Some(e) => self@.events.contains_key(*event_id) && e@ == self@.events[*event_id],
                None => !self@.events.contains_key(*event_id),
            },
    {
        match self.events.get(event_id) {
            Some(e) => Some(e.duplicate()),
            None => None,
        }
    }
    /// Store a signer keyed by its publishing event.
    pub fn save_signer(&mut self, signer_id: EventId, signer: Signer)
        requires
            old(self).wf(),
        ensures
            final(self).wf(),
            final(self)@ == (StoreV {
                signers: old(self)@.signers.insert(signer_id, signer@),
                ..old(self)@
            }),
    {
        self.signers.insert(signer_id, signer);
    }

    /// The signer with the given id, if stored.
    pub fn get_signer_by_id(&self, signer_id: &EventId) -> (r: Option<Signer>)
        requires
            self.wf(),
        ensures
            match r {
                Some(g) => self@.signers.contains_key(*signer_id) && g@ == self@.signers[*signer_id],
                None => !self@.signers.contains_key(*signer_id),
            },
    {
        match self.signers.get(signer_id) {
            Some(g) => Some(g.duplicate()),
            None => None,
        }
    }

    /// Whether any stored signer already carries this descriptor.
    pub fn signer_descriptor_exists(&self, descriptor: &String) -> (r: bool)
        requires
            self.wf(),
        ensures
            r == exists|k: EventId|
                #![trigger self@.signers[k]]
                self@.signers.contains_key(k) && self@.signers[k].descriptor == descriptor@,
    {
        let es = self.signers.entries_ref();
        let mut i: usize = 0;
        while i < es.len()
            invariant
                self.wf(),
                es == &self.signers.entries,
                i <= es@.len(),
                forall|x: int|
                    0 <= x < es@.len() ==> self@.signers.contains_key(#[trigger] es@[x].0)
                        && self@.signers[es@[x].0] == es@[x].1@,
                forall|j: int| 0 <= j < i ==> (#[trigger] es@[j].1)@.descriptor != descriptor@,
            decreases es@.len() - i,
        {
            if self.signers.entries[i].1.descriptor == *descriptor {
                proof {
                    let k = es@[i as int].0;
                    assert(self@.signers.contains_key(k) && self@.signers[k].descriptor
                        == descriptor@);
                }
                return true;
            }
            i = i + 1;
        }
        proof {
            assert forall|k: EventId|
                self@.signers.contains_key(k) implies #[trigger] self@.signers[k].descriptor
                != descriptor@ by {
                crate::maps::lemma_id_as_map_contains(self.signers.entries@, k);
                let j = choose|j: int|
                    0 <= j < self.signers.entries@.len() && self.signers.entries@[j].0 == k;
                assert(self.signers.entries@[j].1@ == self@.signers[k]);
            }
        }
        false
    }

    /// The ids of the outgoing shares of one signer.
    pub fn my_shared_signer_ids_of_signer(&self, signer_id: &EventId) -> (r: Vec<EventId>)
        requires
            self.wf(),
        ensures
            forall|k: EventId| #[trigger]
                r@.contains(k) <==> (self@.my_shared_signers.contains_key(k)
                    && self@.my_shared_signers[k].signer_id == *signer_id),
    {
        let es = self.my_shared_signers.entries_ref();
        let mut r: Vec<EventId> = Vec::new();
        let mut i: usize = 0;
        while i < es.len()
            invariant
                self.wf(),
                es == &self.my_shared_signers.entries,
                i <= es@.len(),
                forall|x: int|
                    0 <= x < es@.len() ==> self@.my_shared_signers.contains_key(
                        #[trigger] es@[x].0,
                    ) && self@.my_shared_signers[es@[x].0] == es@[x].1@,
                forall|k: EventId| #[trigger]
                    r@.contains(k) ==> (self@.my_shared_signers.contains_key(k)
                        && self@.my_shared_signers[k].signer_id == *signer_id),
                forall|j: int|
                    0 <= j < i && (#[trigger] es@[j].1).signer_id == *signer_id ==> r@.contains(
                        es@[j].0,
                    ),
            decreases es@.len() - i,
        {
            let ghost prev = r@;
            if self.my_shared_signers.entries[i].1.signer_id == *signer_id {
                let id = self.my_shared_signers.entries[i].0;
                r.push(id);
                proof {
                    crate::maps::lemma_push_contains(prev, r@, id);
                }
            }
            i = i + 1;
        }
        proof {
            assert forall|k: EventId|
                self@.my_shared_signers.contains_key(k) && self@.my_shared_signers[k].signer_id
                    == *signer_id implies #[trigger] r@.contains(k) by {
                crate::maps::lemma_id_as_map_contains(self.my_shared_signers.entries@, k);
                let j = choose|j: int|
                    0 <= j < self.my_shared_signers.entries@.len()
                        && self.my_shared_signers.entries@[j].0 == k;
                assert(self.my_shared_signers.entries@[j].1@ == self@.my_shared_signers[k]);
            }
        }
        r
    }

    /// Remove a signer and the records of its outgoing shares.
    pub fn delete_signer(&mut self, signer_id: &EventId)
        requires
            old(self).wf(),
        ensures
            final(self).wf(),
            final(self)@.signers == old(self)@.signers.remove(*signer_id),
            forall|k: EventId| #[trigger]
                final(self)@.my_shared_signers.contains_key(k) <==> (old(self)@.my_shared_signers.contains_key(k) && old(self)@.my_shared_signers[k].signer_id
                    != *signer_id),
            forall|k: EventId| #[trigger]
                final(self)@.my_shared_signers.contains_key(k) ==> final(self)@.my_shared_signers[k] == old(self)@.my_shared_signers[k],
            final(self)@.policies == old(self)@.policies,
            final(self)@.shared_keys == old(self)@.shared_keys,
            final(self)@.proposals == old(self)@.proposals,
            final(self)@.approvals == old(self)@.approvals,
            final(self)@.completed_proposals == old(self)@.completed_proposals,
            final(self)@.shared_signers == old(self)@.shared_signers,
            final(self)@.events == old(self)@.events,
            final(self)@.deleted_ids == old(self)@.deleted_ids,
            final(self)@.pending_events == old(self)@.pending_events,
            final(self)@.notifications == old(self)@.notifications,
            final(self)@.contacts == old(self)@.contacts,
            final(self)@.profiles == old(self)@.profiles,
            final(self)@.connect_sessions == old(self)@.connect_sessions,
            final(self)@.connect_requests == old(self)@.connect_requests,
            final(self)@.pre_auth == old(self)@.pre_auth,
            final(self)@.relay_sync == old(self)@.relay_sync,
            final(self)@.sync_queue == old(self)@.sync_queue,
            final(self)@.wallets == old(self)@.wallets,
            final(self)@.block_height == old(self)@.block_height,
    {
        let doomed = self.my_shared_signer_ids_of_signer(signer_id);
        self.my_shared_signers.remove_all(&doomed);
        self.signers.remove(signer_id);
    }

    /// Record an outgoing share of one of the user's signers.
    pub fn save_my_shared_signer(
        &mut self,
        signer_id: EventId,
        shared_signer_id: EventId,
        public_key: XOnlyPublicKey,
    )
        requires
            old(self).wf(),
        ensures
            final(self).wf(),
            final(self)@ == (StoreV {
                my_shared_signers: old(self)@.my_shared_signers.insert(
                    shared_signer_id,
                    MySharedSignerRecord { signer_id, recipient: public_key },
                ),
                ..old(self)@
            }),
    {
        self.my_shared_signers.insert(
            shared_signer_id,
            MySharedSignerRecord { signer_id, recipient: public_key },
        );
    }

    /// Whether the signer was already shared with the recipient.
    pub fn my_shared_signer_already_shared(
        &self,
        signer_id: &EventId,
        public_key: &XOnlyPublicKey,
    ) -> (r: bool)
        requires
            self.wf(),
        ensures
            r == exists|k: EventId|
                #![trigger self@.my_shared_signers[k]]
                self@.my_shared_signers.contains_key(k) && self@.my_shared_signers[k].signer_id
                    == *signer_id && self@.my_shared_signers[k].recipient == *public_key,
    {
        let es = self.my_shared_signers.entries_ref();
        let mut i: usize = 0;
        while i < es.len()
            invariant
                self.wf(),
                es == &self.my_shared_signers.entries,
                i <= es@.len(),
                forall|x: int|
                    0 <= x < es@.len() ==> self@.my_shared_signers.contains_key(
                        #[trigger] es@[x].0,
                    ) && self@.my_shared_signers[es@[x].0] == es@[x].1@,
                forall|j: int|
                    0 <= j < i ==> !((#[trigger] es@[j].1).signer_id == *signer_id
                        && es@[j].1.recipient == *public_key),
            decreases es@.len() - i,
        {
            let rec = &self.my_shared_signers.entries[i].1;
            if rec.signer_id == *signer_id && rec.recipient == *public_key {
                proof {
                    let k = es@[i as int].0;
                    assert(self@.my_shared_signers.contains_key(k));
                }
                return true;
            }
            i = i + 1;
        }
        proof {
            assert forall|k: EventId|
                self@.my_shared_signers.contains_key(k) implies !(
            #[trigger] self@.my_shared_signers[k].signer_id == *signer_id
                && self@.my_shared_signers[k].recipient == *public_key) by {
                crate::maps::lemma_id_as_map_contains(self.my_shared_signers.entries@, k);
                let j = choose|j: int|
                    0 <= j < self.my_shared_signers.entries@.len()
                        && self.my_shared_signers.entries@[j].0 == k;
                assert(self.my_shared_signers.entries@[j].1@ == self@.my_shared_signers[k]);
            }
        }
        false
    }

    /// The recipient of one outgoing share.
    pub fn get_public_key_for_my_shared_signer(&self, shared_signer_id: &EventId) -> (r: Option<
        XOnlyPublicKey,
    >)
        requires
            self.wf(),
        ensures
            match r {
                Some(pk) => self@.my_shared_signers.contains_key(*shared_signer_id) && pk
                    == self@.my_shared_signers[*shared_signer_id].recipient,
                None => !self@.my_shared_signers.contains_key(*shared_signer_id),
            },
    {
        match self.my_shared_signers.get(shared_signer_id) {
            Some(rec) => Some(rec.recipient),
            None => None,
        }
    }

    /// Remove a share record, outgoing and incoming alike.
    pub fn delete_shared_signer(&mut self, shared_signer_id: &EventId)
        requires
            old(self).wf(),
        ensures
            final(self).wf(),
            final(self)@ == (StoreV {
                my_shared_signers: old(self)@.my_shared_signers.remove(*shared_signer_id),
                shared_signers: old(self)@.shared_signers.remove(*shared_signer_id),
                ..old(self)@
            }),
    {
        self.my_shared_signers.remove(shared_signer_id);
        self.shared_signers.remove(shared_signer_id);
    }

    /// Store a signer someone shared with this user.
    pub fn save_shared_signer(
        &mut self,
        shared_signer_id: EventId,
        owner: XOnlyPublicKey,
        shared_signer: SharedSigner,
    )
        requires
            old(self).wf(),
        ensures
            final(self).wf(),
            final(self)@ == (StoreV {
                shared_signers: old(self)@.shared_signers.insert(
                    shared_signer_id,
                    SharedSignerRecordV { owner, shared_signer: shared_signer@ },
                ),
                ..old(self)@
            }),
    {
        self.shared_signers.insert(shared_signer_id, SharedSignerRecord { owner, shared_signer });
    }

    /// Add one contact.
    pub fn save_contact(&mut self, public_key: XOnlyPublicKey)
        requires
            old(self).wf(),
        ensures
            final(self).wf(),
            final(self)@ == (StoreV {
                contacts: old(self)@.contacts.insert(public_key),
                ..old(self)@
            }),
    {
        self.contacts.insert(public_key);
    }

    /// Replace the whole contact set.
    pub fn save_contacts(&mut self, public_keys: &Vec<XOnlyPublicKey>)
        requires
            old(self).wf(),
        ensures
            final(self).wf(),
            forall|pk: XOnlyPublicKey| #[trigger]
                final(self)@.contacts.contains(pk) <==> public_keys@.contains(pk),
            final(self)@.policies == old(self)@.policies,
            final(self)@.shared_keys == old(self)@.shared_keys,
            final(self)@.proposals == old(self)@.proposals,
            final(self)@.approvals == old(self)@.approvals,
            final(self)@.completed_proposals == old(self)@.completed_proposals,
            final(self)@.signers == old(self)@.signers,
            final(self)@.my_shared_signers == old(self)@.my_shared_signers,
            final(self)@.shared_signers == old(self)@.shared_signers,
            final(self)@.events == old(self)@.events,
            final(self)@.deleted_ids == old(self)@.deleted_ids,
            final(self)@.pending_events == old(self)@.pending_events,
            final(self)@.notifications == old(self)@.notifications,
            final(self)@.profiles == old(self)@.profiles,
            final(self)@.connect_sessions == old(self)@.connect_sessions,
            final(self)@.connect_requests == old(self)@.connect_requests,
            final(self)@.pre_auth == old(self)@.pre_auth,
            final(self)@.relay_sync == old(self)@.relay_sync,
            final(self)@.sync_queue == old(self)@.sync_queue,
            final(self)@.wallets == old(self)@.wallets,
            final(self)@.block_height == old(self)@.block_height,
    {
        self.contacts = PkSet::new();
        let mut i: usize = 0;
        while i < public_keys.len()
            invariant
                self.wf(),
                i <= public_keys@.len(),
                forall|pk: XOnlyPublicKey| #[trigger]
                    self@.contacts.contains(pk) <==> public_keys@.take(i as int).contains(pk),
                self@.policies == old(self)@.policies,
                self@.shared_keys == old(self)@.shared_keys,
                self@.proposals == old(self)@.proposals,
                self@.approvals == old(self)@.approvals,
                self@.completed_proposals == old(self)@.completed_proposals,
                self@.signers == old(self)@.signers,
                self@.my_shared_signers == old(self)@.my_shared_signers,
                self@.shared_signers == old(self)@.shared_signers,
                self@.events == old(self)@.events,
                self@.deleted_ids == old(self)@.deleted_ids,
                self@.pending_events == old(self)@.pending_events,
                self@.notifications == old(self)@.notifications,
                self@.profiles == old(self)@.profiles,
                self@.connect_sessions == old(self)@.connect_sessions,
                self@.connect_requests == old(self)@.connect_requests,
                self@.pre_auth == old(self)@.pre_auth,
                self@.relay_sync == old(self)@.relay_sync,
                self@.sync_queue == old(self)@.sync_queue,
                self@.wallets == old(self)@.wallets,
                self@.block_height == old(self)@.block_height,
            decreases public_keys@.len() - i,
        {
            let ghost pre = self@.contacts;
            self.contacts.insert(public_keys[i]);
            proof {
                assert(self@.contacts == pre.insert(public_keys@[i as int]));
                assert(public_keys@.take(i + 1).drop_last() =~= public_keys@.take(i as int));
                assert forall|pk: XOnlyPublicKey| #[trigger]
                    self@.contacts.contains(pk) <==> public_keys@.take(i + 1).contains(pk) by {
                    assert(public_keys@.take(i + 1)[i as int] == public_keys@[i as int]);
                    if public_keys@.take(i + 1).contains(pk) {
                        let x = choose|x: int|
                            0 <= x < i + 1 && #[trigger] public_keys@.take(i + 1)[x] == pk;
                        if x < i {
                            assert(public_keys@.take(i as int)[x] == pk);
                        }
                    }
                    if public_keys@.take(i as int).contains(pk) {
                        let x = choose|x: int|
                            0 <= x < i && #[trigger] public_keys@.take(i as int)[x] == pk;
                        assert(public_keys@.take(i + 1)[x] == pk);
                    }
                }
            }
            i = i + 1;
        }
        proof {
            assert(public_keys@.take(public_keys@.len() as int) =~= public_keys@);
        }
    }

    /// Remove one contact.
    pub fn delete_contact(&mut self, public_key: &XOnlyPublicKey)
        requires
            old(self).wf(),
        ensures
            final(self).wf(),
            final(self)@ == (StoreV {
                contacts: old(self)@.contacts.remove(*public_key),
                ..old(self)@
            }),
    {
        self.contacts.remove(public_key);
    }

    /// Upsert a user profile.
    pub fn set_metadata(&mut self, public_key: XOnlyPublicKey, profile: Profile)
        requires
            old(self).wf(),
        ensures
            final(self).wf(),
            final(self)@ == (StoreV {
                profiles: old(self)@.profiles.insert(public_key, profile@),
                ..old(self)@
            }),
    {
        self.profiles.insert(public_key, profile);
    }

    /// The stored profile of a user, if any.
    pub fn get_metadata(&self, public_key: &XOnlyPublicKey) -> (r: Option<Profile>)
        requires
            self.wf(),
        ensures
            match r {
                Some(p) => self@.profiles.contains_key(*public_key) && p@ == self@.profiles[*public_key],
                None => !self@.profiles.contains_key(*public_key),
            },
    {
        match self.profiles.get(public_key) {
            Some(p) => Some(Profile { content: p.content.clone() }),
            None => None,
        }
    }

    /// The contacts whose profile is not yet known.
    pub fn get_unsynced_metadata_pubkeys(&self) -> (r: Vec<XOnlyPublicKey>)
        requires
            self.wf(),
        ensures
            forall|pk: XOnlyPublicKey| #[trigger]
                r@.contains(pk) <==> (self@.contacts.contains(pk) && !self@.profiles.contains_key(
                    pk,
                )),
    {
        let items = self.contacts.items_ref();
        let mut r: Vec<XOnlyPublicKey> = Vec::new();
        let mut i: usize = 0;
        while i < items.len()
            invariant
                self.wf(),
                items == &self.contacts.items,
                i <= items@.len(),
                forall|x: int| 0 <= x < items@.len() ==> self@.contacts.contains(
                    #[trigger] items@[x],
                ),
                forall|pk: XOnlyPublicKey| #[trigger]
                    r@.contains(pk) ==> (self@.contacts.contains(pk)
                        && !self@.profiles.contains_key(pk)),
                forall|j: int|
                    0 <= j < i && !self@.profiles.contains_key(#[trigger] items@[j])
                        ==> r@.contains(items@[j]),
            decreases items@.len() - i,
        {
            let ghost prev = r@;
            let pk = self.contacts.items[i];
            if !self.profiles.contains_key(&pk) {
                r.push(pk);
                proof {
                    crate::maps::lemma_push_contains(prev, r@, pk);
                }
            }
            i = i + 1;
        }
        proof {
            assert forall|pk: XOnlyPublicKey|
                self@.contacts.contains(pk) && !self@.profiles.contains_key(
                    pk,
                ) implies #[trigger] r@.contains(pk) by {
                crate::maps::lemma_pks_as_set_contains(self.contacts.items@, pk);
            }
        }
        r
    }

    /// Record a notification, not yet seen.
    pub fn save_notification(&mut self, event_id: EventId, notification: Notification, now: u64)
        requires
            old(self).wf(),
        ensures
            final(self).wf(),
            final(self)@ == (StoreV {
                notifications: old(self)@.notifications.insert(
                    event_id,
                    NotificationRecord { notification, timestamp: now, seen: false },
                ),
                ..old(self)@
            }),
    {
        self.notifications.insert(
            event_id,
            NotificationRecord { notification, timestamp: now, seen: false },
        );
    }

    /// How many notifications have not been seen.
    pub fn count_unseen_notifications(&self) -> (r: usize)
        requires
            self.wf(),
        ensures
            r == count_unseen(self.notifications.entries@),
    {
        let mut n: usize = 0;
        let mut i: usize = 0;
        while i < self.notifications.entries.len()
            invariant
                i <= self.notifications.entries@.len(),
                n == count_unseen(self.notifications.entries@.take(i as int)),
                n <= i,
            decreases self.notifications.entries@.len() - i,
        {
            proof {
                assert(self.notifications.entries@.take(i + 1).drop_last()
                    =~= self.notifications.entries@.take(i as int));
            }
            if !self.notifications.entries[i].1.seen {
                n = n + 1;
            }
            i = i + 1;
        }
        proof {
            assert(self.notifications.entries@.take(self.notifications.entries@.len() as int)
                =~= self.notifications.entries@);
        }
        n
    }

    /// Mark one notification as seen.
    pub fn mark_notification_as_seen_by_id(&mut self, event_id: &EventId)
        requires
            old(self).wf(),
        ensures
            final(self).wf(),
            old(self)@.notifications.contains_key(*event_id) ==> final(self)@ == (StoreV {
                notifications: old(self)@.notifications.insert(
                    *event_id,
                    NotificationRecord {
                        seen: true,
                        ..old(self)@.notifications[*event_id]
                    },
                ),
                ..old(self)@
            }),
            !old(self)@.notifications.contains_key(*event_id) ==> final(self)@ == old(self)@,
    {
        let rec = match self.notifications.get(event_id) {
            Some(rec) => *rec,
            None => {
                return ;
            },
        };
        self.notifications.insert(
            *event_id,
            NotificationRecord { seen: true, ..rec },
        );
    }

    /// Mark every notification as seen.
    pub fn mark_all_notifications_as_seen(&mut self)
        requires
            old(self).wf(),
        ensures
            final(self).wf(),
            forall|k: EventId| #[trigger]
                final(self)@.notifications.contains_key(k) == old(self)@.notifications.contains_key(k),
            forall|k: EventId| #[trigger]
                final(self)@.notifications.contains_key(k) ==> final(self)@.notifications[k]
                    == (NotificationRecord { seen: true, ..old(self)@.notifications[k] }),
            final(self)@.policies == old(self)@.policies,
            final(self)@.shared_keys == old(self)@.shared_keys,
            final(self)@.proposals == old(self)@.proposals,
            final(self)@.approvals == old(self)@.approvals,
            final(self)@.completed_proposals == old(self)@.completed_proposals,
            final(self)@.signers == old(self)@.signers,
            final(self)@.my_shared_signers == old(self)@.my_shared_signers,
            final(self)@.shared_signers == old(self)@.shared_signers,
            final(self)@.events == old(self)@.events,
            final(self)@.deleted_ids == old(self)@.deleted_ids,
            final(self)@.pending_events == old(self)@.pending_events,
            final(self)@.contacts == old(self)@.contacts,
            final(self)@.profiles == old(self)@.profiles,
            final(self)@.connect_sessions == old(self)@.connect_sessions,
            final(self)@.connect_requests == old(self)@.connect_requests,
            final(self)@.pre_auth == old(self)@.pre_auth,
            final(self)@.relay_sync == old(self)@.relay_sync,
            final(self)@.sync_queue == old(self)@.sync_queue,
            final(self)@.wallets == old(self)@.wallets,
            final(self)@.block_height == old(self)@.block_height,
    {
        let ids = self.notification_ids();
        let mut j: usize = 0;
        while j < ids.len()
            invariant
                self.wf(),
                j <= ids@.len(),
                forall|k: EventId| #[trigger] ids@.contains(k) <==> old(self)@.notifications.contains_key(k),
                forall|k: EventId| #[trigger]
                    self@.notifications.contains_key(k) == old(self)@.notifications.contains_key(
                        k,
                    ),
                forall|k: EventId| #[trigger]
                    self@.notifications.contains_key(k) ==> (self@.notifications[k] == old(self)@.notifications[k] || self@.notifications[k] == (NotificationRecord {
                        seen: true,
                        ..old(self)@.notifications[k]
                    })),
                forall|x: int|
                    0 <= x < j ==> self@.notifications.contains_key(#[trigger] ids@[x])
                        && self@.notifications[ids@[x]] == (NotificationRecord {
                        seen: true,
                        ..old(self)@.notifications[ids@[x]]
                    }),
                self@.policies == old(self)@.policies,
                self@.shared_keys == old(self)@.shared_keys,
                self@.proposals == old(self)@.proposals,
                self@.approvals == old(self)@.approvals,
                self@.completed_proposals == old(self)@.completed_proposals,
                self@.signers == old(self)@.signers,
                self@.my_shared_signers == old(self)@.my_shared_signers,
                self@.shared_signers == old(self)@.shared_signers,
                self@.events == old(self)@.events,
                self@.deleted_ids == old(self)@.deleted_ids,
                self@.pending_events == old(self)@.pending_events,
                self@.contacts == old(self)@.contacts,
                self@.profiles == old(self)@.profiles,
                self@.connect_sessions == old(self)@.connect_sessions,
                self@.connect_requests == old(self)@.connect_requests,
                self@.pre_auth == old(self)@.pre_auth,
                self@.relay_sync == old(self)@.relay_sync,
                self@.sync_queue == old(self)@.sync_queue,
                self@.wallets == old(self)@.wallets,
                self@.block_height == old(self)@.block_height,
            decreases ids@.len() - j,
        {
            let id = ids[j];
            proof {
                assert(ids@.contains(ids@[j as int]));
            }
            let rec = match self.notifications.get(&id) {
                Some(rec) => *rec,
                None => {
                    proof {
                        assert(false);
                    }
                    return ;
                },
            };
            let marked = NotificationRecord { seen: true, ..rec };
            self.notifications.insert(id, marked);
            j = j + 1;
        }
        proof {
            assert forall|k: EventId|
                #[trigger] final(self)@.notifications.contains_key(k) implies final(
            self)@.notifications[k] == (NotificationRecord {
                seen: true,
                ..old(self)@.notifications[k]
            }) by {
                assert(ids@.contains(k));
                let x = choose|x: int| 0 <= x < ids@.len() && #[trigger] ids@[x] == k;
            }
        }
    }

    /// The ids of all stored notifications.
    pub fn notification_ids(&self) -> (r: Vec<EventId>)
        requires
            self.wf(),
        ensures
            forall|k: EventId| #[trigger]
                r@.contains(k) <==> self@.notifications.contains_key(k),
    {
        let es = self.notifications.entries_ref();
        let mut r: Vec<EventId> = Vec::new();
        let mut i: usize = 0;
        while i < es.len()
            invariant
                self.wf(),
                es == &self.notifications.entries,
                i <= es@.len(),
                forall|x: int|
                    0 <= x < es@.len() ==> self@.notifications.contains_key(#[trigger] es@[x].0),
                forall|k: EventId| #[trigger]
                    r@.contains(k) ==> self@.notifications.contains_key(k),
                forall|j: int| 0 <= j < i ==> r@.contains(#[trigger] es@[j].0),
            decreases es@.len() - i,
        {
            let ghost prev = r@;
            let id = self.notifications.entries[i].0;
            r.push(id);
            proof {
                crate::maps::lemma_push_contains(prev, r@, id);
            }
            i = i + 1;
        }
        proof {
            assert forall|k: EventId|
                self@.notifications.contains_key(k) implies #[trigger] r@.contains(k) by {
                crate::maps::lemma_id_as_map_contains(self.notifications.entries@, k);
                let j = choose|j: int|
                    0 <= j < self.notifications.entries@.len()
                        && self.notifications.entries@[j].0 == k;
            }
        }
        r
    }

    /// Forget every notification.
    pub fn delete_all_notifications(&mut self)
        requires
            old(self).wf(),
        ensures
            final(self).wf(),
            final(self)@ == (StoreV {
                notifications: Map::<EventId, NotificationRecord>::empty(),
                ..old(self)@
            }),
    {
        self.notifications = IdMap::new();
    }

    /// The approvals of one proposal, with their records.
    pub fn get_approvals_by_proposal_id(&self, proposal_id: &EventId) -> (r: Vec<
        (EventId, ApprovalRecord),
    >)
        requires
            self.wf(),
        ensures
            forall|x: int|
                0 <= x < r@.len() ==> self@.approvals.contains_key(#[trigger] r@[x].0)
                    && self@.approvals[r@[x].0] == r@[x].1@ && r@[x].1@.proposal_id
                    == *proposal_id,
            forall|k: EventId|
                self@.approvals.contains_key(k) && (#[trigger] self@.approvals[k]).proposal_id
                    == *proposal_id ==> exists|x: int| 0 <= x < r@.len() && r@[x].0 == k,
    {
        let es = self.approvals.entries_ref();
        let mut r: Vec<(EventId, ApprovalRecord)> = Vec::new();
        let mut i: usize = 0;
        while i < es.len()
            invariant
                self.wf(),
                es == &self.approvals.entries,
                i <= es@.len(),
                forall|x: int|
                    0 <= x < es@.len() ==> self@.approvals.contains_key(#[trigger] es@[x].0)
                        && self@.approvals[es@[x].0] == es@[x].1@,
                forall|x: int|
                    0 <= x < r@.len() ==> self@.approvals.contains_key(#[trigger] r@[x].0)
                        && self@.approvals[r@[x].0] == r@[x].1@ && r@[x].1@.proposal_id
                        == *proposal_id,
                forall|j: int|
                    0 <= j < i && (#[trigger] es@[j].1).proposal_id == *proposal_id ==> exists|
                        x: int,
                    | 0 <= x < r@.len() && r@[x].0 == es@[j].0,
            decreases es@.len() - i,
        {
            let ghost prev_r = r@;
            let rec = &self.approvals.entries[i].1;
            if rec.proposal_id == *proposal_id {
                let id = self.approvals.entries[i].0;
                let copy = ApprovalRecord {
                    proposal_id: rec.proposal_id,
                    author: rec.author,
                    approval: rec.approval.duplicate(),
                    timestamp: rec.timestamp,
                };
                let ghost prev_len = r@.len() as int;
                proof {
                    assert(copy@ == self.approvals.entries@[i as int].1@);
                }
                r.push((id, copy));
                proof {
                    assert(r@[prev_len].0 == id);
                    assert(r@[prev_len].1@ == self.approvals.entries@[i as int].1@);
                }
            }
            proof {
                assert forall|x: int|
                    0 <= x < r@.len() implies self@.approvals.contains_key(#[trigger] r@[x].0)
                    && self@.approvals[r@[x].0] == r@[x].1@ && r@[x].1@.proposal_id
                    == *proposal_id by {
                    if x < prev_r.len() {
                        assert(r@[x] == prev_r[x]);
                    }
                }
                assert forall|j: int|
                    0 <= j < i + 1 && (#[trigger] es@[j].1).proposal_id
                        == *proposal_id implies exists|x: int|
                    0 <= x < r@.len() && r@[x].0 == es@[j].0 by {
                    if j < i {
                        let x = choose|x: int| 0 <= x < prev_r.len() && prev_r[x].0 == es@[j].0;
                        assert(r@[x].0 == es@[j].0);
                    } else {
                        assert(r@[r@.len() - 1].0 == es@[j].0);
                    }
                }
            }
            i = i + 1;
        }
        proof {
            assert forall|k: EventId|
                self@.approvals.contains_key(k) && (#[trigger] self@.approvals[k]).proposal_id
                    == *proposal_id implies exists|x: int| 0 <= x < r@.len() && r@[x].0 == k by {
                crate::maps::lemma_id_as_map_contains(self.approvals.entries@, k);
                let j = choose|j: int|
                    0 <= j < self.approvals.entries@.len() && self.approvals.entries@[j].0 == k;
                assert(self.approvals.entries@[j].1@ == self@.approvals[k]);
            }
        }
        r
    }

    /// Record a delegated-signing session, keyed by the app's key.
    pub fn save_nostr_connect_uri(&mut self, session: ConnectSession)
        requires
            old(self).wf(),
        ensures
            final(self).wf(),
            final(self)@ == (StoreV {
                connect_sessions: old(self)@.connect_sessions.insert(
                    session.app_public_key,
                    session@,
                ),
                ..old(self)@
            }),
    {
        let pk = session.app_public_key;
        self.connect_sessions.insert(pk, session);
    }

    pub fn nostr_connect_session_exists(&self, app_public_key: &XOnlyPublicKey) -> (r: bool)
        requires
            self.wf(),
        ensures
            r == self@.connect_sessions.contains_key(*app_public_key),
    {
        self.connect_sessions.contains_key(app_public_key)
    }

    /// The session opened with an app, if any.
    pub fn get_nostr_connect_session(&self, app_public_key: &XOnlyPublicKey) -> (r: Option<
        ConnectSession,
    >)
        requires
            self.wf(),
        ensures
            match r {
                Some(c) => self@.connect_sessions.contains_key(*app_public_key) && c@
                    == self@.connect_sessions[*app_public_key],
                None => !self@.connect_sessions.contains_key(*app_public_key),
            },
    {
        match self.connect_sessions.get(app_public_key) {
            Some(c) => Some(
                ConnectSession {
                    app_public_key: c.app_public_key,
                    relay_url: c.relay_url.clone(),
                    app_name: c.app_name.clone(),
                    created_at: c.created_at,
                },
            ),
            None => None,
        }
    }

    /// Forget the session with an app.
    pub fn delete_nostr_connect_session(&mut self, app_public_key: &XOnlyPublicKey)
        requires
            old(self).wf(),
        ensures
            final(self).wf(),
            final(self)@ == (StoreV {
                connect_sessions: old(self)@.connect_sessions.remove(*app_public_key),
                ..old(self)@
            }),
    {
        self.connect_sessions.remove(app_public_key);
    }

    /// The relay address of every open session, in session order.
    pub fn get_nostr_connect_sessions_relays(&self) -> (r: Vec<String>)
        requires
            self.wf(),
        ensures
            str_views(r@) == session_relay_views(self.connect_sessions.entries@),
    {
        let mut r: Vec<String> = Vec::new();
        let mut i: usize = 0;
        while i < self.connect_sessions.entries.len()
            invariant
                i <= self.connect_sessions.entries@.len(),
                str_views(r@) == session_relay_views(
                    self.connect_sessions.entries@.take(i as int),
                ),
            decreases self.connect_sessions.entries@.len() - i,
        {
            let ghost prev = r@;
            r.push(self.connect_sessions.entries[i].1.relay_url.clone());
            proof {
                let es = self.connect_sessions.entries@;
                assert(event_len_helper(prev, es, i as int));
                assert forall|x: int| 0 <= x <= i implies str_views(r@)[x] == session_relay_views(
                    es.take(i + 1),
                )[x] by {
                    assert(es.take(i + 1)[x] == es[x]);
                    if x < i {
                        assert(str_views(prev)[x] == session_relay_views(es.take(i as int))[x]);
                        assert(es.take(i as int)[x] == es[x]);
                        assert(r@[x] == prev[x]);
                    } else {
                        assert(r@[x]@ == es[i as int].1.relay_url@);
                    }
                }
                assert(str_views(r@) =~= session_relay_views(es.take(i + 1)));
            }
            i = i + 1;
        }
        proof {
            assert(self.connect_sessions.entries@.take(self.connect_sessions.entries@.len() as int)
                =~= self.connect_sessions.entries@);
        }
        r
    }

    /// Store a remote-signing request, not yet approved.
    pub fn save_nostr_connect_request(
        &mut self,
        event_id: EventId,
        app_public_key: XOnlyPublicKey,
        message: ConnectMessage,
        now: u64,
    )
        requires
            old(self).wf(),
        ensures
            final(self).wf(),
            final(self)@ == (StoreV {
                connect_requests: old(self)@.connect_requests.insert(
                    event_id,
                    ConnectRequestV {
                        app_public_key,
                        message: message@,
                        timestamp: now,
                        approved: false,
                    },
                ),
                ..old(self)@
            }),
    {
        self.connect_requests.insert(
            event_id,
            ConnectRequest { app_public_key, message, timestamp: now, approved: false },
        );
    }

    /// The stored remote-signing request with this id, if any.
    pub fn get_nostr_connect_request(&self, event_id: &EventId) -> (r: Option<ConnectRequest>)
        requires
            self.wf(),
        ensures
            match r {
                Some(c) => self@.connect_requests.contains_key(*event_id) && c@
                    == self@.connect_requests[*event_id],
                None => !self@.connect_requests.contains_key(*event_id),
            },
    {
        match self.connect_requests.get(event_id) {
            Some(c) => Some(
                ConnectRequest {
                    app_public_key: c.app_public_key,
                    message: ConnectMessage {
                        id: c.message.id.clone(),
                        method: c.message.method,
                        raw: c.message.raw.clone(),
                    },
                    timestamp: c.timestamp,
                    approved: c.approved,
                },
            ),
            None => None,
        }
    }

    /// Mark a stored request as answered.
    pub fn set_nostr_connect_request_as_approved(&mut self, event_id: &EventId)
        requires
            old(self).wf(),
        ensures
            final(self).wf(),
            old(self)@.connect_requests.contains_key(*event_id) ==> final(self)@ == (StoreV {
                connect_requests: old(self)@.connect_requests.insert(
                    *event_id,
                    ConnectRequestV { approved: true, ..old(self)@.connect_requests[*event_id] },
                ),
                ..old(self)@
            }),
            !old(self)@.connect_requests.contains_key(*event_id) ==> final(self)@ == old(self)@,
    {
        let req = match self.connect_requests.get(event_id) {
            Some(c) => ConnectRequest {
                app_public_key: c.app_public_key,
                message: ConnectMessage {
                    id: c.message.id.clone(),
                    method: c.message.method,
                    raw: c.message.raw.clone(),
                },
                timestamp: c.timestamp,
                approved: true,
            },
            None => {
                return ;
            },
        };
        self.connect_requests.insert(*event_id, req);
    }

    /// Forget a stored request.
    pub fn delete_nostr_connect_request(&mut self, event_id: &EventId)
        requires
            old(self).wf(),
        ensures
            final(self).wf(),
            final(self)@ == (StoreV {
                connect_requests: old(self)@.connect_requests.remove(*event_id),
                ..old(self)@
            }),
    {
        self.connect_requests.remove(event_id);
    }

    /// The stored requests with the given answered-flag.
    #[verifier::rlimit(50)]
    #[verifier::spinoff_prover]
    pub fn get_nostr_connect_requests(&self, approved: bool) -> (r: Vec<(EventId, ConnectRequest)>)
        requires
            self.wf(),
        ensures
            forall|x: int|
                #![trigger r@[x]]
                0 <= x < r@.len() ==> self@.connect_requests.contains_key(r@[x].0)
                    && self@.connect_requests[r@[x].0] == r@[x].1@ && r@[x].1@.approved
                    == approved,
            forall|k: EventId|
                self@.connect_requests.contains_key(k) && (#[trigger] self@.connect_requests[k]).approved
                    == approved ==> exists|x: int| 0 <= x < r@.len() && r@[x].0 == k,
    {
        let es = self.connect_requests.entries_ref();
        let mut r: Vec<(EventId, ConnectRequest)> = Vec::new();
        let mut i: usize = 0;
        while i < es.len()
            invariant
                self.wf(),
                es == &self.connect_requests.entries,
                i <= es@.len(),
                forall|x: int|
                    0 <= x < es@.len() ==> self@.connect_requests.contains_key(
                        #[trigger] es@[x].0,
                    ) && self@.connect_requests[es@[x].0] == es@[x].1@,
                forall|x: int|
                    #![trigger r@[x]]
                    0 <= x < r@.len() ==> self@.connect_requests.contains_key(r@[x].0)
                        && self@.connect_requests[r@[x].0] == r@[x].1@ && r@[x].1@.approved
                        == approved,
                forall|j: int|
                    0 <= j < i && (#[trigger] es@[j].1).approved == approved ==> exists|x: int|
                        0 <= x < r@.len() && r@[x].0 == es@[j].0,
            decreases es@.len() - i,
        {
            let ghost prev_r = r@;
            let c = &self.connect_requests.entries[i].1;
            if c.approved == approved {
                let id = self.connect_requests.entries[i].0;
                let copy = ConnectRequest {
                    app_public_key: c.app_public_key,
                    message: ConnectMessage {
                        id: c.message.id.clone(),
                        method: c.message.method,
                        raw: c.message.raw.clone(),
                    },
                    timestamp: c.timestamp,
                    approved: c.approved,
                };
                let ghost prev_len = r@.len() as int;
                proof {
                    assert(copy@ == self.connect_requests.entries@[i as int].1@);
                }
                r.push((id, copy));
                proof {
                    assert(r@[prev_len].0 == id);
                    assert(r@[prev_len].1@ == self.connect_requests.entries@[i as int].1@);
                }
            }
            proof {
                assert forall|x: int|
                    #![trigger r@[x]]
                    0 <= x < r@.len() implies self@.connect_requests.contains_key(r@[x].0)
                    && self@.connect_requests[r@[x].0] == r@[x].1@ && r@[x].1@.approved
                    == approved by {
                    if x < prev_r.len() {
                        assert(r@[x] == prev_r[x]);
                    } else {
                        assert(r@[x].0 == es@[i as int].0);
                        assert(r@[x].1@ == es@[i as int].1@);
                        assert(self@.connect_requests.contains_key(es@[i as int].0));
                        assert(es@[i as int].1@.approved == es@[i as int].1.approved);
                    }
                }
                assert forall|j: int|
                    0 <= j < i + 1 && (#[trigger] es@[j].1).approved == approved implies exists|
                    x: int,
                |
                    0 <= x < r@.len() && r@[x].0 == es@[j].0 by {
                    if j < i {
                        let x = choose|x: int| 0 <= x < prev_r.len() && prev_r[x].0 == es@[j].0;
                        assert(r@[x].0 == es@[j].0);
                    } else {
                        assert(r@[r@.len() - 1].0 == es@[j].0);
                    }
                }
            }
            i = i + 1;
        }
        proof {
            assert forall|k: EventId|
                self@.connect_requests.contains_key(k) && (
            #[trigger] self@.connect_requests[k]).approved == approved implies exists|x: int|
                0 <= x < r@.len() && r@[x].0 == k by {
                crate::maps::lemma_id_as_map_contains(self.connect_requests.entries@, k);
                let j = choose|j: int|
                    0 <= j < self.connect_requests.entries@.len()
                        && self.connect_requests.entries@[j].0 == k;
                assert(self.connect_requests.entries@[j].1@ == self@.connect_requests[k]);
            }
        }
        r
    }

    /// Whether the app's pre-authorization window is still open.
    pub fn is_nostr_connect_session_pre_authorized(
        &self,
        app_public_key: &XOnlyPublicKey,
        now: u64,
    ) -> (r: bool)
        requires
            self.wf(),
        ensures
            r == (self@.pre_auth.contains_key(*app_public_key) && now
                < self@.pre_auth[*app_public_key]),
    {
        match self.pre_auth.get(app_public_key) {
            Some(until) => now < *until,
            None => false,
        }
    }

    /// Let the app's requests be answered without asking until `until`.
    pub fn set_nostr_connect_auto_approve(&mut self, app_public_key: XOnlyPublicKey, until: u64)
        requires
            old(self).wf(),
        ensures
            final(self).wf(),
            final(self)@ == (StoreV {
                pre_auth: old(self)@.pre_auth.insert(app_public_key, until),
                ..old(self)@
            }),
    {
        self.pre_auth.insert(app_public_key, until);
    }

    /// Close the app's pre-authorization window.
    pub fn revoke_nostr_connect_auto_approve(&mut self, app_public_key: &XOnlyPublicKey)
        requires
            old(self).wf(),
        ensures
            final(self).wf(),
            final(self)@ == (StoreV {
                pre_auth: old(self)@.pre_auth.remove(*app_public_key),
                ..old(self)@
            }),
    {
        self.pre_auth.remove(app_public_key);
    }

    /// When the relay was last fully synchronized, if ever.
    pub fn get_last_relay_sync(&self, relay_url: &String) -> (r: Option<u64>)
        requires
            self.wf(),
        ensures
            match r {
                Some(t) => self@.relay_sync.contains_key(relay_url@) && t
                    == self@.relay_sync[relay_url@],
                None => !self@.relay_sync.contains_key(relay_url@),
            },
    {
        match self.relay_sync.get(relay_url) {
            Some(t) => Some(*t),
            None => None,
        }
    }

    /// Record when the relay was last fully synchronized.
    pub fn save_last_relay_sync(&mut self, relay_url: String, timestamp: u64)
        requires
            old(self).wf(),
        ensures
            final(self).wf(),
            final(self)@ == (StoreV {
                relay_sync: old(self)@.relay_sync.insert(relay_url@, timestamp),
                ..old(self)@
            }),
    {
        let ghost k = relay_url@;
        self.relay_sync.insert(relay_url, timestamp);
    }

    /// Mark a policy's wallet for on-chain resynchronization.
    pub fn schedule_for_sync(&mut self, policy_id: EventId)
        requires
            old(self).wf(),
        ensures
            final(self).wf(),
            final(self)@ == (StoreV {
                sync_queue: old(self)@.sync_queue.insert(policy_id),
                ..old(self)@
            }),
    {
        self.sync_queue.insert(policy_id);
    }

    /// Take every policy marked for resynchronization, clearing the marks.
    pub fn take_sync_queue(&mut self) -> (r: Vec<EventId>)
        requires
            old(self).wf(),
        ensures
            final(self).wf(),
            final(self)@ == (StoreV { sync_queue: Set::<EventId>::empty(), ..old(self)@ }),
            r@ == old(self).sync_queue.items@,
    {
        let mut taken: IdSet = IdSet::new();
        core::mem::swap(&mut taken, &mut self.sync_queue);
        proof {
            assert(self.sync_queue@ =~= Set::<EventId>::empty());
        }
        taken.items
    }

    /// Replace the cached on-chain state of one policy's wallet.
    pub fn update_wallet_snapshot(&mut self, policy_id: EventId, snapshot: WalletSnapshot)
        requires
            old(self).wf(),
        ensures
            final(self).wf(),
            final(self)@ == (StoreV {
                wallets: old(self)@.wallets.insert(policy_id, snapshot@),
                ..old(self)@
            }),
    {
        self.wallets.insert(policy_id, snapshot);
    }

    /// The cached balance of one policy's wallet.
    pub fn get_balance(&self, policy_id: &EventId) -> (r: Option<Balance>)
        requires
            self.wf(),
        ensures
            match r {
                Some(b) => self@.wallets.contains_key(*policy_id) && b
                    == self@.wallets[*policy_id].balance,
                None => !self@.wallets.contains_key(*policy_id),
            },
    {
        match self.wallets.get(policy_id) {
            Some(w) => Some(w.balance),
            None => None,
        }
    }

    /// The cached transactions of one policy's wallet.
    pub fn get_txs(&self, policy_id: &EventId) -> (r: Option<Vec<TransactionDetails>>)
        requires
            self.wf(),
        ensures
            match r {
                Some(txs) => self@.wallets.contains_key(*policy_id) && txs@
                    == self@.wallets[*policy_id].txs,
                None => !self@.wallets.contains_key(*policy_id),
            },
    {
        match self.wallets.get(policy_id) {
            Some(w) => Some(crate::maps::copy_vec(&w.txs)),
            None => None,
        }
    }

    /// The next unused address of one policy's wallet, as last synchronized.
    pub fn get_last_unused_address(&self, policy_id: &EventId) -> (r: Option<String>)
        requires
            self.wf(),
        ensures
            match r {
                Some(a) => self@.wallets.contains_key(*policy_id)
                    && self@.wallets[*policy_id].last_unused_address == Some(a@),
                None => !self@.wallets.contains_key(*policy_id)
                    || self@.wallets[*policy_id].last_unused_address is None,
            },
    {
        match self.wallets.get(policy_id) {
            Some(w) => match &w.last_unused_address {
                Some(a) => Some(a.clone()),
                None => None,
            },
            None => None,
        }
    }

    /// The chain height the indexer last reported.
    pub fn get_block_height(&self) -> (r: u32)
        ensures
            r == self@.block_height,
    {
        self.block_height
    }

    /// Record the chain height the indexer reports.
    pub fn set_block_height(&mut self, height: u32)
        requires
            old(self).wf(),
        ensures
            final(self).wf(),
            final(self)@ == (StoreV { block_height: height, ..old(self)@ }),
    {
        self.block_height = height;
    }

    /// Forget everything: what clearing the local cache does.
    pub fn wipe(&mut self)
        requires
            old(self).wf(),
        ensures
            final(self).wf(),
            final(self)@.policies == Map::<EventId, PolicyRecordV>::empty(),
            final(self)@.shared_keys == Map::<EventId, KeyPair>::empty(),
            final(self)@.proposals == Map::<EventId, ProposalRecordV>::empty(),
            final(self)@.approvals == Map::<EventId, ApprovalRecordV>::empty(),
            final(self)@.completed_proposals == Map::<EventId, CompletedRecordV>::empty(),
            final(self)@.signers == Map::<EventId, SignerV>::empty(),
            final(self)@.events == Map::<EventId, EventV>::empty(),
            final(self)@.deleted_ids == Set::<EventId>::empty(),
            final(self)@.pending_events == Map::<EventId, EventV>::empty(),
            final(self)@.notifications == Map::<EventId, NotificationRecord>::empty(),
    {
        *self = Store::new();
    }

    /// Tombstone an event id and remove whatever entity it named, with the
    /// policy cascade: a deleted policy takes its proposals, their
    /// approvals and its completions with it.
    pub fn delete_generic_event_id(&mut self, id: EventId)
        requires
            old(self).wf(),
        ensures
            final(self).wf(),
            final(self)@.deleted_ids == old(self)@.deleted_ids.insert(id),
            forall|k: EventId| #[trigger]
                final(self)@.policies.contains_key(k) <==> (old(self)@.policies.contains_key(k)
                    && k != id),
            forall|k: EventId| #[trigger]
                final(self)@.policies.contains_key(k) ==> final(self)@.policies[k] == old(self)@.policies[k],
            forall|k: EventId| #[trigger]
                final(self)@.proposals.contains_key(k) <==> (old(self)@.proposals.contains_key(k)
                    && k != id && old(self)@.proposals[k].policy_id != id),
            forall|k: EventId| #[trigger]
                final(self)@.proposals.contains_key(k) ==> final(self)@.proposals[k] == old(self)@.proposals[k],
            forall|k: EventId| #[trigger]
                final(self)@.approvals.contains_key(k) <==> (old(self)@.approvals.contains_key(k)
                    && k != id && old(self)@.approvals[k].proposal_id != id
                    && !Self::spec_approval_in_policy(old(self)@, k, id)),
            forall|k: EventId| #[trigger]
                final(self)@.approvals.contains_key(k) ==> final(self)@.approvals[k] == old(self)@.approvals[k],
            forall|k: EventId| #[trigger]
                final(self)@.completed_proposals.contains_key(k) <==> (old(self)@.completed_proposals.contains_key(k) && k != id
                    && old(self)@.completed_proposals[k].policy_id != id),
            forall|k: EventId| #[trigger]
                final(self)@.completed_proposals.contains_key(k) ==> final(self)@.completed_proposals[k] == old(self)@.completed_proposals[k],
            final(self)@.signers == old(self)@.signers.remove(id),
            forall|k: EventId| #[trigger]
                final(self)@.my_shared_signers.contains_key(k) <==> (old(self)@.my_shared_signers.contains_key(k) && k != id
                    && old(self)@.my_shared_signers[k].signer_id != id),
            forall|k: EventId| #[trigger]
                final(self)@.my_shared_signers.contains_key(k) ==> final(self)@.my_shared_signers[k] == old(self)@.my_shared_signers[k],
            final(self)@.shared_signers == old(self)@.shared_signers.remove(id),
            final(self)@.events == old(self)@.events.remove(id),
            final(self)@.pending_events == old(self)@.pending_events.remove(id),
            final(self)@.notifications == old(self)@.notifications.remove(id),
            final(self)@.connect_requests == old(self)@.connect_requests.remove(id),
            final(self)@.shared_keys == old(self)@.shared_keys,
            final(self)@.contacts == old(self)@.contacts,
            final(self)@.profiles == old(self)@.profiles,
            final(self)@.connect_sessions == old(self)@.connect_sessions,
            final(self)@.pre_auth == old(self)@.pre_auth,
            final(self)@.relay_sync == old(self)@.relay_sync,
            final(self)@.sync_queue == old(self)@.sync_queue,
            final(self)@.wallets == old(self)@.wallets,
            final(self)@.block_height == old(self)@.block_height,
    {
        self.deleted_ids.insert(id);
        self.delete_policy(&id);
        self.delete_proposal(&id);
        self.delete_approval(&id);
        self.delete_completed_proposal(&id);
        self.delete_signer(&id);
        self.delete_shared_signer(&id);
        self.events.remove(&id);
        self.pending_events.remove(&id);
        self.notifications.remove(&id);
        self.connect_requests.remove(&id);
    }


    /// The ids of the stored events that reference the policy in a tag.
    pub fn get_event_ids_linked_to_policy(&self, policy_id: &EventId) -> (r: Vec<EventId>)
        requires
            self.wf(),
        ensures
            forall|k: EventId| #[trigger]
                r@.contains(k) <==> (self@.events.contains_key(k) && crate::event::event_tag_ids(
                    self@.events[k].tags,
                ).contains(*policy_id)),
    {
        let es = self.events.entries_ref();
        let mut r: Vec<EventId> = Vec::new();
        let mut i: usize = 0;
        while i < es.len()
            invariant
                self.wf(),
                es == &self.events.entries,
                i <= es@.len(),
                forall|x: int|
                    0 <= x < es@.len() ==> self@.events.contains_key(#[trigger] es@[x].0)
                        && self@.events[es@[x].0] == es@[x].1@,
                forall|k: EventId| #[trigger]
                    r@.contains(k) ==> (self@.events.contains_key(k)
                        && crate::event::event_tag_ids(self@.events[k].tags).contains(*policy_id)),
                forall|j: int|
                    0 <= j < i && crate::event::event_tag_ids(
                        (#[trigger] es@[j].1)@.tags,
                    ).contains(*policy_id) ==> r@.contains(es@[j].0),
            decreases es@.len() - i,
        {
            let ghost prev = r@;
            let tag_ids = crate::event::collect_event_tag_ids(&self.events.entries[i].1.tags);
            let mut found = false;
            let mut t: usize = 0;
            while t < tag_ids.len()
                invariant
                    t <= tag_ids@.len(),
                    found == tag_ids@.take(t as int).contains(*policy_id),
                decreases tag_ids@.len() - t,
            {
                proof {
                    assert(tag_ids@.take(t + 1).drop_last() =~= tag_ids@.take(t as int));
                }
                if tag_ids[t] == *policy_id {
                    found = true;
                    proof {
                        assert(tag_ids@.take(t + 1)[t as int] == *policy_id);
                    }
                } else {
                    proof {
                        if tag_ids@.take(t + 1).contains(*policy_id) {
                            let x = choose|x: int|
                                0 <= x < t + 1 && #[trigger] tag_ids@.take(t + 1)[x] == *policy_id;
                            if x < t {
                                assert(tag_ids@.take(t as int)[x] == *policy_id);
                            }
                        }
                        if tag_ids@.take(t as int).contains(*policy_id) {
                            let x = choose|x: int|
                                0 <= x < t && #[trigger] tag_ids@.take(t as int)[x] == *policy_id;
                            assert(tag_ids@.take(t + 1)[x] == *policy_id);
                        }
                    }
                }
                t = t + 1;
            }
            proof {
                assert(tag_ids@.take(tag_ids@.len() as int) =~= tag_ids@);
            }
            if found {
                let id = self.events.entries[i].0;
                r.push(id);
                proof {
                    crate::maps::lemma_push_contains(prev, r@, id);
                }
            }
            i = i + 1;
        }
        proof {
            assert forall|k: EventId|
                self@.events.contains_key(k) && crate::event::event_tag_ids(
                    self@.events[k].tags,
                ).contains(*policy_id) implies #[trigger] r@.contains(k) by {
                crate::maps::lemma_id_as_map_contains(self.events.entries@, k);
                let j = choose|j: int|
                    0 <= j < self.events.entries@.len() && self.events.entries@[j].0 == k;
                assert(self.events.entries@[j].1@ == self@.events[k]);
            }
        }
        r
    }

    /// Every stored event, for rebroadcast after a reconnect.
    pub fn get_events(&self) -> (r: Vec<Event>)
        requires
            self.wf(),
        ensures
            event_views(r@) == entry_event_views(self.events.entries@),
    {
        let mut r: Vec<Event> = Vec::new();
        let mut i: usize = 0;
        while i < self.events.entries.len()
            invariant
                i <= self.events.entries@.len(),
                event_views(r@) == entry_event_views(self.events.entries@.take(i as int)),
            decreases self.events.entries@.len() - i,
        {
            let ghost prev = r@;
            r.push(self.events.entries[i].1.duplicate());
            proof {
                let es = self.events.entries@;
                assert(event_views(prev).len() == prev.len());
                assert(entry_event_views(es.take(i as int)).len() == i);
                assert(prev.len() == i);
                assert forall|x: int| 0 <= x <= i implies event_views(r@)[x] == entry_event_views(
                    es.take(i + 1),
                )[x] by {
                    assert(es.take(i + 1)[x] == es[x]);
                    if x < i {
                        assert(event_views(prev)[x] == entry_event_views(es.take(i as int))[x]);
                        assert(es.take(i as int)[x] == es[x]);
                        assert(r@[x] == prev[x]);
                    } else {
                        assert(r@[x as int]@ == es[i as int].1@);
                    }
                }
                assert(event_views(r@) =~= entry_event_views(es.take(i + 1)));
            }
            i = i + 1;
        }
        proof {
            assert(self.events.entries@.take(self.events.entries@.len() as int)
                =~= self.events.entries@);
        }
        r
    }
}

/// The lengths agree between a built prefix and its source window.
pub open spec fn event_len_helper(
    prev: Seq<String>,
    es: Seq<(XOnlyPublicKey, ConnectSession)>,
    i: int,
) -> bool {
    str_views(prev).len() == prev.len() && session_relay_views(es.take(i)).len() == i
}

/// The views of a sequence of strings.
pub open spec fn str_views(s: Seq<String>) -> Seq<Seq<char>> {
    s.map_values(|x: String| x@)
}

/// The relay addresses of a sequence of session entries.
pub open spec fn session_relay_views(s: Seq<(XOnlyPublicKey, ConnectSession)>) -> Seq<Seq<char>> {
    s.map_values(|p: (XOnlyPublicKey, ConnectSession)| p.1.relay_url@)
}

/// How many notification entries are unseen.
pub open spec fn count_unseen(s: Seq<(EventId, NotificationRecord)>) -> nat
    decreases s.len(),
{
    if s.len() == 0 {
        0
    } else {
        count_unseen(s.drop_last()) + if s.last().1.seen {
            0nat
        } else {
            1nat
        }
    }
}

} // verus!