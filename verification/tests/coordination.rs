//! End-to-end coordination scenarios: publish and replay, out-of-order
//! arrival, the spend lifecycle, the deletion cascade, and expired
//! approvals, all through real signing and encryption.

use coinstr_sdk::crypto::{generate_shared_key, sign_event};
use coinstr_sdk::domain::CompletedProposal;
use coinstr_sdk::engine::{hex256, Coinstr};
use coinstr_sdk::event::Tag;
use coinstr_sdk::ids::{KeyPair, Network, Txid, APPROVED_PROPOSAL_KIND, POLICY_KIND, SHARED_KEY_KIND};
use coinstr_sdk::types::Error;

const NOW: u64 = 1_700_000_000;

fn engine(kp: &KeyPair) -> Coinstr {
    Coinstr::new(Network::Testnet, kp.secret).unwrap()
}

fn descriptor_for(kp: &KeyPair) -> String {
    let mut d = String::from("tr(");
    d.push_str(&hex256(kp.public.hi, kp.public.lo));
    d.push(')');
    d
}

#[test]
fn policy_publish_and_replay() {
    let a = generate_shared_key();
    let b = generate_shared_key();
    let c = generate_shared_key();
    let mut alice = engine(&a);
    let mut bob = engine(&b);
    let descriptor = descriptor_for(&a);
    let cosigners = vec![a.public, b.public, c.public];
    let pid = alice
        .save_policy(
            String::from("Joint"),
            String::from(""),
            descriptor.clone(),
            cosigners,
            NOW,
        )
        .unwrap();
    let events = alice.take_outbox();
    assert_eq!(events.len(), 4);
    for ev in events.iter().take(3) {
        assert_eq!(ev.kind, SHARED_KEY_KIND);
    }
    assert_eq!(events[3].kind, POLICY_KIND);
    assert_eq!(events[3].id, pid);

    for ev in events {
        // Copies of the shared key addressed to other cosigners cannot be
        // decrypted here; they are logged and skipped.
        let _ = bob.handle_event(ev, NOW);
    }
    let stored = bob.get_policy_by_id(pid).unwrap();
    // The canonical form of the descriptor round-trips through encryption.
    assert!(stored.descriptor.starts_with("tr("));
    let (_, pks) = bob.db.get_policy(&pid).unwrap();
    assert_eq!(pks.len(), 3);
}

#[test]
fn out_of_order_arrival_defers_then_applies() {
    let a = generate_shared_key();
    let b = generate_shared_key();
    let mut alice = engine(&a);
    let mut bob = engine(&b);
    let pid = alice
        .save_policy(
            String::from("Joint"),
            String::from(""),
            descriptor_for(&a),
            vec![a.public, b.public],
            NOW,
        )
        .unwrap();
    let events = alice.take_outbox();
    // Deliver the policy before its shared key: it must defer.
    let policy_event = events[2].duplicate();
    bob.handle_event(policy_event, NOW).unwrap();
    assert!(matches!(bob.get_policy_by_id(pid), Err(Error::PolicyNotFound)));
    // Now the copy of the shared key addressed to this user arrives, and
    // the retry loop applies the policy.
    bob.handle_event(events[1].duplicate(), NOW).unwrap();
    let msgs = bob.handle_pending_events(NOW);
    assert_eq!(msgs.len(), 1);
    assert!(bob.get_policy_by_id(pid).is_ok());
}

#[test]
fn reducer_converges_for_both_orders() {
    let a = generate_shared_key();
    let b = generate_shared_key();
    let mut alice = engine(&a);
    let pid = alice
        .save_policy(
            String::from("Joint"),
            String::from(""),
            descriptor_for(&a),
            vec![a.public, b.public],
            NOW,
        )
        .unwrap();
    let events = alice.take_outbox();
    let shared_key_ev = events[1].duplicate();
    let policy_ev = events[2].duplicate();

    let mut forward = engine(&b);
    forward.handle_event(shared_key_ev.duplicate(), NOW).unwrap();
    forward.handle_event(policy_ev.duplicate(), NOW).unwrap();
    forward.handle_pending_events(NOW);

    let mut backward = engine(&b);
    backward.handle_event(policy_ev, NOW).unwrap();
    backward.handle_event(shared_key_ev, NOW).unwrap();
    backward.handle_pending_events(NOW);

    let p1 = forward.get_policy_by_id(pid).unwrap();
    let p2 = backward.get_policy_by_id(pid).unwrap();
    assert_eq!(p1.descriptor, p2.descriptor);
    assert_eq!(p1.name, p2.name);
    assert_eq!(forward.db.get_shared_key(&pid), backward.db.get_shared_key(&pid));
}

#[test]
fn spend_lifecycle() {
    let a = generate_shared_key();
    let b = generate_shared_key();
    let mut alice = engine(&a);
    let mut bob = engine(&b);
    let pid = alice
        .save_policy(
            String::from("Joint"),
            String::from(""),
            descriptor_for(&a),
            vec![a.public, b.public],
            NOW,
        )
        .unwrap();
    for ev in alice.take_outbox() {
        let _ = bob.handle_event(ev, NOW);
    }
    let (proposal_id, _proposal) = alice
        .spend(
            pid,
            String::from("tb1qexampleaddress"),
            50_000,
            String::from("rent"),
            String::from("unsigned-psbt"),
            NOW + 1,
        )
        .unwrap();
    for ev in alice.take_outbox() {
        let _ = bob.handle_event(ev, NOW + 1);
    }
    assert!(bob.get_proposal_by_id(proposal_id).is_ok());

    let (_approval_id, _approved) = bob
        .approve(proposal_id, String::from("signed-psbt-bob"), NOW + 2)
        .unwrap();
    for ev in bob.take_outbox() {
        let _ = alice.handle_event(ev, NOW + 2);
    }
    assert_eq!(alice.get_approvals_by_proposal_id(proposal_id).len(), 1);

    let completed = CompletedProposal::Spending {
        txid: Txid { hi: 11, lo: 22 },
        description: String::from("rent"),
        tx: String::from("rawtx"),
    };
    alice.finalize(proposal_id, completed, NOW + 3).unwrap();
    // The proposal is gone and the completion is stored under the new id.
    assert!(matches!(
        alice.get_proposal_by_id(proposal_id),
        Err(Error::ProposalNotFound)
    ));
    let completions = alice.get_completed_proposals();
    assert_eq!(completions.len(), 1);
    let completed_id = completions[0].0;
    assert!(alice.get_completed_proposal_by_id(completed_id).is_ok());

    // Replay removes the proposal on the other replica too.
    for ev in alice.take_outbox() {
        let _ = bob.handle_event(ev, NOW + 3);
    }
    assert!(matches!(
        bob.get_proposal_by_id(proposal_id),
        Err(Error::ProposalNotFound)
    ));
    assert!(bob.get_completed_proposal_by_id(completed_id).is_ok());
}

#[test]
fn deletion_cascade_and_tombstone_dominance() {
    let a = generate_shared_key();
    let b = generate_shared_key();
    let mut alice = engine(&a);
    let mut bob = engine(&b);
    let pid = alice
        .save_policy(
            String::from("Joint"),
            String::from(""),
            descriptor_for(&a),
            vec![a.public, b.public],
            NOW,
        )
        .unwrap();
    let setup: Vec<_> = alice.take_outbox();
    let policy_event = setup[2].duplicate();
    for ev in setup {
        let _ = bob.handle_event(ev, NOW);
    }
    let (proposal_id, _) = alice
        .spend(
            pid,
            String::from("tb1qexampleaddress"),
            1_000,
            String::from("x"),
            String::from("psbt"),
            NOW + 1,
        )
        .unwrap();
    for ev in alice.take_outbox() {
        let _ = bob.handle_event(ev, NOW + 1);
    }
    assert!(bob.get_proposal_by_id(proposal_id).is_ok());

    alice.delete_policy_by_id(pid, NOW + 2).unwrap();
    for ev in alice.take_outbox() {
        let _ = bob.handle_event(ev, NOW + 2);
    }
    assert!(matches!(bob.get_policy_by_id(pid), Err(Error::PolicyNotFound)));
    assert!(matches!(
        bob.get_proposal_by_id(proposal_id),
        Err(Error::ProposalNotFound)
    ));
    assert!(bob.db.event_was_deleted(&pid));

    // Tombstone dominance: redelivering the policy event re-creates nothing.
    let r = bob.handle_event(policy_event, NOW + 3).unwrap();
    assert!(r.is_none());
    assert!(matches!(bob.get_policy_by_id(pid), Err(Error::PolicyNotFound)));
}

#[test]
fn expired_approval_is_never_persisted() {
    let a = generate_shared_key();
    let b = generate_shared_key();
    let mut alice = engine(&a);
    let mut bob = engine(&b);
    let pid = alice
        .save_policy(
            String::from("Joint"),
            String::from(""),
            descriptor_for(&a),
            vec![a.public, b.public],
            NOW,
        )
        .unwrap();
    for ev in alice.take_outbox() {
        let _ = bob.handle_event(ev, NOW);
    }
    let (proposal_id, _) = alice
        .spend(
            pid,
            String::from("tb1qexampleaddress"),
            1_000,
            String::from("x"),
            String::from("psbt"),
            NOW,
        )
        .unwrap();
    for ev in alice.take_outbox() {
        let _ = bob.handle_event(ev, NOW);
    }
    // An approval whose expiration tag lies one second in the past.
    let tags = vec![
        Tag::PubKey(b.public),
        Tag::Event(proposal_id),
        Tag::Event(pid),
        Tag::Expiration(NOW - 1),
    ];
    let stale = sign_event(&a, APPROVED_PROPOSAL_KIND, &tags, &String::from("x"), NOW - 10)
        .unwrap();
    let r = bob.handle_event(stale, NOW).unwrap();
    assert!(r.is_none());
    assert_eq!(bob.get_approvals_by_proposal_id(proposal_id).len(), 0);
    assert_eq!(bob.get_notifications().len(), 2);
}

#[test]
fn save_policy_rejects_one_cosigner_untouched() {
    let a = generate_shared_key();
    let mut alice = engine(&a);
    let r = alice.save_policy(
        String::from("Solo"),
        String::from(""),
        descriptor_for(&a),
        vec![a.public],
        NOW,
    );
    assert!(matches!(r, Err(Error::NotEnoughPublicKeys)));
    assert_eq!(alice.get_policies().len(), 0);
    assert_eq!(alice.take_outbox().len(), 0);
}

#[test]
fn save_policy_rejects_bad_descriptor() {
    let a = generate_shared_key();
    let b = generate_shared_key();
    let mut alice = engine(&a);
    let r = alice.save_policy(
        String::from("Broken"),
        String::from(""),
        String::from("not a descriptor"),
        vec![a.public, b.public],
        NOW,
    );
    assert!(matches!(r, Err(Error::InvalidDescriptor)));
}

#[test]
fn signer_descriptor_uniqueness() {
    let a = generate_shared_key();
    let mut alice = engine(&a);
    let signer = coinstr_sdk::domain::Signer {
        name: String::from("ledger"),
        fingerprint: String::from("deadbeef"),
        descriptor: descriptor_for(&a),
        signer_type: coinstr_sdk::domain::SignerType::Hardware,
    };
    alice.save_signer(signer.duplicate(), NOW).unwrap();
    let r = alice.save_signer(signer, NOW + 1);
    assert!(matches!(r, Err(Error::SignerDescriptorAlreadyExists)));
}

#[test]
fn sync_guard_is_idempotent() {
    let a = generate_shared_key();
    let mut alice = engine(&a);
    assert!(alice.sync());
    assert!(!alice.sync());
    assert!(alice.is_syncing());
    alice.sync_stopped();
    assert!(alice.sync());
}

#[test]
fn is_internal_key_checks_descriptor_prefix() {
    let a = generate_shared_key();
    let alice = engine(&a);
    let own = descriptor_for(&a);
    assert!(alice.is_internal_key(&own));
    let other = generate_shared_key();
    assert!(!alice.is_internal_key(&descriptor_for(&other)));
}

#[test]
fn share_signer_twice_fails() {
    let a = generate_shared_key();
    let b = generate_shared_key();
    let mut alice = engine(&a);
    let signer = coinstr_sdk::domain::Signer {
        name: String::from("s"),
        fingerprint: String::from("f"),
        descriptor: descriptor_for(&a),
        signer_type: coinstr_sdk::domain::SignerType::Seed,
    };
    let signer_id = alice.save_signer(signer, NOW).unwrap();
    alice.share_signer(signer_id, b.public, NOW).unwrap();
    let r = alice.share_signer(signer_id, b.public, NOW + 1);
    assert!(matches!(r, Err(Error::SignerAlreadyShared)));
    alice.revoke_shared_signer(
        alice.get_my_shared_signers_by_signer_id(signer_id)[0].0,
        NOW + 2,
    )
    .unwrap();
    assert_eq!(alice.get_my_shared_signers_by_signer_id(signer_id).len(), 0);
}
