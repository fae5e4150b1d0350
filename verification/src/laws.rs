//! Laws that span more than one operation.
//!
//! Most behavioral laws live on the operations themselves: rejection of
//! underpopulated policies on `save_policy`, descriptor uniqueness on
//! `save_signer`, tombstone dominance and approval expiration on
//! `handle_event`, completion on `finalize`, the idempotence guard on
//! `sync`. The one-key-per-policy discipline is stated here in three
//! pieces: the registry is a map, so a policy never holds two keys
//! (`lemma_shared_key_unique`); the reducer keeps the first key it saw
//! (the shared-key clauses of `handle_event`); and everything stored for a
//! policy is what decrypts under that one stored key (each handler clause
//! of `handle_event` goes through `policy_plain_of` of the stored key, and
//! `lemma_policy_replay` closes the loop back to what was published).

use vstd::prelude::*;

use crate::crypto::nip04_plain;
use crate::domain::{
    lemma_policy_round_trip, spec_encode_policy, spec_parse_policy, str_fits, PolicyV,
};
use crate::ids::{EventId, KeyPair};
use crate::store::StoreV;

verus! {

/// Every policy has at most one shared key: the key registry is a map, so
/// two keys for one policy are the same key.
pub proof fn lemma_shared_key_unique(s: StoreV, policy_id: EventId, k1: KeyPair, k2: KeyPair)
    requires
        s.shared_keys.contains_key(policy_id),
        k1 == s.shared_keys[policy_id],
        k2 == s.shared_keys[policy_id],
    ensures
        k1 == k2,
{
}

/// A published policy replays faithfully: when a policy event's content
/// decrypts under the policy's shared key to the policy's encoding — which
/// `save_policy` guarantees of the event it publishes — then the reducer,
/// which stores what that same decryption parses to, stores that policy
/// and no other.
pub proof fn lemma_policy_replay(sk: KeyPair, content: Seq<char>, p: PolicyV)
    requires
        str_fits(p.name),
        str_fits(p.description),
        str_fits(p.descriptor),
        nip04_plain(sk.secret.hi, sk.secret.lo, sk.public, content) == Some(spec_encode_policy(p)),
    ensures
        spec_parse_policy(nip04_plain(sk.secret.hi, sk.secret.lo, sk.public, content).unwrap())
            == Some(p),
{
    lemma_policy_round_trip(p);
}

} // verus!
