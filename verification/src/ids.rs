//! Identifiers and key material, modelled as plain 256-bit values.
//!
//! Every relay event has an opaque 256-bit id (the hash of its canonical
//! form) and a 256-bit author public key. Domain objects are addressed by
//! the id of the event that first published them. A 256-bit value is held
//! as two `u128` halves, big-endian: `hi` holds the first sixteen bytes.

use vstd::prelude::*;

verus! {

/// Identifier of a relay event; also the identifier of the domain object
/// that the event first published.
#[derive(Clone, Copy, PartialEq, Eq, Structural, Debug, Hash)]
pub struct EventId {
    pub hi: u128,
    pub lo: u128,
}

/// A 256-bit x-only public key of a user (a cosigner, an app, ...).
#[derive(Clone, Copy, PartialEq, Eq, Structural, Debug, Hash)]
pub struct XOnlyPublicKey {
    pub hi: u128,
    pub lo: u128,
}

/// A 256-bit secret key. Not every 256-bit value is a valid key; validity
/// is decided by the signing layer when a keypair is formed.
#[derive(Clone, Copy, PartialEq, Eq, Structural, Debug, Hash)]
pub struct SecretKey {
    pub hi: u128,
    pub lo: u128,
}

/// A Bitcoin transaction id.
#[derive(Clone, Copy, PartialEq, Eq, Structural, Debug, Hash)]
pub struct Txid {
    pub hi: u128,
    pub lo: u128,
}

/// A signing keypair: a user's own keys, or the shared key of a policy.
#[derive(Clone, Copy, PartialEq, Eq, Structural, Debug, Hash)]
pub struct KeyPair {
    pub secret: SecretKey,
    pub public: XOnlyPublicKey,
}

impl View for KeyPair {
    type V = KeyPair;

    open spec fn view(&self) -> KeyPair {
        *self
    }
}

/// The Bitcoin network a keychain and its policies live on.
#[derive(Clone, Copy, PartialEq, Eq, Structural, Debug, Hash)]
pub enum Network {
    Bitcoin,
    Testnet,
    Signet,
    Regtest,
}

/// Event kinds: the coordination kinds of this protocol, in a custom range.
pub const SHARED_KEY_KIND: u16 = 9288;

pub const POLICY_KIND: u16 = 9289;

pub const PROPOSAL_KIND: u16 = 9290;

pub const APPROVED_PROPOSAL_KIND: u16 = 9291;

pub const COMPLETED_PROPOSAL_KIND: u16 = 9292;

pub const SIGNERS_KIND: u16 = 9294;

pub const SHARED_SIGNERS_KIND: u16 = 9295;

/// Reused standard relay kinds.
pub const METADATA_KIND: u16 = 0;

pub const CONTACT_LIST_KIND: u16 = 3;

pub const ENCRYPTED_DM_KIND: u16 = 4;

pub const EVENT_DELETION_KIND: u16 = 5;

pub const NOSTR_CONNECT_KIND: u16 = 24133;

/// How long an approval is authoritative: seven days, in seconds.
pub const APPROVED_PROPOSAL_EXPIRATION: u64 = 604800;

} // verus!
