//! Cross-cutting value types: notifications, sync messages, typed errors,
//! remote-signing sessions, and wallet snapshots fed by the chain indexer.

use vstd::prelude::*;

use crate::ids::{EventId, XOnlyPublicKey, Txid};

verus! {

/// What a subscriber is told when the reducer stores a new object.
#[derive(Clone, Copy, PartialEq, Eq, Structural, Debug)]
pub enum Notification {
    NewPolicy(EventId),
    NewProposal(EventId),
    NewApproval { proposal_id: EventId, public_key: XOnlyPublicKey },
    NewCompletedProposal(EventId),
    NewSharedSigner { shared_signer_id: EventId, owner_public_key: XOnlyPublicKey },
}

/// What the engine's subscribers receive.
#[derive(Clone, Copy, PartialEq, Eq, Structural, Debug)]
pub enum Message {
    Notification(Notification),
    WalletSyncCompleted(EventId),
}

/// Typed failures of the coordination operations.
#[derive(Clone, PartialEq, Eq, Debug)]
pub enum Error {
    /// The keychain password does not match.
    PasswordNotMatch,
    /// A policy needs at least two cosigners.
    NotEnoughPublicKeys,
    /// No shared key is known for the policy.
    SharedKeysNotFound,
    PolicyNotFound,
    ProposalNotFound,
    /// The descriptor layer returned a proposal of the wrong kind.
    UnexpectedProposal,
    ApprovedProposalNotFound,
    ElectrumEndpointNotSet,
    SignerNotFound,
    SignerIdNotFound,
    PublicKeyNotFound,
    /// The signer was already shared with this recipient.
    SignerAlreadyShared,
    /// Another signer already carries this descriptor.
    SignerDescriptorAlreadyExists,
    NostrConnectRequestAlreadyApproved,
    CantGenerateNostrConnectResponse,
    /// No stored event has the given id.
    EventNotFound,
    /// No connect session is known for the app key.
    ConnectSessionNotFound,
    /// No connect request is stored under the given id.
    ConnectRequestNotFound,
    /// The descriptor neither parses nor compiles.
    InvalidDescriptor,
    /// The signing or encryption layer failed.
    Crypto,
}

/// The method of a remote-signing request.
#[derive(Clone, Copy, PartialEq, Eq, Structural, Debug)]
pub enum ConnectMethod {
    Connect,
    GetPublicKey,
    SignEvent,
    Ping,
    Encrypt,
    Decrypt,
}

/// A parsed remote-signing message: its request id, its method, and the
/// raw form it arrived in (kept so a response can be generated from it).
#[derive(Clone, Debug)]
pub struct ConnectMessage {
    pub id: String,
    pub method: ConnectMethod,
    pub raw: String,
}

pub struct ConnectMessageV {
    pub id: Seq<char>,
    pub method: ConnectMethod,
    pub raw: Seq<char>,
}

impl View for ConnectMessage {
    type V = ConnectMessageV;

    open spec fn view(&self) -> ConnectMessageV {
        ConnectMessageV { id: self.id@, method: self.method, raw: self.raw@ }
    }
}

/// A delegated-signing relationship with an external application.
#[derive(Clone, Debug)]
pub struct ConnectSession {
    pub app_public_key: XOnlyPublicKey,
    pub relay_url: String,
    pub app_name: String,
    pub created_at: u64,
}

pub struct ConnectSessionV {
    pub app_public_key: XOnlyPublicKey,
    pub relay_url: Seq<char>,
    pub app_name: Seq<char>,
    pub created_at: u64,
}

impl View for ConnectSession {
    type V = ConnectSessionV;

    open spec fn view(&self) -> ConnectSessionV {
        ConnectSessionV {
            app_public_key: self.app_public_key,
            relay_url: self.relay_url@,
            app_name: self.app_name@,
            created_at: self.created_at,
        }
    }
}

/// A remote-signing request surfaced to the user.
#[derive(Clone, Debug)]
pub struct ConnectRequest {
    pub app_public_key: XOnlyPublicKey,
    pub message: ConnectMessage,
    pub timestamp: u64,
    pub approved: bool,
}

pub struct ConnectRequestV {
    pub app_public_key: XOnlyPublicKey,
    pub message: ConnectMessageV,
    pub timestamp: u64,
    pub approved: bool,
}

impl View for ConnectRequest {
    type V = ConnectRequestV;

    open spec fn view(&self) -> ConnectRequestV {
        ConnectRequestV {
            app_public_key: self.app_public_key,
            message: self.message@,
            timestamp: self.timestamp,
            approved: self.approved,
        }
    }
}

/// A user profile, carried opaquely.
#[derive(Clone, Debug)]
pub struct Profile {
    pub content: String,
}

pub struct ProfileV {
    pub content: Seq<char>,
}

impl View for Profile {
    type V = ProfileV;

    open spec fn view(&self) -> ProfileV {
        ProfileV { content: self.content@ }
    }
}

/// Wallet balances as the chain indexer reports them, in satoshi.
#[derive(Clone, Copy, PartialEq, Eq, Structural, Debug)]
pub struct Balance {
    pub immature: u64,
    pub trusted_pending: u64,
    pub untrusted_pending: u64,
    pub confirmed: u64,
}

/// One wallet transaction as the chain indexer reports it.
#[derive(Clone, Copy, PartialEq, Eq, Structural, Debug)]
pub struct TransactionDetails {
    pub txid: Txid,
    pub received: u64,
    pub sent: u64,
    pub confirmation_time: Option<u64>,
}

/// The engine's cached view of one policy's on-chain wallet, replaced
/// wholesale by each chain synchronization.
#[derive(Clone, Debug)]
pub struct WalletSnapshot {
    pub balance: Balance,
    pub txs: Vec<TransactionDetails>,
    pub last_unused_address: Option<String>,
    pub synced_at: u64,
}

pub struct WalletSnapshotV {
    pub balance: Balance,
    pub txs: Seq<TransactionDetails>,
    pub last_unused_address: Option<Seq<char>>,
    pub synced_at: u64,
}

impl View for WalletSnapshot {
    type V = WalletSnapshotV;

    open spec fn view(&self) -> WalletSnapshotV {
        WalletSnapshotV {
            balance: self.balance,
            txs: self.txs@,
            last_unused_address: match self.last_unused_address {
                Some(ref a) => Some(a@),
                None => None,
            },
            synced_at: self.synced_at,
        }
    }
}

} // verus!
