//! Wallet-domain objects and their content codecs.
//!
//! Each object that travels inside encrypted event content has a verified
//! encoder and parser over the primitives of [`crate::codec`], with a proof
//! that parsing inverts encoding. Descriptors, addresses and partially
//! signed transactions are carried as opaque strings; building, signing and
//! finalizing them is the descriptor library's work, outside this crate.

use vstd::prelude::*;

use crate::codec::{
    append_hex, append_lpstr, lemma_parse_hex_at_frame, lemma_parse_hex_bound,
    lemma_parse_lpstr_frame, lemma_pow16_32_val, lemma_spec_hex_len, parse_hex, parse_lpstr,
    pow16, spec_hex, spec_lpstr, spec_parse_hex_at, spec_parse_lpstr_at,
};
use crate::ids::Txid;

verus! {

/// A spending policy: a named miniscript descriptor shared by a group of
/// cosigners. The cosigner set travels in the publishing event's tags, not
/// in the content, and is stored beside the policy.
#[derive(Clone, Debug)]
pub struct Policy {
    pub name: String,
    pub description: String,
    pub descriptor: String,
}

pub struct PolicyV {
    pub name: Seq<char>,
    pub description: Seq<char>,
    pub descriptor: Seq<char>,
}

impl View for Policy {
    type V = PolicyV;

    open spec fn view(&self) -> PolicyV {
        PolicyV { name: self.name@, description: self.description@, descriptor: self.descriptor@ }
    }
}

/// A proposal under a policy: either a spend or a proof-of-reserve
/// attestation. Identified by the id of the event that published it.
#[derive(Clone, Debug)]
pub enum Proposal {
    Spending {
        descriptor: String,
        to_address: String,
        amount: u64,
        description: String,
        psbt: String,
    },
    ProofOfReserve { descriptor: String, message: String, psbt: String },
}

pub enum ProposalV {
    Spending {
        descriptor: Seq<char>,
        to_address: Seq<char>,
        amount: u64,
        description: Seq<char>,
        psbt: Seq<char>,
    },
    ProofOfReserve { descriptor: Seq<char>, message: Seq<char>, psbt: Seq<char> },
}

impl View for Proposal {
    type V = ProposalV;

    open spec fn view(&self) -> ProposalV {
        match self {
            Proposal::Spending { descriptor, to_address, amount, description, psbt } => {
                ProposalV::Spending {
                    descriptor: descriptor@,
                    to_address: to_address@,
                    amount: *amount,
                    description: description@,
                    psbt: psbt@,
                }
            },
            Proposal::ProofOfReserve { descriptor, message, psbt } => {
                ProposalV::ProofOfReserve {
                    descriptor: descriptor@,
                    message: message@,
                    psbt: psbt@,
                }
            },
        }
    }
}

/// A cosigner's approval of a proposal: the proposal's transaction carrying
/// that cosigner's partial signatures.
#[derive(Clone, Debug)]
pub enum ApprovedProposal {
    Spending { psbt: String },
    ProofOfReserve { psbt: String },
}

pub enum ApprovedProposalV {
    Spending { psbt: Seq<char> },
    ProofOfReserve { psbt: Seq<char> },
}

impl View for ApprovedProposal {
    type V = ApprovedProposalV;

    open spec fn view(&self) -> ApprovedProposalV {
        match self {
            ApprovedProposal::Spending { psbt } => ApprovedProposalV::Spending { psbt: psbt@ },
            ApprovedProposal::ProofOfReserve { psbt } => ApprovedProposalV::ProofOfReserve {
                psbt: psbt@,
            },
        }
    }
}

/// The outcome of a finalized proposal. A completed spend replaces its
/// proposal; a completed proof of reserve keeps the attestation material.
#[derive(Clone, Debug)]
pub enum CompletedProposal {
    Spending { txid: Txid, description: String, tx: String },
    ProofOfReserve { message: String, descriptor: String, psbt: String },
}

pub enum CompletedProposalV {
    Spending { txid: Txid, description: Seq<char>, tx: Seq<char> },
    ProofOfReserve { message: Seq<char>, descriptor: Seq<char>, psbt: Seq<char> },
}

impl View for CompletedProposal {
    type V = CompletedProposalV;

    open spec fn view(&self) -> CompletedProposalV {
        match self {
            CompletedProposal::Spending { txid, description, tx } => {
                CompletedProposalV::Spending { txid: *txid, description: description@, tx: tx@ }
            },
            CompletedProposal::ProofOfReserve { message, descriptor, psbt } => {
                CompletedProposalV::ProofOfReserve {
                    message: message@,
                    descriptor: descriptor@,
                    psbt: psbt@,
                }
            },
        }
    }
}

/// Where a signer's key material lives.
#[derive(Clone, Copy, PartialEq, Eq, Structural, Debug)]
pub enum SignerType {
    Seed,
    Hardware,
    AirGap,
}

/// A signing device of the user, owner-private.
#[derive(Clone, Debug)]
pub struct Signer {
    pub name: String,
    pub fingerprint: String,
    pub descriptor: String,
    pub signer_type: SignerType,
}

pub struct SignerV {
    pub name: Seq<char>,
    pub fingerprint: Seq<char>,
    pub descriptor: Seq<char>,
    pub signer_type: SignerType,
}

impl View for Signer {
    type V = SignerV;

    open spec fn view(&self) -> SignerV {
        SignerV {
            name: self.name@,
            fingerprint: self.fingerprint@,
            descriptor: self.descriptor@,
            signer_type: self.signer_type,
        }
    }
}

/// A signer broadcast to one recipient: only what the recipient needs.
#[derive(Clone, Debug)]
pub struct SharedSigner {
    pub fingerprint: String,
    pub descriptor: String,
}

pub struct SharedSignerV {
    pub fingerprint: Seq<char>,
    pub descriptor: Seq<char>,
}

impl View for SharedSigner {
    type V = SharedSignerV;

    open spec fn view(&self) -> SharedSignerV {
        SharedSignerV { fingerprint: self.fingerprint@, descriptor: self.descriptor@ }
    }
}

impl Signer {
    /// What a recipient of this signer is given.
    pub fn to_shared_signer(&self) -> (r: SharedSigner)
        ensures
            r@.fingerprint == self@.fingerprint,
            r@.descriptor == self@.descriptor,
    {
        SharedSigner { fingerprint: self.fingerprint.clone(), descriptor: self.descriptor.clone() }
    }
}

/// Encodings fit in a length prefix only when each field does; every field
/// of an object held in program memory satisfies this.
pub open spec fn str_fits(s: Seq<char>) -> bool {
    s.len() < pow16(16)
}

pub open spec fn spec_encode_policy(p: PolicyV) -> Seq<char> {
    spec_lpstr(p.name) + spec_lpstr(p.description) + spec_lpstr(p.descriptor)
}

pub open spec fn spec_parse_policy(s: Seq<char>) -> Option<PolicyV> {
    match spec_parse_lpstr_at(s, 0) {
        Some((name, p1)) => match spec_parse_lpstr_at(s, p1) {
            Some((description, p2)) => match spec_parse_lpstr_at(s, p2) {
                Some((descriptor, p3)) => if p3 == s.len() {
                    Some(PolicyV { name, description, descriptor })
                } else {
                    None
                },
                None => None,
            },
            None => None,
        },
        None => None,
    }
}

/// Parsing a policy encoding yields the policy back.
pub proof fn lemma_policy_round_trip(p: PolicyV)
    requires
        str_fits(p.name),
        str_fits(p.description),
        str_fits(p.descriptor),
    ensures
        spec_parse_policy(spec_encode_policy(p)) == Some(p),
{
    let s = spec_encode_policy(p);
    lemma_spec_hex_len(p.name.len(), 16);
    lemma_spec_hex_len(p.description.len(), 16);
    lemma_spec_hex_len(p.descriptor.len(), 16);
    let l1 = 16 + p.name.len() as int;
    let l2 = l1 + 16 + p.description.len();
    let l3 = l2 + 16 + p.descriptor.len();
    assert(s.subrange(0, l1) =~= spec_lpstr(p.name));
    lemma_parse_lpstr_frame(s, 0, p.name);
    assert(s.subrange(l1, l2 as int) =~= spec_lpstr(p.description));
    lemma_parse_lpstr_frame(s, l1, p.description);
    assert(s.subrange(l2 as int, l3 as int) =~= spec_lpstr(p.descriptor));
    lemma_parse_lpstr_frame(s, l2 as int, p.descriptor);
}

/// Write the policy's content form.
pub fn encode_policy(p: &Policy) -> (r: String)
    ensures
        r@ == spec_encode_policy(p@),
{
    let mut out = String::new();
    append_lpstr(&mut out, self_str(&p.name));
    append_lpstr(&mut out, self_str(&p.description));
    append_lpstr(&mut out, self_str(&p.descriptor));
    out
}

/// Read a policy back from content.
pub fn parse_policy(s: &str) -> (r: Option<Policy>)
    ensures
        match r {
            Some(p) => spec_parse_policy(s@) == Some(p@),
            None => spec_parse_policy(s@) is None,
        },
{
    let (name, p1) = match parse_lpstr(s, 0) {
        Some(x) => x,
        None => {
            return None;
        },
    };
    let (description, p2) = match parse_lpstr(s, p1) {
        Some(x) => x,
        None => {
            return None;
        },
    };
    let (descriptor, p3) = match parse_lpstr(s, p2) {
        Some(x) => x,
        None => {
            return None;
        },
    };
    if p3 != s.unicode_len() {
        return None;
    }
    Some(Policy { name, description, descriptor })
}

/// Borrow a `String` as `&str`; the view is unchanged.
fn self_str(s: &String) -> (r: &str)
    ensures
        r@ == s@,
{
    s.as_str()
}

/// The letter that tags a spending variant.
fn spending_tag_str() -> (r: &'static str)
    ensures
        r@ =~= seq!['s'],
{
    proof {
        reveal_strlit("s");
    }
    "s"
}

/// The letter that tags a proof-of-reserve variant.
fn proof_tag_str() -> (r: &'static str)
    ensures
        r@ =~= seq!['p'],
{
    proof {
        reveal_strlit("p");
    }
    "p"
}

/// The letter that tags a hardware signer.
fn hardware_tag_str() -> (r: &'static str)
    ensures
        r@ =~= seq!['h'],
{
    proof {
        reveal_strlit("h");
    }
    "h"
}

/// The letter that tags an air-gapped signer.
fn airgap_tag_str() -> (r: &'static str)
    ensures
        r@ =~= seq!['a'],
{
    proof {
        reveal_strlit("a");
    }
    "a"
}

pub open spec fn spec_encode_proposal(p: ProposalV) -> Seq<char> {
    match p {
        ProposalV::Spending { descriptor, to_address, amount, description, psbt } => seq!['s']
            + spec_lpstr(descriptor) + spec_lpstr(to_address) + spec_hex(amount as nat, 16)
            + spec_lpstr(description) + spec_lpstr(psbt),
        ProposalV::ProofOfReserve { descriptor, message, psbt } => seq!['p'] + spec_lpstr(
            descriptor,
        ) + spec_lpstr(message) + spec_lpstr(psbt),
    }
}

pub open spec fn spec_parse_proposal(s: Seq<char>) -> Option<ProposalV> {
    if s.len() == 0 {
        None
    } else if s[0] == 's' {
        match spec_parse_lpstr_at(s, 1) {
            Some((descriptor, p1)) => match spec_parse_lpstr_at(s, p1) {
                Some((to_address, p2)) => match spec_parse_hex_at(s, p2, 16) {
                    Some((amount, p3)) => match spec_parse_lpstr_at(s, p3) {
                        Some((description, p4)) => match spec_parse_lpstr_at(s, p4) {
                            Some((psbt, p5)) => if p5 == s.len() {
                                Some(
                                    ProposalV::Spending {
                                        descriptor,
                                        to_address,
                                        amount: amount as u64,
                                        description,
                                        psbt,
                                    },
                                )
                            } else {
                                None
                            },
                            None => None,
                        },
                        None => None,
                    },
                    None => None,
                },
                None => None,
            },
            None => None,
        }
    } else if s[0] == 'p' {
        match spec_parse_lpstr_at(s, 1) {
            Some((descriptor, p1)) => match spec_parse_lpstr_at(s, p1) {
                Some((message, p2)) => match spec_parse_lpstr_at(s, p2) {
                    Some((psbt, p3)) => if p3 == s.len() {
                        Some(ProposalV::ProofOfReserve { descriptor, message, psbt })
                    } else {
                        None
                    },
                    None => None,
                },
                None => None,
            },
            None => None,
        }
    } else {
        None
    }
}

pub open spec fn proposal_fits(p: ProposalV) -> bool {
    match p {
        ProposalV::Spending { descriptor, to_address, amount, description, psbt } => str_fits(
            descriptor,
        ) && str_fits(to_address) && str_fits(description) && str_fits(psbt),
        ProposalV::ProofOfReserve { descriptor, message, psbt } => str_fits(descriptor)
            && str_fits(message) && str_fits(psbt),
    }
}

/// Parsing a proposal encoding yields the proposal back.
pub proof fn lemma_proposal_round_trip(p: ProposalV)
    requires
        proposal_fits(p),
    ensures
        spec_parse_proposal(spec_encode_proposal(p)) == Some(p),
{
    let s = spec_encode_proposal(p);
    lemma_pow16_32_val();
    match p {
        ProposalV::Spending { descriptor, to_address, amount, description, psbt } => {
            lemma_spec_hex_len(descriptor.len(), 16);
            lemma_spec_hex_len(to_address.len(), 16);
            lemma_spec_hex_len(amount as nat, 16);
            lemma_spec_hex_len(description.len(), 16);
            lemma_spec_hex_len(psbt.len(), 16);
            let p1 = 1 + 16 + descriptor.len() as int;
            let p2 = p1 + 16 + to_address.len();
            let p3 = p2 + 16;
            let p4 = p3 + 16 + description.len();
            let p5 = p4 + 16 + psbt.len();
            assert(s.subrange(1, p1) =~= spec_lpstr(descriptor));
            lemma_parse_lpstr_frame(s, 1, descriptor);
            assert(s.subrange(p1, p2 as int) =~= spec_lpstr(to_address));
            lemma_parse_lpstr_frame(s, p1, to_address);
            assert(s.subrange(p2 as int, p3 as int) =~= spec_hex(amount as nat, 16));
            lemma_parse_hex_at_frame(s, p2 as int, amount as nat, 16);
            assert(s.subrange(p3 as int, p4 as int) =~= spec_lpstr(description));
            lemma_parse_lpstr_frame(s, p3 as int, description);
            assert(s.subrange(p4 as int, p5 as int) =~= spec_lpstr(psbt));
            lemma_parse_lpstr_frame(s, p4 as int, psbt);
        },
        ProposalV::ProofOfReserve { descriptor, message, psbt } => {
            lemma_spec_hex_len(descriptor.len(), 16);
            lemma_spec_hex_len(message.len(), 16);
            lemma_spec_hex_len(psbt.len(), 16);
            let p1 = 1 + 16 + descriptor.len() as int;
            let p2 = p1 + 16 + message.len();
            let p3 = p2 + 16 + psbt.len();
            assert(s.subrange(1, p1) =~= spec_lpstr(descriptor));
            lemma_parse_lpstr_frame(s, 1, descriptor);
            assert(s.subrange(p1, p2 as int) =~= spec_lpstr(message));
            lemma_parse_lpstr_frame(s, p1, message);
            assert(s.subrange(p2 as int, p3 as int) =~= spec_lpstr(psbt));
            lemma_parse_lpstr_frame(s, p2 as int, psbt);
        },
    }
}

/// Write the proposal's content form.
pub fn encode_proposal(p: &Proposal) -> (r: String)
    ensures
        r@ == spec_encode_proposal(p@),
{
    let mut out = String::new();
    match p {
        Proposal::Spending { descriptor, to_address, amount, description, psbt } => {
            out.append(spending_tag_str());
            append_lpstr(&mut out, self_str(descriptor));
            append_lpstr(&mut out, self_str(to_address));
            proof {
                lemma_pow16_32_val();
            }
            append_hex(&mut out, *amount as u128, 16);
            append_lpstr(&mut out, self_str(description));
            append_lpstr(&mut out, self_str(psbt));
        },
        Proposal::ProofOfReserve { descriptor, message, psbt } => {
            out.append(proof_tag_str());
            append_lpstr(&mut out, self_str(descriptor));
            append_lpstr(&mut out, self_str(message));
            append_lpstr(&mut out, self_str(psbt));
        },
    }
    out
}

/// Read a proposal back from content.
pub fn parse_proposal(s: &str) -> (r: Option<Proposal>)
    ensures
        match r {
            Some(p) => spec_parse_proposal(s@) == Some(p@),
            None => spec_parse_proposal(s@) is None,
        },
{
    let total = s.unicode_len();
    if total == 0 {
        return None;
    }
    let c = s.get_char(0);
    if c == 's' {
        let (descriptor, p1) = match parse_lpstr(s, 1) {
            Some(x) => x,
            None => {
                return None;
            },
        };
        let (to_address, p2) = match parse_lpstr(s, p1) {
            Some(x) => x,
            None => {
                return None;
            },
        };
        if p2 > total || total - p2 < 16 {
            proof {
                lemma_hex_at_short(s@, p2 as int);
            }
            return None;
        }
        let amount128 = match parse_hex(s, p2, 16) {
            Some(x) => x,
            None => {
                return None;
            },
        };
        proof {
            lemma_parse_hex_bound(s@.subrange(p2 as int, p2 + 16));
            lemma_pow16_32_val();
        }
        let amount = amount128 as u64;
        let p3 = p2 + 16;
        let (description, p4) = match parse_lpstr(s, p3) {
            Some(x) => x,
            None => {
                return None;
            },
        };
        let (psbt, p5) = match parse_lpstr(s, p4) {
            Some(x) => x,
            None => {
                return None;
            },
        };
        if p5 != total {
            return None;
        }
        Some(Proposal::Spending { descriptor, to_address, amount, description, psbt })
    } else if c == 'p' {
        let (descriptor, p1) = match parse_lpstr(s, 1) {
            Some(x) => x,
            None => {
                return None;
            },
        };
        let (message, p2) = match parse_lpstr(s, p1) {
            Some(x) => x,
            None => {
                return None;
            },
        };
        let (psbt, p3) = match parse_lpstr(s, p2) {
            Some(x) => x,
            None => {
                return None;
            },
        };
        if p3 != total {
            return None;
        }
        Some(Proposal::ProofOfReserve { descriptor, message, psbt })
    } else {
        None
    }
}

/// A window that runs past the input holds no digits.
proof fn lemma_hex_at_short(s: Seq<char>, pos: int)
    requires
        pos >= 0,
        pos + 16 > s.len(),
    ensures
        spec_parse_hex_at(s, pos, 16) is None,
{
}

pub open spec fn spec_encode_approved(a: ApprovedProposalV) -> Seq<char> {
    match a {
        ApprovedProposalV::Spending { psbt } => seq!['s'] + spec_lpstr(psbt),
        ApprovedProposalV::ProofOfReserve { psbt } => seq!['p'] + spec_lpstr(psbt),
    }
}

pub open spec fn spec_parse_approved(s: Seq<char>) -> Option<ApprovedProposalV> {
    if s.len() == 0 {
        None
    } else if s[0] == 's' {
        match spec_parse_lpstr_at(s, 1) {
            Some((psbt, p1)) => if p1 == s.len() {
                Some(ApprovedProposalV::Spending { psbt })
            } else {
                None
            },
            None => None,
        }
    } else if s[0] == 'p' {
        match spec_parse_lpstr_at(s, 1) {
            Some((psbt, p1)) => if p1 == s.len() {
                Some(ApprovedProposalV::ProofOfReserve { psbt })
            } else {
                None
            },
            None => None,
        }
    } else {
        None
    }
}

pub open spec fn approved_fits(a: ApprovedProposalV) -> bool {
    match a {
        ApprovedProposalV::Spending { psbt } => str_fits(psbt),
        ApprovedProposalV::ProofOfReserve { psbt } => str_fits(psbt),
    }
}

/// Parsing an approval encoding yields the approval back.
pub proof fn lemma_approved_round_trip(a: ApprovedProposalV)
    requires
        approved_fits(a),
    ensures
        spec_parse_approved(spec_encode_approved(a)) == Some(a),
{
    let s = spec_encode_approved(a);
    match a {
        ApprovedProposalV::Spending { psbt } => {
            lemma_spec_hex_len(psbt.len(), 16);
            assert(s.subrange(1, 17 + psbt.len() as int) =~= spec_lpstr(psbt));
            lemma_parse_lpstr_frame(s, 1, psbt);
        },
        ApprovedProposalV::ProofOfReserve { psbt } => {
            lemma_spec_hex_len(psbt.len(), 16);
            assert(s.subrange(1, 17 + psbt.len() as int) =~= spec_lpstr(psbt));
            lemma_parse_lpstr_frame(s, 1, psbt);
        },
    }
}

/// Write the approval's content form.
pub fn encode_approved(a: &ApprovedProposal) -> (r: String)
    ensures
        r@ == spec_encode_approved(a@),
{
    let mut out = String::new();
    match a {
        ApprovedProposal::Spending { psbt } => {
            out.append(spending_tag_str());
            append_lpstr(&mut out, self_str(psbt));
        },
        ApprovedProposal::ProofOfReserve { psbt } => {
            out.append(proof_tag_str());
            append_lpstr(&mut out, self_str(psbt));
        },
    }
    out
}

/// Read an approval back from content.
pub fn parse_approved(s: &str) -> (r: Option<ApprovedProposal>)
    ensures
        match r {
            Some(a) => spec_parse_approved(s@) == Some(a@),
            None => spec_parse_approved(s@) is None,
        },
{
    let total = s.unicode_len();
    if total == 0 {
        return None;
    }
    let c = s.get_char(0);
    if c == 's' {
        let (psbt, p1) = match parse_lpstr(s, 1) {
            Some(x) => x,
            None => {
                return None;
            },
        };
        if p1 != total {
            return None;
        }
        Some(ApprovedProposal::Spending { psbt })
    } else if c == 'p' {
        let (psbt, p1) = match parse_lpstr(s, 1) {
            Some(x) => x,
            None => {
                return None;
            },
        };
        if p1 != total {
            return None;
        }
        Some(ApprovedProposal::ProofOfReserve { psbt })
    } else {
        None
    }
}

pub open spec fn spec_encode_completed(c: CompletedProposalV) -> Seq<char> {
    match c {
        CompletedProposalV::Spending { txid, description, tx } => seq!['s'] + spec_hex(
            txid.hi as nat,
            32,
        ) + spec_hex(txid.lo as nat, 32) + spec_lpstr(description) + spec_lpstr(tx),
        CompletedProposalV::ProofOfReserve { message, descriptor, psbt } => seq!['p'] + spec_lpstr(
            message,
        ) + spec_lpstr(descriptor) + spec_lpstr(psbt),
    }
}

pub open spec fn spec_parse_completed(s: Seq<char>) -> Option<CompletedProposalV> {
    if s.len() == 0 {
        None
    } else if s[0] == 's' {
        match spec_parse_hex_at(s, 1, 32) {
            Some((hi, p1)) => match spec_parse_hex_at(s, p1, 32) {
                Some((lo, p2)) => match spec_parse_lpstr_at(s, p2) {
                    Some((description, p3)) => match spec_parse_lpstr_at(s, p3) {
                        Some((tx, p4)) => if p4 == s.len() {
                            Some(
                                CompletedProposalV::Spending {
                                    txid: Txid { hi: hi as u128, lo: lo as u128 },
                                    description,
                                    tx,
                                },
                            )
                        } else {
                            None
                        },
                        None => None,
                    },
                    None => None,
                },
                None => None,
            },
            None => None,
        }
    } else if s[0] == 'p' {
        match spec_parse_lpstr_at(s, 1) {
            Some((message, p1)) => match spec_parse_lpstr_at(s, p1) {
                Some((descriptor, p2)) => match spec_parse_lpstr_at(s, p2) {
                    Some((psbt, p3)) => if p3 == s.len() {
                        Some(CompletedProposalV::ProofOfReserve { message, descriptor, psbt })
                    } else {
                        None
                    },
                    None => None,
                },
                None => None,
            },
            None => None,
        }
    } else {
        None
    }
}

pub open spec fn completed_fits(c: CompletedProposalV) -> bool {
    match c {
        CompletedProposalV::Spending { txid, description, tx } => str_fits(description) && str_fits(
            tx,
        ),
        CompletedProposalV::ProofOfReserve { message, descriptor, psbt } => str_fits(message)
            && str_fits(descriptor) && str_fits(psbt),
    }
}

/// Parsing a completion encoding yields the completion back.
pub proof fn lemma_completed_round_trip(c: CompletedProposalV)
    requires
        completed_fits(c),
    ensures
        spec_parse_completed(spec_encode_completed(c)) == Some(c),
{
    let s = spec_encode_completed(c);
    lemma_pow16_32_val();
    match c {
        CompletedProposalV::Spending { txid, description, tx } => {
            lemma_spec_hex_len(txid.hi as nat, 32);
            lemma_spec_hex_len(txid.lo as nat, 32);
            lemma_spec_hex_len(description.len(), 16);
            lemma_spec_hex_len(tx.len(), 16);
            let p1 = 33int;
            let p2 = 65int;
            let p3 = p2 + 16 + description.len();
            let p4 = p3 + 16 + tx.len();
            assert(s.subrange(1, p1) =~= spec_hex(txid.hi as nat, 32));
            lemma_parse_hex_at_frame(s, 1, txid.hi as nat, 32);
            assert(s.subrange(p1, p2) =~= spec_hex(txid.lo as nat, 32));
            lemma_parse_hex_at_frame(s, p1, txid.lo as nat, 32);
            assert(s.subrange(p2, p3 as int) =~= spec_lpstr(description));
            lemma_parse_lpstr_frame(s, p2, description);
            assert(s.subrange(p3 as int, p4 as int) =~= spec_lpstr(tx));
            lemma_parse_lpstr_frame(s, p3 as int, tx);
        },
        CompletedProposalV::ProofOfReserve { message, descriptor, psbt } => {
            lemma_spec_hex_len(message.len(), 16);
            lemma_spec_hex_len(descriptor.len(), 16);
            lemma_spec_hex_len(psbt.len(), 16);
            let p1 = 1 + 16 + message.len() as int;
            let p2 = p1 + 16 + descriptor.len();
            let p3 = p2 + 16 + psbt.len();
            assert(s.subrange(1, p1) =~= spec_lpstr(message));
            lemma_parse_lpstr_frame(s, 1, message);
            assert(s.subrange(p1, p2 as int) =~= spec_lpstr(descriptor));
            lemma_parse_lpstr_frame(s, p1, descriptor);
            assert(s.subrange(p2 as int, p3 as int) =~= spec_lpstr(psbt));
            lemma_parse_lpstr_frame(s, p2 as int, psbt);
        },
    }
}

/// Write the completion's content form.
pub fn encode_completed(c: &CompletedProposal) -> (r: String)
    ensures
        r@ == spec_encode_completed(c@),
{
    let mut out = String::new();
    match c {
        CompletedProposal::Spending { txid, description, tx } => {
            out.append(spending_tag_str());
            proof {
                lemma_pow16_32_val();
            }
            append_hex(&mut out, txid.hi, 32);
            append_hex(&mut out, txid.lo, 32);
            append_lpstr(&mut out, self_str(description));
            append_lpstr(&mut out, self_str(tx));
        },
        CompletedProposal::ProofOfReserve { message, descriptor, psbt } => {
            out.append(proof_tag_str());
            append_lpstr(&mut out, self_str(message));
            append_lpstr(&mut out, self_str(descriptor));
            append_lpstr(&mut out, self_str(psbt));
        },
    }
    out
}

/// Read a completion back from content.
pub fn parse_completed(s: &str) -> (r: Option<CompletedProposal>)
    ensures
        match r {
            Some(c) => spec_parse_completed(s@) == Some(c@),
            None => spec_parse_completed(s@) is None,
        },
{
    let total = s.unicode_len();
    if total == 0 {
        return None;
    }
    let c = s.get_char(0);
    if c == 's' {
        if total < 33 {
            proof {
                lemma_hex32_at_short(s@, 1);
            }
            return None;
        }
        let hi = match parse_hex(s, 1, 32) {
            Some(x) => x,
            None => {
                return None;
            },
        };
        if total < 65 {
            proof {
                lemma_hex32_at_short(s@, 33);
            }
            return None;
        }
        let lo = match parse_hex(s, 33, 32) {
            Some(x) => x,
            None => {
                return None;
            },
        };
        let (description, p3) = match parse_lpstr(s, 65) {
            Some(x) => x,
            None => {
                return None;
            },
        };
        let (tx, p4) = match parse_lpstr(s, p3) {
            Some(x) => x,
            None => {
                return None;
            },
        };
        if p4 != total {
            return None;
        }
        Some(CompletedProposal::Spending { txid: Txid { hi, lo }, description, tx })
    } else if c == 'p' {
        let (message, p1) = match parse_lpstr(s, 1) {
            Some(x) => x,
            None => {
                return None;
            },
        };
        let (descriptor, p2) = match parse_lpstr(s, p1) {
            Some(x) => x,
            None => {
                return None;
            },
        };
        let (psbt, p3) = match parse_lpstr(s, p2) {
            Some(x) => x,
            None => {
                return None;
            },
        };
        if p3 != total {
            return None;
        }
        Some(CompletedProposal::ProofOfReserve { message, descriptor, psbt })
    } else {
        None
    }
}

/// A window that runs past the input holds no digits.
proof fn lemma_hex32_at_short(s: Seq<char>, pos: int)
    requires
        pos >= 0,
        pos + 32 > s.len(),
    ensures
        spec_parse_hex_at(s, pos, 32) is None,
{
}

pub open spec fn signer_type_char(t: SignerType) -> char {
    match t {
        SignerType::Seed => 's',
        SignerType::Hardware => 'h',
        SignerType::AirGap => 'a',
    }
}

pub open spec fn spec_encode_signer(g: SignerV) -> Seq<char> {
    seq![signer_type_char(g.signer_type)] + spec_lpstr(g.name) + spec_lpstr(g.fingerprint)
        + spec_lpstr(g.descriptor)
}

pub open spec fn spec_parse_signer(s: Seq<char>) -> Option<SignerV> {
    if s.len() == 0 {
        None
    } else {
        let t = if s[0] == 's' {
            Some(SignerType::Seed)
        } else if s[0] == 'h' {
            Some(SignerType::Hardware)
        } else if s[0] == 'a' {
            Some(SignerType::AirGap)
        } else {
            None
        };
        match t {
            Some(signer_type) => match spec_parse_lpstr_at(s, 1) {
                Some((name, p1)) => match spec_parse_lpstr_at(s, p1) {
                    Some((fingerprint, p2)) => match spec_parse_lpstr_at(s, p2) {
                        Some((descriptor, p3)) => if p3 == s.len() {
                            Some(SignerV { name, fingerprint, descriptor, signer_type })
                        } else {
                            None
                        },
                        None => None,
                    },
                    None => None,
                },
                None => None,
            },
            None => None,
        }
    }
}

pub open spec fn signer_fits(g: SignerV) -> bool {
    str_fits(g.name) && str_fits(g.fingerprint) && str_fits(g.descriptor)
}

/// Parsing a signer encoding yields the signer back.
pub proof fn lemma_signer_round_trip(g: SignerV)
    requires
        signer_fits(g),
    ensures
        spec_parse_signer(spec_encode_signer(g)) == Some(g),
{
    let s = spec_encode_signer(g);
    lemma_spec_hex_len(g.name.len(), 16);
    lemma_spec_hex_len(g.fingerprint.len(), 16);
    lemma_spec_hex_len(g.descriptor.len(), 16);
    let p1 = 1 + 16 + g.name.len() as int;
    let p2 = p1 + 16 + g.fingerprint.len();
    let p3 = p2 + 16 + g.descriptor.len();
    assert(s.subrange(1, p1) =~= spec_lpstr(g.name));
    lemma_parse_lpstr_frame(s, 1, g.name);
    assert(s.subrange(p1, p2 as int) =~= spec_lpstr(g.fingerprint));
    lemma_parse_lpstr_frame(s, p1, g.fingerprint);
    assert(s.subrange(p2 as int, p3 as int) =~= spec_lpstr(g.descriptor));
    lemma_parse_lpstr_frame(s, p2 as int, g.descriptor);
}

/// Write the signer's content form.
pub fn encode_signer(g: &Signer) -> (r: String)
    ensures
        r@ == spec_encode_signer(g@),
{
    let mut out = String::new();
    match g.signer_type {
        SignerType::Seed => out.append(spending_tag_str()),
        SignerType::Hardware => out.append(hardware_tag_str()),
        SignerType::AirGap => out.append(airgap_tag_str()),
    }
    append_lpstr(&mut out, self_str(&g.name));
    append_lpstr(&mut out, self_str(&g.fingerprint));
    append_lpstr(&mut out, self_str(&g.descriptor));
    out
}

/// Read a signer back from content.
pub fn parse_signer(s: &str) -> (r: Option<Signer>)
    ensures
        match r {
            Some(g) => spec_parse_signer(s@) == Some(g@),
            None => spec_parse_signer(s@) is None,
        },
{
    let total = s.unicode_len();
    if total == 0 {
        return None;
    }
    let c = s.get_char(0);
    let signer_type = if c == 's' {
        SignerType::Seed
    } else if c == 'h' {
        SignerType::Hardware
    } else if c == 'a' {
        SignerType::AirGap
    } else {
        return None;
    };
    let (name, p1) = match parse_lpstr(s, 1) {
        Some(x) => x,
        None => {
            return None;
        },
    };
    let (fingerprint, p2) = match parse_lpstr(s, p1) {
        Some(x) => x,
        None => {
            return None;
        },
    };
    let (descriptor, p3) = match parse_lpstr(s, p2) {
        Some(x) => x,
        None => {
            return None;
        },
    };
    if p3 != total {
        return None;
    }
    Some(Signer { name, fingerprint, descriptor, signer_type })
}

pub open spec fn spec_encode_shared_signer(g: SharedSignerV) -> Seq<char> {
    spec_lpstr(g.fingerprint) + spec_lpstr(g.descriptor)
}

pub open spec fn spec_parse_shared_signer(s: Seq<char>) -> Option<SharedSignerV> {
    match spec_parse_lpstr_at(s, 0) {
        Some((fingerprint, p1)) => match spec_parse_lpstr_at(s, p1) {
            Some((descriptor, p2)) => if p2 == s.len() {
                Some(SharedSignerV { fingerprint, descriptor })
            } else {
                None
            },
            None => None,
        },
        None => None,
    }
}

pub open spec fn shared_signer_fits(g: SharedSignerV) -> bool {
    str_fits(g.fingerprint) && str_fits(g.descriptor)
}

/// Parsing a shared-signer encoding yields it back.
pub proof fn lemma_shared_signer_round_trip(g: SharedSignerV)
    requires
        shared_signer_fits(g),
    ensures
        spec_parse_shared_signer(spec_encode_shared_signer(g)) == Some(g),
{
    let s = spec_encode_shared_signer(g);
    lemma_spec_hex_len(g.fingerprint.len(), 16);
    lemma_spec_hex_len(g.descriptor.len(), 16);
    let p1 = 16 + g.fingerprint.len() as int;
    let p2 = p1 + 16 + g.descriptor.len();
    assert(s.subrange(0, p1) =~= spec_lpstr(g.fingerprint));
    lemma_parse_lpstr_frame(s, 0, g.fingerprint);
    assert(s.subrange(p1, p2 as int) =~= spec_lpstr(g.descriptor));
    lemma_parse_lpstr_frame(s, p1, g.descriptor);
}

/// Write the shared signer's content form.
pub fn encode_shared_signer(g: &SharedSigner) -> (r: String)
    ensures
        r@ == spec_encode_shared_signer(g@),
{
    let mut out = String::new();
    append_lpstr(&mut out, self_str(&g.fingerprint));
    append_lpstr(&mut out, self_str(&g.descriptor));
    out
}

/// Read a shared signer back from content.
pub fn parse_shared_signer(s: &str) -> (r: Option<SharedSigner>)
    ensures
        match r {
            Some(g) => spec_parse_shared_signer(s@) == Some(g@),
            None => spec_parse_shared_signer(s@) is None,
        },
{
    let total = s.unicode_len();
    let (fingerprint, p1) = match parse_lpstr(s, 0) {
        Some(x) => x,
        None => {
            return None;
        },
    };
    let (descriptor, p2) = match parse_lpstr(s, p1) {
        Some(x) => x,
        None => {
            return None;
        },
    };
    if p2 != total {
        return None;
    }
    Some(SharedSigner { fingerprint, descriptor })
}


impl Policy {
    /// An owned copy with the same value.
    pub fn duplicate(&self) -> (r: Policy)
        ensures
            r@ == self@,
    {
        Policy {
            name: self.name.clone(),
            description: self.description.clone(),
            descriptor: self.descriptor.clone(),
        }
    }
}

impl Proposal {
    /// An owned copy with the same value.
    pub fn duplicate(&self) -> (r: Proposal)
        ensures
            r@ == self@,
    {
        match self {
            Proposal::Spending { descriptor, to_address, amount, description, psbt } => {
                Proposal::Spending {
                    descriptor: descriptor.clone(),
                    to_address: to_address.clone(),
                    amount: *amount,
                    description: description.clone(),
                    psbt: psbt.clone(),
                }
            },
            Proposal::ProofOfReserve { descriptor, message, psbt } => {
                Proposal::ProofOfReserve {
                    descriptor: descriptor.clone(),
                    message: message.clone(),
                    psbt: psbt.clone(),
                }
            },
        }
    }
}

impl ApprovedProposal {
    /// An owned copy with the same value.
    pub fn duplicate(&self) -> (r: ApprovedProposal)
        ensures
            r@ == self@,
    {
        match self {
            ApprovedProposal::Spending { psbt } => ApprovedProposal::Spending {
                psbt: psbt.clone(),
            },
            ApprovedProposal::ProofOfReserve { psbt } => ApprovedProposal::ProofOfReserve {
                psbt: psbt.clone(),
            },
        }
    }
}

impl CompletedProposal {
    /// An owned copy with the same value.
    pub fn duplicate(&self) -> (r: CompletedProposal)
        ensures
            r@ == self@,
    {
        match self {
            CompletedProposal::Spending { txid, description, tx } => {
                CompletedProposal::Spending {
                    txid: *txid,
                    description: description.clone(),
                    tx: tx.clone(),
                }
            },
            CompletedProposal::ProofOfReserve { message, descriptor, psbt } => {
                CompletedProposal::ProofOfReserve {
                    message: message.clone(),
                    descriptor: descriptor.clone(),
                    psbt: psbt.clone(),
                }
            },
        }
    }
}

impl Signer {
    /// An owned copy with the same value.
    pub fn duplicate(&self) -> (r: Signer)
        ensures
            r@ == self@,
    {
        Signer {
            name: self.name.clone(),
            fingerprint: self.fingerprint.clone(),
            descriptor: self.descriptor.clone(),
            signer_type: self.signer_type,
        }
    }
}

impl SharedSigner {
    /// An owned copy with the same value.
    pub fn duplicate(&self) -> (r: SharedSigner)
        ensures
            r@ == self@,
    {
        SharedSigner {
            fingerprint: self.fingerprint.clone(),
            descriptor: self.descriptor.clone(),
        }
    }
}

} // verus!
