//! The descriptor layer, relied on from bdk's miniscript.
//!
//! A policy is created from a descriptor string or from a miniscript
//! policy that compiles into one. Parsing and compiling are functions of
//! the text alone, so their results carry names; the policy constructors
//! are then verified against those names.

use bdk::miniscript::ForEachKey;
use core::str::FromStr;
use vstd::prelude::*;

use crate::domain::Policy;
use crate::ids::Network;
use crate::types::Error;

verus! {

/// The canonical form of a descriptor string, when it parses.
pub uninterp spec fn canonical_descriptor_of(s: Seq<char>) -> Option<Seq<char>>;

/// The descriptor a miniscript policy compiles to, when it does.
pub uninterp spec fn compiled_policy_of(s: Seq<char>) -> Option<Seq<char>>;

/// The first public key of a descriptor, when it parses.
pub uninterp spec fn first_descriptor_key_of(s: Seq<char>) -> Option<Seq<char>>;

/// Relies on bdk's `miniscript::Descriptor::<DescriptorPublicKey>::from_str`
/// and its `Display`: parse a descriptor and write its canonical form.
#[verifier::external_body]
pub fn try_parse_descriptor(s: &String) -> (r: Option<String>)
    ensures
        r is Some <==> canonical_descriptor_of(s@) is Some,
        r is Some ==> r.unwrap()@ == canonical_descriptor_of(s@).unwrap(),
{
    bdk::miniscript::Descriptor::<bdk::miniscript::descriptor::DescriptorPublicKey>::from_str(
        s.as_str(),
    ).ok().map(|d| d.to_string())
}

/// Relies on bdk's `miniscript::policy::Concrete::from_str` and
/// `compile_tr`: compile a miniscript policy into a taproot descriptor.
#[verifier::external_body]
pub fn try_compile_policy(s: &String) -> (r: Option<String>)
    ensures
        r is Some <==> compiled_policy_of(s@) is Some,
        r is Some ==> r.unwrap()@ == compiled_policy_of(s@).unwrap(),
{
    let policy = bdk::miniscript::policy::Concrete::<
        bdk::miniscript::descriptor::DescriptorPublicKey,
    >::from_str(s.as_str()).ok()?;
    policy.compile_tr(None).ok().map(|d| d.to_string())
}

/// Relies on bdk's `miniscript::Descriptor` parsing and `ForEachKey`: the
/// first key a descriptor mentions, written out.
#[verifier::external_body]
pub fn descriptor_first_key(s: &String) -> (r: Option<String>)
    ensures
        r is Some <==> first_descriptor_key_of(s@) is Some,
        r is Some ==> r.unwrap()@ == first_descriptor_key_of(s@).unwrap(),
{
    let d = bdk::miniscript::Descriptor::<
        bdk::miniscript::descriptor::DescriptorPublicKey,
    >::from_str(s.as_str()).ok()?;
    let mut first: Option<String> = None;
    d.for_each_key(|k| {
        if first.is_none() {
            first = Some(k.to_string());
        }
        true
    });
    first
}

impl Policy {
    /// Build a policy from a descriptor string. Fails when the descriptor
    /// does not parse; the canonical form is stored.
    pub fn from_descriptor(
        name: String,
        description: String,
        descriptor: String,
        network: Network,
    ) -> (r: Result<Policy, Error>)
        ensures
            r is Ok <==> canonical_descriptor_of(descriptor@) is Some,
            r is Ok ==> r.unwrap()@.name == name@ && r.unwrap()@.description == description@
                && r.unwrap()@.descriptor == canonical_descriptor_of(descriptor@).unwrap(),
            r is Err ==> r == Err::<Policy, Error>(Error::InvalidDescriptor),
    {
        let _ = network;
        match try_parse_descriptor(&descriptor) {
            Some(canonical) => Ok(Policy { name, description, descriptor: canonical }),
            None => Err(Error::InvalidDescriptor),
        }
    }

    /// Build a policy from a miniscript policy. Fails when it does not
    /// compile; the compiled descriptor is stored.
    pub fn from_policy(
        name: String,
        description: String,
        policy: String,
        network: Network,
    ) -> (r: Result<Policy, Error>)
        ensures
            r is Ok <==> compiled_policy_of(policy@) is Some,
            r is Ok ==> r.unwrap()@.name == name@ && r.unwrap()@.description == description@
                && r.unwrap()@.descriptor == compiled_policy_of(policy@).unwrap(),
            r is Err ==> r == Err::<Policy, Error>(Error::InvalidDescriptor),
    {
        let _ = network;
        match try_compile_policy(&policy) {
            Some(compiled) => Ok(Policy { name, description, descriptor: compiled }),
            None => Err(Error::InvalidDescriptor),
        }
    }

    /// Build a policy from a descriptor string, or failing that from a
    /// miniscript policy.
    pub fn from_desc_or_policy(
        name: String,
        description: String,
        desc_or_policy: String,
        network: Network,
    ) -> (r: Result<Policy, Error>)
        ensures
            r is Ok <==> (canonical_descriptor_of(desc_or_policy@) is Some || compiled_policy_of(
                desc_or_policy@,
            ) is Some),
            r is Ok ==> r.unwrap()@.name == name@ && r.unwrap()@.description == description@
                && r.unwrap()@.descriptor == match canonical_descriptor_of(desc_or_policy@) {
                    Some(c) => c,
                    None => compiled_policy_of(desc_or_policy@).unwrap(),
                },
            r is Err ==> r == Err::<Policy, Error>(Error::InvalidDescriptor),
    {
        match try_parse_descriptor(&desc_or_policy) {
            Some(canonical) => Ok(Policy { name, description, descriptor: canonical }),
            None => Policy::from_policy(name, description, desc_or_policy, network),
        }
    }
}

} // verus!
