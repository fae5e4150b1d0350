//! Declarations of the outside crate's types that cross this library's
//! trusted boundary. Verus treats a value of such a type as opaque.

use vstd::prelude::*;

verus! {

#[verifier::external_type_specification]
#[verifier::external_body]
pub struct ExNostrKeys(nostr::key::Keys);

#[verifier::external_type_specification]
#[verifier::external_body]
pub struct ExNostrPublicKey(nostr::key::PublicKey);

#[verifier::external_type_specification]
#[verifier::external_body]
pub struct ExNostrEventBuilder(nostr::event::EventBuilder);

#[verifier::external_type_specification]
#[verifier::external_body]
pub struct ExNostrConnectMethod(nostr::nips::nip46::NostrConnectMethod);

#[verifier::external_type_specification]
#[verifier::external_body]
pub struct ExNostrConnectRequest(nostr::nips::nip46::NostrConnectRequest);

#[verifier::external_type_specification]
#[verifier::external_body]
pub struct ExNostrResponseResult(nostr::nips::nip46::ResponseResult);

} // verus!
