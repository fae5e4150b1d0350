//! The signing and encryption layer, relied on from the `nostr` crate.
//!
//! Every item here is trusted: its contract states only what the outside
//! source shows. Key derivation, event ids and decryption are functions of
//! their inputs alone, so their results carry names; encryption draws a
//! random nonce and signing draws auxiliary randomness, so nothing is
//! claimed of those outputs beyond the fields the caller handed in.

use nostr::event::FinalizeEvent;
use nostr::event::SignEvent as NostrSignEvent;
use nostr::nips::nip46::{
    NostrConnectMessage, NostrConnectMethod, NostrConnectRequest, NostrConnectResponse,
    ResponseResult,
};
use vstd::prelude::*;

use crate::event::{Event, Tag};
use crate::ids::{EventId, KeyPair, XOnlyPublicKey, SecretKey};
use crate::maps::copy_vec;
use crate::types::{ConnectMethod, Error};

verus! {

/// The public key derived from a secret key: key derivation is a function
/// of the secret alone.
pub uninterp spec fn pubkey_of_secret(sk_hi: u128, sk_lo: u128) -> XOnlyPublicKey;

/// Whether a 256-bit value is the x coordinate of a curve point: what the
/// signing layer's point parsing accepts, a function of the value alone.
pub uninterp spec fn curve_point(hi: u128, lo: u128) -> bool;

/// The secp256k1 group order, split in two halves.
pub const GROUP_ORDER_HI: u128 = 0xFFFFFFFFFFFFFFFFFFFFFFFFFFFFFFFE;

pub const GROUP_ORDER_LO: u128 = 0xBAAEDCE6AF48A03BBFD25E8CD0364141;

/// Whether a 256-bit value is a valid secret key: non-zero and below the
/// secp256k1 group order. The signing layer accepts exactly these.
pub open spec fn secret_key_valid(sk: SecretKey) -> bool {
    !(sk.hi == 0 && sk.lo == 0) && (sk.hi < GROUP_ORDER_HI || (sk.hi == GROUP_ORDER_HI && sk.lo
        < GROUP_ORDER_LO))
}

/// A keypair the signing layer accepts: a valid secret, the public key it
/// derives to, and that key a point on the curve.
pub open spec fn key_wf(k: KeyPair) -> bool {
    secret_key_valid(k.secret) && k.public == pubkey_of_secret(k.secret.hi, k.secret.lo)
        && curve_point(k.public.hi, k.public.lo)
}

/// The id of a relay event: the hash of its canonical form, a function of
/// the author, the creation time, the kind, the tags and the content.
pub uninterp spec fn event_id_of(
    author: XOnlyPublicKey,
    created_at: u64,
    kind: u16,
    tags: Seq<Tag>,
    content: Seq<char>,
) -> EventId;

/// What decrypting a ciphertext yields: decryption is a function of the
/// reader's secret, the counterparty's key and the ciphertext.
pub uninterp spec fn nip04_plain(
    sk_hi: u128,
    sk_lo: u128,
    counterparty: XOnlyPublicKey,
    ciphertext: Seq<char>,
) -> Option<Seq<char>>;

/// Relies on nostr's `XOnlyPublicKey::from_slice`: not every 256-bit value is a
/// point on the curve, so this can fail.
#[verifier::external_body]
fn pk_to_nostr(pk: &XOnlyPublicKey) -> Result<nostr::key::PublicKey, Error> {
    nostr::key::PublicKey::from_slice(&be_bytes(pk.hi, pk.lo)).map_err(|_| Error::Crypto)
}

/// Relies on nostr's `XOnlyPublicKey::as_bytes`.
#[verifier::external_body]
fn pk_from_nostr(pk: &nostr::key::PublicKey) -> XOnlyPublicKey {
    let b = pk.as_bytes();
    XOnlyPublicKey {
        hi: u128::from_be_bytes(b[..16].try_into().unwrap()),
        lo: u128::from_be_bytes(b[16..].try_into().unwrap()),
    }
}

/// Relies on nostr's `SecretKey::from_slice` and `KeyPair::new`: not every
/// 256-bit value is a valid scalar, so this can fail.
#[verifier::external_body]
fn keys_to_nostr(keys: &KeyPair) -> Result<nostr::key::Keys, Error> {
    let sk = nostr::key::SecretKey::from_slice(&be_bytes(keys.secret.hi, keys.secret.lo)).map_err(
        |_| Error::Crypto,
    )?;
    Ok(nostr::key::Keys::new(sk))
}

/// Relies on nostr's `Keys::generate`: a fresh random keypair. Its secret
/// is a valid scalar, its public key is the one derived from that secret,
/// and that key is a point on the curve.
#[verifier::external_body]
pub fn generate_shared_key() -> (r: KeyPair)
    ensures
        key_wf(r),
{
    let k = nostr::key::Keys::generate();
    let sb = k.secret_key().to_secret_bytes();
    let pb = k.public_key().to_bytes();
    KeyPair {
        secret: SecretKey {
            hi: u128::from_be_bytes(sb[..16].try_into().unwrap()),
            lo: u128::from_be_bytes(sb[16..].try_into().unwrap()),
        },
        public: XOnlyPublicKey {
            hi: u128::from_be_bytes(pb[..16].try_into().unwrap()),
            lo: u128::from_be_bytes(pb[16..].try_into().unwrap()),
        },
    }
}

/// Relies on nostr's `SecretKey::from_slice` and `Keys::new`: the keypair
/// of a given secret. Succeeds exactly on a valid scalar (non-zero, below
/// the group order); the public key is then the one derived from the
/// secret, a point on the curve.
#[verifier::external_body]
pub fn keys_from_secret(sk: &SecretKey) -> (r: Result<KeyPair, Error>)
    ensures
        r is Ok <==> secret_key_valid(*sk),
        r is Ok ==> r.unwrap().secret == *sk && key_wf(r.unwrap()),
        r is Err ==> r->Err_0 == Error::Crypto,
{
    let keys = keys_to_nostr(&KeyPair { secret: *sk, public: XOnlyPublicKey { hi: 0, lo: 0 } })?;
    Ok(KeyPair { secret: *sk, public: pk_from_nostr(&keys.public_key()) })
}

/// Relies on nostr's `EventBuilder` and the signing impl of `KeyPair`: the
/// signed event keeps the kind, tags, content and creation time it was
/// built from; its author is the signing key's public key; its id is the
/// hash of its canonical form. Signing with a valid secret cannot fail
/// (recipient tags are carried without point checks in this version).
/// Signing draws auxiliary randomness, so nothing is claimed of the
/// signature.
#[verifier::external_body]
pub fn sign_event(
    keys: &KeyPair,
    kind: u16,
    tags: &Vec<Tag>,
    content: &String,
    created_at: u64,
) -> (r: Result<Event, Error>)
    ensures
        r is Ok ==> r.unwrap()@.kind == kind && r.unwrap()@.tags == tags@ && r.unwrap()@.content
            == content@ && r.unwrap()@.created_at == created_at && r.unwrap()@.pubkey
            == pubkey_of_secret(keys.secret.hi, keys.secret.lo) && r.unwrap()@.id == event_id_of(
            pubkey_of_secret(keys.secret.hi, keys.secret.lo),
            created_at,
            kind,
            tags@,
            content@,
        ),
        secret_key_valid(keys.secret) ==> r is Ok,
        r is Err ==> r->Err_0 == Error::Crypto,
{
    let k = keys_to_nostr(keys)?;
    finish_signed(&k, tagged_builder(kind, content, tags)?, kind, tags, content, created_at)
}

/// Relies on nostr's `EventBuilder`, `Tag` constructors and `Kind`: an
/// event under construction, carrying our kind, tags and content over one
/// for one.
#[verifier::external_body]
fn tagged_builder(kind: u16, content: &String, tags: &Vec<Tag>) -> Result<
    nostr::event::EventBuilder,
    Error,
> {
    let mut nt: Vec<nostr::event::Tag> = Vec::new();
    for t in tags.iter() {
        nt.push(match t {
            Tag::Event(d) => nostr::event::Tag::event(
                nostr::event::EventId::from_byte_array(be_bytes(d.hi, d.lo)),
            ),
            Tag::PubKey(pk) => nostr::event::Tag::public_key(pk_to_nostr(pk)?),
            Tag::Expiration(x) => nostr::event::Tag::expiration((*x).into()),
        });
    }
    Ok(nostr::event::EventBuilder::new(nostr::event::Kind::from_u16(kind), content.as_str()).tags(
        nt,
    ))
}

/// Relies on the builder's `custom_created_at` and the signing impl of
/// nostr's `Keys`: finish and sign one event, reading its id back out.
#[verifier::external_body]
fn finish_signed(
    k: &nostr::key::Keys,
    b: nostr::event::EventBuilder,
    kind: u16,
    tags: &Vec<Tag>,
    content: &String,
    created_at: u64,
) -> Result<Event, Error> {
    let ev = b.custom_created_at(created_at.into()).finalize(k).map_err(|_| Error::Crypto)?;
    let d = ev.id.as_bytes();
    let hi = u128::from_be_bytes(d[..16].try_into().unwrap());
    let lo = u128::from_be_bytes(d[16..].try_into().unwrap());
    let id = EventId { hi, lo };
    let pubkey = pk_from_nostr(&ev.pubkey);
    let sig = ev.sig.to_string();
    Ok(Event { id, pubkey, created_at, kind, tags: copy_vec(tags), content: content.clone(), sig })
}

/// Relies on nothing outside: lay two halves out big-endian, for the byte
/// constructors above.
#[verifier::external_body]
fn be_bytes(hi: u128, lo: u128) -> [u8; 32] {
    let mut b = [0u8; 32];
    b[..16].copy_from_slice(&hi.to_be_bytes());
    b[16..].copy_from_slice(&lo.to_be_bytes());
    b
}

/// Relies on nostr's `nip04::encrypt` (AES-256-CBC over an ECDH shared
/// point, with a random nonce). It succeeds whenever the secret is valid
/// and the recipient is a curve point. The nonce makes the ciphertext
/// random, so nothing is claimed of it in general; but the cipher is
/// deterministic given the shared point, so encrypting to one's own
/// derived key yields a text that decrypts back to the plaintext.
#[verifier::external_body]
pub fn nip04_encrypt(keys: &KeyPair, to: &XOnlyPublicKey, plaintext: &String) -> (r: Result<
    String,
    Error,
>)
    ensures
        (secret_key_valid(keys.secret) && curve_point(to.hi, to.lo)) ==> r is Ok,
        (r is Ok && *to == pubkey_of_secret(keys.secret.hi, keys.secret.lo)) ==> nip04_plain(
            keys.secret.hi,
            keys.secret.lo,
            *to,
            r.unwrap()@,
        ) == Some(plaintext@),
        r is Err ==> r->Err_0 == Error::Crypto,
{
    let k = keys_to_nostr(keys)?;
    let pk = pk_to_nostr(to)?;
    nostr::nips::nip04::encrypt(k.secret_key(), &pk, plaintext.as_str()).map_err(|_| Error::Crypto)
}

/// Relies on nostr's `nip04::decrypt`: deterministic in the reader's
/// secret, the counterparty's key and the ciphertext.
#[verifier::external_body]
pub fn nip04_decrypt(keys: &KeyPair, from: &XOnlyPublicKey, ciphertext: &String) -> (r: Result<
    String,
    Error,
>)
    ensures
        r is Ok <==> nip04_plain(keys.secret.hi, keys.secret.lo, *from, ciphertext@) is Some,
        r is Ok ==> r.unwrap()@ == nip04_plain(
            keys.secret.hi,
            keys.secret.lo,
            *from,
            ciphertext@,
        ).unwrap(),
        r is Err ==> r->Err_0 == Error::Crypto,
{
    let k = keys_to_nostr(keys).map_err(|_| Error::Crypto)?;
    let pk = pk_to_nostr(from)?;
    nostr::nips::nip04::decrypt(k.secret_key(), &pk, ciphertext.as_str()).map_err(|_| Error::Crypto)
}

/// What parsing a remote-signing message yields: its request id and its
/// method, a function of the message text.
pub uninterp spec fn nip46_parsed(content: Seq<char>) -> Option<(Seq<char>, ConnectMethod)>;

/// Relies on nostr's `NostrConnectMessage::from_json` and `to_request`:
/// deterministic in the message text.
#[verifier::external_body]
pub fn parse_connect_message(content: &String) -> (r: Result<(String, ConnectMethod), Error>)
    ensures
        r is Ok <==> nip46_parsed(content@) is Some,
        r is Ok ==> r.unwrap().0@ == nip46_parsed(content@).unwrap().0 && r.unwrap().1
            == nip46_parsed(content@).unwrap().1,
        r is Err ==> r->Err_0 == Error::Crypto,
{
    let msg = NostrConnectMessage::from_json(content.as_str()).map_err(|_| Error::Crypto)?;
    let id = msg.id().to_string();
    match msg {
        NostrConnectMessage::Request { method, .. } => Ok((id, method_of(&method))),
        _ => Err(Error::Crypto),
    }
}

/// Relies on nostr's `NostrConnectMethod`: one arm per method, encryption
/// methods folded together either way.
#[verifier::external_body]
fn method_of(m: &NostrConnectMethod) -> ConnectMethod {
    match m {
        NostrConnectMethod::Connect => ConnectMethod::Connect,
        NostrConnectMethod::GetPublicKey => ConnectMethod::GetPublicKey,
        NostrConnectMethod::SignEvent => ConnectMethod::SignEvent,
        NostrConnectMethod::Ping => ConnectMethod::Ping,
        NostrConnectMethod::Nip04Encrypt => ConnectMethod::Encrypt,
        NostrConnectMethod::Nip44Encrypt => ConnectMethod::Encrypt,
        NostrConnectMethod::Nip04Decrypt => ConnectMethod::Decrypt,
        NostrConnectMethod::Nip44Decrypt => ConnectMethod::Decrypt,
    }
}

/// What a remote-signing response with a given id and result serializes
/// to: a function of the two texts.
pub uninterp spec fn nip46_response_of(id: Seq<char>, result: Seq<char>) -> Seq<char>;

/// Relies on nostr's `NostrConnectMessage::response` and `as_json`:
/// deterministic in the request id and the result text.
#[verifier::external_body]
pub fn connect_response_json(id: &String, result: &String) -> (r: String)
    ensures
        r@ == nip46_response_of(id@, result@),
{
    let msg = nostr::nips::nip46::NostrConnectMessage::Response {
        id: id.clone(),
        result: Some(result.clone()),
        error: None,
    };
    msg.as_json()
}

/// Relies on nostr's NIP-46 message handling and the signing impl of
/// `KeyPair`: answer a signing request with the user's keys. Signing draws
/// randomness, so nothing is claimed of the response text; `None` when the
/// message is not an answerable request.
#[verifier::external_body]
pub fn generate_connect_response(keys: &KeyPair, raw: &String) -> (r: Option<String>)
{
    let k = keys_to_nostr(keys).ok()?;
    let msg = NostrConnectMessage::from_json(raw.as_str()).ok()?;
    let id = msg.id().to_string();
    let req = msg.to_request().ok()?;
    let result = answer_request(&k, req)?;
    let res = NostrConnectResponse { result: Some(result), error: None };
    Some(NostrConnectMessage::response(id, res).as_json())
}

/// Relies on nostr's `NostrConnectRequest` and the signing impl of `Keys`:
/// the answerable methods, one arm each; `None` for the rest.
#[verifier::external_body]
fn answer_request(k: &nostr::key::Keys, req: NostrConnectRequest) -> Option<ResponseResult> {
    match req {
        NostrConnectRequest::GetPublicKey => Some(ResponseResult::GetPublicKey(k.public_key())),
        NostrConnectRequest::SignEvent(unsigned) => {
            Some(ResponseResult::SignEvent(Box::new(NostrSignEvent::sign_event(k, unsigned).ok()?)))
        },
        NostrConnectRequest::Ping => Some(ResponseResult::Pong),
        _ => None,
    }
}

/// Relies on nostr's `NostrConnectMessage::request` (the request id is
/// drawn at random, so nothing is claimed of the text): the opening
/// message of a delegated-signing session. On an invalid secret — which a
/// well-formed engine never holds — the text is empty.
#[verifier::external_body]
pub fn connect_request_json(keys: &KeyPair) -> (r: String)
{
    let pk = match keys_to_nostr(keys) {
        Ok(k) => k.public_key(),
        Err(_) => return String::new(),
    };
    let req = nostr::nips::nip46::NostrConnectRequest::Connect { remote_signer_public_key: pk, secret: None };
    nostr::nips::nip46::NostrConnectMessage::request(&req).as_json()
}

} // verus!
