//! Relay events and their tags, modelled as plain values.
//!
//! A signed relay event carries an author, a creation time, a kind, a tag
//! list and a content string. Tags reference predecessor events (the
//! policy or proposal an event belongs to), recipients (one per cosigner)
//! and an optional expiration time.

use vstd::prelude::*;

use crate::ids::{EventId, XOnlyPublicKey};

verus! {

/// One tag of a relay event.
#[derive(Clone, Copy, PartialEq, Eq, Structural, Debug)]
pub enum Tag {
    /// Reference to a predecessor event.
    Event(EventId),
    /// Reference to a recipient.
    PubKey(XOnlyPublicKey),
    /// The event is void after this time (seconds).
    Expiration(u64),
}

/// A signed relay event. The signature is carried opaquely so a stored
/// event can be handed back to the transport for rebroadcast.
#[derive(Clone, Debug)]
pub struct Event {
    pub id: EventId,
    pub pubkey: XOnlyPublicKey,
    pub created_at: u64,
    pub kind: u16,
    pub tags: Vec<Tag>,
    pub content: String,
    pub sig: String,
}

/// The mathematical value of an [`Event`].
pub struct EventV {
    pub id: EventId,
    pub pubkey: XOnlyPublicKey,
    pub created_at: u64,
    pub kind: u16,
    pub tags: Seq<Tag>,
    pub content: Seq<char>,
    pub sig: Seq<char>,
}

impl View for Event {
    type V = EventV;

    open spec fn view(&self) -> EventV {
        EventV {
            id: self.id,
            pubkey: self.pubkey,
            created_at: self.created_at,
            kind: self.kind,
            tags: self.tags@,
            content: self.content@,
            sig: self.sig@,
        }
    }
}

/// The ids of all `Event` tags, in order.
pub open spec fn event_tag_ids(tags: Seq<Tag>) -> Seq<EventId>
    decreases tags.len(),
{
    if tags.len() == 0 {
        Seq::empty()
    } else {
        event_tag_ids(tags.drop_last()) + match tags.last() {
            Tag::Event(id) => seq![id],
            _ => Seq::empty(),
        }
    }
}

/// The keys of all `PubKey` tags, in order.
pub open spec fn pubkey_tags(tags: Seq<Tag>) -> Seq<XOnlyPublicKey>
    decreases tags.len(),
{
    if tags.len() == 0 {
        Seq::empty()
    } else {
        pubkey_tags(tags.drop_last()) + match tags.last() {
            Tag::PubKey(pk) => seq![pk],
            _ => Seq::empty(),
        }
    }
}

/// The first expiration tag, if any.
pub open spec fn expiration_of(tags: Seq<Tag>) -> Option<u64>
    decreases tags.len(),
{
    if tags.len() == 0 {
        None
    } else {
        match expiration_of(tags.drop_last()) {
            Some(t) => Some(t),
            None => match tags.last() {
                Tag::Expiration(t) => Some(t),
                _ => None,
            },
        }
    }
}

/// The id of the first `Event` tag: by convention, the parent object.
pub open spec fn first_event_tag(tags: Seq<Tag>) -> Option<EventId> {
    if event_tag_ids(tags).len() > 0 {
        Some(event_tag_ids(tags)[0])
    } else {
        None
    }
}

/// The id of the second `Event` tag: by convention, the grandparent
/// (an approval or completion names its proposal first, its policy second).
pub open spec fn second_event_tag(tags: Seq<Tag>) -> Option<EventId> {
    if event_tag_ids(tags).len() > 1 {
        Some(event_tag_ids(tags)[1])
    } else {
        None
    }
}

/// An event is expired when it carries an expiration tag strictly in the
/// past.
pub open spec fn spec_is_expired(tags: Seq<Tag>, now: u64) -> bool {
    match expiration_of(tags) {
        Some(t) => t < now,
        None => false,
    }
}

/// Collect the ids of all `Event` tags, in order.
pub fn collect_event_tag_ids(tags: &Vec<Tag>) -> (r: Vec<EventId>)
    ensures
        r@ == event_tag_ids(tags@),
{
    let mut r: Vec<EventId> = Vec::new();
    let mut i: usize = 0;
    while i < tags.len()
        invariant
            i <= tags.len(),
            r@ == event_tag_ids(tags@.take(i as int)),
        decreases tags.len() - i,
    {
        proof {
            assert(tags@.take(i + 1).drop_last() =~= tags@.take(i as int));
        }
        match tags[i] {
            Tag::Event(id) => r.push(id),
            _ => (),
        }
        i = i + 1;
    }
    proof {
        assert(tags@.take(tags@.len() as int) =~= tags@);
    }
    r
}

/// Collect the keys of all `PubKey` tags, in order.
pub fn collect_pubkey_tags(tags: &Vec<Tag>) -> (r: Vec<XOnlyPublicKey>)
    ensures
        r@ == pubkey_tags(tags@),
{
    let mut r: Vec<XOnlyPublicKey> = Vec::new();
    let mut i: usize = 0;
    while i < tags.len()
        invariant
            i <= tags.len(),
            r@ == pubkey_tags(tags@.take(i as int)),
        decreases tags.len() - i,
    {
        proof {
            assert(tags@.take(i + 1).drop_last() =~= tags@.take(i as int));
        }
        match tags[i] {
            Tag::PubKey(pk) => r.push(pk),
            _ => (),
        }
        i = i + 1;
    }
    proof {
        assert(tags@.take(tags@.len() as int) =~= tags@);
    }
    r
}

/// The first `Event` tag of an event, if any.
pub fn extract_first_event_id(ev: &Event) -> (r: Option<EventId>)
    ensures
        r == first_event_tag(ev@.tags),
{
    let ids = collect_event_tag_ids(&ev.tags);
    if ids.len() > 0 {
        Some(ids[0])
    } else {
        None
    }
}

/// The second `Event` tag of an event, if any.
pub fn extract_second_event_id(ev: &Event) -> (r: Option<EventId>)
    ensures
        r == second_event_tag(ev@.tags),
{
    let ids = collect_event_tag_ids(&ev.tags);
    if ids.len() > 1 {
        Some(ids[1])
    } else {
        None
    }
}

/// The first `PubKey` tag of an event, if any.
pub fn extract_first_public_key(ev: &Event) -> (r: Option<XOnlyPublicKey>)
    ensures
        r == if pubkey_tags(ev@.tags).len() > 0 {
            Some(pubkey_tags(ev@.tags)[0])
        } else {
            None::<XOnlyPublicKey>
        },
{
    let pks = collect_pubkey_tags(&ev.tags);
    if pks.len() > 0 {
        Some(pks[0])
    } else {
        None
    }
}

/// Whether the event carries an expiration tag strictly before `now`.
pub fn is_expired(ev: &Event, now: u64) -> (r: bool)
    ensures
        r == spec_is_expired(ev@.tags, now),
{
    let mut exp: Option<u64> = None;
    let mut i: usize = 0;
    while i < ev.tags.len()
        invariant
            i <= ev.tags.len(),
            exp == expiration_of(ev.tags@.take(i as int)),
        decreases ev.tags.len() - i,
    {
        proof {
            assert(ev.tags@.take(i + 1).drop_last() =~= ev.tags@.take(i as int));
        }
        if exp.is_none() {
            match ev.tags[i] {
                Tag::Expiration(t) => {
                    exp = Some(t);
                },
                _ => (),
            }
        }
        i = i + 1;
    }
    proof {
        assert(ev.tags@.take(ev.tags@.len() as int) =~= ev.tags@);
    }
    match exp {
        Some(t) => t < now,
        None => false,
    }
}


impl Event {
    /// An owned copy with the same value.
    pub fn duplicate(&self) -> (r: Event)
        ensures
            r@ == self@,
    {
        Event {
            id: self.id,
            pubkey: self.pubkey,
            created_at: self.created_at,
            kind: self.kind,
            tags: crate::maps::copy_vec(&self.tags),
            content: self.content.clone(),
            sig: self.sig.clone(),
        }
    }
}

} // verus!
