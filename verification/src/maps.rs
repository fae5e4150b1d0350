//! Association maps backing the local store's indices.
//!
//! Each index is a vector of key/value entries with pairwise-distinct keys,
//! abstracted as a `Map`. One variant exists per key type in use: event
//! ids, public keys, and relay addresses (strings).

use vstd::prelude::*;

use crate::ids::{EventId, XOnlyPublicKey};

verus! {

/// Copy a vector of plain values; the view is kept.
pub fn copy_vec<T: Copy>(v: &Vec<T>) -> (r: Vec<T>)
    ensures
        r@ == v@,
{
    let mut r: Vec<T> = Vec::new();
    let mut i: usize = 0;
    while i < v.len()
        invariant
            i <= v@.len(),
            r@ == v@.take(i as int),
        decreases v@.len() - i,
    {
        r.push(v[i]);
        proof {
            assert(r@ =~= v@.take(i + 1));
        }
        i = i + 1;
    }
    proof {
        assert(v@.take(v@.len() as int) =~= v@);
    }
    r
}

/// Membership in a pushed sequence.
pub proof fn lemma_push_contains<T>(prev: Seq<T>, s: Seq<T>, x: T)
    requires
        s == prev.push(x),
    ensures
        forall|k: T| #[trigger] s.contains(k) <==> (prev.contains(k) || k == x),
{
    assert forall|k: T| #[trigger] s.contains(k) implies (prev.contains(k) || k == x) by {
        let idx = choose|idx: int| 0 <= idx < s.len() && #[trigger] s[idx] == k;
        if idx < s.len() - 1 {
            assert(prev[idx] == k);
        }
    }
    assert forall|k: T| prev.contains(k) implies #[trigger] s.contains(k) by {
        let idx = choose|idx: int| 0 <= idx < prev.len() && #[trigger] prev[idx] == k;
        assert(s[idx] == k);
    }
    assert(s[s.len() - 1] == x);
}

pub open spec fn id_keys_distinct<V>(s: Seq<(EventId, V)>) -> bool {
    forall|i: int, j: int| 0 <= i < j < s.len() ==> s[i].0 != s[j].0
}

pub open spec fn id_as_map<V: View>(s: Seq<(EventId, V)>) -> Map<EventId, V::V>
    decreases s.len(),
{
    if s.len() == 0 {
        Map::empty()
    } else {
        id_as_map(s.drop_last()).insert(s.last().0, s.last().1@)
    }
}

pub proof fn lemma_id_as_map_contains<V: View>(s: Seq<(EventId, V)>, k: EventId)
    ensures
        id_as_map(s).contains_key(k) <==> exists|i: int| 0 <= i < s.len() && s[i].0 == k,
    decreases s.len(),
{
    if s.len() > 0 {
        lemma_id_as_map_contains(s.drop_last(), k);
        if id_as_map(s).contains_key(k) {
            if k == s.last().0 {
                assert(s[s.len() - 1].0 == k);
            } else {
                let i = choose|i: int| 0 <= i < s.drop_last().len() && s.drop_last()[i].0 == k;
                assert(s[i].0 == k);
            }
        }
        if exists|i: int| 0 <= i < s.len() && s[i].0 == k {
            let i = choose|i: int| 0 <= i < s.len() && s[i].0 == k;
            if i < s.len() - 1 {
                assert(s.drop_last()[i].0 == k);
            }
        }
    }
}

pub proof fn lemma_id_as_map_index<V: View>(s: Seq<(EventId, V)>, i: int)
    requires
        id_keys_distinct(s),
        0 <= i < s.len(),
    ensures
        id_as_map(s).contains_key(s[i].0),
        id_as_map(s)[s[i].0] == s[i].1@,
    decreases s.len(),
{
    if i < s.len() - 1 {
        lemma_id_as_map_index(s.drop_last(), i);
        assert(s.drop_last()[i] == s[i]);
        assert(s.last().0 != s[i].0);
    }
}

/// Removing the entry that holds a key removes the key from the map.
pub proof fn lemma_id_as_map_remove<V: View>(s: Seq<(EventId, V)>, i: int)
    requires
        id_keys_distinct(s),
        0 <= i < s.len(),
    ensures
        id_keys_distinct(s.remove(i)),
        id_as_map(s.remove(i)) == id_as_map(s).remove(s[i].0),
{
    let t = s.remove(i);
    assert forall|k: EventId| #[trigger] id_as_map(t).contains_key(k) == id_as_map(
        s,
    ).remove(s[i].0).contains_key(k) by {
        lemma_id_as_map_contains(t, k);
        lemma_id_as_map_contains(s, k);
        if id_as_map(t).contains_key(k) {
            let j = choose|j: int| 0 <= j < t.len() && t[j].0 == k;
            if j < i {
                assert(s[j].0 == k);
            } else {
                assert(s[j + 1].0 == k);
            }
        }
        if id_as_map(s).remove(s[i].0).contains_key(k) {
            let j = choose|j: int| 0 <= j < s.len() && s[j].0 == k;
            assert(j != i);
            if j < i {
                assert(t[j].0 == k);
            } else {
                assert(t[j - 1].0 == k);
            }
        }
    }
    assert forall|k: EventId| id_as_map(t).contains_key(k) implies #[trigger] id_as_map(t)[k]
        == id_as_map(s).remove(s[i].0)[k] by {
        lemma_id_as_map_contains(t, k);
        let j = choose|j: int| 0 <= j < t.len() && t[j].0 == k;
        lemma_id_as_map_index(t, j);
        if j < i {
            lemma_id_as_map_index(s, j);
        } else {
            lemma_id_as_map_index(s, j + 1);
        }
    }
    assert(id_as_map(t) =~= id_as_map(s).remove(s[i].0));
}

/// A key/value index addressed by event id.
pub struct IdMap<V> {
    pub entries: Vec<(EventId, V)>,
}

impl<V: View> View for IdMap<V> {
    type V = Map<EventId, V::V>;

    open spec fn view(&self) -> Map<EventId, V::V> {
        id_as_map(self.entries@)
    }
}

impl<V: View> IdMap<V> {
    /// KeyPair are pairwise distinct.
    pub open spec fn wf(&self) -> bool {
        id_keys_distinct(self.entries@)
    }

    pub fn new() -> (r: Self)
        ensures
            r.wf(),
            r@ == Map::<EventId, V::V>::empty(),
            r.entries@.len() == 0,
    {
        IdMap { entries: Vec::new() }
    }

    /// The position of the entry holding `k`, if any.
    pub fn find(&self, k: &EventId) -> (r: Option<usize>)
        requires
            self.wf(),
        ensures
            match r {
                Some(i) => i < self.entries@.len() && self.entries@[i as int].0 == *k
                    && self@.contains_key(*k) && self@[*k] == self.entries@[i as int].1@,
                None => !self@.contains_key(*k),
            },
    {
        let mut i: usize = 0;
        while i < self.entries.len()
            invariant
                self.wf(),
                i <= self.entries@.len(),
                forall|j: int| 0 <= j < i ==> self.entries@[j].0 != *k,
            decreases self.entries@.len() - i,
        {
            if self.entries[i].0 == *k {
                proof {
                    lemma_id_as_map_index(self.entries@, i as int);
                }
                return Some(i);
            }
            i = i + 1;
        }
        proof {
            lemma_id_as_map_contains(self.entries@, *k);
        }
        None
    }

    pub fn contains_key(&self, k: &EventId) -> (r: bool)
        requires
            self.wf(),
        ensures
            r == self@.contains_key(*k),
    {
        self.find(k).is_some()
    }

    pub fn get(&self, k: &EventId) -> (r: Option<&V>)
        requires
            self.wf(),
        ensures
            match r {
                Some(v) => self@.contains_key(*k) && v@ == self@[*k],
                None => !self@.contains_key(*k),
            },
    {
        match self.find(k) {
            Some(i) => Some(&self.entries[i].1),
            None => None,
        }
    }

    pub fn insert(&mut self, k: EventId, v: V)
        requires
            old(self).wf(),
        ensures
            final(self).wf(),
            final(self)@ == old(self)@.insert(k, v@),
    {
        match self.find(&k) {
            Some(i) => {
                proof {
                    lemma_id_as_map_remove(self.entries@, i as int);
                }
                let ghost pre = self.entries@;
                self.entries.remove(i);
                let ghost mid = self.entries@;
                self.entries.push((k, v));
                proof {
                    assert(self.entries@.drop_last() =~= mid);
                    assert forall|a: int, b: int|
                        0 <= a < b < self.entries@.len() implies self.entries@[a].0
                        != self.entries@[b].0 by {
                        if b == self.entries@.len() - 1 {
                            lemma_id_as_map_contains(mid, k);
                            assert(!id_as_map(mid).contains_key(k));
                        }
                    }
                    assert(final(self)@ =~= old(self)@.insert(k, v@));
                }
            },
            None => {
                let ghost pre = self.entries@;
                self.entries.push((k, v));
                proof {
                    assert(self.entries@.drop_last() =~= pre);
                    assert forall|a: int, b: int|
                        0 <= a < b < self.entries@.len() implies self.entries@[a].0
                        != self.entries@[b].0 by {
                        if b == self.entries@.len() - 1 {
                            lemma_id_as_map_contains(pre, k);
                        }
                    }
                }
            },
        }
    }

    pub fn remove(&mut self, k: &EventId)
        requires
            old(self).wf(),
        ensures
            final(self).wf(),
            final(self)@ == old(self)@.remove(*k),
    {
        match self.find(k) {
            Some(i) => {
                proof {
                    lemma_id_as_map_remove(self.entries@, i as int);
                }
                self.entries.remove(i);
            },
            None => {
                proof {
                    assert(final(self)@ =~= old(self)@.remove(*k));
                }
            },
        }
    }


    /// Remove every key named in `ks`; other entries are untouched.
    pub fn remove_all(&mut self, ks: &Vec<EventId>)
        requires
            old(self).wf(),
        ensures
            final(self).wf(),
            forall|k: EventId| #[trigger]
                final(self)@.contains_key(k) <==> (old(self)@.contains_key(k) && !ks@.contains(k)),
            forall|k: EventId| #[trigger]
                final(self)@.contains_key(k) ==> final(self)@[k] == old(self)@[k],
    {
        let mut j: usize = 0;
        while j < ks.len()
            invariant
                self.wf(),
                j <= ks@.len(),
                forall|k: EventId| #[trigger]
                    self@.contains_key(k) <==> (old(self)@.contains_key(k) && !ks@.take(
                        j as int,
                    ).contains(k)),
                forall|k: EventId| #[trigger]
                    self@.contains_key(k) ==> self@[k] == old(self)@[k],
            decreases ks@.len() - j,
        {
            let ghost before = self@;
            self.remove(&ks[j]);
            proof {
                assert forall|k: EventId| #[trigger] self@.contains_key(k) <==> (old(
                    self,
                )@.contains_key(k) && !ks@.take(j + 1).contains(k)) by {
                    assert(ks@.take(j + 1).drop_last() =~= ks@.take(j as int));
                    assert(ks@.take(j + 1)[j as int] == ks@[j as int]);
                    assert(self@ == before.remove(ks@[j as int]));
                    if ks@.take(j + 1).contains(k) {
                        let x = choose|x: int| 0 <= x < j + 1 && #[trigger] ks@.take(j + 1)[x]
                            == k;
                        if x < j {
                            assert(ks@.take(j as int)[x] == k);
                        }
                    }
                    if ks@.take(j as int).contains(k) {
                        let x = choose|x: int| 0 <= x < j && #[trigger] ks@.take(j as int)[x] == k;
                        assert(ks@.take(j + 1)[x] == k);
                    }
                }
            }
            j = j + 1;
        }
        proof {
            assert(ks@.take(ks@.len() as int) =~= ks@);
        }
    }

    /// Borrow the entries: each is in the map, and every key of the map is
    /// among them.
    pub fn entries_ref(&self) -> (r: &Vec<(EventId, V)>)
        requires
            self.wf(),
        ensures
            r == &self.entries,
            forall|i: int|
                0 <= i < r@.len() ==> self@.contains_key(r@[i].0) && self@[r@[i].0] == r@[i].1@,
            forall|k: EventId| #[trigger]
                self@.contains_key(k) ==> exists|i: int| 0 <= i < r@.len() && r@[i].0 == k,
    {
        proof {
            assert forall|i: int|
                0 <= i < self.entries@.len() implies self@.contains_key(self.entries@[i].0)
                && self@[self.entries@[i].0] == self.entries@[i].1@ by {
                lemma_id_as_map_index(self.entries@, i);
            }
            assert forall|k: EventId| #[trigger] self@.contains_key(k) implies exists|i: int|
                0 <= i < self.entries@.len() && self.entries@[i].0 == k by {
                lemma_id_as_map_contains(self.entries@, k);
            }
        }
        &self.entries
    }

    pub fn len(&self) -> (r: usize)
        ensures
            r == self.entries@.len(),
    {
        self.entries.len()
    }
}

pub open spec fn pk_keys_distinct<V>(s: Seq<(XOnlyPublicKey, V)>) -> bool {
    forall|i: int, j: int| 0 <= i < j < s.len() ==> s[i].0 != s[j].0
}

pub open spec fn pk_as_map<V: View>(s: Seq<(XOnlyPublicKey, V)>) -> Map<XOnlyPublicKey, V::V>
    decreases s.len(),
{
    if s.len() == 0 {
        Map::empty()
    } else {
        pk_as_map(s.drop_last()).insert(s.last().0, s.last().1@)
    }
}

pub proof fn lemma_pk_as_map_contains<V: View>(s: Seq<(XOnlyPublicKey, V)>, k: XOnlyPublicKey)
    ensures
        pk_as_map(s).contains_key(k) <==> exists|i: int| 0 <= i < s.len() && s[i].0 == k,
    decreases s.len(),
{
    if s.len() > 0 {
        lemma_pk_as_map_contains(s.drop_last(), k);
        if pk_as_map(s).contains_key(k) {
            if k == s.last().0 {
                assert(s[s.len() - 1].0 == k);
            } else {
                let i = choose|i: int| 0 <= i < s.drop_last().len() && s.drop_last()[i].0 == k;
                assert(s[i].0 == k);
            }
        }
        if exists|i: int| 0 <= i < s.len() && s[i].0 == k {
            let i = choose|i: int| 0 <= i < s.len() && s[i].0 == k;
            if i < s.len() - 1 {
                assert(s.drop_last()[i].0 == k);
            }
        }
    }
}

pub proof fn lemma_pk_as_map_index<V: View>(s: Seq<(XOnlyPublicKey, V)>, i: int)
    requires
        pk_keys_distinct(s),
        0 <= i < s.len(),
    ensures
        pk_as_map(s).contains_key(s[i].0),
        pk_as_map(s)[s[i].0] == s[i].1@,
    decreases s.len(),
{
    if i < s.len() - 1 {
        lemma_pk_as_map_index(s.drop_last(), i);
        assert(s.drop_last()[i] == s[i]);
        assert(s.last().0 != s[i].0);
    }
}

pub proof fn lemma_pk_as_map_remove<V: View>(s: Seq<(XOnlyPublicKey, V)>, i: int)
    requires
        pk_keys_distinct(s),
        0 <= i < s.len(),
    ensures
        pk_keys_distinct(s.remove(i)),
        pk_as_map(s.remove(i)) == pk_as_map(s).remove(s[i].0),
{
    let t = s.remove(i);
    assert forall|k: XOnlyPublicKey| #[trigger] pk_as_map(t).contains_key(k) == pk_as_map(
        s,
    ).remove(s[i].0).contains_key(k) by {
        lemma_pk_as_map_contains(t, k);
        lemma_pk_as_map_contains(s, k);
        if pk_as_map(t).contains_key(k) {
            let j = choose|j: int| 0 <= j < t.len() && t[j].0 == k;
            if j < i {
                assert(s[j].0 == k);
            } else {
                assert(s[j + 1].0 == k);
            }
        }
        if pk_as_map(s).remove(s[i].0).contains_key(k) {
            let j = choose|j: int| 0 <= j < s.len() && s[j].0 == k;
            assert(j != i);
            if j < i {
                assert(t[j].0 == k);
            } else {
                assert(t[j - 1].0 == k);
            }
        }
    }
    assert forall|k: XOnlyPublicKey| pk_as_map(t).contains_key(k) implies #[trigger] pk_as_map(t)[k]
        == pk_as_map(s).remove(s[i].0)[k] by {
        lemma_pk_as_map_contains(t, k);
        let j = choose|j: int| 0 <= j < t.len() && t[j].0 == k;
        lemma_pk_as_map_index(t, j);
        if j < i {
            lemma_pk_as_map_index(s, j);
        } else {
            lemma_pk_as_map_index(s, j + 1);
        }
    }
    assert(pk_as_map(t) =~= pk_as_map(s).remove(s[i].0));
}

/// A key/value index addressed by public key.
pub struct PkMap<V> {
    pub entries: Vec<(XOnlyPublicKey, V)>,
}

impl<V: View> View for PkMap<V> {
    type V = Map<XOnlyPublicKey, V::V>;

    open spec fn view(&self) -> Map<XOnlyPublicKey, V::V> {
        pk_as_map(self.entries@)
    }
}

impl<V: View> PkMap<V> {
    /// KeyPair are pairwise distinct.
    pub open spec fn wf(&self) -> bool {
        pk_keys_distinct(self.entries@)
    }

    pub fn new() -> (r: Self)
        ensures
            r.wf(),
            r@ == Map::<XOnlyPublicKey, V::V>::empty(),
            r.entries@.len() == 0,
    {
        PkMap { entries: Vec::new() }
    }

    /// The position of the entry holding `k`, if any.
    pub fn find(&self, k: &XOnlyPublicKey) -> (r: Option<usize>)
        requires
            self.wf(),
        ensures
            match r {
                Some(i) => i < self.entries@.len() && self.entries@[i as int].0 == *k
                    && self@.contains_key(*k) && self@[*k] == self.entries@[i as int].1@,
                None => !self@.contains_key(*k),
            },
    {
        let mut i: usize = 0;
        while i < self.entries.len()
            invariant
                self.wf(),
                i <= self.entries@.len(),
                forall|j: int| 0 <= j < i ==> self.entries@[j].0 != *k,
            decreases self.entries@.len() - i,
        {
            if self.entries[i].0 == *k {
                proof {
                    lemma_pk_as_map_index(self.entries@, i as int);
                }
                return Some(i);
            }
            i = i + 1;
        }
        proof {
            lemma_pk_as_map_contains(self.entries@, *k);
        }
        None
    }

    pub fn contains_key(&self, k: &XOnlyPublicKey) -> (r: bool)
        requires
            self.wf(),
        ensures
            r == self@.contains_key(*k),
    {
        self.find(k).is_some()
    }

    pub fn get(&self, k: &XOnlyPublicKey) -> (r: Option<&V>)
        requires
            self.wf(),
        ensures
            match r {
                Some(v) => self@.contains_key(*k) && v@ == self@[*k],
                None => !self@.contains_key(*k),
            },
    {
        match self.find(k) {
            Some(i) => Some(&self.entries[i].1),
            None => None,
        }
    }

    pub fn insert(&mut self, k: XOnlyPublicKey, v: V)
        requires
            old(self).wf(),
        ensures
            final(self).wf(),
            final(self)@ == old(self)@.insert(k, v@),
    {
        match self.find(&k) {
            Some(i) => {
                proof {
                    lemma_pk_as_map_remove(self.entries@, i as int);
                }
                let ghost pre = self.entries@;
                self.entries.remove(i);
                let ghost mid = self.entries@;
                self.entries.push((k, v));
                proof {
                    assert(self.entries@.drop_last() =~= mid);
                    assert forall|a: int, b: int|
                        0 <= a < b < self.entries@.len() implies self.entries@[a].0
                        != self.entries@[b].0 by {
                        if b == self.entries@.len() - 1 {
                            lemma_pk_as_map_contains(mid, k);
                            assert(!pk_as_map(mid).contains_key(k));
                        }
                    }
                    assert(final(self)@ =~= old(self)@.insert(k, v@));
                }
            },
            None => {
                let ghost pre = self.entries@;
                self.entries.push((k, v));
                proof {
                    assert(self.entries@.drop_last() =~= pre);
                    assert forall|a: int, b: int|
                        0 <= a < b < self.entries@.len() implies self.entries@[a].0
                        != self.entries@[b].0 by {
                        if b == self.entries@.len() - 1 {
                            lemma_pk_as_map_contains(pre, k);
                        }
                    }
                }
            },
        }
    }

    pub fn remove(&mut self, k: &XOnlyPublicKey)
        requires
            old(self).wf(),
        ensures
            final(self).wf(),
            final(self)@ == old(self)@.remove(*k),
    {
        match self.find(k) {
            Some(i) => {
                proof {
                    lemma_pk_as_map_remove(self.entries@, i as int);
                }
                self.entries.remove(i);
            },
            None => {
                proof {
                    assert(final(self)@ =~= old(self)@.remove(*k));
                }
            },
        }
    }


    /// Borrow the entries: each is in the map, and every key of the map is
    /// among them.
    pub fn entries_ref(&self) -> (r: &Vec<(XOnlyPublicKey, V)>)
        requires
            self.wf(),
        ensures
            r == &self.entries,
            forall|i: int|
                0 <= i < r@.len() ==> self@.contains_key(r@[i].0) && self@[r@[i].0] == r@[i].1@,
            forall|k: XOnlyPublicKey| #[trigger]
                self@.contains_key(k) ==> exists|i: int| 0 <= i < r@.len() && r@[i].0 == k,
    {
        proof {
            assert forall|i: int|
                0 <= i < self.entries@.len() implies self@.contains_key(self.entries@[i].0)
                && self@[self.entries@[i].0] == self.entries@[i].1@ by {
                lemma_pk_as_map_index(self.entries@, i);
            }
            assert forall|k: XOnlyPublicKey| #[trigger] self@.contains_key(k) implies exists|i: int|
                0 <= i < self.entries@.len() && self.entries@[i].0 == k by {
                lemma_pk_as_map_contains(self.entries@, k);
            }
        }
        &self.entries
    }

    pub fn len(&self) -> (r: usize)
        ensures
            r == self.entries@.len(),
    {
        self.entries.len()
    }
}

pub open spec fn ids_distinct(s: Seq<EventId>) -> bool {
    forall|i: int, j: int| 0 <= i < j < s.len() ==> s[i] != s[j]
}

pub open spec fn ids_as_set(s: Seq<EventId>) -> Set<EventId>
    decreases s.len(),
{
    if s.len() == 0 {
        Set::empty()
    } else {
        ids_as_set(s.drop_last()).insert(s.last())
    }
}

pub proof fn lemma_ids_as_set_contains(s: Seq<EventId>, k: EventId)
    ensures
        ids_as_set(s).contains(k) <==> exists|i: int| 0 <= i < s.len() && s[i] == k,
    decreases s.len(),
{
    if s.len() > 0 {
        lemma_ids_as_set_contains(s.drop_last(), k);
        if ids_as_set(s).contains(k) {
            if k == s.last() {
                assert(s[s.len() - 1] == k);
            } else {
                let i = choose|i: int| 0 <= i < s.drop_last().len() && s.drop_last()[i] == k;
                assert(s[i] == k);
            }
        }
        if exists|i: int| 0 <= i < s.len() && s[i] == k {
            let i = choose|i: int| 0 <= i < s.len() && s[i] == k;
            if i < s.len() - 1 {
                assert(s.drop_last()[i] == k);
            }
        }
    }
}

pub proof fn lemma_ids_as_set_remove(s: Seq<EventId>, i: int)
    requires
        ids_distinct(s),
        0 <= i < s.len(),
    ensures
        ids_distinct(s.remove(i)),
        ids_as_set(s.remove(i)) == ids_as_set(s).remove(s[i]),
{
    let t = s.remove(i);
    assert forall|k: EventId| #[trigger] ids_as_set(t).contains(k) == ids_as_set(
        s,
    ).remove(s[i]).contains(k) by {
        lemma_ids_as_set_contains(t, k);
        lemma_ids_as_set_contains(s, k);
        if ids_as_set(t).contains(k) {
            let j = choose|j: int| 0 <= j < t.len() && t[j] == k;
            if j < i {
                assert(s[j] == k);
            } else {
                assert(s[j + 1] == k);
            }
        }
        if ids_as_set(s).remove(s[i]).contains(k) {
            let j = choose|j: int| 0 <= j < s.len() && s[j] == k;
            assert(j != i);
            if j < i {
                assert(t[j] == k);
            } else {
                assert(t[j - 1] == k);
            }
        }
    }
    assert(ids_as_set(t) =~= ids_as_set(s).remove(s[i]));
}

/// A set of event ids: the tombstones, the resync queue.
pub struct IdSet {
    pub items: Vec<EventId>,
}

impl View for IdSet {
    type V = Set<EventId>;

    open spec fn view(&self) -> Set<EventId> {
        ids_as_set(self.items@)
    }
}

impl IdSet {
    /// Members are pairwise distinct.
    pub open spec fn wf(&self) -> bool {
        ids_distinct(self.items@)
    }

    pub fn new() -> (r: Self)
        ensures
            r.wf(),
            r@ == Set::<EventId>::empty(),
            r.items@.len() == 0,
    {
        IdSet { items: Vec::new() }
    }

    /// The position of `k`, if present.
    pub fn find(&self, k: &EventId) -> (r: Option<usize>)
        requires
            self.wf(),
        ensures
            match r {
                Some(i) => i < self.items@.len() && self.items@[i as int] == *k && self@.contains(
                    *k,
                ),
                None => !self@.contains(*k),
            },
    {
        let mut i: usize = 0;
        while i < self.items.len()
            invariant
                self.wf(),
                i <= self.items@.len(),
                forall|j: int| 0 <= j < i ==> self.items@[j] != *k,
            decreases self.items@.len() - i,
        {
            if self.items[i] == *k {
                proof {
                    lemma_ids_as_set_contains(self.items@, *k);
                }
                return Some(i);
            }
            i = i + 1;
        }
        proof {
            lemma_ids_as_set_contains(self.items@, *k);
        }
        None
    }

    pub fn contains(&self, k: &EventId) -> (r: bool)
        requires
            self.wf(),
        ensures
            r == self@.contains(*k),
    {
        self.find(k).is_some()
    }

    pub fn insert(&mut self, k: EventId)
        requires
            old(self).wf(),
        ensures
            final(self).wf(),
            final(self)@ == old(self)@.insert(k),
    {
        match self.find(&k) {
            Some(_) => {
                proof {
                    assert(final(self)@ =~= old(self)@.insert(k));
                }
            },
            None => {
                let ghost pre = self.items@;
                self.items.push(k);
                proof {
                    assert(self.items@.drop_last() =~= pre);
                    assert forall|a: int, b: int|
                        0 <= a < b < self.items@.len() implies self.items@[a]
                        != self.items@[b] by {
                        if b == self.items@.len() - 1 {
                            lemma_ids_as_set_contains(pre, k);
                        }
                    }
                }
            },
        }
    }

    pub fn remove(&mut self, k: &EventId)
        requires
            old(self).wf(),
        ensures
            final(self).wf(),
            final(self)@ == old(self)@.remove(*k),
    {
        match self.find(k) {
            Some(i) => {
                proof {
                    lemma_ids_as_set_remove(self.items@, i as int);
                }
                self.items.remove(i);
            },
            None => {
                proof {
                    assert(final(self)@ =~= old(self)@.remove(*k));
                }
            },
        }
    }


    /// Borrow the members: each is in the set, and every member of the set
    /// is among them.
    pub fn items_ref(&self) -> (r: &Vec<EventId>)
        requires
            self.wf(),
        ensures
            r == &self.items,
            forall|i: int| 0 <= i < r@.len() ==> self@.contains(r@[i]),
            forall|k: EventId| #[trigger]
                self@.contains(k) ==> exists|i: int| 0 <= i < r@.len() && r@[i] == k,
    {
        proof {
            assert forall|i: int|
                0 <= i < self.items@.len() implies self@.contains(self.items@[i]) by {
                lemma_ids_as_set_contains(self.items@, self.items@[i]);
            }
            assert forall|k: EventId| #[trigger] self@.contains(k) implies exists|i: int|
                0 <= i < self.items@.len() && self.items@[i] == k by {
                lemma_ids_as_set_contains(self.items@, k);
            }
        }
        &self.items
    }

    pub fn len(&self) -> (r: usize)
        ensures
            r == self.items@.len(),
    {
        self.items.len()
    }
}

pub open spec fn pks_distinct(s: Seq<XOnlyPublicKey>) -> bool {
    forall|i: int, j: int| 0 <= i < j < s.len() ==> s[i] != s[j]
}

pub open spec fn pks_as_set(s: Seq<XOnlyPublicKey>) -> Set<XOnlyPublicKey>
    decreases s.len(),
{
    if s.len() == 0 {
        Set::empty()
    } else {
        pks_as_set(s.drop_last()).insert(s.last())
    }
}

pub proof fn lemma_pks_as_set_contains(s: Seq<XOnlyPublicKey>, k: XOnlyPublicKey)
    ensures
        pks_as_set(s).contains(k) <==> exists|i: int| 0 <= i < s.len() && s[i] == k,
    decreases s.len(),
{
    if s.len() > 0 {
        lemma_pks_as_set_contains(s.drop_last(), k);
        if pks_as_set(s).contains(k) {
            if k == s.last() {
                assert(s[s.len() - 1] == k);
            } else {
                let i = choose|i: int| 0 <= i < s.drop_last().len() && s.drop_last()[i] == k;
                assert(s[i] == k);
            }
        }
        if exists|i: int| 0 <= i < s.len() && s[i] == k {
            let i = choose|i: int| 0 <= i < s.len() && s[i] == k;
            if i < s.len() - 1 {
                assert(s.drop_last()[i] == k);
            }
        }
    }
}

pub proof fn lemma_pks_as_set_remove(s: Seq<XOnlyPublicKey>, i: int)
    requires
        pks_distinct(s),
        0 <= i < s.len(),
    ensures
        pks_distinct(s.remove(i)),
        pks_as_set(s.remove(i)) == pks_as_set(s).remove(s[i]),
{
    let t = s.remove(i);
    assert forall|k: XOnlyPublicKey| #[trigger] pks_as_set(t).contains(k) == pks_as_set(
        s,
    ).remove(s[i]).contains(k) by {
        lemma_pks_as_set_contains(t, k);
        lemma_pks_as_set_contains(s, k);
        if pks_as_set(t).contains(k) {
            let j = choose|j: int| 0 <= j < t.len() && t[j] == k;
            if j < i {
                assert(s[j] == k);
            } else {
                assert(s[j + 1] == k);
            }
        }
        if pks_as_set(s).remove(s[i]).contains(k) {
            let j = choose|j: int| 0 <= j < s.len() && s[j] == k;
            assert(j != i);
            if j < i {
                assert(t[j] == k);
            } else {
                assert(t[j - 1] == k);
            }
        }
    }
    assert(pks_as_set(t) =~= pks_as_set(s).remove(s[i]));
}

/// A set of public keys: the user's contacts.
pub struct PkSet {
    pub items: Vec<XOnlyPublicKey>,
}

impl View for PkSet {
    type V = Set<XOnlyPublicKey>;

    open spec fn view(&self) -> Set<XOnlyPublicKey> {
        pks_as_set(self.items@)
    }
}

impl PkSet {
    /// Members are pairwise distinct.
    pub open spec fn wf(&self) -> bool {
        pks_distinct(self.items@)
    }

    pub fn new() -> (r: Self)
        ensures
            r.wf(),
            r@ == Set::<XOnlyPublicKey>::empty(),
            r.items@.len() == 0,
    {
        PkSet { items: Vec::new() }
    }

    /// The position of `k`, if present.
    pub fn find(&self, k: &XOnlyPublicKey) -> (r: Option<usize>)
        requires
            self.wf(),
        ensures
            match r {
                Some(i) => i < self.items@.len() && self.items@[i as int] == *k && self@.contains(
                    *k,
                ),
                None => !self@.contains(*k),
            },
    {
        let mut i: usize = 0;
        while i < self.items.len()
            invariant
                self.wf(),
                i <= self.items@.len(),
                forall|j: int| 0 <= j < i ==> self.items@[j] != *k,
            decreases self.items@.len() - i,
        {
            if self.items[i] == *k {
                proof {
                    lemma_pks_as_set_contains(self.items@, *k);
                }
                return Some(i);
            }
            i = i + 1;
        }
        proof {
            lemma_pks_as_set_contains(self.items@, *k);
        }
        None
    }

    pub fn contains(&self, k: &XOnlyPublicKey) -> (r: bool)
        requires
            self.wf(),
        ensures
            r == self@.contains(*k),
    {
        self.find(k).is_some()
    }

    pub fn insert(&mut self, k: XOnlyPublicKey)
        requires
            old(self).wf(),
        ensures
            final(self).wf(),
            final(self)@ == old(self)@.insert(k),
    {
        match self.find(&k) {
            Some(_) => {
                proof {
                    assert(final(self)@ =~= old(self)@.insert(k));
                }
            },
            None => {
                let ghost pre = self.items@;
                self.items.push(k);
                proof {
                    assert(self.items@.drop_last() =~= pre);
                    assert forall|a: int, b: int|
                        0 <= a < b < self.items@.len() implies self.items@[a]
                        != self.items@[b] by {
                        if b == self.items@.len() - 1 {
                            lemma_pks_as_set_contains(pre, k);
                        }
                    }
                }
            },
        }
    }

    pub fn remove(&mut self, k: &XOnlyPublicKey)
        requires
            old(self).wf(),
        ensures
            final(self).wf(),
            final(self)@ == old(self)@.remove(*k),
    {
        match self.find(k) {
            Some(i) => {
                proof {
                    lemma_pks_as_set_remove(self.items@, i as int);
                }
                self.items.remove(i);
            },
            None => {
                proof {
                    assert(final(self)@ =~= old(self)@.remove(*k));
                }
            },
        }
    }


    /// Borrow the members: each is in the set, and every member of the set
    /// is among them.
    pub fn items_ref(&self) -> (r: &Vec<XOnlyPublicKey>)
        requires
            self.wf(),
        ensures
            r == &self.items,
            forall|i: int| 0 <= i < r@.len() ==> self@.contains(r@[i]),
            forall|k: XOnlyPublicKey| #[trigger]
                self@.contains(k) ==> exists|i: int| 0 <= i < r@.len() && r@[i] == k,
    {
        proof {
            assert forall|i: int|
                0 <= i < self.items@.len() implies self@.contains(self.items@[i]) by {
                lemma_pks_as_set_contains(self.items@, self.items@[i]);
            }
            assert forall|k: XOnlyPublicKey| #[trigger] self@.contains(k) implies exists|i: int|
                0 <= i < self.items@.len() && self.items@[i] == k by {
                lemma_pks_as_set_contains(self.items@, k);
            }
        }
        &self.items
    }

    pub fn len(&self) -> (r: usize)
        ensures
            r == self.items@.len(),
    {
        self.items.len()
    }
}

pub open spec fn str_keys_distinct<V>(s: Seq<(String, V)>) -> bool {
    forall|i: int, j: int| 0 <= i < j < s.len() ==> s[i].0@ != s[j].0@
}

pub open spec fn str_as_map<V: View>(s: Seq<(String, V)>) -> Map<Seq<char>, V::V>
    decreases s.len(),
{
    if s.len() == 0 {
        Map::empty()
    } else {
        str_as_map(s.drop_last()).insert(s.last().0@, s.last().1@)
    }
}

pub proof fn lemma_str_as_map_contains<V: View>(s: Seq<(String, V)>, k: Seq<char>)
    ensures
        str_as_map(s).contains_key(k) <==> exists|i: int| 0 <= i < s.len() && s[i].0@ == k,
    decreases s.len(),
{
    if s.len() > 0 {
        lemma_str_as_map_contains(s.drop_last(), k);
        if str_as_map(s).contains_key(k) {
            if k == s.last().0@ {
                assert(s[s.len() - 1].0@ == k);
            } else {
                let i = choose|i: int| 0 <= i < s.drop_last().len() && s.drop_last()[i].0@ == k;
                assert(s[i].0@ == k);
            }
        }
        if exists|i: int| 0 <= i < s.len() && s[i].0@ == k {
            let i = choose|i: int| 0 <= i < s.len() && s[i].0@ == k;
            if i < s.len() - 1 {
                assert(s.drop_last()[i].0@ == k);
            }
        }
    }
}

pub proof fn lemma_str_as_map_index<V: View>(s: Seq<(String, V)>, i: int)
    requires
        str_keys_distinct(s),
        0 <= i < s.len(),
    ensures
        str_as_map(s).contains_key(s[i].0@),
        str_as_map(s)[s[i].0@] == s[i].1@,
    decreases s.len(),
{
    if i < s.len() - 1 {
        lemma_str_as_map_index(s.drop_last(), i);
        assert(s.drop_last()[i] == s[i]);
        assert(s.last().0@ != s[i].0@);
    }
}

pub proof fn lemma_str_as_map_remove<V: View>(s: Seq<(String, V)>, i: int)
    requires
        str_keys_distinct(s),
        0 <= i < s.len(),
    ensures
        str_keys_distinct(s.remove(i)),
        str_as_map(s.remove(i)) == str_as_map(s).remove(s[i].0@),
{
    let t = s.remove(i);
    assert forall|k: Seq<char>| #[trigger] str_as_map(t).contains_key(k) == str_as_map(
        s,
    ).remove(s[i].0@).contains_key(k) by {
        lemma_str_as_map_contains(t, k);
        lemma_str_as_map_contains(s, k);
        if str_as_map(t).contains_key(k) {
            let j = choose|j: int| 0 <= j < t.len() && t[j].0@ == k;
            if j < i {
                assert(s[j].0@ == k);
            } else {
                assert(s[j + 1].0@ == k);
            }
        }
        if str_as_map(s).remove(s[i].0@).contains_key(k) {
            let j = choose|j: int| 0 <= j < s.len() && s[j].0@ == k;
            assert(j != i);
            if j < i {
                assert(t[j].0@ == k);
            } else {
                assert(t[j - 1].0@ == k);
            }
        }
    }
    assert forall|k: Seq<char>| str_as_map(t).contains_key(k) implies #[trigger] str_as_map(t)[k]
        == str_as_map(s).remove(s[i].0@)[k] by {
        lemma_str_as_map_contains(t, k);
        let j = choose|j: int| 0 <= j < t.len() && t[j].0@ == k;
        lemma_str_as_map_index(t, j);
        if j < i {
            lemma_str_as_map_index(s, j);
        } else {
            lemma_str_as_map_index(s, j + 1);
        }
    }
    assert(str_as_map(t) =~= str_as_map(s).remove(s[i].0@));
}

/// A key/value index addressed by relay address.
pub struct StrMap<V> {
    pub entries: Vec<(String, V)>,
}

impl<V: View> View for StrMap<V> {
    type V = Map<Seq<char>, V::V>;

    open spec fn view(&self) -> Map<Seq<char>, V::V> {
        str_as_map(self.entries@)
    }
}

impl<V: View> StrMap<V> {
    /// KeyPair are pairwise distinct.
    pub open spec fn wf(&self) -> bool {
        str_keys_distinct(self.entries@)
    }

    pub fn new() -> (r: Self)
        ensures
            r.wf(),
            r@ == Map::<Seq<char>, V::V>::empty(),
            r.entries@.len() == 0,
    {
        StrMap { entries: Vec::new() }
    }

    /// The position of the entry holding `k`, if any.
    pub fn find(&self, k: &String) -> (r: Option<usize>)
        requires
            self.wf(),
        ensures
            match r {
                Some(i) => i < self.entries@.len() && self.entries@[i as int].0@ == k@
                    && self@.contains_key(k@) && self@[k@] == self.entries@[i as int].1@,
                None => !self@.contains_key(k@),
            },
    {
        let mut i: usize = 0;
        while i < self.entries.len()
            invariant
                self.wf(),
                i <= self.entries@.len(),
                forall|j: int| 0 <= j < i ==> self.entries@[j].0@ != k@,
            decreases self.entries@.len() - i,
        {
            if self.entries[i].0 == *k {
                proof {
                    lemma_str_as_map_index(self.entries@, i as int);
                }
                return Some(i);
            }
            i = i + 1;
        }
        proof {
            lemma_str_as_map_contains(self.entries@, k@);
        }
        None
    }

    pub fn get(&self, k: &String) -> (r: Option<&V>)
        requires
            self.wf(),
        ensures
            match r {
                Some(v) => self@.contains_key(k@) && v@ == self@[k@],
                None => !self@.contains_key(k@),
            },
    {
        match self.find(k) {
            Some(i) => Some(&self.entries[i].1),
            None => None,
        }
    }

    pub fn insert(&mut self, k: String, v: V)
        requires
            old(self).wf(),
        ensures
            final(self).wf(),
            final(self)@ == old(self)@.insert(k@, v@),
    {
        match self.find(&k) {
            Some(i) => {
                proof {
                    lemma_str_as_map_remove(self.entries@, i as int);
                }
                let ghost pre = self.entries@;
                self.entries.remove(i);
                let ghost mid = self.entries@;
                self.entries.push((k, v));
                proof {
                    assert(self.entries@.drop_last() =~= mid);
                    assert forall|a: int, b: int|
                        0 <= a < b < self.entries@.len() implies self.entries@[a].0@
                        != self.entries@[b].0@ by {
                        if b == self.entries@.len() - 1 {
                            lemma_str_as_map_contains(mid, self.entries@[b].0@);
                            assert(!str_as_map(mid).contains_key(self.entries@[b].0@));
                        }
                    }
                    assert(final(self)@ =~= old(self)@.insert(self.entries@.last().0@, v@));
                }
            },
            None => {
                let ghost pre = self.entries@;
                self.entries.push((k, v));
                proof {
                    assert(self.entries@.drop_last() =~= pre);
                    assert forall|a: int, b: int|
                        0 <= a < b < self.entries@.len() implies self.entries@[a].0@
                        != self.entries@[b].0@ by {
                        if b == self.entries@.len() - 1 {
                            lemma_str_as_map_contains(pre, self.entries@[b].0@);
                        }
                    }
                }
            },
        }
    }

    pub fn len(&self) -> (r: usize)
        ensures
            r == self.entries@.len(),
    {
        self.entries.len()
    }
}

} // verus!
