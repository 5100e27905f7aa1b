use vstd::prelude::*;

use crate::pubkey::Pubkey;
use crate::sink::{share, Sink};

verus! {

/// The connected subscribers: at most one outbound stream per validator identity.
/// Held as a vector of distinct keys with a map view: the verifier's specification of
/// std's hash collections proves nothing for a key of a struct type.
pub struct SubscriberRegistry {
    entries: Vec<(Pubkey, Sink)>,
    map: Ghost<Map<Pubkey, Sink>>,
}

/// No identity occurs twice in `s`.
pub open spec fn distinct_keys<T>(s: Seq<(Pubkey, T)>) -> bool {
    forall|i: int, j: int| 0 <= i < s.len() && 0 <= j < s.len() && i != j ==> s[i].0 != s[j].0
}

/// `s` lists each entry of `m` exactly once.
pub open spec fn lists_map<T>(s: Seq<(Pubkey, T)>, m: Map<Pubkey, T>) -> bool {
    &&& distinct_keys(s)
    &&& s.len() == m.len()
    &&& forall|i: int| 0 <= i < s.len() ==> m.contains_key(#[trigger] s[i].0) && m[s[i].0] == s[i].1
    &&& forall|k: Pubkey| m.contains_key(k) ==> exists|i: int| 0 <= i < s.len() && (#[trigger] s[i].0) == k
}

impl View for SubscriberRegistry {
    type V = Map<Pubkey, Sink>;

    closed spec fn view(&self) -> Map<Pubkey, Sink> {
        self.map@
    }
}

/// Removing a key that is listed at index `i` leaves a listing of the smaller map.
proof fn lemma_lists_remove<T>(s: Seq<(Pubkey, T)>, m: Map<Pubkey, T>, i: int)
    requires
        lists_map(s, m),
        m.dom().finite(),
        0 <= i < s.len(),
    ensures
        lists_map(s.remove(i), m.remove(s[i].0)),
{
    let k = s[i].0;
    let t = s.remove(i);
    let m2 = m.remove(k);
    assert(t.len() == m2.len());
    assert forall|a: int, b: int| 0 <= a < t.len() && 0 <= b < t.len() && a != b implies t[a].0 != t[b].0 by {
        let a2 = if a < i { a } else { a + 1 };
        let b2 = if b < i { b } else { b + 1 };
        assert(t[a] == s[a2] && t[b] == s[b2]);
    }
    assert forall|a: int| 0 <= a < t.len() implies m2.contains_key(#[trigger] t[a].0) && m2[t[a].0] == t[a].1 by {
        let a2 = if a < i { a } else { a + 1 };
        assert(t[a] == s[a2]);
        assert(s[a2].0 != k);
    }
    assert forall|x: Pubkey| m2.contains_key(x) implies exists|j: int| 0 <= j < t.len() && (#[trigger] t[j].0) == x by {
        let j = choose|j: int| 0 <= j < s.len() && (#[trigger] s[j].0) == x;
        assert(j != i);
        if j < i {
            assert(t[j].0 == x);
        } else {
            assert(t[j - 1].0 == x);
        }
    }
}

/// Appending a new key to a listing lists the map with that key added.
pub proof fn lemma_lists_push<T>(s: Seq<(Pubkey, T)>, m: Map<Pubkey, T>, k: Pubkey, v: T)
    requires
        lists_map(s, m),
        m.dom().finite(),
        !m.contains_key(k),
    ensures
        lists_map(s.push((k, v)), m.insert(k, v)),
{
    let t = s.push((k, v));
    let m2 = m.insert(k, v);
    assert forall|a: int| 0 <= a < s.len() implies (#[trigger] s[a]).0 != k by {
        assert(m.contains_key(s[a].0));
    }
    assert forall|a: int| 0 <= a < t.len() implies m2.contains_key(#[trigger] t[a].0) && m2[t[a].0] == t[a].1 by {
        if a < s.len() {
            assert(t[a] == s[a]);
        }
    }
    assert forall|x: Pubkey| m2.contains_key(x) implies exists|j: int| 0 <= j < t.len() && (#[trigger] t[j].0) == x by {
        if x == k {
            assert(t[s.len() as int].0 == x);
        } else {
            let j = choose|j: int| 0 <= j < s.len() && (#[trigger] s[j].0) == x;
            assert(t[j].0 == x);
        }
    }
}

/// A listing determines its map.
pub proof fn lemma_lists_unique<T>(s: Seq<(Pubkey, T)>, m1: Map<Pubkey, T>, m2: Map<Pubkey, T>)
    requires
        lists_map(s, m1),
        lists_map(s, m2),
    ensures
        m1 == m2,
{
    assert forall|k: Pubkey| m1.contains_key(k) implies m2.contains_key(k) && m1[k] == m2[k] by {
        let i = choose|i: int| 0 <= i < s.len() && (#[trigger] s[i].0) == k;
    }
    assert forall|k: Pubkey| m2.contains_key(k) implies m1.contains_key(k) by {
        let i = choose|i: int| 0 <= i < s.len() && (#[trigger] s[i].0) == k;
    }
    assert(m1 =~= m2);
}

impl SubscriberRegistry {
    pub closed spec fn wf(&self) -> bool {
        &&& lists_map(self.entries@, self.map@)
        &&& self.map@.dom().finite()
    }

    pub proof fn lemma_finite(&self)
        requires
            self.wf(),
        ensures
            self@.dom().finite(),
    {
    }

    pub fn new() -> (r: SubscriberRegistry)
        ensures
            r.wf(),
            r@ == Map::<Pubkey, Sink>::empty(),
    {
        SubscriberRegistry { entries: Vec::new(), map: Ghost(Map::empty()) }
    }

    pub fn len(&self) -> (r: usize)
        requires
            self.wf(),
        ensures
            r == self@.len(),
    {
        self.entries.len()
    }

    fn find(&self, key: &Pubkey) -> (r: Option<usize>)
        requires
            self.wf(),
        ensures
            match r {
                Some(i) => i < self.entries@.len() && self.entries@[i as int].0 == *key,
                None => !self@.contains_key(*key),
            },
    {
        let mut i: usize = 0;
        while i < self.entries.len()
            invariant
                self.wf(),
                i <= self.entries@.len(),
                forall|j: int| 0 <= j < i ==> (#[trigger] self.entries@[j]).0 != *key,
            decreases self.entries.len() - i,
        {
            if self.entries[i].0 == *key {
                return Some(i);
            }
            i = i + 1;
        }
        None
    }

    pub fn contains(&self, key: &Pubkey) -> (r: bool)
        requires
            self.wf(),
        ensures
            r == self@.contains_key(*key),
    {
        self.find(key).is_some()
    }

    /// The sink of `key`, if it is connected.
    pub fn get(&self, key: &Pubkey) -> (r: Option<Sink>)
        requires
            self.wf(),
        ensures
            match r {
                Some(s) => self@.contains_key(*key) && s == self@[*key],
                None => !self@.contains_key(*key),
            },
    {
        match self.find(key) {
            Some(i) => Some(share(&self.entries[i].1)),
            None => None,
        }
    }

    /// Admits `key` with `sink`, replacing (and so releasing) any sink it had. Returns
    /// whether one was replaced.
    pub fn insert(&mut self, key: Pubkey, sink: Sink) -> (r: bool)
        requires
            old(self).wf(),
        ensures
            final(self).wf(),
            final(self)@ == old(self)@.insert(key, sink),
            r == old(self)@.contains_key(key),
    {
        match self.find(&key) {
            Some(i) => {
                self.entries.set(i, (key, sink));
                self.map = Ghost(self.map@.insert(key, sink));
                assert forall|k: Pubkey| self.map@.contains_key(k) implies exists|j: int|
                    0 <= j < self.entries@.len() && (#[trigger] self.entries@[j].0) == k by {
                    if k == key {
                        assert(self.entries@[i as int].0 == k);
                    } else {
                        assert(old(self).map@.contains_key(k));
                        let j = choose|j: int|
                            0 <= j < old(self).entries@.len() && (#[trigger] old(self).entries@[j].0) == k;
                        assert(self.entries@[j].0 == k);
                    }
                }
                true
            },
            None => {
                self.entries.push((key, sink));
                self.map = Ghost(self.map@.insert(key, sink));
                assert forall|k: Pubkey| self.map@.contains_key(k) implies exists|j: int|
                    0 <= j < self.entries@.len() && (#[trigger] self.entries@[j].0) == k by {
                    if k == key {
                        assert(self.entries@[self.entries@.len() - 1].0 == k);
                    } else {
                        assert(old(self).map@.contains_key(k));
                        let j = choose|j: int|
                            0 <= j < old(self).entries@.len() && (#[trigger] old(self).entries@[j].0) == k;
                        assert(self.entries@[j].0 == k);
                    }
                }
                false
            },
        }
    }

    /// Disconnects `key`; returns its sink, if it had one.
    pub fn remove(&mut self, key: &Pubkey) -> (r: Option<Sink>)
        requires
            old(self).wf(),
        ensures
            final(self).wf(),
            final(self)@ == old(self)@.remove(*key),
            match r {
                Some(s) => old(self)@.contains_key(*key) && s == old(self)@[*key],
                None => !old(self)@.contains_key(*key),
            },
    {
        match self.find(key) {
            Some(i) => {
                proof {
                    lemma_lists_remove(self.entries@, self.map@, i as int);
                }
                let (_, sink) = self.entries.remove(i);
                self.map = Ghost(self.map@.remove(*key));
                Some(sink)
            },
            None => {
                assert(self.map@.remove(*key) =~= self.map@);
                None
            },
        }
    }

    /// The identities of all connected subscribers, each once.
    pub fn connected_validators(&self) -> (r: Vec<Pubkey>)
        requires
            self.wf(),
        ensures
            r@.no_duplicates(),
            r@.to_set() == self@.dom(),
            r@.len() == self@.len(),
    {
        let mut r: Vec<Pubkey> = Vec::new();
        let mut i: usize = 0;
        while i < self.entries.len()
            invariant
                self.wf(),
                i <= self.entries@.len(),
                r@.len() == i,
                forall|j: int| 0 <= j < i ==> #[trigger] r@[j] == self.entries@[j].0,
            decreases self.entries.len() - i,
        {
            r.push(self.entries[i].0);
            i = i + 1;
        }
        assert(r@.to_set() =~= self@.dom()) by {
            assert forall|k: Pubkey| self@.dom().contains(k) implies r@.to_set().contains(k) by {
                let j = choose|j: int| 0 <= j < self.entries@.len() && (#[trigger] self.entries@[j].0) == k;
                assert(r@[j] == k);
            }
        }
        r
    }

    /// The entries in the order they were admitted.
    pub closed spec fn order(&self) -> Seq<(Pubkey, Sink)> {
        self.entries@
    }

    pub proof fn lemma_order(&self)
        requires
            self.wf(),
        ensures
            lists_map(self.order(), self@),
    {
    }

    /// The entries, each identity once, in the order they were admitted.
    pub fn listing(&self) -> (r: &Vec<(Pubkey, Sink)>)
        requires
            self.wf(),
        ensures
            r@ == self.order(),
            lists_map(r@, self@),
    {
        &self.entries
    }

    /// A second registry with the same entries, sharing their sinks.
    pub fn duplicate(&self) -> (r: SubscriberRegistry)
        requires
            self.wf(),
        ensures
            r.wf(),
            r@ == self@,
    {
        let mut r = SubscriberRegistry::new();
        let mut i: usize = 0;
        assert(self.entries@.take(0) =~= Seq::<(Pubkey, Sink)>::empty());
        while i < self.entries.len()
            invariant
                self.wf(),
                r.wf(),
                i <= self.entries@.len(),
                lists_map(self.entries@.take(i as int), r@),
            decreases self.entries.len() - i,
        {
            let key = self.entries[i].0;
            let sink = share(&self.entries[i].1);
            proof {
                assert(!r@.contains_key(key)) by {
                    if r@.contains_key(key) {
                        let j = choose|j: int|
                            0 <= j < i && (#[trigger] self.entries@.take(i as int)[j].0) == key;
                        assert(self.entries@[j].0 == self.entries@[i as int].0);
                    }
                }
                lemma_lists_push(self.entries@.take(i as int), r@, key, sink);
                assert(self.entries@.take(i as int).push((key, sink)) =~= self.entries@.take(i + 1));
            }
            r.insert(key, sink);
            i = i + 1;
        }
        proof {
            assert(self.entries@.take(i as int) =~= self.entries@);
            lemma_lists_unique(self.entries@, r@, self@);
        }
        r
    }
}

/// The registry after admitting the subscriptions of `s` in order, from empty.
pub open spec fn subscribed(s: Seq<(Pubkey, Sink)>) -> Map<Pubkey, Sink>
    decreases s.len(),
{
    if s.len() == 0 {
        Map::empty()
    } else {
        subscribed(s.drop_last()).insert(s.last().0, s.last().1)
    }
}

/// Entry `i` of `s` is the last one of its identity.
pub open spec fn is_latest(s: Seq<(Pubkey, Sink)>, i: int) -> bool {
    forall|j: int| i < j < s.len() ==> s[j].0 != s[i].0
}

/// After any run of subscriptions there is one subscriber per distinct identity, and
/// each identity holds the sink of its latest subscription.
pub proof fn lemma_one_subscriber_per_identity(s: Seq<(Pubkey, Sink)>)
    ensures
        subscribed(s).dom() == s.map_values(|e: (Pubkey, Sink)| e.0).to_set(),
        subscribed(s).len() == s.map_values(|e: (Pubkey, Sink)| e.0).to_set().len(),
        forall|i: int|
            0 <= i < s.len() && #[trigger] is_latest(s, i) ==> subscribed(s).contains_key(s[i].0)
                && subscribed(s)[s[i].0] == s[i].1,
    decreases s.len(),
{
    let keys = s.map_values(|e: (Pubkey, Sink)| e.0);
    if s.len() == 0 {
        assert(keys.to_set() =~= Set::<Pubkey>::empty());
        assert(subscribed(s).dom() =~= Set::<Pubkey>::empty());
    } else {
        let t = s.drop_last();
        lemma_one_subscriber_per_identity(t);
        let tkeys = t.map_values(|e: (Pubkey, Sink)| e.0);
        assert(keys =~= tkeys.push(s.last().0));
        tkeys.lemma_push_to_set_commute(s.last().0);
        assert(subscribed(s).dom() =~= subscribed(t).dom().insert(s.last().0));
        assert(subscribed(s).dom() =~= keys.to_set());
        assert(subscribed(s).len() == keys.to_set().len());
        assert forall|i: int| 0 <= i < s.len() && #[trigger] is_latest(s, i) implies subscribed(s).contains_key(
            s[i].0,
        ) && subscribed(s)[s[i].0] == s[i].1 by {
            if i < s.len() - 1 {
                assert(s[s.len() - 1].0 != s[i].0);
                assert(t[i] == s[i]);
                assert forall|j: int| i < j < t.len() implies t[j].0 != t[i].0 by {
                    assert(t[j] == s[j]);
                }
                assert(is_latest(t, i));
            }
        }
    }
}

} // verus!
