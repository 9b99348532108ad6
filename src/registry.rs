//! Service registry: for each service name, an ordered set of peer ids and a
//! rotation counter used for round-robin selection.
use dashmap::DashMap;
use std::collections::BTreeSet;
use vstd::laws_cmp::obeys_cmp;
use vstd::prelude::*;
use vstd::std_specs::btree::{increasing_seq, spec_btree_keys_iter};
use vstd::std_specs::cmp::OrdSpec;
use vstd::std_specs::iter::IteratorSpec;

verus! {

/// Identifier of a peer: the 128-bit value of the transport's session id.
pub type PeerId = u128;

/// The peers of `s` appear in strictly increasing order (so without duplicates).
pub open spec fn strictly_sorted(s: Seq<PeerId>) -> bool {
    forall|i: int, j: int| 0 <= i < j < s.len() ==> s[i] < s[j]
}

/// The peer picked by a rotation counter `counter` in the ordered set `peers`.
pub open spec fn pick(peers: Seq<PeerId>, counter: usize) -> Option<PeerId> {
    if peers.len() == 0 {
        None
    } else {
        Some(peers[(counter as int) % (peers.len() as int)])
    }
}

/// The counter after one selection: a wrapping increment, as an atomic
/// fetch-and-add does.
pub open spec fn bump(counter: usize) -> usize {
    if counter == usize::MAX {
        0
    } else {
        (counter + 1) as usize
    }
}

/// The members of `set` in ascending order (the order in which a `BTreeSet`
/// of them iterates).
pub open spec fn ascending(set: Set<PeerId>) -> Seq<PeerId> {
    choose|s: Seq<PeerId>| strictly_sorted(s) && s.to_set() == set
}

/// The ascending order of a `BTreeSet`'s members exists, and is the order in
/// which the set iterates.
proof fn lemma_ascending(m: &BTreeSet<PeerId>)
    ensures
        strictly_sorted(ascending(m@)),
        ascending(m@).to_set() == m@,
        ascending(m@).len() == m@.len(),
        m@.finite(),
        ascending(m@) == spec_btree_keys_iter(m).remaining().unref(),
{
    broadcast use vstd::std_specs::btree::group_btree_axioms, vstd::laws_cmp::group_laws_cmp;

    let rem = spec_btree_keys_iter(m).remaining();
    let w = rem.unref();
    assert(obeys_cmp::<&PeerId>());
    assert(increasing_seq(rem));
    vstd::std_specs::btree::axiom_increasing_seq_meaning(rem);
    assert(strictly_sorted(w)) by {
        assert forall|i: int, j: int| 0 <= i < j < w.len() implies w[i] < w[j] by {
            assert(<&PeerId as OrdSpec>::cmp_spec(&rem[i], &rem[j]) is Less);
        }
    }
    assert(w.to_set() == m@);
    w.unique_seq_to_set();
    assert(exists|s: Seq<PeerId>| strictly_sorted(s) && s.to_set() == m@);
    crate::laws::lemma_sorted_same_set(ascending(m@), w);
}

/// An ordered set of peers with its rotation counter.
pub struct RoundRobinSet {
    inner: BTreeSet<PeerId>,
    counter: usize,
}

impl View for RoundRobinSet {
    /// The members in ascending order, and the counter.
    type V = (Seq<PeerId>, usize);

    closed spec fn view(&self) -> (Seq<PeerId>, usize) {
        (ascending(self.inner@), self.counter)
    }
}

impl RoundRobinSet {
    /// The members are held in ascending order.
    pub open spec fn wf(&self) -> bool {
        strictly_sorted(self@.0)
    }

    /// An empty set with its counter at zero.
    pub fn new() -> (r: RoundRobinSet)
        ensures
            r.wf(),
            r@ == (Seq::<PeerId>::empty(), 0usize),
    {
        let r = RoundRobinSet { inner: BTreeSet::new(), counter: 0 };
        proof {
            lemma_ascending(&r.inner);
            assert(ascending(r.inner@).len() == 0);
            assert(ascending(r.inner@) =~= Seq::<PeerId>::empty());
        }
        r
    }

    /// A set holding the distinct values of `peers`, counter at zero.
    pub fn from_set(peers: &Vec<PeerId>) -> (r: RoundRobinSet)
        ensures
            r.wf(),
            r@.0.to_set() == peers@.to_set(),
            r@.1 == 0,
    {
        let mut set = RoundRobinSet::new();
        let mut i: usize = 0;
        while i < peers.len()
            invariant
                i <= peers.len(),
                set.wf(),
                set@.1 == 0,
                set@.0.to_set() == peers@.subrange(0, i as int).to_set(),
            decreases peers.len() - i,
        {
            set.insert(peers[i]);
            assert(peers@.subrange(0, i + 1) == peers@.subrange(0, i as int).push(peers@[i as int]));
            proof {
                peers@.subrange(0, i as int).lemma_push_to_set_commute(peers@[i as int]);
            }
            i = i + 1;
        }
        assert(peers@.subrange(0, peers.len() as int) == peers@);
        set
    }

    pub fn len(&self) -> (r: usize)
        ensures
            r == self@.0.len(),
    {
        proof {
            broadcast use vstd::std_specs::btree::group_btree_axioms, vstd::laws_cmp::group_laws_cmp;

            lemma_ascending(&self.inner);
        }
        self.inner.len()
    }

    pub fn is_empty(&self) -> (r: bool)
        ensures
            r == (self@.0.len() == 0),
    {
        self.len() == 0
    }

    pub fn contains(&self, value: PeerId) -> (r: bool)
        ensures
            r == self@.0.contains(value),
    {
        proof {
            broadcast use vstd::std_specs::btree::group_btree_axioms, vstd::laws_cmp::group_laws_cmp;

            lemma_ascending(&self.inner);
        }
        self.inner.contains(&value)
    }

    /// Adds `value`; the counter is kept.
    pub fn insert(&mut self, value: PeerId) -> (r: bool)
        ensures
            final(self).wf(),
            final(self)@.0.to_set() == old(self)@.0.to_set().insert(value),
            final(self)@.1 == old(self)@.1,
            r == !old(self)@.0.contains(value),
    {
        proof {
            broadcast use vstd::std_specs::btree::group_btree_axioms, vstd::laws_cmp::group_laws_cmp;

            lemma_ascending(&self.inner);
        }
        let r = self.inner.insert(value);
        proof {
            lemma_ascending(&self.inner);
        }
        r
    }

    /// Removes `value`; the counter is kept. Returns whether it was a member.
    pub fn remove(&mut self, value: PeerId) -> (r: bool)
        ensures
            final(self).wf(),
            final(self)@.0.to_set() == old(self)@.0.to_set().remove(value),
            final(self)@.1 == old(self)@.1,
            r == old(self)@.0.contains(value),
    {
        proof {
            broadcast use vstd::std_specs::btree::group_btree_axioms, vstd::laws_cmp::group_laws_cmp;

            lemma_ascending(&self.inner);
        }
        let r = self.inner.remove(&value);
        proof {
            lemma_ascending(&self.inner);
        }
        r
    }

    /// Round-robin pick: the member at `counter mod size` in ascending
    /// order, then the counter moves on by one. An empty set yields `None` and
    /// keeps its counter.
    pub fn next(&mut self) -> (r: Option<PeerId>)
        ensures
            final(self).wf(),
            r == pick(old(self)@.0, old(self)@.1),
            final(self)@.0 == old(self)@.0,
            final(self)@.1 == if old(self)@.0.len() == 0 {
                old(self)@.1
            } else {
                bump(old(self)@.1)
            },
    {
        proof {
            broadcast use vstd::std_specs::btree::group_btree_axioms, vstd::laws_cmp::group_laws_cmp;

            lemma_ascending(&self.inner);
        }
        let n = self.inner.len();
        if n == 0 {
            return None;
        }
        let index = self.counter % n;
        self.counter = self.counter.wrapping_add(1);
        let ghost members = ascending(self.inner@);
        let mut found: PeerId = 0;
        let mut k: usize = 0;
        for x in it: self.inner.iter()
            invariant
                k == it.index(),
                n == members.len(),
                index < n,
                it.seq().map_values(|r: &PeerId| *r) == members,
                k > index ==> found == members[index as int],
        {
            if k == index {
                found = *x;
            }
            k = k + 1;
        }
        Some(found)
    }
}

#[verifier::external_type_specification]
#[verifier::external_body]
#[verifier::reject_recursive_types(K)]
#[verifier::reject_recursive_types(V)]
#[verifier::reject_recursive_types(S)]
pub struct ExDashMap<K, V, S>(DashMap<K, V, S>);

/// What a map of round-robin sets holds: for each key, the view of its set.
pub uninterp spec fn entries_of(m: DashMap<String, RoundRobinSet>) -> Map<Seq<char>, (Seq<PeerId>, usize)>;

/// Relies on `DashMap::new`: a map without entries.
#[verifier::external_body]
fn entries_new() -> (r: DashMap<String, RoundRobinSet>)
    ensures
        entries_of(r) == RegistryView::empty(),
{
    DashMap::new()
}

/// Relies on `DashMap::insert`: the entry of `key` becomes `set`, the others stay.
#[verifier::external_body]
fn entries_put(m: &mut DashMap<String, RoundRobinSet>, key: String, set: RoundRobinSet)
    ensures
        entries_of(*final(m)) == entries_of(*old(m)).insert(key@, set@),
{
    m.insert(key, set);
}

/// Relies on `DashMap::remove`: takes the entry of `key` out, if there is one.
#[verifier::external_body]
fn entries_take(m: &mut DashMap<String, RoundRobinSet>, key: &str) -> (r: Option<RoundRobinSet>)
    ensures
        match r {
            Some(set) => {
                &&& entries_of(*old(m)).contains_key(key@)
                &&& set@ == entries_of(*old(m))[key@]
                &&& entries_of(*final(m)) == entries_of(*old(m)).remove(key@)
            },
            None => {
                &&& !entries_of(*old(m)).contains_key(key@)
                &&& entries_of(*final(m)) == entries_of(*old(m))
            },
        },
{
    m.remove(key).map(|(_, set)| set)
}

/// Relies on `DashMap::contains_key`: whether `key` has an entry.
#[verifier::external_body]
fn entries_has(m: &DashMap<String, RoundRobinSet>, key: &str) -> (r: bool)
    ensures
        r == entries_of(*m).contains_key(key@),
{
    m.contains_key(key)
}

/// Relies on `DashMap::len`: the number of entries.
#[verifier::external_body]
fn entries_count(m: &DashMap<String, RoundRobinSet>) -> (r: usize)
    ensures
        r == entries_of(*m).dom().len(),
{
    m.len()
}

/// Relies on `DashMap::iter`: each key once, in the map's own order.
#[verifier::external_body]
fn entries_keys(m: &DashMap<String, RoundRobinSet>) -> (r: Vec<String>)
    ensures
        r@.map_values(|k: String| k@).to_set() == entries_of(*m).dom(),
        r@.map_values(|k: String| k@).no_duplicates(),
{
    m.iter().map(|e| e.key().clone()).collect()
}

/// Abstract state of a registry: service name to (ordered peers, counter).
pub type RegistryView = Map<Seq<char>, (Seq<PeerId>, usize)>;

/// Every set of the registry is ordered and the registry is finite.
pub open spec fn registry_wf(v: RegistryView) -> bool {
    &&& v.dom().finite()
    &&& forall|k: Seq<char>| #[trigger] v.contains_key(k) ==> strictly_sorted(v[k].0)
}

/// The members recorded for `service` (none when it has no entry).
pub open spec fn members(v: RegistryView, service: Seq<char>) -> Set<PeerId> {
    if v.contains_key(service) {
        v[service].0.to_set()
    } else {
        Set::empty()
    }
}

/// What a selection on `service` returns in state `v`.
pub open spec fn select_result(v: RegistryView, service: Seq<char>) -> Option<PeerId> {
    if v.contains_key(service) {
        pick(v[service].0, v[service].1)
    } else {
        None
    }
}

/// `after` is `before` with `peer` added to `service`.
pub open spec fn inserted(before: RegistryView, after: RegistryView, service: Seq<char>, peer: PeerId) -> bool {
    &&& after.dom() == before.dom().insert(service)
    &&& forall|k: Seq<char>| k != service && #[trigger] before.contains_key(k) ==> after[k] == before[k]
    &&& after[service].0.to_set() == members(before, service).insert(peer)
    &&& after[service].1 == if before.contains_key(service) { before[service].1 } else { 0 }
}

/// `after` is `before` with `peer` taken out of `service`.
pub open spec fn removed(before: RegistryView, after: RegistryView, service: Seq<char>, peer: PeerId) -> bool {
    &&& after.dom() == before.dom()
    &&& forall|k: Seq<char>| k != service && #[trigger] before.contains_key(k) ==> after[k] == before[k]
    &&& before.contains_key(service) ==> {
        &&& after[service].0.to_set() == members(before, service).remove(peer)
        &&& after[service].1 == before[service].1
    }
}

/// `after` is `before` once a selection on `service` has run.
pub open spec fn selected(before: RegistryView, after: RegistryView, service: Seq<char>) -> bool {
    &&& after.dom() == before.dom()
    &&& forall|k: Seq<char>| k != service && #[trigger] before.contains_key(k) ==> after[k] == before[k]
    &&& before.contains_key(service) ==> {
        &&& after[service].0 == before[service].0
        &&& after[service].1 == if before[service].0.len() == 0 {
            before[service].1
        } else {
            bump(before[service].1)
        }
    }
}

/// Registry of services: each name maps to a round-robin set of peers.
pub struct RoundRobinDashMap {
    inner: DashMap<String, RoundRobinSet>,
}

impl View for RoundRobinDashMap {
    type V = RegistryView;

    closed spec fn view(&self) -> RegistryView {
        entries_of(self.inner)
    }
}

impl RoundRobinDashMap {
    pub open spec fn wf(&self) -> bool {
        registry_wf(self@)
    }

    /// An empty registry.
    pub fn new() -> (r: RoundRobinDashMap)
        ensures
            r.wf(),
            r@ == RegistryView::empty(),
    {
        RoundRobinDashMap { inner: entries_new() }
    }

    /// Adds `value` to the set of `key`, creating the set if needed.
    pub fn insert(&mut self, key: String, value: PeerId)
        requires
            old(self).wf(),
        ensures
            final(self).wf(),
            inserted(old(self)@, final(self)@, key@, value),
    {
        let ghost before = self@;
        let mut set = match entries_take(&mut self.inner, key.as_str()) {
            Some(set) => set,
            None => {
                let set = RoundRobinSet::new();
                assert(set@.0.to_set() =~= Set::<PeerId>::empty());
                set
            },
        };
        assert(strictly_sorted(set@.0));
        set.insert(value);
        entries_put(&mut self.inner, key, set);
        assert(self@.dom() =~= before.dom().insert(key@));
    }

    /// Takes `value` out of the set of `key`; returns whether it was there.
    /// The entry stays, possibly with an empty set.
    pub fn remove(&mut self, key: String, value: PeerId) -> (r: bool)
        requires
            old(self).wf(),
        ensures
            final(self).wf(),
            removed(old(self)@, final(self)@, key@, value),
            r == members(old(self)@, key@).contains(value),
    {
        let ghost before = self@;
        match entries_take(&mut self.inner, key.as_str()) {
            Some(mut set) => {
                assert(strictly_sorted(set@.0));
                let r = set.remove(value);
                entries_put(&mut self.inner, key, set);
                assert(self@.dom() =~= before.dom());
                r
            },
            None => false,
        }
    }

    /// Round-robin selection of a peer of `key`: `None` when the service has
    /// no entry or an empty set.
    pub fn get_round_robin(&mut self, key: &str) -> (r: Option<PeerId>)
        requires
            old(self).wf(),
        ensures
            final(self).wf(),
            r == select_result(old(self)@, key@),
            selected(old(self)@, final(self)@, key@),
    {
        let ghost before = self@;
        match entries_take(&mut self.inner, key) {
            Some(mut set) => {
                assert(strictly_sorted(set@.0));
                let r = set.next();
                entries_put(&mut self.inner, key.to_string(), set);
                assert(self@.dom() =~= before.dom());
                r
            },
            None => None,
        }
    }

    /// Replaces the set of `key` by the distinct values of `peers`, with the
    /// counter at zero.
    pub fn update(&mut self, key: &str, peers: &Vec<PeerId>) -> (r: bool)
        requires
            old(self).wf(),
        ensures
            final(self).wf(),
            r,
            final(self)@.dom() == old(self)@.dom().insert(key@),
            forall|k: Seq<char>| k != key@ && #[trigger] old(self)@.contains_key(k) ==> final(self)@[k] == old(self)@[k],
            final(self)@[key@].0.to_set() == peers@.to_set(),
            final(self)@[key@].1 == 0,
    {
        let set = RoundRobinSet::from_set(peers);
        entries_put(&mut self.inner, key.to_string(), set);
        true
    }

    pub fn contains_key(&self, key: &str) -> (r: bool)
        ensures
            r == self@.contains_key(key@),
    {
        entries_has(&self.inner, key)
    }

    /// The service names, each once, in no particular order.
    pub fn keys(&self) -> (r: Vec<String>)
        ensures
            r@.map_values(|k: String| k@).to_set() == self@.dom(),
            r@.map_values(|k: String| k@).no_duplicates(),
    {
        entries_keys(&self.inner)
    }

    /// The number of services with an entry.
    pub fn len(&self) -> (r: usize)
        ensures
            r == self@.dom().len(),
    {
        entries_count(&self.inner)
    }

    pub fn is_empty(&self) -> (r: bool)
        ensures
            r == (self@.dom().len() == 0),
    {
        entries_count(&self.inner) == 0
    }
}

} // verus!
