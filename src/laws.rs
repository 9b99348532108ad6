//! Properties of the registry that span several operations.
use crate::registry::{
    bump, inserted, members, registry_wf, removed, select_result, selected, strictly_sorted, PeerId,
    RegistryView,
};
use vstd::arithmetic::div_mod::{
    lemma_div_is_ordered, lemma_div_plus_one, lemma_fundamental_div_mod, lemma_fundamental_div_mod_converse,
    lemma_mod_equivalence, lemma_mod_multiples_basic, lemma_small_mod,
};
use vstd::prelude::*;

verus! {

/// Two ordered sets with the same members are the same sequence.
pub proof fn lemma_sorted_same_set(a: Seq<PeerId>, b: Seq<PeerId>)
    requires
        strictly_sorted(a),
        strictly_sorted(b),
        a.to_set() == b.to_set(),
    ensures
        a == b,
    decreases a.len(),
{
    if a.len() == 0 {
        if b.len() > 0 {
            assert(b.to_set().contains(b[0]));
            assert(a.to_set().contains(b[0]));
        }
        assert(a =~= b);
    } else {
        assert(a.to_set().contains(a[0]));
        assert(b.to_set().contains(a[0]));
        assert(b.len() > 0);
        assert(b.to_set().contains(b[0]));
        assert(a.to_set().contains(b[0]));
        let l = choose|l: int| 0 <= l < a.len() && a[l] == b[0];
        let m = choose|m: int| 0 <= m < b.len() && b[m] == a[0];
        assert(a[0] <= a[l]);
        assert(b[0] <= b[m]);
        assert(a[0] == b[0]);
        let ta = a.drop_first();
        let tb = b.drop_first();
        assert forall|x: PeerId| ta.contains(x) <==> tb.contains(x) by {
            if ta.contains(x) {
                let i = choose|i: int| 0 <= i < ta.len() && ta[i] == x;
                assert(a[i + 1] == x);
                assert(a[0] < a[i + 1]);
                assert(a.to_set().contains(x));
                assert(b.to_set().contains(x));
                let k = choose|k: int| 0 <= k < b.len() && b[k] == x;
                assert(k != 0);
                assert(tb[k - 1] == x);
            }
            if tb.contains(x) {
                let i = choose|i: int| 0 <= i < tb.len() && tb[i] == x;
                assert(b[i + 1] == x);
                assert(b[0] < b[i + 1]);
                assert(b.to_set().contains(x));
                assert(a.to_set().contains(x));
                let k = choose|k: int| 0 <= k < a.len() && a[k] == x;
                assert(k != 0);
                assert(ta[k - 1] == x);
            }
        }
        assert forall|x: PeerId| #[trigger] ta.to_set().contains(x) == tb.to_set().contains(x) by {
            assert(ta.contains(x) <==> tb.contains(x));
        }
        assert(ta.to_set() =~= tb.to_set());
        lemma_sorted_same_set(ta, tb);
        assert(a =~= seq![a[0]] + ta);
        assert(b =~= seq![b[0]] + tb);
    }
}

/// Selection on a service without an entry, or with an empty set, yields
/// nothing.
pub proof fn lemma_select_missing_or_empty(v: RegistryView, service: Seq<char>)
    requires
        !v.contains_key(service) || v[service].0.len() == 0,
    ensures
        select_result(v, service) is None,
{
}

/// A selected peer is a member of the service's set at the time of selection.
pub proof fn lemma_selected_is_member(v: RegistryView, service: Seq<char>)
    ensures
        select_result(v, service) matches Some(p) ==> members(v, service).contains(p),
{
    if let Some(p) = select_result(v, service) {
        let s = v[service].0;
        let i = (v[service].1 as int) % (s.len() as int);
        assert(0 <= i < s.len());
        assert(s[i] == p);
        assert(s.to_set().contains(p));
    }
}

/// Removing a peer that a service does not have changes nothing.
pub proof fn lemma_delete_unknown_is_noop(
    before: RegistryView,
    after: RegistryView,
    service: Seq<char>,
    peer: PeerId,
)
    requires
        registry_wf(before),
        registry_wf(after),
        removed(before, after, service, peer),
        !members(before, service).contains(peer),
    ensures
        after == before,
{
    if before.contains_key(service) {
        assert(members(before, service).remove(peer) =~= members(before, service));
        lemma_sorted_same_set(after[service].0, before[service].0);
        assert(after[service] == before[service]);
    }
    assert(after =~= before);
}

/// One operation on a registry.
pub enum RegistryOp {
    Insert(Seq<char>, PeerId),
    Remove(Seq<char>, PeerId),
    Select(Seq<char>),
}

/// `after` and `result` are what `op` gives from `before`.
pub open spec fn op_step(before: RegistryView, after: RegistryView, op: RegistryOp, result: Option<PeerId>) -> bool {
    match op {
        RegistryOp::Insert(s, p) => inserted(before, after, s, p),
        RegistryOp::Remove(s, p) => removed(before, after, s, p),
        RegistryOp::Select(s) => selected(before, after, s) && result == select_result(before, s),
    }
}

/// Once `peer` is removed from `service`, no later selection on `service`
/// returns it until it is inserted again.
pub proof fn lemma_removed_peer_not_selected(
    states: Seq<RegistryView>,
    ops: Seq<RegistryOp>,
    results: Seq<Option<PeerId>>,
    service: Seq<char>,
    peer: PeerId,
)
    requires
        states.len() == ops.len() + 1,
        results.len() == ops.len(),
        ops.len() > 0,
        ops[0] == RegistryOp::Remove(service, peer),
        forall|i: int| 0 <= i < ops.len() ==> op_step(states[i], states[i + 1], #[trigger] ops[i], results[i]),
        forall|i: int| 0 < i < ops.len() ==> #[trigger] ops[i] != RegistryOp::Insert(service, peer),
    ensures
        forall|i: int| 0 < i < ops.len() && #[trigger] ops[i] == RegistryOp::Select(service) ==> results[i] != Some(peer),
{
    assert forall|i: int| 0 < i <= ops.len() implies !#[trigger] members(states[i], service).contains(peer) by {
        lemma_absent_after_remove(states, ops, results, service, peer, i);
    }
    assert forall|i: int| 0 < i < ops.len() && #[trigger] ops[i] == RegistryOp::Select(service) implies results[i] != Some(peer) by {
        assert(op_step(states[i], states[i + 1], ops[i], results[i]));
        lemma_selected_is_member(states[i], service);
        assert(!members(states[i], service).contains(peer));
    }
}

proof fn lemma_absent_after_remove(
    states: Seq<RegistryView>,
    ops: Seq<RegistryOp>,
    results: Seq<Option<PeerId>>,
    service: Seq<char>,
    peer: PeerId,
    i: int,
)
    requires
        states.len() == ops.len() + 1,
        results.len() == ops.len(),
        ops.len() > 0,
        ops[0] == RegistryOp::Remove(service, peer),
        forall|i: int| 0 <= i < ops.len() ==> op_step(states[i], states[i + 1], #[trigger] ops[i], results[i]),
        forall|i: int| 0 < i < ops.len() ==> #[trigger] ops[i] != RegistryOp::Insert(service, peer),
        0 < i <= ops.len(),
    ensures
        !members(states[i], service).contains(peer),
    decreases i,
{
    let before = states[i - 1];
    let after = states[i];
    assert(op_step(before, after, ops[i - 1], results[i - 1]));
    if i == 1 {
        if before.contains_key(service) {
            assert(!members(before, service).remove(peer).contains(peer));
        }
    } else {
        lemma_absent_after_remove(states, ops, results, service, peer, i - 1);
        match ops[i - 1] {
            RegistryOp::Insert(s, p) => {
                if s == service {
                    assert(p != peer);
                    assert(!members(before, service).insert(p).contains(peer));
                } else if before.contains_key(service) {
                    assert(after[service] == before[service]);
                }
            },
            RegistryOp::Remove(s, p) => {
                if s == service {
                    if before.contains_key(service) {
                        assert(!members(before, service).remove(p).contains(peer));
                    }
                } else if before.contains_key(service) {
                    assert(after[service] == before[service]);
                }
            },
            RegistryOp::Select(s) => {
                if s != service && before.contains_key(service) {
                    assert(after[service] == before[service]);
                }
            },
        }
    }
}

/// How many of the first `n` picks from counter `c` land on position `j` of a
/// set of `k` members.
pub open spec fn index_hits(c: int, n: nat, k: int, j: int) -> nat
    decreases n,
{
    if n == 0 {
        0
    } else {
        index_hits(c, (n - 1) as nat, k, j) + if (c + n - 1) % k == j {
            1nat
        } else {
            0nat
        }
    }
}

proof fn lemma_index_hits(c: int, n: nat, k: int, j: int)
    requires
        k > 0,
        0 <= j < k,
    ensures
        index_hits(c, n, k, j) == (n + k - 1 - (j - c) % k) / k,
    decreases n,
{
    let d = (j - c) % k;
    assert(0 <= d < k) by {
        lemma_fundamental_div_mod(j - c, k);
    }
    if n == 0 {
        lemma_fundamental_div_mod_converse(k - 1 - d, k, 0, k - 1 - d);
    } else {
        lemma_index_hits(c, (n - 1) as nat, k, j);
        let m = n - 1 + k - 1 - d;
        assert(m >= 0);
        lemma_fundamental_div_mod(m, k);
        let q = m / k;
        let r = m % k;
        assert(m == k * q + r);
        assert(0 <= r < k) by {
            lemma_fundamental_div_mod(m, k);
        }
        if r == k - 1 {
            assert(m + 1 == (q + 1) * k + 0) by (nonlinear_arith)
                requires
                    m == k * q + r,
                    r == k - 1,
            ;
            lemma_fundamental_div_mod_converse(m + 1, k, q + 1, 0);
        } else {
            assert(m + 1 == q * k + (r + 1)) by (nonlinear_arith)
                requires
                    m == k * q + r,
            ;
            lemma_fundamental_div_mod_converse(m + 1, k, q, r + 1);
        }
        let x = c + n - 1 - j;
        let t = (j - c) / k;
        lemma_fundamental_div_mod(j - c, k);
        assert(j - c == k * t + d);
        assert(m + 1 - x == (1 + t) * k) by (nonlinear_arith)
            requires
                j - c == k * t + d,
                m == n - 1 + k - 1 - d,
                x == c + n - 1 - j,
        ;
        lemma_mod_multiples_basic(1 + t, k);
        lemma_mod_equivalence(m + 1, x, k);
        lemma_mod_equivalence(c + n - 1, j, k);
        lemma_small_mod(j as nat, k as nat);
        lemma_mod_multiples_basic(0, k);
        assert(((c + n - 1) % k == j) <==> ((m + 1) % k == 0));
    }
}

/// How many of `results` are `Some(p)`.
pub open spec fn count_of(results: Seq<Option<PeerId>>, p: PeerId) -> nat
    decreases results.len(),
{
    if results.len() == 0 {
        0
    } else {
        count_of(results.drop_last(), p) + if results.last() == Some(p) {
            1nat
        } else {
            0nat
        }
    }
}

proof fn lemma_selection_run(
    states: Seq<RegistryView>,
    results: Seq<Option<PeerId>>,
    service: Seq<char>,
    peer: PeerId,
    j: int,
    i: int,
)
    requires
        states.len() == results.len() + 1,
        states[0].contains_key(service),
        states[0][service].0.len() > 0,
        strictly_sorted(states[0][service].0),
        0 <= j < states[0][service].0.len(),
        states[0][service].0[j] == peer,
        states[0][service].1 + results.len() <= usize::MAX,
        forall|i: int|
            0 <= i < results.len() ==> selected(states[i], states[i + 1], service)
                && #[trigger] results[i] == select_result(states[i], service),
        0 <= i <= results.len(),
    ensures
        states[i].contains_key(service),
        states[i][service].0 == states[0][service].0,
        states[i][service].1 == states[0][service].1 + i,
        count_of(results.subrange(0, i), peer) == index_hits(
            states[0][service].1 as int,
            i as nat,
            states[0][service].0.len() as int,
            j,
        ),
    decreases i,
{
    let peers = states[0][service].0;
    let k = peers.len() as int;
    let c = states[0][service].1 as int;
    if i == 0 {
        assert(results.subrange(0, 0).len() == 0);
    } else {
        lemma_selection_run(states, results, service, peer, j, i - 1);
        let prev = states[i - 1];
        assert(results[i - 1] == select_result(prev, service));
        assert(selected(prev, states[i], service));
        assert(prev[service].1 < usize::MAX);
        assert(bump(prev[service].1) == prev[service].1 + 1);
        assert(results.subrange(0, i).drop_last() =~= results.subrange(0, i - 1));
        assert(results.subrange(0, i).last() == results[i - 1]);
        let idx = (c + i - 1) % k;
        assert(0 <= idx < k) by {
            lemma_fundamental_div_mod(c + i - 1, k);
        }
        assert(results[i - 1] == Some(peers[idx]));
        if idx != j {
            if peers[idx] == peer {
                if idx < j {
                    assert(peers[idx] < peers[j]);
                } else {
                    assert(peers[j] < peers[idx]);
                }
            }
        }
        assert((results[i - 1] == Some(peer)) <==> (idx == j));
    }
}

/// Fairness of round-robin selection: over `n` consecutive selections on a
/// service whose membership does not change, each of its `k` members is
/// returned `n / k` times or one time more, exactly `n / k` times when `k`
/// divides `n`. The counter is assumed not to wrap around during the run.
pub proof fn lemma_round_robin_fair(
    states: Seq<RegistryView>,
    results: Seq<Option<PeerId>>,
    service: Seq<char>,
    peer: PeerId,
)
    requires
        states.len() == results.len() + 1,
        registry_wf(states[0]),
        members(states[0], service).contains(peer),
        states[0][service].1 + results.len() <= usize::MAX,
        forall|i: int|
            0 <= i < results.len() ==> selected(states[i], states[i + 1], service)
                && #[trigger] results[i] == select_result(states[i], service),
    ensures
        ({
            let n = results.len() as int;
            let k = states[0][service].0.len() as int;
            &&& count_of(results, peer) == n / k || count_of(results, peer) == n / k + 1
            &&& n % k == 0 ==> count_of(results, peer) == n / k
        }),
{
    let peers = states[0][service].0;
    let k = peers.len() as int;
    let c = states[0][service].1 as int;
    let n = results.len() as int;
    assert(peers.to_set().contains(peer));
    let j = choose|j: int| 0 <= j < peers.len() && peers[j] == peer;
    lemma_selection_run(states, results, service, peer, j, n);
    assert(results.subrange(0, n) =~= results);
    lemma_index_hits(c, n as nat, k, j);
    let d = (j - c) % k;
    assert(0 <= d < k) by {
        lemma_fundamental_div_mod(j - c, k);
    }
    let h = (n + k - 1 - d) / k;
    lemma_div_is_ordered(n, n + k - 1 - d, k);
    lemma_div_is_ordered(n + k - 1 - d, n + k, k);
    lemma_div_plus_one(n, k);
    assert(n / k <= h <= n / k + 1);
    if n % k == 0 {
        lemma_fundamental_div_mod(n, k);
        let q = n / k;
        assert(n + k - 1 - d == q * k + (k - 1 - d)) by (nonlinear_arith)
            requires
                n == k * q + 0,
        ;
        lemma_fundamental_div_mod_converse(n + k - 1 - d, k, q, k - 1 - d);
    }
}

} // verus!
