//! The per-node state model and the aggregation of the states polled from
//! every peer into a cluster view: state counts and the seeder.

use vstd::prelude::*;
use crate::order::{name_less, name_lt, lemma_name_order};

verus! {

broadcast use vstd::seq_lib::group_to_multiset_ensures;

/// Sidecar operator state
#[derive(Debug, Clone, Copy, PartialEq, Eq, Structural, Hash)]
pub enum State {
    /// When this operator is trying to start its kvserver
    Start,
    /// When this operator is pending on some confusing cluster status
    Pending,
    /// When this operator is working normally
    OK,
}

/// The state payload a node exposes to the other sidecars.
#[derive(Debug, Clone, Copy, PartialEq, Eq, Structural)]
pub struct StatePayload {
    /// Current state
    pub state: State,
    /// Current revision
    pub revision: i64,
}

/// How many polled peers are in each state.
#[derive(Debug, Clone, Copy, PartialEq, Eq, Structural)]
pub struct StateCounts {
    /// Peers in `State::Start`
    pub start: usize,
    /// Peers in `State::Pending`
    pub pending: usize,
    /// Peers in `State::OK`
    pub ok: usize,
}

/// The gathered states from sidecars.
#[derive(Debug, Clone)]
pub struct StateStatus {
    /// The sidecar with the highest (revision, name) pair.
    pub seeder: String,
    /// State count, used to determine cluster status
    pub states: StateCounts,
}

/// A polled peer: its name and the payload it reported.
pub type Polled = (Seq<char>, StatePayload);

/// The (revision, name) key by which a seeder is chosen.
pub type SeedKey = (i64, Seq<char>);

/// The key before any peer is seen: the least revision and the empty name.
pub open spec fn initial_key() -> SeedKey {
    (i64::MIN, Seq::empty())
}

/// `a` orders strictly before `b`: revision first, then name.
pub open spec fn key_lt(a: SeedKey, b: SeedKey) -> bool {
    a.0 < b.0 || (a.0 == b.0 && name_lt(a.1, b.1))
}

/// The key of a polled peer.
pub open spec fn key_of(p: Polled) -> SeedKey {
    (p.1.revision, p.0)
}

/// The greatest key met when walking `s` in order, each peer replacing the
/// current one iff its key is strictly greater.
pub open spec fn best_key(s: Seq<Polled>) -> SeedKey
    decreases s.len(),
{
    if s.len() == 0 {
        initial_key()
    } else {
        let prev = best_key(s.drop_last());
        if key_lt(prev, key_of(s.last())) {
            key_of(s.last())
        } else {
            prev
        }
    }
}

/// The seeder chosen from the polled peers `s`.
pub open spec fn seeder_of(s: Seq<Polled>) -> Seq<char> {
    best_key(s).1
}

/// How many of the polled peers `s` reported `st`.
pub open spec fn count_of(s: Seq<Polled>, st: State) -> nat
    decreases s.len(),
{
    if s.len() == 0 {
        0
    } else {
        count_of(s.drop_last(), st) + if s.last().1.state == st {
            1nat
        } else {
            0nat
        }
    }
}

/// The polled peers of a reply list in which every peer answered.
pub open spec fn polled_of(replies: Seq<(String, Option<StatePayload>)>) -> Seq<Polled> {
    replies.map_values(|r: (String, Option<StatePayload>)| (r.0@, r.1->Some_0))
}

/// Some peer of the reply list did not answer.
pub open spec fn some_failed(replies: Seq<(String, Option<StatePayload>)>) -> bool {
    exists|i: int| 0 <= i < replies.len() && (#[trigger] replies[i]).1 is None
}

impl StateCounts {
    /// The count kept for `st`.
    pub open spec fn count(&self, st: State) -> nat {
        match st {
            State::Start => self.start as nat,
            State::Pending => self.pending as nat,
            State::OK => self.ok as nat,
        }
    }

    /// The count kept for `st`.
    pub fn get(&self, st: State) -> (r: usize)
        ensures
            r == self.count(st),
    {
        match st {
            State::Start => self.start,
            State::Pending => self.pending,
            State::OK => self.ok,
        }
    }
}

impl StateStatus {
    /// This status is the one computed from the polled peers `s`.
    pub open spec fn describes(&self, s: Seq<Polled>) -> bool {
        &&& self.seeder@ == seeder_of(s)
        &&& forall|st: State| #[trigger] self.states.count(st) == count_of(s, st)
    }

    /// Gather status from the replies of the sidecars, one `(name, reply)`
    /// per peer, `None` for a peer that could not be polled or answered with
    /// something other than a state payload. All or nothing: one failed peer
    /// fails the whole gather.
    pub fn gather(replies: &Vec<(String, Option<StatePayload>)>) -> (r: Option<StateStatus>)
        ensures
            r is None <==> some_failed(replies@),
            r matches Some(status) ==> status.describes(polled_of(replies@)),
    {
        let ghost s = polled_of(replies@);
        let mut seeder = String::new();
        let mut max_rev: i64 = i64::MIN;
        let mut states = StateCounts { start: 0, pending: 0, ok: 0 };
        let mut i: usize = 0;
        proof {
            assert(s.take(0) =~= Seq::<Polled>::empty());
        }
        while i < replies.len()
            invariant
                s == polled_of(replies@),
                i <= replies@.len(),
                forall|k: int| 0 <= k < i ==> (#[trigger] replies@[k]).1 is Some,
                (max_rev, seeder@) == best_key(s.take(i as int)),
                forall|st: State| #[trigger] states.count(st) == count_of(s.take(i as int), st),
                states.start <= i,
                states.pending <= i,
                states.ok <= i,
            decreases replies@.len() - i,
        {
            let name = &replies[i].0;
            match &replies[i].1 {
                None => {
                    return None;
                },
                Some(payload) => {
                    proof {
                        assert(s.take(i + 1).drop_last() =~= s.take(i as int));
                        assert(s.take(i + 1).last() == (name@, *payload));
                    }
                    if payload.revision > max_rev || (payload.revision == max_rev && name_less(
                        seeder.as_str(),
                        name.as_str(),
                    )) {
                        max_rev = payload.revision;
                        seeder = name.clone();
                    }
                    let ghost before = states;
                    match payload.state {
                        State::Start => states.start = states.start + 1,
                        State::Pending => states.pending = states.pending + 1,
                        State::OK => states.ok = states.ok + 1,
                    }
                    assert forall|st: State| #[trigger] states.count(st) == count_of(
                        s.take(i + 1),
                        st,
                    ) by {
                        assert(before.count(st) == count_of(s.take(i as int), st));
                        assert(count_of(s.take(i + 1), st) == count_of(s.take(i as int), st) + if payload.state == st { 1nat } else { 0nat });
                    }
                },
            }
            i = i + 1;
        }
        proof {
            assert(s.take(i as int) =~= s);
        }
        Some(StateStatus { seeder, states })
    }
}

/// The key order is a strict total order.
proof fn lemma_key_order(a: SeedKey, b: SeedKey, c: SeedKey)
    ensures
        !key_lt(a, a),
        key_lt(a, b) ==> !key_lt(b, a),
        key_lt(a, b) && key_lt(b, c) ==> key_lt(a, c),
        a != b ==> key_lt(a, b) || key_lt(b, a),
{
    lemma_name_order(a.1, b.1, c.1);
    lemma_name_order(b.1, c.1, a.1);
    lemma_name_order(a.1, c.1, b.1);
}

/// The chosen key is no smaller than the initial key and than the key of any
/// polled peer, and it is the initial key or the key of a polled peer.
pub proof fn lemma_best_key_is_greatest(s: Seq<Polled>)
    ensures
        !key_lt(best_key(s), initial_key()),
        forall|i: int| 0 <= i < s.len() ==> !key_lt(best_key(s), #[trigger] key_of(s[i])),
        best_key(s) == initial_key() || exists|i: int|
            0 <= i < s.len() && best_key(s) == #[trigger] key_of(s[i]),
    decreases s.len(),
{
    if s.len() > 0 {
        let t = s.drop_last();
        let prev = best_key(t);
        let x = key_of(s.last());
        lemma_best_key_is_greatest(t);
        lemma_key_order(prev, x, initial_key());
        assert(s.last() == s[s.len() - 1]);
        assert(best_key(s) == if key_lt(prev, x) {
            x
        } else {
            prev
        });
        assert forall|i: int| 0 <= i < s.len() implies !key_lt(
            best_key(s),
            #[trigger] key_of(s[i]),
        ) by {
            if i < s.len() - 1 {
                assert(key_of(s[i]) == key_of(t[i]));
                lemma_key_order(prev, x, key_of(t[i]));
            } else {
                lemma_key_order(x, prev, x);
            }
        }
        if key_lt(prev, x) {
            assert(best_key(s) == key_of(s[s.len() - 1]));
        } else if prev != initial_key() {
            let i = choose|i: int| 0 <= i < t.len() && prev == #[trigger] key_of(t[i]);
            assert(key_of(s[i]) == key_of(t[i]));
        }
    }
}

/// Two walks over the same polled peers, in any order, agree on the key.
proof fn lemma_best_key_permutation(a: Seq<Polled>, b: Seq<Polled>)
    requires
        a.to_multiset() == b.to_multiset(),
    ensures
        best_key(a) == best_key(b),
{
    lemma_best_key_is_greatest(a);
    lemma_best_key_is_greatest(b);
    let ka = best_key(a);
    let kb = best_key(b);
    if kb != initial_key() {
        let j = choose|j: int| 0 <= j < b.len() && kb == #[trigger] key_of(b[j]);
        assert(b.to_multiset().count(b[j]) > 0);
        assert(a.to_multiset().count(b[j]) > 0);
        assert(a.contains(b[j]));
        let i = choose|i: int| 0 <= i < a.len() && a[i] == b[j];
        assert(key_of(a[i]) == kb);
    }
    if ka != initial_key() {
        let i = choose|i: int| 0 <= i < a.len() && ka == #[trigger] key_of(a[i]);
        assert(a.to_multiset().count(a[i]) > 0);
        assert(b.to_multiset().count(a[i]) > 0);
        assert(b.contains(a[i]));
        let j = choose|j: int| 0 <= j < b.len() && b[j] == a[i];
        assert(key_of(b[j]) == ka);
    }
    lemma_key_order(ka, kb, ka);
}

/// Taking one peer out of the list lowers the count of its state by one.
proof fn lemma_count_remove(s: Seq<Polled>, i: int, st: State)
    requires
        0 <= i < s.len(),
    ensures
        count_of(s, st) == count_of(s.remove(i), st) + if s[i].1.state == st {
            1nat
        } else {
            0nat
        },
    decreases s.len(),
{
    if i == s.len() - 1 {
        assert(s.remove(i) =~= s.drop_last());
    } else {
        lemma_count_remove(s.drop_last(), i, st);
        assert(s.drop_last().remove(i) =~= s.remove(i).drop_last());
        assert(s.remove(i).last() == s.last());
    }
}

/// Two lists of the same polled peers, in any order, give the same counts.
proof fn lemma_count_permutation(a: Seq<Polled>, b: Seq<Polled>, st: State)
    requires
        a.to_multiset() == b.to_multiset(),
    ensures
        count_of(a, st) == count_of(b, st),
    decreases a.len(),
{
    if a.len() == 0 {
        assert(a.to_multiset().len() == 0);
        assert(b.to_multiset().len() == 0);
        assert(b.len() == 0);
    } else {
        let x = a.last();
        let t = a.drop_last();
        assert(a =~= t.push(x));
        assert(a.to_multiset().count(x) > 0);
        assert(b.to_multiset().count(x) > 0);
        assert(b.contains(x));
        let j = choose|j: int| 0 <= j < b.len() && b[j] == x;
        assert(t.to_multiset() =~= a.to_multiset().remove(x));
        assert(b.remove(j).to_multiset() =~= b.to_multiset().remove(x));
        lemma_count_permutation(t, b.remove(j), st);
        lemma_count_remove(b, j, st);
        assert(count_of(a, st) == count_of(t, st) + if x.1.state == st {
            1nat
        } else {
            0nat
        });
    }
}

/// Order independence: gathering the same peers' replies in any order yields
/// the same seeder and the same counts.
pub proof fn lemma_gather_order_independent(a: Seq<Polled>, b: Seq<Polled>)
    requires
        a.to_multiset() == b.to_multiset(),
    ensures
        seeder_of(a) == seeder_of(b),
        forall|st: State| #[trigger] count_of(a, st) == count_of(b, st),
{
    lemma_best_key_permutation(a, b);
    assert forall|st: State| #[trigger] count_of(a, st) == count_of(b, st) by {
        lemma_count_permutation(a, b, st);
    }
}

/// Idempotence: two gathers over unchanged replies describe the same status,
/// seeder and counts alike.
pub proof fn lemma_gather_idempotent(
    replies: Seq<(String, Option<StatePayload>)>,
    first: StateStatus,
    second: StateStatus,
)
    requires
        first.describes(polled_of(replies)),
        second.describes(polled_of(replies)),
    ensures
        first.seeder@ == second.seeder@,
        first.states == second.states,
{
    assert(first.states.count(State::Start) == second.states.count(State::Start));
    assert(first.states.count(State::Pending) == second.states.count(State::Pending));
    assert(first.states.count(State::OK) == second.states.count(State::OK));
}

} // verus!
