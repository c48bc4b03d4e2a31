//! A cluster of broadcast nodes, round by round.
//!
//! In a round every node's timer ticks once and every message that the ticks
//! send reaches the node it is addressed to. Where each node can reach every
//! other over the neighbours, a number of rounds that is at least the longest
//! such way brings every value to every node.

use crate::broadcast::{NodeState, PayloadView};
use crate::message::MessageView;
use crate::delivery::{carried, carried_by_any, lemma_run_collects, run};
use vstd::prelude::*;

verus! {

/// The nodes of a cluster, each under its identifier.
pub type Cluster = Map<Seq<char>, NodeState>;

/// What any node believes another to have, the other has seen.
pub open spec fn accurate(c: Cluster) -> bool {
    forall|u: Seq<char>, v: Seq<char>|
        c.contains_key(u) && c.contains_key(v) ==> (#[trigger] c[u].known_by(v)).subset_of(c[v].seen)
}

/// Whether a tick of the node `u` sends to the node `v`.
pub open spec fn gossips_to(c: Cluster, u: Seq<char>, v: Seq<char>) -> bool {
    c.contains_key(u) && c[u].neighborhood.contains(v)
}

/// The values that one round delivers to the node `v`: what the ticks of the
/// nodes that have `v` as a neighbour send to `v`.
pub open spec fn delivered(c: Cluster, v: Seq<char>) -> Set<usize> {
    Set::new(|x: usize| exists|u: Seq<char>| #[trigger] gossips_to(c, u, v) && c[u].delta(v).contains(x))
}

/// Whether `next` is the cluster `c` after one round: every node has taken in
/// what the round delivered to it, and nothing else of what the protocol
/// reads has changed.
pub open spec fn is_round(c: Cluster, next: Cluster) -> bool {
    &&& next.dom() == c.dom()
    &&& forall|v: Seq<char>| #[trigger]
        c.contains_key(v) ==> {
            &&& next[v].seen == c[v].seen.union(delivered(c, v))
            &&& next[v].known == c[v].known
            &&& next[v].neighborhood == c[v].neighborhood
            &&& next[v].node_id == c[v].node_id
        }
}

/// Whether each cluster of `trace` but the first is its predecessor after one
/// round.
pub open spec fn is_run(trace: Seq<Cluster>) -> bool {
    forall|i: int| 0 <= i < trace.len() - 1 ==> is_round(#[trigger] trace[i], trace[i + 1])
}

/// Whether `way` is a way through the cluster: it is not empty, and each of
/// its nodes but the last gossips to the next, which is a node of the cluster.
pub open spec fn is_way(c: Cluster, way: Seq<Seq<char>>) -> bool {
    &&& way.len() > 0
    &&& forall|i: int|
        0 <= i < way.len() - 1 ==> gossips_to(c, #[trigger] way[i], way[i + 1]) && c.contains_key(
            way[i + 1],
        )
}

/// Whether a way of at most `hops` steps leads from `u` to `v`.
pub open spec fn reaches(c: Cluster, u: Seq<char>, v: Seq<char>, hops: nat) -> bool {
    exists|way: Seq<Seq<char>>|
        #[trigger] is_way(c, way) && way.first() == u && way.last() == v && way.len() <= hops + 1
}

/// Every value that some node of the cluster has seen.
pub open spec fn all_values(c: Cluster) -> Set<usize> {
    Set::new(|x: usize| exists|u: Seq<char>| #[trigger] c.contains_key(u) && c[u].seen.contains(x))
}

/// A tick of a node sends a message exactly if the message is the node's
/// gossip for one of its neighbours.
pub proof fn lemma_tick_sends(s: NodeState, m: MessageView<PayloadView>)
    ensures
        s.round().contains(m) <==> exists|n: Seq<char>|
            #[trigger] s.neighborhood.contains(n) && s.gossip_for(n) == Some(m),
{
    lemma_sent_to(s, s.neighborhood, m);
}

/// The gossip for some nodes holds a message exactly if the message is the
/// gossip for one of them.
proof fn lemma_sent_to(s: NodeState, targets: Seq<Seq<char>>, m: MessageView<PayloadView>)
    ensures
        targets.filter_map(s.gossip_fn()).contains(m) <==> exists|n: Seq<char>|
            #[trigger] targets.contains(n) && s.gossip_for(n) == Some(m),
    decreases targets.len(),
{
    if targets.len() > 0 {
        let front = targets.drop_last();
        let last = targets.last();
        lemma_sent_to(s, front, m);
        let sent = targets.filter_map(s.gossip_fn());
        let before = front.filter_map(s.gossip_fn());
        if sent.contains(m) {
            let i = choose|i: int| 0 <= i < sent.len() && sent[i] == m;
            if i < before.len() {
                assert(before[i] == m);
                let n = choose|n: Seq<char>| #[trigger] front.contains(n) && s.gossip_for(n) == Some(m);
                let k = choose|k: int| 0 <= k < front.len() && front[k] == n;
                assert(targets[k] == n);
                assert(targets.contains(n) && s.gossip_for(n) == Some(m));
            } else {
                assert(targets[targets.len() - 1] == last);
                assert(targets.contains(last) && s.gossip_for(last) == Some(m));
            }
        }
        if exists|n: Seq<char>| #[trigger] targets.contains(n) && s.gossip_for(n) == Some(m) {
            let n = choose|n: Seq<char>| #[trigger] targets.contains(n) && s.gossip_for(n) == Some(m);
            let k = choose|k: int| 0 <= k < targets.len() && targets[k] == n;
            if k < front.len() {
                assert(front[k] == n);
                assert(front.contains(n));
                let i = choose|i: int| 0 <= i < before.len() && before[i] == m;
                assert(sent[i] == m);
            } else {
                assert(sent[sent.len() - 1] == m);
            }
            assert(sent.contains(m));
        }
    }
}

/// Whether `inbox` holds what one round delivers to `v`: each of its payloads
/// is the gossip that the tick of some node sends to `v`, and the gossip of
/// every such tick is among them.
pub open spec fn is_inbox(c: Cluster, v: Seq<char>, inbox: Seq<PayloadView>) -> bool {
    &&& forall|i: int|
        0 <= i < inbox.len() ==> exists|u: Seq<char>|
            #[trigger] gossips_to(c, u, v) && c[u].gossip_for(v) is Some && c[u].gossip_for(
                v,
            )->0.payload == #[trigger] inbox[i]
    &&& forall|u: Seq<char>| #[trigger]
        gossips_to(c, u, v) && c[u].gossip_for(v) is Some ==> inbox.contains(
            c[u].gossip_for(v)->0.payload,
        )
}

/// A node that handles, in any order, the gossip that one round sends to it
/// has then seen what it had seen together with what the round delivered.
pub proof fn lemma_round_is_delivery(c: Cluster, v: Seq<char>, inbox: Seq<PayloadView>)
    requires
        c.contains_key(v),
        is_inbox(c, v, inbox),
    ensures
        run(c[v], inbox).seen == c[v].seen.union(delivered(c, v)),
{
    lemma_run_collects(c[v], inbox);
    assert forall|x: usize| carried_by_any(inbox).contains(x) implies delivered(c, v).contains(x) by {
        let i = choose|i: int| 0 <= i < inbox.len() && carried(#[trigger] inbox[i]).contains(x);
        let u = choose|u: Seq<char>|
            #[trigger] gossips_to(c, u, v) && c[u].gossip_for(v) is Some && c[u].gossip_for(
                v,
            )->0.payload == inbox[i];
        assert(c[u].delta(v).contains(x));
    }
    assert forall|x: usize| delivered(c, v).contains(x) implies carried_by_any(inbox).contains(x) by {
        let u = choose|u: Seq<char>| #[trigger] gossips_to(c, u, v) && c[u].delta(v).contains(x);
        assert(c[u].gossip_for(v) is Some);
        let p = c[u].gossip_for(v)->0.payload;
        assert(inbox.contains(p));
    }
    assert(carried_by_any(inbox) =~= delivered(c, v));
}

/// A round keeps what every node had seen, keeps the beliefs accurate, and
/// brings to every node all that a node gossiping to it had seen.
pub proof fn lemma_round_spreads(c: Cluster, next: Cluster)
    requires
        is_round(c, next),
        accurate(c),
    ensures
        accurate(next),
        forall|v: Seq<char>| #[trigger] c.contains_key(v) ==> c[v].seen.subset_of(next[v].seen),
        forall|u: Seq<char>, v: Seq<char>|
            c.contains_key(v) && #[trigger] gossips_to(c, u, v) ==> c[u].seen.subset_of(next[v].seen),
{
    assert forall|u: Seq<char>, v: Seq<char>|
        c.contains_key(v) && #[trigger] gossips_to(c, u, v) implies c[u].seen.subset_of(
        next[v].seen,
    ) by {
        assert forall|x: usize| c[u].seen.contains(x) implies next[v].seen.contains(x) by {
            if c[u].known_by(v).contains(x) {
                assert(c[u].known_by(v).subset_of(c[v].seen));
            } else {
                assert(c[u].delta(v).contains(x));
            }
        }
    }
    assert forall|u: Seq<char>, v: Seq<char>|
        next.contains_key(u) && next.contains_key(v) implies (#[trigger] next[u].known_by(
        v,
    )).subset_of(next[v].seen) by {
        assert(c[u].known_by(v).subset_of(c[v].seen));
    }
}

/// No round brings a value that no node had.
proof fn lemma_round_invents_nothing(c: Cluster, next: Cluster)
    requires
        is_round(c, next),
    ensures
        all_values(next) == all_values(c),
{
    assert forall|x: usize| all_values(next).contains(x) implies all_values(c).contains(x) by {
        let v = choose|v: Seq<char>| #[trigger] next.contains_key(v) && next[v].seen.contains(x);
        assert(c.contains_key(v));
        if !c[v].seen.contains(x) {
            let u = choose|u: Seq<char>| #[trigger] gossips_to(c, u, v) && c[u].delta(v).contains(x);
            assert(c.contains_key(u) && c[u].seen.contains(x));
        }
    }
    assert forall|x: usize| all_values(c).contains(x) implies all_values(next).contains(x) by {
        let v = choose|v: Seq<char>| #[trigger] c.contains_key(v) && c[v].seen.contains(x);
        assert(next[v].seen.contains(x));
    }
}

/// What holds of a run from its first cluster holds from its second too.
proof fn lemma_rest_of_run(trace: Seq<Cluster>)
    requires
        is_run(trace),
        trace.len() > 1,
    ensures
        is_run(trace.skip(1)),
        is_round(trace[0], trace[1]),
{
    let rest = trace.skip(1);
    assert forall|i: int| 0 <= i < rest.len() - 1 implies is_round(#[trigger] rest[i], rest[i + 1]) by {
        assert(is_round(trace[i + 1], trace[i + 2]));
    }
}

/// After any number of rounds every node has what it had, and no node has a
/// value that no node had at the start.
pub proof fn lemma_run_is_monotone(trace: Seq<Cluster>, rounds: nat, v: Seq<char>)
    requires
        is_run(trace),
        rounds < trace.len(),
        trace[0].contains_key(v),
    ensures
        trace[rounds as int].contains_key(v),
        trace[0][v].seen.subset_of(trace[rounds as int][v].seen),
        trace[rounds as int][v].seen.subset_of(all_values(trace[0])),
    decreases rounds,
{
    if rounds > 0 {
        lemma_rest_of_run(trace);
        let rest = trace.skip(1);
        assert(rest[0].contains_key(v));
        lemma_run_is_monotone(rest, (rounds - 1) as nat, v);
        lemma_round_invents_nothing(trace[0], trace[1]);
        assert(trace[0][v].seen.subset_of(trace[1][v].seen));
    }
}

/// Along a way, one round for each step brings to the last node all that the
/// first had seen at the start.
proof fn lemma_values_travel_along(trace: Seq<Cluster>, way: Seq<Seq<char>>)
    requires
        is_run(trace),
        is_way(trace[0], way),
        way.len() <= trace.len(),
        accurate(trace[0]),
        trace[0].contains_key(way.first()),
    ensures
        trace[0].contains_key(way.last()),
        trace[0][way.first()].seen.subset_of(trace[way.len() - 1][way.last()].seen),
    decreases way.len(),
{
    if way.len() > 1 {
        let c = trace[0];
        let rest = way.drop_first();
        lemma_rest_of_run(trace);
        lemma_round_spreads(c, trace[1]);
        assert forall|i: int| 0 <= i < rest.len() - 1 implies gossips_to(
            trace[1],
            #[trigger] rest[i],
            rest[i + 1],
        ) && trace[1].contains_key(rest[i + 1]) by {
            assert(c.contains_key(way[i + 1]));
        }
        lemma_values_travel_along(trace.skip(1), rest);
    }
}

/// Where a way of at most `rounds` steps leads from `u` to `v`, and the
/// beliefs are accurate at the start, `v` has after `rounds` rounds all that
/// `u` had seen at the start.
pub proof fn lemma_values_travel(trace: Seq<Cluster>, rounds: nat, u: Seq<char>, v: Seq<char>)
    requires
        is_run(trace),
        rounds < trace.len(),
        accurate(trace[0]),
        trace[0].contains_key(u),
        reaches(trace[0], u, v, rounds),
    ensures
        trace[0].contains_key(v),
        trace[0][u].seen.subset_of(trace[rounds as int][v].seen),
{
    let way = choose|way: Seq<Seq<char>>|
        #[trigger] is_way(trace[0], way) && way.first() == u && way.last() == v && way.len()
            <= rounds + 1;
    lemma_values_travel_along(trace, way);
    let arrived = (way.len() - 1) as nat;
    lemma_run_is_monotone(trace, arrived, v);
    let later = trace.skip(arrived as int);
    assert forall|i: int| 0 <= i < later.len() - 1 implies is_round(#[trigger] later[i], later[i + 1]) by {
        assert(is_round(trace[arrived + i], trace[arrived + i + 1]));
    }
    lemma_run_is_monotone(later, (rounds - arrived) as nat, v);
}

/// Convergence: where every node reaches every other in at most `rounds`
/// steps over the neighbours, and the beliefs are accurate at the start,
/// every node has after `rounds` rounds exactly the values that any node had
/// seen at the start.
pub proof fn lemma_convergence(trace: Seq<Cluster>, rounds: nat)
    requires
        is_run(trace),
        rounds < trace.len(),
        accurate(trace[0]),
        forall|u: Seq<char>, v: Seq<char>|
            trace[0].contains_key(u) && trace[0].contains_key(v) ==> #[trigger] reaches(
                trace[0],
                u,
                v,
                rounds,
            ),
    ensures
        forall|v: Seq<char>| #[trigger]
            trace[0].contains_key(v) ==> trace[rounds as int][v].seen == all_values(trace[0]),
{
    assert forall|v: Seq<char>| #[trigger] trace[0].contains_key(v) implies trace[rounds as int][v].seen
        == all_values(trace[0]) by {
        lemma_run_is_monotone(trace, rounds, v);
        assert forall|x: usize| all_values(trace[0]).contains(x) implies trace[rounds as int][v].seen.contains(
            x,
        ) by {
            let u = choose|u: Seq<char>| #[trigger]
                trace[0].contains_key(u) && trace[0][u].seen.contains(x);
            lemma_values_travel(trace, rounds, u, v);
        }
    }
}

/// At the start of a cluster, when no node believes anything of another, the
/// beliefs are accurate.
pub proof fn lemma_initial_beliefs_accurate(c: Cluster)
    requires
        forall|u: Seq<char>, n: Seq<char>|
            c.contains_key(u) && #[trigger] c[u].known.contains_key(n) ==> c[u].known[n].is_empty(),
    ensures
        accurate(c),
{
    assert forall|u: Seq<char>, v: Seq<char>| c.contains_key(u) && c.contains_key(v) implies (
    #[trigger] c[u].known_by(v)).subset_of(c[v].seen) by {
        assert(c[u].known_by(v).is_empty());
    }
}

} // verus!
