//! What holds of a broadcast node whatever is delivered to it, how often and
//! in which order.

use crate::broadcast::{NodeState, PayloadView};
use vstd::prelude::*;

verus! {

/// The values that a payload hands to the node that receives it.
pub open spec fn carried(payload: PayloadView) -> Set<usize> {
    match payload {
        PayloadView::Broadcast { message } => set![message],
        PayloadView::Gossip { seen } => seen,
        _ => Set::empty(),
    }
}

/// The values that any of the payloads hands over.
pub open spec fn carried_by_any(payloads: Seq<PayloadView>) -> Set<usize> {
    Set::new(
        |v: usize| exists|i: int| 0 <= i < payloads.len() && carried(#[trigger] payloads[i]).contains(v),
    )
}

/// The state after the payloads were handled one after the other.
pub open spec fn run(start: NodeState, payloads: Seq<PayloadView>) -> NodeState
    decreases payloads.len(),
{
    if payloads.len() == 0 {
        start
    } else {
        run(start, payloads.drop_last()).step(payloads.last())
    }
}

/// Handling a payload adds to the values seen what the payload carries, and
/// nothing else.
pub proof fn lemma_step_adds_carried(s: NodeState, payload: PayloadView)
    ensures
        s.step(payload).seen == s.seen.union(carried(payload)),
{
}

/// No value seen is ever lost, no belief about another node is ever dropped,
/// and what a node is believed to have stays within what this node has seen.
pub proof fn lemma_step_keeps_seen(s: NodeState, payload: PayloadView)
    ensures
        s.seen.subset_of(s.step(payload).seen),
        forall|n: Seq<char>| (#[trigger] s.known_by(n)).subset_of(s.step(payload).known_by(n)),
        s.wf() ==> s.step(payload).wf(),
{
    lemma_step_adds_carried(s, payload);
}

/// Handling the same broadcast or gossip once more changes nothing in the
/// values seen.
pub proof fn lemma_delivery_idempotent(s: NodeState, payload: PayloadView)
    ensures
        s.step(payload).step(payload).seen == s.step(payload).seen,
{
    lemma_step_adds_carried(s, payload);
    lemma_step_adds_carried(s.step(payload), payload);
}

/// After any deliveries, however often a value came, the values seen are
/// those seen before together with the distinct values delivered.
pub proof fn lemma_run_collects(start: NodeState, payloads: Seq<PayloadView>)
    ensures
        run(start, payloads).seen == start.seen.union(carried_by_any(payloads)),
    decreases payloads.len(),
{
    if payloads.len() > 0 {
        let front = payloads.drop_last();
        lemma_run_collects(start, front);
        lemma_step_adds_carried(run(start, front), payloads.last());
        assert forall|v: usize|
            carried_by_any(payloads).contains(v) <==> (carried_by_any(front).contains(v) || carried(
                payloads.last(),
            ).contains(v)) by {
            if carried_by_any(payloads).contains(v) {
                let i = choose|i: int|
                    0 <= i < payloads.len() && carried(#[trigger] payloads[i]).contains(v);
                if i < front.len() {
                    assert(carried(front[i]).contains(v));
                }
            }
        }
    }
}

/// Handling the same payload any number of times leaves the values seen as
/// handling it once does.
pub proof fn lemma_repeated_delivery(s: NodeState, payload: PayloadView, times: nat)
    requires
        times >= 1,
    ensures
        run(s, Seq::new(times, |i: int| payload)).seen == s.step(payload).seen,
{
    let repeated = Seq::new(times, |i: int| payload);
    lemma_run_collects(s, repeated);
    lemma_step_adds_carried(s, payload);
    assert(carried_by_any(repeated) =~= carried(payload)) by {
        assert(repeated[0] == payload);
    }
}

/// A node that starts with nothing and receives any deliveries has seen
/// exactly the distinct values delivered.
pub proof fn lemma_seen_is_what_was_delivered(
    node_id: Seq<char>,
    node_ids: Seq<Seq<char>>,
    payloads: Seq<PayloadView>,
)
    ensures
        run(NodeState::initial(node_id, node_ids), payloads).seen == carried_by_any(payloads),
{
    lemma_run_collects(NodeState::initial(node_id, node_ids), payloads);
}

/// The order of deliveries does not matter: two sequences that hold the same
/// payloads equally often leave the same values seen.
pub proof fn lemma_order_independent(
    start: NodeState,
    first: Seq<PayloadView>,
    second: Seq<PayloadView>,
)
    requires
        first.to_multiset() == second.to_multiset(),
    ensures
        run(start, first).seen == run(start, second).seen,
{
    lemma_run_collects(start, first);
    lemma_run_collects(start, second);
    lemma_same_members(first, second);
    lemma_same_members(second, first);
}

/// What one of two sequences with the same members carries, the other
/// carries too.
proof fn lemma_same_members(first: Seq<PayloadView>, second: Seq<PayloadView>)
    requires
        first.to_multiset() == second.to_multiset(),
    ensures
        carried_by_any(first).subset_of(carried_by_any(second)),
{
    first.to_multiset_ensures();
    second.to_multiset_ensures();
    assert forall|v: usize| carried_by_any(first).contains(v) implies carried_by_any(second).contains(
        v,
    ) by {
        let i = choose|i: int| 0 <= i < first.len() && carried(#[trigger] first[i]).contains(v);
        assert(second.to_multiset().count(first[i]) > 0);
    }
}

} // verus!
