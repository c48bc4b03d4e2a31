//! How the answers of the nodes belong to their requests, and what the
//! counter's view does under additions.

use crate::conflict::ConflictDetail;
use crate::message::MessageView;
use vstd::prelude::*;

verus! {

/// Whether `reply` answers `request` under the identifier `id`: it goes back
/// where the request came from, from where the request went, and refers to
/// the request's identifier.
pub open spec fn answers<V, W>(reply: MessageView<W>, request: MessageView<V>, id: nat) -> bool {
    &&& reply.src == request.dst
    &&& reply.dst == request.src
    &&& reply.in_reply_to == request.msg_id
    &&& reply.msg_id == Some(id)
}

/// Whether `m` is a message that expects no answer and answers none.
pub open spec fn is_notice<V>(m: MessageView<V>) -> bool {
    m.msg_id is None && m.in_reply_to is None
}

/// What an echo node sends on a request answers that request.
pub proof fn lemma_echo_answers(
    s: crate::echo::NodeState,
    request: MessageView<crate::echo::PayloadView>,
)
    ensures
        s.answer(request) matches Some(reply) ==> answers(reply, request, s.id),
{
}

/// What a unique-id node sends on a request answers that request.
pub proof fn lemma_unique_id_answers(
    s: crate::unique_id::NodeState,
    request: MessageView<crate::unique_id::PayloadView>,
    fresh: Seq<char>,
)
    ensures
        s.answer(request, fresh) matches Some(reply) ==> answers(reply, request, s.id),
{
}

/// What a broadcast node sends on a request answers that request, and what
/// it sends on a tick comes from the node, goes to a neighbour and expects no
/// answer.
pub proof fn lemma_broadcast_answers(
    s: crate::broadcast::NodeState,
    request: MessageView<crate::broadcast::PayloadView>,
)
    ensures
        s.answer(request) matches Some(reply) ==> answers(reply, request, s.id),
        forall|i: int|
            0 <= i < s.round().len() ==> {
                &&& is_notice(#[trigger] s.round()[i])
                &&& s.round()[i].src == s.node_id
                &&& s.neighborhood.contains(s.round()[i].dst)
            },
{
    lemma_round_goes_to(s, s.neighborhood);
}

/// The gossip for some nodes comes from the node and goes to those nodes.
proof fn lemma_round_goes_to(s: crate::broadcast::NodeState, targets: Seq<Seq<char>>)
    ensures
        forall|i: int|
            0 <= i < targets.filter_map(s.gossip_fn()).len() ==> {
                let m = #[trigger] targets.filter_map(s.gossip_fn())[i];
                &&& is_notice(m)
                &&& m.src == s.node_id
                &&& targets.contains(m.dst)
            },
    decreases targets.len(),
{
    if targets.len() > 0 {
        let front = targets.drop_last();
        lemma_round_goes_to(s, front);
        let sent = targets.filter_map(s.gossip_fn());
        let before = front.filter_map(s.gossip_fn());
        assert forall|i: int| 0 <= i < sent.len() implies {
            let m = #[trigger] sent[i];
            &&& is_notice(m)
            &&& m.src == s.node_id
            &&& targets.contains(m.dst)
        } by {
            if i < before.len() {
                assert(front.contains(before[i].dst));
            }
        }
    }
}

/// Where every neighbour of a broadcast node has something to learn, a tick
/// sends to exactly the neighbours, in their order.
pub proof fn lemma_tick_targets_neighbours(s: crate::broadcast::NodeState)
    requires
        forall|i: int| 0 <= i < s.neighborhood.len() ==> !(#[trigger] s.delta(s.neighborhood[i])).is_empty(),
    ensures
        s.round().len() == s.neighborhood.len(),
        forall|i: int| 0 <= i < s.neighborhood.len() ==> (#[trigger] s.round()[i]).dst == s.neighborhood[i],
{
    lemma_round_to_all(s, s.neighborhood);
}

/// Where each of some nodes has something to learn, the gossip for them
/// goes to each of them, in their order.
proof fn lemma_round_to_all(s: crate::broadcast::NodeState, targets: Seq<Seq<char>>)
    requires
        forall|i: int| 0 <= i < targets.len() ==> !(#[trigger] s.delta(targets[i])).is_empty(),
    ensures
        targets.filter_map(s.gossip_fn()).len() == targets.len(),
        forall|i: int|
            0 <= i < targets.len() ==> (#[trigger] targets.filter_map(s.gossip_fn())[i]).dst
                == targets[i],
    decreases targets.len(),
{
    if targets.len() > 0 {
        lemma_round_to_all(s, targets.drop_last());
    }
}

/// Of what a counter node sends on a message, the answer to a read or to an
/// addition answers that message, and everything else expects no answer.
pub proof fn lemma_counter_answers(
    s: crate::grow_counter::NodeState,
    request: MessageView<crate::grow_counter::PayloadView>,
    detail: Option<ConflictDetail>,
)
    ensures
        forall|i: int|
            0 <= i < s.outbound(request, detail).len() ==> {
                let m = #[trigger] s.outbound(request, detail)[i];
                is_notice(m) || answers(m, request, s.id)
            },
{
}

/// Where the store reports that it holds `current` and the node has an
/// addition to repeat, the node takes `current` for its view and proposes to
/// the store, first of all that it sends, to raise the total from `current` by
/// that addition.
pub proof fn lemma_conflict_retry(
    s: crate::grow_counter::NodeState,
    request: MessageView<crate::grow_counter::PayloadView>,
    current: usize,
)
    requires
        request.payload matches crate::grow_counter::PayloadView::Error { code, .. } && code
            == crate::grow_counter::PRECONDITION_FAILED,
        s.last_value > 0,
    ensures
        ({
            let detail = Some(ConflictDetail { current: Some(current) });
            &&& s.step(request.payload, detail).counter == current
            &&& s.outbound(request, detail).len() == 1 + s.neighbors.len()
            &&& s.outbound(request, detail)[0] == MessageView::notice(
                s.node_id,
                crate::grow_counter::LIN_KV@,
                crate::grow_counter::PayloadView::Cas {
                    key: crate::grow_counter::KEY@,
                    from: current as nat,
                    to: current as nat + s.last_value,
                    create_if_not_exists: true,
                },
            )
        }),
{
}

/// An addition and a peer's hint never lower a counter node's view of the
/// total.
pub proof fn lemma_additions_never_lower(
    s: crate::grow_counter::NodeState,
    payload: crate::grow_counter::PayloadView,
    detail: Option<ConflictDetail>,
)
    requires
        payload is Add || payload is Gossip,
    ensures
        s.step(payload, detail).counter >= s.counter,
{
}

} // verus!
