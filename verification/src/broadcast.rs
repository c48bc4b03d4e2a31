//! A node of the gossip broadcast.
//!
//! Clients hand values to any node. A node keeps the set of values that it has
//! seen and, on every tick of its timer, sends each neighbour the values that
//! the neighbour is not known to have. Receiving is a union of sets, so loss,
//! repetition and reordering of messages do no harm: what was lost is sent
//! again on the next tick.

use crate::error::NodeError;
use crate::message::{texts, views, Init, Message, MessageView};
use std::collections::HashSet;
use vstd::prelude::*;
use vstd::std_specs::iter::IteratorSpec;

verus! {

broadcast use vstd::std_specs::hash::group_hash_axioms;

/// Milliseconds between two ticks of the gossip timer.
pub const GOSSIP_PERIOD_MS: u64 = 300;

/// The first message identifier that a node hands out.
pub const FIRST_MSG_ID: usize = 1;

/// What the messages of the broadcast protocol carry. A topology lists, for
/// each node, the node's neighbours; where a node is listed twice, its first
/// entry counts.
#[derive(Debug, Clone, PartialEq, Eq)]
pub enum Payload {
    Read,
    ReadOk { messages: Vec<usize> },
    Broadcast { message: usize },
    BroadcastOk,
    Topology { topology: Vec<(String, Vec<String>)> },
    TopologyOk,
    Gossip { seen: Vec<usize> },
}

/// The content of a payload. Lists of values count as the sets of their
/// members: neither their order nor a repetition means anything.
pub enum PayloadView {
    Read,
    ReadOk { messages: Set<usize> },
    Broadcast { message: usize },
    BroadcastOk,
    Topology { topology: Seq<(Seq<char>, Seq<Seq<char>>)> },
    TopologyOk,
    Gossip { seen: Set<usize> },
}

/// The content of a topology: each node's identifier with those of its
/// neighbours.
pub open spec fn adjacency(topology: Seq<(String, Vec<String>)>) -> Seq<(Seq<char>, Seq<Seq<char>>)> {
    topology.map_values(|entry: (String, Vec<String>)| (entry.0@, texts(entry.1@)))
}

/// The neighbours that a topology gives to the node `node_id`: those of its
/// first entry for that node, if it has one.
pub open spec fn neighbors_of(topology: Seq<(Seq<char>, Seq<Seq<char>>)>, node_id: Seq<char>) -> Option<
    Seq<Seq<char>>,
>
    decreases topology.len(),
{
    if topology.len() == 0 {
        None
    } else if topology.first().0 == node_id {
        Some(topology.first().1)
    } else {
        neighbors_of(topology.drop_first(), node_id)
    }
}

impl View for Payload {
    type V = PayloadView;

    open spec fn view(&self) -> PayloadView {
        match self {
            Payload::Read => PayloadView::Read,
            Payload::ReadOk { messages } => PayloadView::ReadOk { messages: messages@.to_set() },
            Payload::Broadcast { message } => PayloadView::Broadcast { message: *message },
            Payload::BroadcastOk => PayloadView::BroadcastOk,
            Payload::Topology { topology } => PayloadView::Topology {
                topology: adjacency(topology@),
            },
            Payload::TopologyOk => PayloadView::TopologyOk,
            Payload::Gossip { seen } => PayloadView::Gossip { seen: seen@.to_set() },
        }
    }
}

impl Payload {
    /// Whether the payload lists no value twice.
    pub open spec fn distinct(&self) -> bool {
        match self {
            Payload::ReadOk { messages } => messages@.no_duplicates(),
            Payload::Gossip { seen } => seen@.no_duplicates(),
            _ => true,
        }
    }
}

/// The outcome of handling one envelope, read off the list of envelopes to
/// send: its first member, if it has one.
pub open spec fn at_most_one(r: Result<Vec<Message<Payload>>, NodeError>) -> Result<
    Option<Message<Payload>>,
    NodeError,
> {
    match r {
        Ok(out) => Ok(if out@.len() > 0 { Some(out@[0]) } else { None }),
        Err(e) => Err(e),
    }
}

/// What a node of the broadcast takes from its queue.
#[derive(Debug, Clone, PartialEq, Eq)]
pub enum Event {
    /// An envelope arrived.
    Message(Message<Payload>),
    /// The gossip timer fired: it is time to tell the neighbours.
    Gossip,
    /// The input has ended.
    Eof,
}

/// The state of a node as mathematics.
pub struct NodeState {
    /// The identifier that the next answer will carry.
    pub id: nat,
    pub node_id: Seq<char>,
    /// The values accepted so far.
    pub seen: Set<usize>,
    /// For each node of the cluster, the values that it is believed to have.
    pub known: Map<Seq<char>, Set<usize>>,
    /// The nodes that this node gossips to, in the order of the topology.
    pub neighborhood: Seq<Seq<char>>,
}

impl NodeState {
    /// The state in which a node starts: it has seen nothing, believes
    /// nothing of the nodes of the cluster, and has no neighbours yet.
    pub open spec fn initial(node_id: Seq<char>, node_ids: Seq<Seq<char>>) -> NodeState {
        NodeState {
            id: FIRST_MSG_ID as nat,
            node_id,
            seen: Set::empty(),
            known: Map::new(|n: Seq<char>| node_ids.contains(n), |n: Seq<char>| Set::empty()),
            neighborhood: Seq::empty(),
        }
    }

    /// What holds of every state that a node reaches: all that a node is
    /// believed to have, this node has seen itself.
    pub open spec fn wf(self) -> bool {
        forall|n: Seq<char>| #[trigger]
            self.known.contains_key(n) ==> self.known[n].subset_of(self.seen)
    }

    /// The values that the node `n` is believed to have: none where nothing
    /// is recorded of `n`.
    pub open spec fn known_by(self, n: Seq<char>) -> Set<usize> {
        if self.known.contains_key(n) {
            self.known[n]
        } else {
            Set::empty()
        }
    }

    /// The values seen here that the node `n` is not believed to have.
    pub open spec fn delta(self, n: Seq<char>) -> Set<usize> {
        self.seen.difference(self.known_by(n))
    }

    /// The message that a tick sends to the node `n`: its delta, unless that
    /// is empty.
    pub open spec fn gossip_for(self, n: Seq<char>) -> Option<MessageView<PayloadView>> {
        if self.delta(n).is_empty() {
            None
        } else {
            Some(MessageView::notice(self.node_id, n, PayloadView::Gossip { seen: self.delta(n) }))
        }
    }

    /// [`NodeState::gossip_for`] of this state, as a function of the node.
    pub open spec fn gossip_fn(self) -> spec_fn(Seq<char>) -> Option<MessageView<PayloadView>> {
        |n: Seq<char>| self.gossip_for(n)
    }

    /// The messages that a tick sends: one to each neighbour that has
    /// something to learn, in the order of the neighbours.
    pub open spec fn round(self) -> Seq<MessageView<PayloadView>> {
        self.neighborhood.filter_map(self.gossip_fn())
    }

    /// Whether the node can handle `payload`: a topology must have an entry
    /// for the node.
    pub open spec fn accepts(self, payload: PayloadView) -> bool {
        payload matches PayloadView::Topology { topology } ==> neighbors_of(
            topology,
            self.node_id,
        ) is Some
    }

    /// The values seen after `payload` was handled: a broadcast adds its
    /// value, gossip adds all of its values, nothing else changes the set.
    pub open spec fn seen_after(self, payload: PayloadView) -> Set<usize> {
        match payload {
            PayloadView::Broadcast { message } => self.seen.insert(message),
            PayloadView::Gossip { seen } => self.seen.union(seen),
            _ => self.seen,
        }
    }

    /// The state after `payload` was handled. A topology gives the node its
    /// neighbours. Every message handled uses up one message identifier.
    pub open spec fn step(self, payload: PayloadView) -> NodeState {
        NodeState {
            id: self.id + 1,
            seen: self.seen_after(payload),
            neighborhood: match payload {
                PayloadView::Topology { topology } => match neighbors_of(topology, self.node_id) {
                    Some(neighbors) => neighbors,
                    None => self.neighborhood,
                },
                _ => self.neighborhood,
            },
            ..self
        }
    }

    /// The answer to `m`: a read is answered with all values seen, a
    /// broadcast and a topology are acknowledged, nothing else is answered.
    pub open spec fn answer(self, m: MessageView<PayloadView>) -> Option<MessageView<PayloadView>> {
        match m.payload {
            PayloadView::Read => Some(
                m.reply(Some(self.id), PayloadView::ReadOk { messages: self.seen }),
            ),
            PayloadView::Broadcast { .. } => Some(m.reply(Some(self.id), PayloadView::BroadcastOk)),
            PayloadView::Topology { .. } => Some(m.reply(Some(self.id), PayloadView::TopologyOk)),
            _ => None,
        }
    }

    /// What a call that handles `m` in the state `self` must hand back, and
    /// the state `after` that it must leave. It succeeds unless the node has
    /// no message identifier left or a topology has no entry for the node, and
    /// a call that fails leaves the state as it was.
    pub open spec fn handles(
        self,
        m: MessageView<PayloadView>,
        r: Result<Option<Message<Payload>>, NodeError>,
        after: NodeState,
    ) -> bool {
        match r {
            Ok(reply) => {
                &&& self.id < usize::MAX
                &&& self.accepts(m.payload)
                &&& after == self.step(m.payload)
                &&& match reply {
                    Some(answer) => Some(answer@) == self.answer(m) && answer.body.payload.distinct(),
                    None => self.answer(m) is None,
                }
            },
            Err(e) => {
                &&& after == self
                &&& if self.id >= usize::MAX {
                    e == NodeError::MessageIdExhausted
                } else {
                    e == NodeError::MissingTopology && !self.accepts(m.payload)
                }
            },
        }
    }
}

/// What a node believes one node of the cluster to have.
struct Known {
    node: String,
    values: HashSet<usize>,
}

/// The beliefs as a map: where a node is recorded twice, its first record
/// counts.
spec fn known_map(entries: Seq<Known>) -> Map<Seq<char>, Set<usize>>
    decreases entries.len(),
{
    if entries.len() == 0 {
        Map::empty()
    } else {
        let rest = known_map(entries.drop_last());
        let last = entries.last();
        if rest.contains_key(last.node@) {
            rest
        } else {
            rest.insert(last.node@, last.values@)
        }
    }
}

/// The map has a node exactly if a record names it, and then holds what the
/// first such record holds.
proof fn lemma_known_map(entries: Seq<Known>, n: Seq<char>)
    ensures
        known_map(entries).contains_key(n) <==> exists|i: int|
            0 <= i < entries.len() && (#[trigger] entries[i]).node@ == n,
        forall|i: int|
            0 <= i < entries.len() && (#[trigger] entries[i]).node@ == n && (forall|j: int|
                0 <= j < i ==> (#[trigger] entries[j]).node@ != n) ==> known_map(entries)[n]
                == entries[i].values@,
    decreases entries.len(),
{
    if entries.len() > 0 {
        let front = entries.drop_last();
        lemma_known_map(front, n);
        assert(forall|i: int| 0 <= i < front.len() ==> front[i] == entries[i]);
    }
}

/// A node of the gossip broadcast.
pub struct Node {
    id: usize,
    node_id: String,
    seen: HashSet<usize>,
    known: Vec<Known>,
    neighborhood: Vec<String>,
}

impl View for Node {
    type V = NodeState;

    closed spec fn view(&self) -> NodeState {
        NodeState {
            id: self.id as nat,
            node_id: self.node_id@,
            seen: self.seen@,
            known: known_map(self.known@),
            neighborhood: texts(self.neighborhood@),
        }
    }
}

impl Node {
    /// This node's identifier.
    pub fn node_id(&self) -> (id: &String)
        ensures
            id@ == self@.node_id,
    {
        &self.node_id
    }

    /// The identifier that the next answer will carry.
    pub fn next_msg_id(&self) -> (id: usize)
        ensures
            id == self@.id,
    {
        self.id
    }

    /// The nodes that this node gossips to.
    pub fn neighborhood(&self) -> (neighbors: &Vec<String>)
        ensures
            texts(neighbors@) == self@.neighborhood,
    {
        &self.neighborhood
    }

    /// Whether this node has seen `value`.
    pub fn has_seen(&self, value: usize) -> (found: bool)
        ensures
            found == self@.seen.contains(value),
    {
        self.seen.contains(&value)
    }

    /// The node that the handshake's descriptor describes: it has seen
    /// nothing, believes nothing of any node, and has no neighbours yet.
    pub fn from_init(message: Init) -> (node: Node)
        ensures
            node@ == NodeState::initial(message.node_id@, texts(message.node_ids@)),
            node@.wf(),
    {
        Node::with_first_id(message, FIRST_MSG_ID)
    }

    /// The node that [`Node::from_init`] makes, with `id` as the first message
    /// identifier that it hands out.
    pub fn with_first_id(message: Init, id: usize) -> (node: Node)
        ensures
            node@ == (NodeState {
                id: id as nat,
                ..NodeState::initial(message.node_id@, texts(message.node_ids@))
            }),
            node@.wf(),
    {
        let ghost all = texts(message.node_ids@);
        let mut known: Vec<Known> = Vec::new();
        let mut i: usize = 0;
        while i < message.node_ids.len()
            invariant
                i <= message.node_ids.len(),
                all == texts(message.node_ids@),
                known_map(known@) == Map::new(
                    |n: Seq<char>| all.take(i as int).contains(n),
                    |n: Seq<char>| Set::<usize>::empty(),
                ),
                forall|k: int| 0 <= k < known@.len() ==> (#[trigger] known@[k]).values@.is_empty(),
            decreases message.node_ids.len() - i,
        {
            let ghost before = known@;
            known.push(Known { node: message.node_ids[i].clone(), values: HashSet::new() });
            proof {
                assert(known@.drop_last() == before);
                assert(known_map(known@) =~= Map::new(
                    |n: Seq<char>| all.take(i + 1).contains(n),
                    |n: Seq<char>| Set::<usize>::empty(),
                )) by {
                    assert forall|n: Seq<char>| all.take(i + 1).contains(n) <==> (all.take(
                        i as int,
                    ).contains(n) || n == all[i as int]) by {
                        if n == all[i as int] {
                            assert(all.take(i + 1)[i as int] == n);
                        }
                    }
                }
            }
            i += 1;
        }
        assert(all.take(i as int) == all);
        let node = Node {
            id,
            node_id: message.node_id,
            seen: HashSet::new(),
            known,
            neighborhood: Vec::new(),
        };
        assert(node@.neighborhood =~= Seq::empty());
        node
    }

    /// The place of the first record that names `node`.
    fn known_index(&self, node: &String) -> (r: Option<usize>)
        ensures
            match r {
                Some(i) => i < self.known@.len() && self@.known_by(node@) == self.known@[i as int].values@,
                None => self@.known_by(node@) == Set::<usize>::empty(),
            },
    {
        let mut i: usize = 0;
        while i < self.known.len()
            invariant
                i <= self.known.len(),
                forall|j: int| 0 <= j < i ==> (#[trigger] self.known@[j]).node@ != node@,
            decreases self.known.len() - i,
        {
            if self.known[i].node == *node {
                proof {
                    lemma_known_map(self.known@, node@);
                }
                return Some(i);
            }
            i += 1;
        }
        proof {
            lemma_known_map(self.known@, node@);
        }
        None
    }

    /// The gossip that a tick sends to `node`: the values seen here that
    /// `node` is not believed to have, each once, or nothing where there is no
    /// such value. A node of which nothing is recorded is believed to have
    /// nothing.
    pub fn create_gossip(&self, node: &String) -> (r: Option<Message<Payload>>)
        ensures
            match r {
                Some(m) => Some(m@) == self@.gossip_for(node@) && m.body.payload.distinct(),
                None => self@.gossip_for(node@) is None,
            },
    {
        let index = self.known_index(node);
        let ghost known_by_n = self@.known_by(node@);
        let ghost all: Seq<&usize> = self.seen.iter().remaining();
        let mut not_known_by_n: Vec<usize> = Vec::new();
        for x in it: self.seen.iter()
            invariant
                it.seq() == all,
                all.no_duplicates(),
                all.unref().to_set() == self.seen@,
                known_by_n == self@.known_by(node@),
                match index {
                    Some(i) => i < self.known@.len() && known_by_n == self.known@[i as int].values@,
                    None => known_by_n == Set::<usize>::empty(),
                },
                not_known_by_n@.no_duplicates(),
                forall|k: int|
                    0 <= k < not_known_by_n@.len() ==> self.seen@.contains(#[trigger] not_known_by_n@[k])
                        && !known_by_n.contains(not_known_by_n@[k]),
                forall|k: int, j: int|
                    0 <= k < not_known_by_n@.len() && it.index() <= j < all.len()
                        ==> #[trigger] not_known_by_n@[k] != *#[trigger] all[j],
                forall|j: int|
                    0 <= j < it.index() && !known_by_n.contains(*#[trigger] all[j])
                        ==> not_known_by_n@.contains(*all[j]),
        {
            let unknown = match index {
                Some(i) => !self.known[i].values.contains(x),
                None => true,
            };
            if unknown {
                let ghost before = not_known_by_n@;
                not_known_by_n.push(*x);
                proof {
                    let at = it.index() as int;
                    assert(not_known_by_n@[before.len() as int] == *all[at]);
                    assert forall|j: int|
                        0 <= j <= at && !known_by_n.contains(*#[trigger] all[j])
                            implies not_known_by_n@.contains(*all[j]) by {
                        if j < at {
                            let k = choose|k: int| 0 <= k < before.len() && before[k] == *all[j];
                            assert(not_known_by_n@[k] == *all[j]);
                        }
                    }
                }
            }
        }
        proof {
            assert(not_known_by_n@.to_set() =~= self@.delta(node@)) by {
                assert forall|v: usize| self@.delta(node@).contains(v) implies not_known_by_n@.contains(
                    v,
                ) by {
                    let j = choose|j: int| 0 <= j < all.unref().len() && all.unref()[j] == v;
                    assert(*all[j] == v);
                }
            }
        }
        if not_known_by_n.len() > 0 {
            assert(self@.delta(node@).contains(not_known_by_n@[0]));
            Some(
                Message::notice(
                    self.node_id.clone(),
                    node.clone(),
                    Payload::Gossip { seen: not_known_by_n },
                ),
            )
        } else {
            None
        }
    }

    /// All values seen, each once.
    pub fn snapshot(&self) -> (values: Vec<usize>)
        ensures
            values@.no_duplicates(),
            values@.to_set() == self@.seen,
    {
        let ghost all: Seq<&usize> = self.seen.iter().remaining();
        let mut values: Vec<usize> = Vec::new();
        for x in it: self.seen.iter()
            invariant
                it.seq() == all,
                values@ == all.unref().take(it.index() as int),
        {
            values.push(*x);
        }
        assert(values@ == all.unref());
        values
    }

    /// Takes every value of `values` into the set of values seen.
    fn absorb(&mut self, values: &Vec<usize>)
        ensures
            final(self)@ == (NodeState { seen: old(self)@.seen.union(values@.to_set()), ..old(self)@ }),
    {
        let mut i: usize = 0;
        assert(self@.seen.union(values@.take(0).to_set()) =~= self@.seen);
        while i < values.len()
            invariant
                i <= values.len(),
                self@ == (NodeState {
                    seen: old(self)@.seen.union(values@.take(i as int).to_set()),
                    ..old(self)@
                }),
            decreases values.len() - i,
        {
            proof {
                values@.take(i as int).lemma_push_to_set_commute(values@[i as int]);
                assert(values@.take(i + 1) == values@.take(i as int).push(values@[i as int]));
            }
            self.seen.insert(values[i]);
            assert(self.seen@ =~= old(self)@.seen.union(values@.take(i + 1).to_set()));
            i += 1;
        }
        assert(values@.take(i as int) == values@);
    }

    /// Handles one envelope. A read is answered with all values seen, each
    /// once. A broadcast adds its value to the values seen and is
    /// acknowledged. A topology gives the node its neighbours and is
    /// acknowledged; one without an entry for this node is refused. Gossip
    /// adds its values to the values seen and is not answered. Every other
    /// message is let pass.
    pub fn process(&mut self, msg: Message<Payload>) -> (r: Result<Option<Message<Payload>>, NodeError>)
        ensures
            old(self)@.handles(msg@, r, final(self)@),
    {
        if self.id == usize::MAX {
            return Err(NodeError::MessageIdExhausted);
        }
        let mut reply = msg.into_reply(Some(self.id));
        let answer = match reply.body.payload {
            Payload::Read => {
                reply.body.payload = Payload::ReadOk { messages: self.snapshot() };
                Some(reply)
            },
            Payload::Broadcast { message } => {
                self.seen.insert(message);
                reply.body.payload = Payload::BroadcastOk;
                Some(reply)
            },
            Payload::Topology { topology } => {
                match take_neighbors(topology, &self.node_id) {
                    Some(neighbors) => {
                        self.neighborhood = neighbors;
                    },
                    None => {
                        return Err(NodeError::MissingTopology);
                    },
                }
                reply.body.payload = Payload::TopologyOk;
                Some(reply)
            },
            Payload::Gossip { seen } => {
                self.absorb(&seen);
                None
            },
            Payload::ReadOk { .. } | Payload::BroadcastOk | Payload::TopologyOk => None,
        };
        self.id = self.id + 1;
        Ok(answer)
    }

    /// Handles one event of the node's queue and hands back the envelopes to
    /// send, in order. The end of the input changes nothing and sends nothing.
    /// A tick of the gossip timer changes nothing and sends each neighbour
    /// that has something to learn its gossip, in the order of the
    /// neighbours. An envelope is handled as [`Node::process`] says.
    pub fn handle_event(&mut self, event: Event) -> (r: Result<Vec<Message<Payload>>, NodeError>)
        ensures
            match event {
                Event::Eof => r is Ok && r->Ok_0@.len() == 0 && final(self)@ == old(self)@,
                Event::Gossip => {
                    &&& r is Ok
                    &&& views(r->Ok_0@) == old(self)@.round()
                    &&& forall|i: int|
                        0 <= i < r->Ok_0@.len() ==> (#[trigger] r->Ok_0@[i]).body.payload.distinct()
                    &&& final(self)@ == old(self)@
                },
                Event::Message(msg) => {
                    &&& r matches Ok(out) ==> out@.len() <= 1
                    &&& old(self)@.handles(msg@, at_most_one(r), final(self)@)
                },
            },
    {
        match event {
            Event::Eof => Ok(Vec::new()),
            Event::Message(msg) => {
                let mut out: Vec<Message<Payload>> = Vec::new();
                match self.process(msg) {
                    Ok(Some(reply)) => {
                        out.push(reply);
                        Ok(out)
                    },
                    Ok(None) => Ok(out),
                    Err(e) => Err(e),
                }
            },
            Event::Gossip => {
                let ghost targets = texts(self.neighborhood@);
                let mut out: Vec<Message<Payload>> = Vec::new();
                let mut i: usize = 0;
                while i < self.neighborhood.len()
                    invariant
                        i <= self.neighborhood.len(),
                        targets == texts(self.neighborhood@),
                        views(out@) == targets.take(i as int).filter_map(self@.gossip_fn()),
                        forall|k: int| 0 <= k < out@.len() ==> (#[trigger] out@[k]).body.payload.distinct(),
                    decreases self.neighborhood.len() - i,
                {
                    proof {
                        targets.lemma_filter_map_take_succ(self@.gossip_fn(), i as int);
                    }
                    if let Some(gossip) = self.create_gossip(&self.neighborhood[i]) {
                        out.push(gossip);
                    }
                    i += 1;
                }
                assert(targets.take(i as int) == targets);
                Ok(out)
            },
        }
    }
}

/// Takes from a topology the neighbours of its first entry for `node_id`.
fn take_neighbors(topology: Vec<(String, Vec<String>)>, node_id: &String) -> (r: Option<Vec<String>>)
    ensures
        match r {
            Some(neighbors) => neighbors_of(adjacency(topology@), node_id@) == Some(texts(neighbors@)),
            None => neighbors_of(adjacency(topology@), node_id@) is None,
        },
{
    let ghost all = adjacency(topology@);
    let mut entries = topology;
    let mut i: usize = 0;
    assert(all.skip(0) == all);
    while i < entries.len()
        invariant
            i <= entries.len(),
            adjacency(entries@) == all,
            adjacency(topology@) == all,
            neighbors_of(all, node_id@) == neighbors_of(all.skip(i as int), node_id@),
        decreases entries.len() - i,
    {
        assert(all.skip(i as int).drop_first() == all.skip(i + 1));
        if entries[i].0 == *node_id {
            let entry = entries.swap_remove(i);
            return Some(entry.1);
        }
        i += 1;
    }
    None
}

} // verus!
