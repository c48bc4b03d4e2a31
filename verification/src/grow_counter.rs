//! A node of the replicated grow-only counter.
//!
//! Clients add to the counter at any node. The node proposes each addition to
//! a linearizable store as a compare-and-swap on one key, acknowledges the
//! client at once, applies the addition to its own view and tells its peers.
//! Where the store refuses a proposal because the node's view was stale, the
//! node adopts the value that the store reports and proposes again.

use crate::conflict::{conflict_detail, conflict_detail_spec, reported_current, ConflictDetail};
use crate::error::NodeError;
use crate::message::{text_view, texts, views, Init, Message, MessageView};
use vstd::prelude::*;

verus! {

/// The address of the store.
pub const LIN_KV: &'static str = "lin-kv";

/// The key under which the store holds the counter.
pub const KEY: &'static str = "counter";

/// Milliseconds between two reads of the store.
pub const POLL_PERIOD_MS: u64 = 300;

/// The store's code for a key that does not exist.
pub const KEY_DOES_NOT_EXIST: usize = 20;

/// The store's code for a compare-and-swap whose expectation was stale.
pub const PRECONDITION_FAILED: usize = 22;

/// The first message identifier that a node hands out.
pub const FIRST_MSG_ID: usize = 1;

/// What the messages of the counter protocol carry.
#[allow(inconsistent_fields)]
#[derive(Debug, Clone, PartialEq, Eq)]
pub enum Payload {
    Read { key: Option<String> },
    ReadOk { value: usize },
    Add { delta: usize },
    AddOk,
    Cas { key: String, from: usize, to: usize, create_if_not_exists: bool },
    CasOk,
    Error { code: usize, text: String },
    Gossip { value: usize },
}

/// The content of a payload.
#[allow(inconsistent_fields)]
pub enum PayloadView {
    Read { key: Option<Seq<char>> },
    ReadOk { value: nat },
    Add { delta: nat },
    AddOk,
    Cas { key: Seq<char>, from: nat, to: nat, create_if_not_exists: bool },
    CasOk,
    Error { code: nat, text: Seq<char> },
    Gossip { value: nat },
}

impl View for Payload {
    type V = PayloadView;

    open spec fn view(&self) -> PayloadView {
        match self {
            Payload::Read { key } => PayloadView::Read { key: text_view(*key) },
            Payload::ReadOk { value } => PayloadView::ReadOk { value: *value as nat },
            Payload::Add { delta } => PayloadView::Add { delta: *delta as nat },
            Payload::AddOk => PayloadView::AddOk,
            Payload::Cas { key, from, to, create_if_not_exists } => PayloadView::Cas {
                key: key@,
                from: *from as nat,
                to: *to as nat,
                create_if_not_exists: *create_if_not_exists,
            },
            Payload::CasOk => PayloadView::CasOk,
            Payload::Error { code, text } => PayloadView::Error { code: *code as nat, text: text@ },
            Payload::Gossip { value } => PayloadView::Gossip { value: *value as nat },
        }
    }
}

/// What a node of the counter takes from its queue.
#[derive(Debug, Clone, PartialEq, Eq)]
pub enum Event {
    /// An envelope arrived.
    Message(Message<Payload>),
    /// The polling timer fired: it is time to read the store.
    Read,
    /// The input has ended.
    Eof,
}

/// The test that tells the identifiers of other nodes from `node_id`.
pub open spec fn is_other(node_id: Seq<char>) -> spec_fn(Seq<char>) -> bool {
    |n: Seq<char>| n != node_id
}

/// The identifiers in `node_ids` that differ from `node_id`, in their order.
pub open spec fn others(node_ids: Seq<Seq<char>>, node_id: Seq<char>) -> Seq<Seq<char>> {
    node_ids.filter(is_other(node_id))
}

/// Taking one more identifier into account adds it to the others unless it is
/// the node's own.
proof fn lemma_others_push(node_ids: Seq<Seq<char>>, n: Seq<char>, node_id: Seq<char>)
    ensures
        others(node_ids.push(n), node_id) == if n != node_id {
            others(node_ids, node_id).push(n)
        } else {
            others(node_ids, node_id)
        },
{
    node_ids.lemma_filter_push(n, is_other(node_id));
}

/// The state of a node as mathematics.
pub struct NodeState {
    /// The identifier that the next answer will carry.
    pub id: nat,
    pub node_id: Seq<char>,
    /// The other nodes, in the order of the handshake.
    pub neighbors: Seq<Seq<char>>,
    /// This node's view of the total.
    pub counter: nat,
    /// The addition most recently proposed to the store.
    pub last_value: nat,
}

/// A node of the replicated counter.
pub struct Node {
    id: usize,
    node_id: String,
    neighbors: Vec<String>,
    counter: usize,
    last_value: usize,
}

impl View for Node {
    type V = NodeState;

    closed spec fn view(&self) -> NodeState {
        NodeState {
            id: self.id as nat,
            node_id: self.node_id@,
            neighbors: texts(self.neighbors@),
            counter: self.counter as nat,
            last_value: self.last_value as nat,
        }
    }
}

impl NodeState {
    /// The state in which a node starts: it knows every node of the cluster
    /// but itself, and the total is zero.
    pub open spec fn initial(node_id: Seq<char>, node_ids: Seq<Seq<char>>) -> NodeState {
        NodeState {
            id: FIRST_MSG_ID as nat,
            node_id,
            neighbors: others(node_ids, node_id),
            counter: 0,
            last_value: 0,
        }
    }

    /// The request that asks the store for the counter.
    pub open spec fn read_request(self) -> MessageView<PayloadView> {
        MessageView::notice(self.node_id, LIN_KV@, PayloadView::Read { key: Some(KEY@) })
    }

    /// The compare-and-swap that proposes to raise the total from this node's
    /// view of it by `delta`, creating the key if the store has none.
    pub open spec fn cas_request(self, delta: nat) -> MessageView<PayloadView> {
        MessageView::notice(
            self.node_id,
            LIN_KV@,
            PayloadView::Cas {
                key: KEY@,
                from: self.counter,
                to: self.counter + delta,
                create_if_not_exists: true,
            },
        )
    }

    /// The hints that tell every peer of an addition of `value`, one for each
    /// peer in order.
    pub open spec fn gossip(self, value: nat) -> Seq<MessageView<PayloadView>> {
        Seq::new(
            self.neighbors.len(),
            |i: int|
                MessageView::notice(self.node_id, self.neighbors[i], PayloadView::Gossip { value }),
        )
    }

    /// This state with the store's report taken in: where the report's value
    /// could be read, it becomes the node's view of the total.
    pub open spec fn adopt(self, detail: ConflictDetail) -> NodeState {
        match detail.current {
            Some(current) => NodeState { counter: current as nat, ..self },
            None => self,
        }
    }

    /// What the store's error with the given code asks of the node: `Some` of
    /// the state to propose from and the addition to propose, or `None` where
    /// nothing is proposed. A missing key is created by proposing no change; a
    /// stale expectation is answered by proposing the last addition again from
    /// the value that the store reports; any other error is let pass.
    pub open spec fn retry(self, code: nat, detail: Option<ConflictDetail>) -> Option<
        (NodeState, nat),
    > {
        if code == KEY_DOES_NOT_EXIST {
            Some((self, 0nat))
        } else if code == PRECONDITION_FAILED && detail is Some && self.last_value > 0 {
            Some((self.adopt(detail->0), self.last_value))
        } else {
            None
        }
    }

    /// Whether handling `payload` would take the counter, or a total proposed
    /// to the store, beyond the machine's integers.
    pub open spec fn overflows(self, payload: PayloadView, detail: Option<ConflictDetail>) -> bool {
        match payload {
            PayloadView::Add { delta } => delta > 0 && self.counter + delta > usize::MAX,
            PayloadView::Gossip { value } => self.counter + value > usize::MAX,
            PayloadView::Error { code, .. } => match self.retry(code, detail) {
                Some((base, delta)) => base.counter + delta > usize::MAX,
                None => false,
            },
            _ => false,
        }
    }

    /// The state after `payload` was handled. An addition is applied to the
    /// node's view at once and remembered; a peer's hint is added to the view;
    /// what the store reads out replaces the view; a report of a stale
    /// expectation replaces it by the value reported. Every message handled
    /// uses up one message identifier.
    pub open spec fn step(self, payload: PayloadView, detail: Option<ConflictDetail>) -> NodeState {
        let next = match payload {
            PayloadView::Add { delta } => if delta > 0 {
                NodeState { counter: self.counter + delta, last_value: delta, ..self }
            } else {
                self
            },
            PayloadView::Gossip { value } => NodeState { counter: self.counter + value, ..self },
            PayloadView::ReadOk { value } => NodeState { counter: value, ..self },
            PayloadView::Error { code, .. } => if code == PRECONDITION_FAILED && detail is Some {
                self.adopt(detail->0)
            } else {
                self
            },
            _ => self,
        };
        NodeState { id: self.id + 1, ..next }
    }

    /// The envelopes that handling `m` sends, in order. A read is answered
    /// with the node's view. An addition goes to the store as a
    /// compare-and-swap from the view before it, then to every peer as a hint,
    /// and is then acknowledged. A store error that calls for a new proposal
    /// sends that proposal and, where it repeats the last addition, the hints
    /// again. Nothing else is answered.
    pub open spec fn outbound(
        self,
        m: MessageView<PayloadView>,
        detail: Option<ConflictDetail>,
    ) -> Seq<MessageView<PayloadView>> {
        match m.payload {
            PayloadView::Read { .. } => seq![
                m.reply(Some(self.id), PayloadView::ReadOk { value: self.counter }),
            ],
            PayloadView::Add { delta } => {
                let ack = m.reply(Some(self.id), PayloadView::AddOk);
                if delta > 0 {
                    seq![self.cas_request(delta)] + self.gossip(delta) + seq![ack]
                } else {
                    seq![ack]
                }
            },
            PayloadView::Error { code, .. } => match self.retry(code, detail) {
                Some((base, delta)) => if delta > 0 {
                    seq![base.cas_request(delta)] + base.gossip(delta)
                } else {
                    seq![base.cas_request(delta)]
                },
                None => Seq::empty(),
            },
            _ => Seq::empty(),
        }
    }

    /// What a call that handles `m` in the state `self` must hand back, and
    /// the state `after` that it must leave. It succeeds unless the node has
    /// no message identifier left or a number would overflow, and a call that
    /// fails leaves the state as it was.
    pub open spec fn handles(
        self,
        m: MessageView<PayloadView>,
        detail: Option<ConflictDetail>,
        r: Result<Vec<Message<Payload>>, NodeError>,
        after: NodeState,
    ) -> bool {
        match r {
            Ok(out) => {
                &&& self.id < usize::MAX
                &&& !self.overflows(m.payload, detail)
                &&& after == self.step(m.payload, detail)
                &&& views(out@) == self.outbound(m, detail)
            },
            Err(e) => {
                &&& after == self
                &&& if self.id >= usize::MAX {
                    e == NodeError::MessageIdExhausted
                } else {
                    e == NodeError::CounterOverflow && self.overflows(m.payload, detail)
                }
            },
        }
    }
}

/// What the text of a payload says of the store's value, where the payload is
/// the store's report of a stale expectation.
pub open spec fn detail_of(payload: PayloadView) -> Option<ConflictDetail> {
    match payload {
        PayloadView::Error { code, text } => if code == PRECONDITION_FAILED {
            conflict_detail_spec(reported_current(text))
        } else {
            None
        },
        _ => None,
    }
}

impl Node {
    /// This node's identifier.
    pub fn node_id(&self) -> (id: &String)
        ensures
            id@ == self@.node_id,
    {
        &self.node_id
    }

    /// The identifier that the next answer will carry.
    pub fn next_msg_id(&self) -> (id: usize)
        ensures
            id == self@.id,
    {
        self.id
    }

    /// The other nodes of the cluster.
    pub fn neighbors(&self) -> (peers: &Vec<String>)
        ensures
            texts(peers@) == self@.neighbors,
    {
        &self.neighbors
    }

    /// This node's view of the total.
    pub fn counter(&self) -> (total: usize)
        ensures
            total == self@.counter,
    {
        self.counter
    }

    /// The addition most recently proposed to the store.
    pub fn last_value(&self) -> (delta: usize)
        ensures
            delta == self@.last_value,
    {
        self.last_value
    }

    /// The node that the handshake's descriptor describes: its peers are all
    /// nodes of the cluster but itself, its view of the total is zero.
    pub fn from_init(message: Init) -> (node: Node)
        ensures
            node@ == NodeState::initial(message.node_id@, texts(message.node_ids@)),
    {
        Node::with_first_id(message, FIRST_MSG_ID)
    }

    /// The node that [`Node::from_init`] makes, with `id` as the first message
    /// identifier that it hands out.
    pub fn with_first_id(message: Init, id: usize) -> (node: Node)
        ensures
            node@ == (NodeState {
                id: id as nat,
                ..NodeState::initial(message.node_id@, texts(message.node_ids@))
            }),
    {
        let ghost own = message.node_id@;
        let ghost all = texts(message.node_ids@);
        let mut neighbors: Vec<String> = Vec::new();
        let mut i: usize = 0;
        while i < message.node_ids.len()
            invariant
                i <= message.node_ids.len(),
                own == message.node_id@,
                all == texts(message.node_ids@),
                texts(neighbors@) == others(all.take(i as int), own),
            decreases message.node_ids.len() - i,
        {
            assert(all.take(i + 1) == all.take(i as int).push(all[i as int]));
            proof {
                lemma_others_push(all.take(i as int), all[i as int], own);
            }
            if !(message.node_ids[i] == message.node_id) {
                neighbors.push(message.node_ids[i].clone());
            }
            i += 1;
        }
        assert(all.take(i as int) == all);
        Node { id, node_id: message.node_id, neighbors, counter: 0, last_value: 0 }
    }

    /// The proposal that raises the total by `delta` from the base `from`.
    fn propose(&self, from: usize, delta: usize) -> (r: Result<Message<Payload>, NodeError>)
        ensures
            match r {
                Ok(m) => from + delta <= usize::MAX && m@ == (NodeState {
                    counter: from as nat,
                    ..self@
                }).cas_request(delta as nat),
                Err(e) => e == NodeError::CounterOverflow && from + delta > usize::MAX,
            },
    {
        match from.checked_add(delta) {
            Some(to) => Ok(
                Message::notice(
                    self.node_id.clone(),
                    LIN_KV.to_string(),
                    Payload::Cas { key: KEY.to_string(), from, to, create_if_not_exists: true },
                ),
            ),
            None => Err(NodeError::CounterOverflow),
        }
    }

    /// The request that asks the store for the counter.
    pub fn read_from_store(&self) -> (m: Message<Payload>)
        ensures
            m@ == self@.read_request(),
    {
        Message::notice(
            self.node_id.clone(),
            LIN_KV.to_string(),
            Payload::Read { key: Some(KEY.to_string()) },
        )
    }

    /// The compare-and-swap that proposes to the store to raise the total by
    /// `delta` from this node's view of it. It is refused where the proposed
    /// total is beyond the machine's integers.
    pub fn add_to_store(&self, delta: usize) -> (r: Result<Message<Payload>, NodeError>)
        ensures
            match r {
                Ok(m) => self@.counter + delta <= usize::MAX && m@ == self@.cas_request(
                    delta as nat,
                ),
                Err(e) => e == NodeError::CounterOverflow && self@.counter + delta > usize::MAX,
            },
    {
        self.propose(self.counter, delta)
    }

    /// The hints that tell every peer of an addition of `value`.
    pub fn send_gossip(&self, value: usize) -> (out: Vec<Message<Payload>>)
        ensures
            views(out@) == self@.gossip(value as nat),
    {
        let mut out: Vec<Message<Payload>> = Vec::new();
        let mut i: usize = 0;
        while i < self.neighbors.len()
            invariant
                i <= self.neighbors.len(),
                out.len() == i,
                forall|j: int| 0 <= j < i ==> out[j]@ == self@.gossip(value as nat)[j],
            decreases self.neighbors.len() - i,
        {
            out.push(
                Message::notice(
                    self.node_id.clone(),
                    self.neighbors[i].clone(),
                    Payload::Gossip { value },
                ),
            );
            i += 1;
        }
        out
    }

    /// Handles one envelope, given what the store's report in it says of the
    /// store's value: `detail` is read only for an error that reports a stale
    /// expectation.
    pub fn process_with(&mut self, msg: Message<Payload>, detail: Option<ConflictDetail>) -> (r:
        Result<Vec<Message<Payload>>, NodeError>)
        ensures
            old(self)@.handles(msg@, detail, r, final(self)@),
    {
        if self.id == usize::MAX {
            return Err(NodeError::MessageIdExhausted);
        }
        let ghost before = self@;
        let ghost request = msg@;
        let mut out: Vec<Message<Payload>> = Vec::new();
        let mut reply = msg.into_reply(Some(self.id));
        match reply.body.payload {
            Payload::Read { .. } => {
                reply.body.payload = Payload::ReadOk { value: self.counter };
                out.push(reply);
            },
            Payload::Add { delta } => {
                if delta > 0 {
                    let cas = self.add_to_store(delta)?;
                    out.push(cas);
                    self.last_value = delta;
                    self.counter = self.counter + delta;
                    let mut hints = self.send_gossip(delta);
                    out.append(&mut hints);
                }
                reply.body.payload = Payload::AddOk;
                out.push(reply);
            },
            Payload::Gossip { value } => {
                match self.counter.checked_add(value) {
                    Some(total) => {
                        self.counter = total;
                    },
                    None => {
                        return Err(NodeError::CounterOverflow);
                    },
                }
            },
            Payload::ReadOk { value } => {
                self.counter = value;
            },
            Payload::Error { code, .. } => {
                if code == KEY_DOES_NOT_EXIST {
                    let cas = self.add_to_store(0)?;
                    out.push(cas);
                } else if code == PRECONDITION_FAILED {
                    if let Some(found) = detail {
                        let base = match found.current {
                            Some(current) => current,
                            None => self.counter,
                        };
                        if self.last_value > 0 {
                            let cas = self.propose(base, self.last_value)?;
                            self.counter = base;
                            out.push(cas);
                            let mut hints = self.send_gossip(self.last_value);
                            out.append(&mut hints);
                        } else {
                            self.counter = base;
                        }
                    }
                }
            },
            Payload::AddOk | Payload::Cas { .. } | Payload::CasOk => {},
        }
        self.id = self.id + 1;
        assert(views(out@) =~= before.outbound(request, detail));
        Ok(out)
    }

    /// Handles one envelope. A read is answered with the node's view of the
    /// total. An addition is proposed to the store, applied to the view, told
    /// to the peers and acknowledged. A peer's hint is added to the view; what
    /// the store reads out replaces it. The store's report of a missing key or
    /// of a stale expectation is answered with a new proposal. Every other
    /// message is let pass.
    pub fn process(&mut self, msg: Message<Payload>) -> (r: Result<Vec<Message<Payload>>, NodeError>)
        ensures
            old(self)@.handles(msg@, detail_of(msg@.payload), r, final(self)@),
    {
        let detail = match &msg.body.payload {
            Payload::Error { code, text } => if *code == PRECONDITION_FAILED {
                conflict_detail(text.as_str())
            } else {
                None
            },
            _ => None,
        };
        self.process_with(msg, detail)
    }

    /// Handles one event of the node's queue and hands back the envelopes to
    /// send, in order. The end of the input changes nothing and sends nothing;
    /// the polling timer sends a read to the store; an envelope is handled as
    /// [`Node::process`] says.
    pub fn handle_event(&mut self, event: Event) -> (r: Result<Vec<Message<Payload>>, NodeError>)
        ensures
            match event {
                Event::Eof => r is Ok && r->Ok_0@.len() == 0 && final(self)@ == old(self)@,
                Event::Read => {
                    &&& r is Ok
                    &&& views(r->Ok_0@) == seq![old(self)@.read_request()]
                    &&& final(self)@ == old(self)@
                },
                Event::Message(msg) => old(self)@.handles(
                    msg@,
                    detail_of(msg@.payload),
                    r,
                    final(self)@,
                ),
            },
    {
        match event {
            Event::Eof => Ok(Vec::new()),
            Event::Read => {
                let mut out: Vec<Message<Payload>> = Vec::new();
                out.push(self.read_from_store());
                Ok(out)
            },
            Event::Message(msg) => self.process(msg),
        }
    }
}

} // verus!
