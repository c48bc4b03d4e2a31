//! A node that answers every `Echo` with the text it was sent.

use crate::error::NodeError;
use crate::message::{Init, Message, MessageView};
use vstd::prelude::*;

verus! {

/// The first message identifier that a node hands out.
pub const FIRST_MSG_ID: usize = 0;

/// What the messages of the echo protocol carry.
#[derive(Debug, Clone, PartialEq, Eq)]
pub enum Payload {
    Echo { echo: String },
    EchoOk { echo: String },
}

/// The content of a payload.
pub enum PayloadView {
    Echo { echo: Seq<char> },
    EchoOk { echo: Seq<char> },
}

impl View for Payload {
    type V = PayloadView;

    open spec fn view(&self) -> PayloadView {
        match self {
            Payload::Echo { echo } => PayloadView::Echo { echo: echo@ },
            Payload::EchoOk { echo } => PayloadView::EchoOk { echo: echo@ },
        }
    }
}

/// The state of a node as mathematics.
pub struct NodeState {
    /// The identifier that the next answer will carry.
    pub id: nat,
    pub node_id: Seq<char>,
}

/// An echo node.
pub struct Node {
    id: usize,
    node_id: String,
}

impl View for Node {
    type V = NodeState;

    closed spec fn view(&self) -> NodeState {
        NodeState { id: self.id as nat, node_id: self.node_id@ }
    }
}

impl NodeState {
    /// The answer to `m`: an `Echo` is answered with its own text; an
    /// `EchoOk` has no answer.
    pub open spec fn answer(self, m: MessageView<PayloadView>) -> Option<MessageView<PayloadView>> {
        match m.payload {
            PayloadView::Echo { echo } => Some(m.reply(Some(self.id), PayloadView::EchoOk { echo })),
            PayloadView::EchoOk { .. } => None,
        }
    }

    /// What a call that handles `m` in the state `self` must hand back, and
    /// the state `after` that it must leave. An `Echo` is answered and uses up
    /// one message identifier. The call fails, and leaves the state as it was,
    /// where the node has no identifier left or `m` is itself an answer.
    pub open spec fn handles(
        self,
        m: MessageView<PayloadView>,
        r: Result<Message<Payload>, NodeError>,
        after: NodeState,
    ) -> bool {
        match r {
            Ok(reply) => {
                &&& self.id < usize::MAX
                &&& Some(reply@) == self.answer(m)
                &&& after == NodeState { id: self.id + 1, ..self }
            },
            Err(e) => {
                &&& after == self
                &&& if self.id >= usize::MAX {
                    e == NodeError::MessageIdExhausted
                } else {
                    e == NodeError::UnexpectedReply && self.answer(m) is None
                }
            },
        }
    }
}

impl Node {
    /// This node's identifier.
    pub fn node_id(&self) -> (id: &String)
        ensures
            id@ == self@.node_id,
    {
        &self.node_id
    }

    /// The identifier that the next answer will carry.
    pub fn next_msg_id(&self) -> (id: usize)
        ensures
            id == self@.id,
    {
        self.id
    }

    /// The node that the handshake's descriptor names.
    pub fn from_init(msg: Init) -> (node: Node)
        ensures
            node@ == (NodeState { id: FIRST_MSG_ID as nat, node_id: msg.node_id@ }),
    {
        Node::with_first_id(msg, FIRST_MSG_ID)
    }

    /// The node that the handshake's descriptor names, with `id` as the first
    /// message identifier that it hands out.
    pub fn with_first_id(msg: Init, id: usize) -> (node: Node)
        ensures
            node@ == (NodeState { id: id as nat, node_id: msg.node_id@ }),
    {
        Node { id, node_id: msg.node_id }
    }

    /// Handles one envelope: an `Echo` is answered with an `EchoOk` that
    /// carries the same text; an `EchoOk` is refused.
    pub fn process(&mut self, msg: Message<Payload>) -> (r: Result<Message<Payload>, NodeError>)
        ensures
            old(self)@.handles(msg@, r, final(self)@),
    {
        if self.id == usize::MAX {
            return Err(NodeError::MessageIdExhausted);
        }
        let mut reply = msg.into_reply(Some(self.id));
        match reply.body.payload {
            Payload::Echo { echo } => {
                reply.body.payload = Payload::EchoOk { echo };
                self.id = self.id + 1;
                Ok(reply)
            },
            Payload::EchoOk { .. } => Err(NodeError::UnexpectedReply),
        }
    }
}

} // verus!
