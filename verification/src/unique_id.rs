//! A node that answers every `Generate` with an identifier drawn at random.

use crate::error::NodeError;
use crate::message::{Init, Message, MessageView};
use vstd::prelude::*;

verus! {

/// The first message identifier that a node hands out.
pub const FIRST_MSG_ID: usize = 0;

/// What the messages of the unique-id protocol carry.
#[derive(Debug, Clone, PartialEq, Eq)]
pub enum Payload {
    Generate,
    GenerateOk { id: String },
}

/// The content of a payload.
pub enum PayloadView {
    Generate,
    GenerateOk { id: Seq<char> },
}

impl View for Payload {
    type V = PayloadView;

    open spec fn view(&self) -> PayloadView {
        match self {
            Payload::Generate => PayloadView::Generate,
            Payload::GenerateOk { id } => PayloadView::GenerateOk { id: id@ },
        }
    }
}

/// Whether `c` is a digit of base sixteen, written in lower case.
pub open spec fn is_lower_hex(c: char) -> bool {
    ('0' <= c <= '9') || ('a' <= c <= 'f')
}

/// Whether `s` is a random identifier of 128 bits in its usual writing:
/// thirty-two digits of base sixteen in lower case, in groups of eight, four,
/// four, four and twelve with a hyphen between them; the third group begins
/// with `4`, the fourth with `8`, `9`, `a` or `b`.
pub open spec fn is_random_uuid(s: Seq<char>) -> bool {
    &&& s.len() == 36
    &&& forall|i: int|
        0 <= i < 36 ==> if i == 8 || i == 13 || i == 18 || i == 23 {
            #[trigger] s[i] == '-'
        } else {
            is_lower_hex(s[i])
        }
    &&& s[14] == '4'
    &&& (s[19] == '8' || s[19] == '9' || s[19] == 'a' || s[19] == 'b')
}

/// Draws an identifier with `uuid::Uuid::new_v4` and writes it out with the
/// `Display` impl of `uuid::Uuid`. Which identifier comes is left to chance;
/// the contract claims its shape only: hyphenated lower-case digits of base
/// sixteen with the marks of a random identifier. The call does not return
/// where the system can give no random bytes.
#[verifier::external_body]
fn random_uuid() -> (id: String)
    ensures
        is_random_uuid(id@),
{
    uuid::Uuid::new_v4().to_string()
}

/// The state of a node as mathematics.
pub struct NodeState {
    /// The identifier that the next answer will carry.
    pub id: nat,
    pub node_id: Seq<char>,
}

/// A unique-id node.
pub struct Node {
    id: usize,
    node_id: String,
}

impl View for Node {
    type V = NodeState;

    closed spec fn view(&self) -> NodeState {
        NodeState { id: self.id as nat, node_id: self.node_id@ }
    }
}

impl NodeState {
    /// The answer to `m` when `fresh` is the identifier drawn: a `Generate`
    /// is answered with it; a `GenerateOk` has no answer.
    pub open spec fn answer(self, m: MessageView<PayloadView>, fresh: Seq<char>) -> Option<
        MessageView<PayloadView>,
    > {
        match m.payload {
            PayloadView::Generate => Some(
                m.reply(Some(self.id), PayloadView::GenerateOk { id: fresh }),
            ),
            PayloadView::GenerateOk { .. } => None,
        }
    }

    /// What a call that handles `m` in the state `self` with the identifier
    /// `fresh` at hand must hand back, and the state `after` that it must
    /// leave. A `Generate` is answered and uses up one message identifier. The
    /// call fails, and leaves the state as it was, where the node has no
    /// message identifier left or `m` is itself an answer.
    pub open spec fn handles(
        self,
        m: MessageView<PayloadView>,
        fresh: Seq<char>,
        r: Result<Message<Payload>, NodeError>,
        after: NodeState,
    ) -> bool {
        match r {
            Ok(reply) => {
                &&& self.id < usize::MAX
                &&& Some(reply@) == self.answer(m, fresh)
                &&& after == NodeState { id: self.id + 1, ..self }
            },
            Err(e) => {
                &&& after == self
                &&& if self.id >= usize::MAX {
                    e == NodeError::MessageIdExhausted
                } else {
                    e == NodeError::UnexpectedReply && self.answer(m, fresh) is None
                }
            },
        }
    }
}

impl Node {
    /// This node's identifier.
    pub fn node_id(&self) -> (id: &String)
        ensures
            id@ == self@.node_id,
    {
        &self.node_id
    }

    /// The identifier that the next answer will carry.
    pub fn next_msg_id(&self) -> (id: usize)
        ensures
            id == self@.id,
    {
        self.id
    }

    /// The node that the handshake's descriptor names.
    pub fn from_init(msg: Init) -> (node: Node)
        ensures
            node@ == (NodeState { id: FIRST_MSG_ID as nat, node_id: msg.node_id@ }),
    {
        Node::with_first_id(msg, FIRST_MSG_ID)
    }

    /// The node that the handshake's descriptor names, with `id` as the first
    /// message identifier that it hands out.
    pub fn with_first_id(msg: Init, id: usize) -> (node: Node)
        ensures
            node@ == (NodeState { id: id as nat, node_id: msg.node_id@ }),
    {
        Node { id, node_id: msg.node_id }
    }

    /// Handles one envelope with the identifier `fresh` at hand: a `Generate`
    /// is answered with a `GenerateOk` that carries `fresh`; a `GenerateOk` is
    /// refused.
    pub fn process_with(&mut self, msg: Message<Payload>, fresh: String) -> (r: Result<
        Message<Payload>,
        NodeError,
    >)
        ensures
            old(self)@.handles(msg@, fresh@, r, final(self)@),
    {
        if self.id == usize::MAX {
            return Err(NodeError::MessageIdExhausted);
        }
        let mut reply = msg.into_reply(Some(self.id));
        match reply.body.payload {
            Payload::Generate => {
                reply.body.payload = Payload::GenerateOk { id: fresh };
                self.id = self.id + 1;
                Ok(reply)
            },
            Payload::GenerateOk { .. } => Err(NodeError::UnexpectedReply),
        }
    }

    /// Handles one envelope: a `Generate` is answered with an identifier drawn
    /// at random, which has the shape that [`is_random_uuid`] describes; a
    /// `GenerateOk` is refused.
    pub fn process(&mut self, msg: Message<Payload>) -> (r: Result<Message<Payload>, NodeError>)
        ensures
            exists|fresh: Seq<char>|
                is_random_uuid(fresh) && #[trigger] old(self)@.handles(msg@, fresh, r, final(self)@),
    {
        let fresh = random_uuid();
        self.process_with(msg, fresh)
    }
}

} // verus!
