//! The envelope that nodes exchange, and the handshake that starts a node.

use crate::error::NodeError;
use vstd::prelude::*;

verus! {

/// What an envelope carries besides its two addresses.
#[derive(Debug, Clone, PartialEq, Eq)]
pub struct Body<T> {
    /// Identifier given by the sender; absent on fire-and-forget messages.
    pub msg_id: Option<usize>,
    /// Identifier of the request that this message answers.
    pub in_reply_to: Option<usize>,
    pub payload: T,
}

/// An envelope: source, destination and body.
#[derive(Debug, Clone, PartialEq, Eq)]
pub struct Message<T> {
    pub src: String,
    pub dst: String,
    pub body: Body<T>,
}

/// The mathematical content of an envelope whose payload has the model `V`.
pub struct MessageView<V> {
    pub src: Seq<char>,
    pub dst: Seq<char>,
    pub msg_id: Option<nat>,
    pub in_reply_to: Option<nat>,
    pub payload: V,
}

/// An optional identifier as an optional natural number.
pub open spec fn id_view(id: Option<usize>) -> Option<nat> {
    match id {
        Some(n) => Some(n as nat),
        None => None,
    }
}

/// The text of an optional string.
pub open spec fn text_view(text: Option<String>) -> Option<Seq<char>> {
    match text {
        Some(s) => Some(s@),
        None => None,
    }
}

/// The texts of a list of strings.
pub open spec fn texts(names: Seq<String>) -> Seq<Seq<char>> {
    names.map_values(|s: String| s@)
}

/// The contents of a list of envelopes.
pub open spec fn views<T: View>(msgs: Seq<Message<T>>) -> Seq<MessageView<T::V>> {
    msgs.map_values(|m: Message<T>| m@)
}

impl<T: View> View for Message<T> {
    type V = MessageView<T::V>;

    open spec fn view(&self) -> MessageView<T::V> {
        MessageView {
            src: self.src@,
            dst: self.dst@,
            msg_id: id_view(self.body.msg_id),
            in_reply_to: id_view(self.body.in_reply_to),
            payload: self.body.payload@,
        }
    }
}

impl<V> MessageView<V> {
    /// The envelope that answers `self`: the addresses are swapped and
    /// `in_reply_to` is the request's identifier; the answer has the identifier
    /// and the payload given.
    pub open spec fn reply<W>(self, id: Option<nat>, payload: W) -> MessageView<W> {
        MessageView {
            src: self.dst,
            dst: self.src,
            msg_id: id,
            in_reply_to: self.msg_id,
            payload,
        }
    }

    /// A message that expects no answer and answers none.
    pub open spec fn notice(src: Seq<char>, dst: Seq<char>, payload: V) -> MessageView<V> {
        MessageView { src, dst, msg_id: None, in_reply_to: None, payload }
    }
}

impl<T> Message<T> {
    /// Turns a received envelope into its answer: source and destination are
    /// swapped, the answer refers to the request's identifier and carries `id`
    /// as its own. The payload is kept for the caller to replace.
    pub fn into_reply(self, id: Option<usize>) -> (reply: Self)
        ensures
            reply.src == self.dst,
            reply.dst == self.src,
            reply.body.msg_id == id,
            reply.body.in_reply_to == self.body.msg_id,
            reply.body.payload == self.body.payload,
    {
        Message {
            src: self.dst,
            dst: self.src,
            body: Body { msg_id: id, in_reply_to: self.body.msg_id, payload: self.body.payload },
        }
    }

    /// A message from `src` to `dst` that expects no answer and answers none.
    pub fn notice(src: String, dst: String, payload: T) -> (m: Self)
        ensures
            m.src == src,
            m.dst == dst,
            m.body.msg_id is None,
            m.body.in_reply_to is None,
            m.body.payload == payload,
    {
        Message { src, dst, body: Body { msg_id: None, in_reply_to: None, payload } }
    }
}

/// The descriptor that the handshake delivers: this node's identifier and the
/// identifiers of all nodes of the cluster.
#[derive(Debug, Clone, PartialEq, Eq)]
pub struct Init {
    pub node_id: String,
    pub node_ids: Vec<String>,
}

/// The two messages of the handshake.
#[derive(Debug, Clone, PartialEq, Eq)]
pub enum InitPayload {
    Init(Init),
    InitOk,
}

/// The content of a handshake message.
pub enum InitPayloadView {
    Init { node_id: Seq<char>, node_ids: Seq<Seq<char>> },
    InitOk,
}

impl View for InitPayload {
    type V = InitPayloadView;

    open spec fn view(&self) -> InitPayloadView {
        match self {
            InitPayload::Init(init) => InitPayloadView::Init {
                node_id: init.node_id@,
                node_ids: texts(init.node_ids@),
            },
            InitPayload::InitOk => InitPayloadView::InitOk,
        }
    }
}

/// The identifier that the acknowledgement of the handshake carries.
pub const INIT_REPLY_ID: usize = 0;

/// Decides the handshake on the first envelope received. An `Init` request is
/// accepted: its descriptor is handed out together with the acknowledgement to
/// send, an `InitOk` that answers the request. Anything else is refused.
pub fn accept_init(msg: Message<InitPayload>) -> (r: Result<(Init, Message<InitPayload>), NodeError>)
    ensures
        match r {
            Ok((init, ack)) => {
                &&& msg.body.payload == InitPayload::Init(init)
                &&& ack@ == msg@.reply(Some(INIT_REPLY_ID as nat), InitPayloadView::InitOk)
            },
            Err(e) => e == NodeError::ExpectedInit && msg.body.payload == InitPayload::InitOk,
        },
{
    let mut reply = msg.into_reply(Some(INIT_REPLY_ID));
    match reply.body.payload {
        InitPayload::Init(init) => {
            reply.body.payload = InitPayload::InitOk;
            Ok((init, reply))
        },
        InitPayload::InitOk => Err(NodeError::ExpectedInit),
    }
}

} // verus!
