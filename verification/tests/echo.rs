use dist_sys_rust::echo::{Node, Payload};
use dist_sys_rust::error::NodeError;
use dist_sys_rust::message::{Body, Init, Message};

fn echo_node() -> Node {
    Node::from_init(Init { node_id: "n1".to_string(), node_ids: vec!["n1".to_string()] })
}

fn echo_request(msg_id: usize, payload: Payload) -> Message<Payload> {
    Message {
        src: "c1".to_string(),
        dst: "n1".to_string(),
        body: Body { msg_id: Some(msg_id), in_reply_to: None, payload },
    }
}

#[test]
fn echo_is_answered_with_its_text() {
    let mut node = echo_node();
    let reply = node.process(echo_request(4, Payload::Echo { echo: "hello".to_string() })).unwrap();
    assert_eq!(reply.src, "n1");
    assert_eq!(reply.dst, "c1");
    assert_eq!(reply.body.msg_id, Some(0));
    assert_eq!(reply.body.in_reply_to, Some(4));
    assert_eq!(reply.body.payload, Payload::EchoOk { echo: "hello".to_string() });
}

#[test]
fn echo_answers_carry_increasing_identifiers() {
    let mut node = echo_node();
    assert_eq!(node.node_id(), "n1");
    assert_eq!(node.next_msg_id(), 0);
    for expected in 0..5usize {
        let reply =
            node.process(echo_request(expected + 10, Payload::Echo { echo: String::new() })).unwrap();
        assert_eq!(reply.body.msg_id, Some(expected));
        assert_eq!(reply.body.in_reply_to, Some(expected + 10));
    }
    assert_eq!(node.next_msg_id(), 5);
}

#[test]
fn echo_node_refuses_an_answer() {
    let mut node = echo_node();
    let r = node.process(echo_request(1, Payload::EchoOk { echo: "x".to_string() }));
    assert_eq!(r, Err(NodeError::UnexpectedReply));
    assert_eq!(node.next_msg_id(), 0);
}

#[test]
fn echo_node_without_identifiers_refuses_everything() {
    let init = Init { node_id: "n1".to_string(), node_ids: vec![] };
    let mut node = Node::with_first_id(init, usize::MAX);
    let r = node.process(echo_request(1, Payload::Echo { echo: "x".to_string() }));
    assert_eq!(r, Err(NodeError::MessageIdExhausted));
    assert_eq!(node.next_msg_id(), usize::MAX);
}
