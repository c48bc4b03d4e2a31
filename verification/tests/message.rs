use dist_sys_rust::error::NodeError;
use dist_sys_rust::message::{accept_init, Body, Init, InitPayload, Message};

fn envelope<T>(src: &str, dst: &str, msg_id: Option<usize>, payload: T) -> Message<T> {
    Message {
        src: src.to_string(),
        dst: dst.to_string(),
        body: Body { msg_id, in_reply_to: None, payload },
    }
}

#[test]
fn reply_swaps_addresses_and_refers_to_the_request() {
    let request = envelope("c1", "n1", Some(17), 5u8);
    let reply = request.into_reply(Some(3));
    assert_eq!(reply.src, "n1");
    assert_eq!(reply.dst, "c1");
    assert_eq!(reply.body.msg_id, Some(3));
    assert_eq!(reply.body.in_reply_to, Some(17));
    assert_eq!(reply.body.payload, 5u8);
}

#[test]
fn reply_to_a_request_without_identifier_refers_to_none() {
    let request = envelope("a", "b", None, ());
    let reply = request.into_reply(None);
    assert_eq!(reply.src, "b");
    assert_eq!(reply.dst, "a");
    assert_eq!(reply.body.msg_id, None);
    assert_eq!(reply.body.in_reply_to, None);
}

#[test]
fn reply_of_a_reply_goes_back_to_the_first_sender() {
    let request = envelope("c9", "n4", Some(1), "x".to_string());
    let back = request.clone().into_reply(Some(8)).into_reply(Some(2));
    assert_eq!(back.src, request.src);
    assert_eq!(back.dst, request.dst);
    assert_eq!(back.body.in_reply_to, Some(8));
    assert_eq!(back.body.msg_id, Some(2));
}

#[test]
fn notice_has_no_identifiers() {
    let m = Message::notice("n1".to_string(), "n2".to_string(), 9u32);
    assert_eq!(m.src, "n1");
    assert_eq!(m.dst, "n2");
    assert_eq!(m.body.msg_id, None);
    assert_eq!(m.body.in_reply_to, None);
    assert_eq!(m.body.payload, 9);
}

#[test]
fn handshake_accepts_init_and_acknowledges_it() {
    let init = Init {
        node_id: "n1".to_string(),
        node_ids: vec!["n1".to_string(), "n2".to_string()],
    };
    let first = envelope("c0", "n1", Some(1), InitPayload::Init(init.clone()));
    let (accepted, ack) = accept_init(first).unwrap();
    assert_eq!(accepted, init);
    assert_eq!(ack.src, "n1");
    assert_eq!(ack.dst, "c0");
    assert_eq!(ack.body.msg_id, Some(0));
    assert_eq!(ack.body.in_reply_to, Some(1));
    assert_eq!(ack.body.payload, InitPayload::InitOk);
}

#[test]
fn handshake_refuses_anything_but_init() {
    let first = envelope("c0", "n1", Some(1), InitPayload::InitOk);
    assert_eq!(accept_init(first), Err(NodeError::ExpectedInit));
}
