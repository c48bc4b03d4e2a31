use dist_sys_rust::conflict::ConflictDetail;
use dist_sys_rust::error::NodeError;
use dist_sys_rust::grow_counter::{
    Event, Node, Payload, FIRST_MSG_ID, KEY, KEY_DOES_NOT_EXIST, LIN_KV, POLL_PERIOD_MS,
    PRECONDITION_FAILED,
};
use dist_sys_rust::message::{Body, Init, Message};

fn names(ids: &[&str]) -> Vec<String> {
    ids.iter().map(|s| s.to_string()).collect()
}

fn counter_node(id: &str, all: &[&str]) -> Node {
    Node::from_init(Init { node_id: id.to_string(), node_ids: names(all) })
}

fn from(src: &str, msg_id: Option<usize>, payload: Payload) -> Message<Payload> {
    Message {
        src: src.to_string(),
        dst: "n1".to_string(),
        body: Body { msg_id, in_reply_to: None, payload },
    }
}

fn cas(from: usize, to: usize) -> Message<Payload> {
    Message {
        src: "n1".to_string(),
        dst: "lin-kv".to_string(),
        body: Body {
            msg_id: None,
            in_reply_to: None,
            payload: Payload::Cas { key: "counter".to_string(), from, to, create_if_not_exists: true },
        },
    }
}

fn hint(dst: &str, value: usize) -> Message<Payload> {
    Message {
        src: "n1".to_string(),
        dst: dst.to_string(),
        body: Body { msg_id: None, in_reply_to: None, payload: Payload::Gossip { value } },
    }
}

fn answer(dst: &str, msg_id: usize, in_reply_to: Option<usize>, payload: Payload) -> Message<Payload> {
    Message {
        src: "n1".to_string(),
        dst: dst.to_string(),
        body: Body { msg_id: Some(msg_id), in_reply_to, payload },
    }
}

fn store_error(code: usize, text: &str) -> Message<Payload> {
    from("lin-kv", None, Payload::Error { code, text: text.to_string() })
}

#[test]
fn counter_node_starts_at_zero_with_the_other_nodes_as_peers() {
    let node = counter_node("n1", &["n0", "n1", "n2", "n1", "n3"]);
    assert_eq!(LIN_KV, "lin-kv");
    assert_eq!(KEY, "counter");
    assert_eq!(POLL_PERIOD_MS, 300);
    assert_eq!(FIRST_MSG_ID, 1);
    assert_eq!(node.node_id(), "n1");
    assert_eq!(node.next_msg_id(), 1);
    assert_eq!(node.counter(), 0);
    assert_eq!(node.last_value(), 0);
    assert_eq!(node.neighbors(), &names(&["n0", "n2", "n3"]));
}

#[test]
fn read_is_answered_with_the_view() {
    let mut node = counter_node("n1", &["n1", "n2"]);
    node.process(from("n2", None, Payload::Gossip { value: 4 })).unwrap();
    let out = node.process(from("c3", Some(11), Payload::Read { key: None })).unwrap();
    assert_eq!(out, vec![answer("c3", 2, Some(11), Payload::ReadOk { value: 4 })]);
    let out =
        node.process(from("c3", Some(12), Payload::Read { key: Some("counter".to_string()) })).unwrap();
    assert_eq!(out, vec![answer("c3", 3, Some(12), Payload::ReadOk { value: 4 })]);
}

#[test]
fn addition_is_proposed_told_and_acknowledged() {
    let mut node = counter_node("n1", &["n1", "n2", "n3"]);
    let out = node.process(from("c1", Some(7), Payload::Add { delta: 5 })).unwrap();
    assert_eq!(
        out,
        vec![cas(0, 5), hint("n2", 5), hint("n3", 5), answer("c1", 1, Some(7), Payload::AddOk)]
    );
    assert_eq!(node.counter(), 5);
    assert_eq!(node.last_value(), 5);
    assert_eq!(node.next_msg_id(), 2);
    let out = node.process(from("c1", Some(8), Payload::Add { delta: 2 })).unwrap();
    assert_eq!(
        out,
        vec![cas(5, 7), hint("n2", 2), hint("n3", 2), answer("c1", 2, Some(8), Payload::AddOk)]
    );
    assert_eq!(node.counter(), 7);
    assert_eq!(node.last_value(), 2);
}

#[test]
fn addition_of_nothing_is_only_acknowledged() {
    let mut node = counter_node("n1", &["n1", "n2"]);
    node.process(from("c1", Some(1), Payload::Add { delta: 3 })).unwrap();
    let out = node.process(from("c1", Some(2), Payload::Add { delta: 0 })).unwrap();
    assert_eq!(out, vec![answer("c1", 2, Some(2), Payload::AddOk)]);
    assert_eq!(node.counter(), 3);
    assert_eq!(node.last_value(), 3);
}

#[test]
fn stale_expectation_is_answered_from_the_reported_value() {
    let mut node = counter_node("n1", &["n1"]);
    let out = node.process(from("c1", Some(1), Payload::Add { delta: 5 })).unwrap();
    assert_eq!(out, vec![cas(0, 5), answer("c1", 1, Some(1), Payload::AddOk)]);
    let out = node.process(store_error(22, "current value 10 is not 0")).unwrap();
    assert_eq!(out, vec![cas(10, 15)]);
    assert_eq!(node.counter(), 10);
    assert_eq!(node.last_value(), 5);
    assert_eq!(node.next_msg_id(), 3);
}

#[test]
fn stale_expectation_tells_the_peers_again() {
    let mut node = counter_node("n1", &["n1", "n2"]);
    node.process(from("c1", Some(1), Payload::Add { delta: 5 })).unwrap();
    assert_eq!(PRECONDITION_FAILED, 22);
    let out = node.process(store_error(PRECONDITION_FAILED, "current value 3 is not 0")).unwrap();
    assert_eq!(out, vec![cas(3, 8), hint("n2", 5)]);
    assert_eq!(node.counter(), 3);
}

#[test]
fn stale_expectation_before_any_addition_only_corrects_the_view() {
    let mut node = counter_node("n1", &["n1", "n2"]);
    let out = node.process(store_error(22, "current value 9 is not 0")).unwrap();
    assert_eq!(out, vec![]);
    assert_eq!(node.counter(), 9);
    assert_eq!(node.next_msg_id(), 2);
}

#[test]
fn report_that_cannot_be_read_changes_nothing() {
    let mut node = counter_node("n1", &["n1", "n2"]);
    node.process(from("c1", Some(1), Payload::Add { delta: 5 })).unwrap();
    let out = node.process(store_error(22, "precondition failed")).unwrap();
    assert_eq!(out, vec![]);
    assert_eq!(node.counter(), 5);
    assert_eq!(node.next_msg_id(), 3);
}

#[test]
fn report_with_a_value_beyond_the_machine_repeats_from_the_old_view() {
    let mut node = counter_node("n1", &["n1"]);
    node.process(from("c1", Some(1), Payload::Add { delta: 5 })).unwrap();
    let text = "current value 999999999999999999999999999999 is not 0";
    let out = node.process(store_error(22, text)).unwrap();
    assert_eq!(out, vec![cas(5, 10)]);
    assert_eq!(node.counter(), 5);
}

#[test]
fn detail_at_hand_is_used_as_given() {
    let mut node = counter_node("n1", &["n1"]);
    node.process_with(from("c1", Some(1), Payload::Add { delta: 5 }), None).unwrap();
    let out = node
        .process_with(store_error(22, "no report"), Some(ConflictDetail { current: Some(10) }))
        .unwrap();
    assert_eq!(out, vec![cas(10, 15)]);
    assert_eq!(node.counter(), 10);
    let out =
        node.process_with(store_error(22, "current value 1 is not 0"), None).unwrap();
    assert_eq!(out, vec![]);
    assert_eq!(node.counter(), 10);
    let out = node
        .process_with(store_error(21, "x"), Some(ConflictDetail { current: Some(1) }))
        .unwrap();
    assert_eq!(out, vec![]);
    assert_eq!(node.counter(), 10);
}

#[test]
fn missing_key_is_created() {
    let mut node = counter_node("n1", &["n1", "n2"]);
    assert_eq!(KEY_DOES_NOT_EXIST, 20);
    let out = node.process(store_error(20, "key does not exist")).unwrap();
    assert_eq!(out, vec![cas(0, 0)]);
    node.process(from("c1", Some(1), Payload::Add { delta: 4 })).unwrap();
    let out = node.process(store_error(KEY_DOES_NOT_EXIST, "current value 9 is not 0")).unwrap();
    assert_eq!(out, vec![cas(4, 4)]);
    assert_eq!(node.counter(), 4);
}

#[test]
fn other_store_errors_are_let_pass() {
    let mut node = counter_node("n1", &["n1", "n2"]);
    node.process(from("c1", Some(1), Payload::Add { delta: 4 })).unwrap();
    let out = node.process(store_error(13, "current value 9 is not 0")).unwrap();
    assert_eq!(out, vec![]);
    assert_eq!(node.counter(), 4);
    assert_eq!(node.next_msg_id(), 3);
}

#[test]
fn hint_of_a_peer_is_added_and_the_store_overrules() {
    let mut node = counter_node("n1", &["n1", "n2"]);
    assert_eq!(node.process(from("n2", None, Payload::Gossip { value: 3 })).unwrap(), vec![]);
    assert_eq!(node.process(from("n2", None, Payload::Gossip { value: 4 })).unwrap(), vec![]);
    assert_eq!(node.counter(), 7);
    assert_eq!(node.process(from("lin-kv", None, Payload::ReadOk { value: 20 })).unwrap(), vec![]);
    assert_eq!(node.counter(), 20);
    assert_eq!(node.process(from("lin-kv", None, Payload::ReadOk { value: 2 })).unwrap(), vec![]);
    assert_eq!(node.counter(), 2);
    assert_eq!(node.last_value(), 0);
}

#[test]
fn acknowledgements_and_proposals_are_let_pass() {
    let mut node = counter_node("n1", &["n1", "n2"]);
    let passing = [
        Payload::AddOk,
        Payload::CasOk,
        Payload::Cas { key: "counter".to_string(), from: 1, to: 2, create_if_not_exists: false },
    ];
    for payload in passing {
        assert_eq!(node.process(from("lin-kv", Some(3), payload)).unwrap(), vec![]);
    }
    assert_eq!(node.counter(), 0);
    assert_eq!(node.next_msg_id(), 4);
}

#[test]
fn overflow_is_refused_and_changes_nothing() {
    let mut node = counter_node("n1", &["n1", "n2"]);
    node.process(from("c1", Some(1), Payload::Add { delta: 1 })).unwrap();
    let r = node.process(from("c1", Some(2), Payload::Add { delta: usize::MAX }));
    assert_eq!(r, Err(NodeError::CounterOverflow));
    let r = node.process(from("n2", None, Payload::Gossip { value: usize::MAX }));
    assert_eq!(r, Err(NodeError::CounterOverflow));
    let text = format!("current value {} is not 1", usize::MAX);
    let r = node.process(store_error(22, &text));
    assert_eq!(r, Err(NodeError::CounterOverflow));
    assert_eq!(node.add_to_store(usize::MAX), Err(NodeError::CounterOverflow));
    assert_eq!(node.counter(), 1);
    assert_eq!(node.last_value(), 1);
    assert_eq!(node.next_msg_id(), 2);
    let out = node.process(from("c1", Some(3), Payload::Add { delta: usize::MAX - 1 })).unwrap();
    assert_eq!(out[0], cas(1, usize::MAX));
    assert_eq!(node.counter(), usize::MAX);
}

#[test]
fn counter_node_without_identifiers_refuses_everything() {
    let init = Init { node_id: "n1".to_string(), node_ids: names(&["n1", "n2"]) };
    let mut node = Node::with_first_id(init, usize::MAX);
    let r = node.process(from("c1", Some(1), Payload::Add { delta: 1 }));
    assert_eq!(r, Err(NodeError::MessageIdExhausted));
    let r = node.process(from("n2", None, Payload::Gossip { value: usize::MAX }));
    assert_eq!(r, Err(NodeError::MessageIdExhausted));
    assert_eq!(node.counter(), 0);
    assert_eq!(node.last_value(), 0);
}

#[test]
fn requests_to_the_store() {
    let mut node = counter_node("n1", &["n1", "n2"]);
    let read = node.read_from_store();
    assert_eq!(read.src, "n1");
    assert_eq!(read.dst, "lin-kv");
    assert_eq!(read.body.msg_id, None);
    assert_eq!(read.body.in_reply_to, None);
    assert_eq!(read.body.payload, Payload::Read { key: Some("counter".to_string()) });
    node.process(from("n2", None, Payload::Gossip { value: 6 })).unwrap();
    assert_eq!(node.add_to_store(4), Ok(cas(6, 10)));
    assert_eq!(node.add_to_store(0), Ok(cas(6, 6)));
    assert_eq!(node.counter(), 6);
}

#[test]
fn hints_go_to_every_peer_in_order() {
    let node = counter_node("n1", &["n3", "n1", "n2"]);
    assert_eq!(node.send_gossip(9), vec![hint("n3", 9), hint("n2", 9)]);
    let alone = counter_node("n1", &["n1"]);
    assert_eq!(alone.send_gossip(9), vec![]);
}

#[test]
fn events_of_the_counter() {
    let mut node = counter_node("n1", &["n1", "n2"]);
    assert_eq!(node.handle_event(Event::Eof).unwrap(), vec![]);
    let out = node.handle_event(Event::Read).unwrap();
    assert_eq!(out, vec![node.read_from_store()]);
    assert_eq!(node.next_msg_id(), 1);
    let out = node.handle_event(Event::Message(from("c1", Some(5), Payload::Add { delta: 2 }))).unwrap();
    assert_eq!(out, vec![cas(0, 2), hint("n2", 2), answer("c1", 1, Some(5), Payload::AddOk)]);
    let out = node
        .handle_event(Event::Message(store_error(22, "current value 7 is not 0")))
        .unwrap();
    assert_eq!(out, vec![cas(7, 9), hint("n2", 2)]);
    assert_eq!(node.counter(), 7);
}

#[test]
fn additions_and_hints_never_lower_the_view() {
    let mut node = counter_node("n1", &["n1", "n2"]);
    let mut last = node.counter();
    for delta in [0usize, 3, 0, 10, 1] {
        node.process(from("c1", Some(1), Payload::Add { delta })).unwrap();
        assert!(node.counter() >= last);
        last = node.counter();
        node.process(from("n2", None, Payload::Gossip { value: delta })).unwrap();
        assert!(node.counter() >= last);
        last = node.counter();
    }
    assert_eq!(last, 28);
}
