use std::collections::HashMap;
use core_p2p::address::{Multiaddr, PeerId};
use core_p2p::nodes::{EventStep, Message, MessageType, NodeManager};
use core_p2p::service::{NodeInfo, ServiceEvent};
use core_p2p::Endpoint;

fn text(s: &str) -> String {
    String::from(s)
}

fn info(endpoint: Endpoint) -> NodeInfo {
    NodeInfo {
        id: PeerId::from_bytes(&vec![0, 4, 1, 2, 3, 4]).unwrap(),
        endpoint,
        address: Multiaddr::from_bytes(vec![]),
    }
}

fn open(index: usize, protocol: usize, endpoint: Endpoint) -> ServiceEvent {
    ServiceEvent::CustomProtocolOpen { index, protocol, version: 1, node_info: info(endpoint) }
}

fn message(mtype: MessageType, data: &str) -> Message {
    Message { mtype, data: text(data), timestamp: 0 }
}

fn connected(manager: &mut NodeManager, index: usize) {
    let step = manager.handle_event(&text("me"), open(index, 3, Endpoint::Listener));
    assert!(matches!(step, EventStep::Done));
}

#[test]
fn new_node_knows_itself() {
    let manager = NodeManager::new(&text("me"));
    assert_eq!(manager.get_addr(&text("me")), Some(1));
    assert_eq!(manager.get_addr(&text("you")), None);
    assert_eq!(manager.get_conn(0), None);
}

#[test]
fn dialer_shares_its_address() {
    let mut manager = NodeManager::new(&text("me"));
    match manager.handle_event(&text("me"), open(5, 2, Endpoint::Dialer)) {
        EventStep::Send(out) => {
            assert_eq!(out.indexes, vec![5]);
            assert_eq!(out.protocol, 0);
            assert_eq!(out.message.mtype, MessageType::ShareAddr);
            assert_eq!(out.message.data, "me");
            assert_eq!(out.message.timestamp, 0);
        }
        other => panic!("{:?}", other),
    }
    assert_eq!(manager.get_conn(5), None);
}

#[test]
fn listener_takes_note_of_the_node() {
    let mut manager = NodeManager::new(&text("me"));
    connected(&mut manager, 5);
    assert_eq!(manager.get_conn(5), Some(3));
    manager.handle_event(&text("me"), open(5, 9, Endpoint::Listener));
    assert_eq!(manager.get_conn(5), Some(3));
}

#[test]
fn messages_are_to_be_decoded() {
    let mut manager = NodeManager::new(&text("me"));
    let event = ServiceEvent::CustomMessage { index: 1, protocol: 2, data: Some(vec![7]) };
    match manager.handle_event(&text("me"), event) {
        EventStep::Decode { index, protocol, data } => {
            assert_eq!((index, protocol, data), (1, 2, vec![7]));
        }
        other => panic!("{:?}", other),
    }
    let event = ServiceEvent::CustomMessage { index: 1, protocol: 2, data: None };
    assert!(matches!(manager.handle_event(&text("me"), event), EventStep::Done));
    let event = ServiceEvent::NodeClosed { index: 1 };
    assert!(matches!(manager.handle_event(&text("me"), event), EventStep::Done));
}

#[test]
fn shared_address_is_answered_and_passed_on() {
    let mut manager = NodeManager::new(&text("me"));
    connected(&mut manager, 1);
    connected(&mut manager, 2);
    connected(&mut manager, 3);
    let outs = manager.handle_message(2, 3, message(MessageType::ShareAddr, "you")).unwrap();
    assert_eq!(manager.get_addr(&text("you")), Some(0));
    assert_eq!(outs.len(), 2);
    assert_eq!(outs[0].indexes, vec![2]);
    assert_eq!(outs[0].protocol, 0);
    assert_eq!(outs[0].message.mtype, MessageType::ReturnNodeAddrs);
    let addrs: HashMap<String, usize> = serde_json::from_str(&outs[0].message.data).unwrap();
    assert_eq!(addrs.len(), 2);
    assert_eq!(addrs[&text("me")], 1);
    assert_eq!(addrs[&text("you")], 0);
    let mut indexes = outs[1].indexes.clone();
    indexes.sort();
    assert_eq!(indexes, vec![1, 3]);
    assert_eq!(outs[1].message.mtype, MessageType::PassShareAddr);
    assert_eq!(outs[1].message.data, "you");
}

#[test]
fn nothing_is_passed_on_to_nobody() {
    let mut manager = NodeManager::new(&text("me"));
    connected(&mut manager, 2);
    let outs = manager.handle_message(2, 3, message(MessageType::ShareAddr, "you")).unwrap();
    assert_eq!(outs.len(), 1);
    let outs = manager.handle_message(2, 3, message(MessageType::PassShareAddr, "her")).unwrap();
    assert_eq!(outs.len(), 0);
    assert_eq!(manager.get_addr(&text("her")), Some(0));
}

#[test]
fn passed_address_is_passed_on() {
    let mut manager = NodeManager::new(&text("me"));
    connected(&mut manager, 1);
    connected(&mut manager, 2);
    let outs = manager.handle_message(2, 3, message(MessageType::PassShareAddr, "you")).unwrap();
    assert_eq!(outs.len(), 1);
    assert_eq!(outs[0].indexes, vec![1]);
    assert_eq!(outs[0].message.mtype, MessageType::PassShareAddr);
    assert_eq!(outs[0].message.data, "you");
}

#[test]
fn own_address_keeps_its_number() {
    let mut manager = NodeManager::new(&text("me"));
    manager.handle_message(2, 3, message(MessageType::ShareAddr, "me")).unwrap();
    assert_eq!(manager.get_addr(&text("me")), Some(1));
}

#[test]
fn answer_teaches_all_addresses() {
    let mut asked = NodeManager::new(&text("a \"quoted\" node"));
    asked.handle_message(9, 0, message(MessageType::ShareAddr, "c")).unwrap();
    let outs = asked.handle_message(4, 0, message(MessageType::ShareAddr, "b")).unwrap();
    let mut asking = NodeManager::new(&text("b"));
    let reply = message(MessageType::ReturnNodeAddrs, &outs[0].message.data);
    assert_eq!(asking.handle_message(6, 1, reply).unwrap().len(), 0);
    assert_eq!(asking.get_addr(&text("a \"quoted\" node")), Some(0));
    assert_eq!(asking.get_addr(&text("c")), Some(0));
    assert_eq!(asking.get_addr(&text("b")), Some(1));
    assert_eq!(asking.get_conn(6), Some(1));
}

#[test]
fn addresses_are_learned() {
    let mut manager = NodeManager::new(&text("me"));
    let reply = message(MessageType::ReturnNodeAddrs, "{\"x\": 1, \"me\": 7}");
    assert!(manager.handle_message(6, 1, reply).is_some());
    assert_eq!(manager.get_addr(&text("x")), Some(0));
    assert_eq!(manager.get_addr(&text("me")), Some(1));
    manager.learn(6, 2, vec![(text("y"), 3)]);
    assert_eq!(manager.get_addr(&text("y")), Some(0));
    assert_eq!(manager.get_conn(6), Some(1));
}

#[test]
fn bad_answer_changes_nothing() {
    let mut manager = NodeManager::new(&text("me"));
    for bad in vec!["", "[]", "{\"x\": -1}", "{\"x\": \"y\"}", "{\"x\": 1}}"] {
        let reply = message(MessageType::ReturnNodeAddrs, bad);
        assert!(manager.handle_message(6, 1, reply).is_none());
    }
    assert_eq!(manager.get_addr(&text("x")), None);
    assert_eq!(manager.get_conn(6), None);
}

#[test]
fn repeated_message_changes_nothing() {
    let mut manager = NodeManager::new(&text("me"));
    manager.handle_message(2, 3, message(MessageType::ShareAddr, "you")).unwrap();
    let outs = manager.handle_message(2, 3, message(MessageType::ShareAddr, "you")).unwrap();
    let addrs: HashMap<String, usize> = serde_json::from_str(&outs[0].message.data).unwrap();
    assert_eq!(addrs.len(), 2);
}
