use std::time::Duration;
use core_p2p::address::{Endpoint, Multiaddr, PeerId, PublicKey};
use core_p2p::cita_handler::{CITAInEvent, CITAOutEvent, IdentifyInfo};
use core_p2p::poll::Async;
use core_p2p::service::{
    build_service, ConnectedPoint, PollEnd, RawSwarmEvent, Service, ServiceEvent, SwarmAction,
    SwarmTurn,
};

fn key() -> PublicKey {
    let pair = libp2p::identity::Keypair::generate_ed25519();
    PublicKey::from_protobuf_encoding(pair.public().to_protobuf_encoding()).unwrap()
}

fn peer(n: u8) -> PeerId {
    PeerId::from_bytes(&vec![0, 4, 1, 2, 3, n]).unwrap()
}

fn addr(n: u8) -> Multiaddr {
    Multiaddr::from_bytes(vec![n])
}

fn polled(service: &mut Service, event: RawSwarmEvent<u32>) -> SwarmTurn<u32> {
    assert!(service.is_admitted(&event));
    service.poll_swarm(Async::Ready(event), &vec![])
}

fn dialed(service: &mut Service, n: u8) -> SwarmTurn<u32> {
    let endpoint = ConnectedPoint::Dialer { address: addr(n) };
    polled(service, RawSwarmEvent::Connected { peer_id: peer(n), endpoint })
}

fn accepted(service: &mut Service, n: u8) -> SwarmTurn<u32> {
    let endpoint = ConnectedPoint::Listener { send_back_addr: addr(n) };
    polled(service, RawSwarmEvent::Connected { peer_id: peer(n), endpoint })
}

fn event(service: &mut Service, n: u8, event: CITAOutEvent<u32>) -> SwarmTurn<u32> {
    polled(service, RawSwarmEvent::NodeEvent { peer_id: peer(n), event })
}

fn report(turn: SwarmTurn<u32>) -> ServiceEvent {
    match turn.result {
        Some(Async::Ready(Some(event))) => event,
        other => panic!("{:?}", other),
    }
}

fn goes_on(turn: &SwarmTurn<u32>) -> bool {
    turn.result.is_none()
}

fn closes(actions: &Vec<SwarmAction<u32>>, n: u8) -> bool {
    actions.len() == 1 && matches!(&actions[0], SwarmAction::Close(id) if id.same(&peer(n)))
}

#[test]
fn new_service_is_empty() {
    let service = build_service(key());
    assert!(service.get_index_by_id(&peer(1)).is_none());
    assert!(service.get_info_by_index(0).is_none());
}

#[test]
fn swarm_that_is_not_ready_ends_the_poll() {
    let mut service = build_service(key());
    let turn = service.poll_swarm::<u32>(Async::NotReady, &vec![]);
    assert!(turn.actions.is_empty());
    assert!(matches!(turn.result, Some(Async::NotReady)));
}

#[test]
fn connected_nodes_are_found() {
    let mut service = build_service(key());
    let turn = dialed(&mut service, 1);
    assert!(goes_on(&turn) && turn.actions.is_empty());
    accepted(&mut service, 2);
    assert_eq!(service.get_index_by_id(&peer(1)), Some(&0));
    assert_eq!(service.get_index_by_id(&peer(2)), Some(&1));
    let info = service.get_info_by_index(1).unwrap();
    assert_eq!(info.id, peer(2));
    assert_eq!(info.endpoint, Endpoint::Listener);
    assert_eq!(info.address, addr(2));
    assert_eq!(service.get_info_by_index(0).unwrap().endpoint, Endpoint::Dialer);
}

#[test]
fn dropped_node_is_gone() {
    let mut service = build_service(key());
    dialed(&mut service, 1);
    accepted(&mut service, 2);
    let (index, actions) = service.drop_node(peer(1));
    assert_eq!(index, Some(0));
    assert!(closes(&actions, 1));
    let (index, actions) = service.drop_node::<u32>(peer(1));
    assert_eq!(index, None);
    assert!(actions.is_empty());
    assert!(service.get_index_by_id(&peer(1)).is_none());
    assert!(service.get_info_by_index(0).is_none());
    // Indexes are not used again.
    dialed(&mut service, 3);
    assert_eq!(service.get_index_by_id(&peer(3)), Some(&2));
}

#[test]
fn closed_node_is_dropped_and_reported() {
    let mut service = build_service(key());
    dialed(&mut service, 1);
    let turn = polled(&mut service, RawSwarmEvent::NodeClosed { peer_id: peer(1) });
    assert!(closes(&turn.actions, 1));
    assert!(matches!(report(turn), ServiceEvent::NodeClosed { index: 0 }));
    assert!(service.get_index_by_id(&peer(1)).is_none());
    let gone: RawSwarmEvent<u32> = RawSwarmEvent::NodeClosed { peer_id: peer(1) };
    assert!(!service.is_admitted(&gone));
}

#[test]
fn failed_node_is_dropped_and_reported() {
    let mut service = build_service(key());
    dialed(&mut service, 1);
    let turn = polled(&mut service, RawSwarmEvent::NodeError { peer_id: peer(1) });
    assert!(closes(&turn.actions, 1));
    assert!(matches!(report(turn), ServiceEvent::NodeClosed { index: 0 }));
}

#[test]
fn useless_node_is_dropped() {
    let mut service = build_service(key());
    accepted(&mut service, 1);
    let turn = event(&mut service, 1, CITAOutEvent::Useless);
    assert!(closes(&turn.actions, 1));
    assert!(matches!(report(turn), ServiceEvent::NodeClosed { index: 0 }));
}

#[test]
fn closed_protocol_drops_the_node() {
    let mut service = build_service(key());
    accepted(&mut service, 1);
    let turn = event(&mut service, 1, CITAOutEvent::CustomProtocolClosed { protocol: 6 });
    assert!(closes(&turn.actions, 1));
    assert!(matches!(
        report(turn),
        ServiceEvent::CustomProtocolClosed { index: 0, protocol: 6 }
    ));
    assert!(service.get_index_by_id(&peer(1)).is_none());
}

#[test]
fn opened_protocol_is_reported_with_the_node() {
    let mut service = build_service(key());
    accepted(&mut service, 1);
    accepted(&mut service, 2);
    let open = CITAOutEvent::CustomProtocolOpen { protocol: 6, version: 3 };
    match report(event(&mut service, 2, open)) {
        ServiceEvent::CustomProtocolOpen { index, protocol, version, node_info } => {
            assert_eq!((index, protocol, version), (1, 6, 3));
            assert_eq!(node_info.id, peer(2));
            assert_eq!(node_info.address, addr(2));
        }
        other => panic!("{:?}", other),
    }
}

#[test]
fn message_is_reported() {
    let mut service = build_service(key());
    accepted(&mut service, 1);
    let message = CITAOutEvent::CustomMessage { protocol: 6, data: Some(vec![1, 2]) };
    match report(event(&mut service, 1, message)) {
        ServiceEvent::CustomMessage { index, protocol, data } => {
            assert_eq!((index, protocol, data), (0, 6, Some(vec![1, 2])));
        }
        other => panic!("{:?}", other),
    }
}

#[test]
fn pings_are_passed_over() {
    let mut service = build_service(key());
    assert!(goes_on(&event(&mut service, 1, CITAOutEvent::PingStart)));
    let success = CITAOutEvent::PingSuccess(Duration::from_secs(1));
    assert!(goes_on(&event(&mut service, 1, success)));
}

#[test]
fn events_of_strangers_are_not_expected() {
    let service = build_service(key());
    let events: Vec<CITAOutEvent<u32>> = vec![
        CITAOutEvent::Useless,
        CITAOutEvent::CustomProtocolOpen { protocol: 0, version: 0 },
        CITAOutEvent::CustomProtocolClosed { protocol: 0 },
        CITAOutEvent::CustomMessage { protocol: 0, data: None },
        CITAOutEvent::Identified {
            info: IdentifyInfo { listen_addrs: vec![] },
            observed_addr: addr(1),
        },
        CITAOutEvent::OverMaxConnection,
    ];
    for e in events {
        assert!(!service.is_expected(&peer(1), &e));
    }
    assert!(service.is_expected(&peer(1), &CITAOutEvent::<u32>::NeedReDial));
    assert!(service.is_expected(&peer(1), &CITAOutEvent::IdentificationRequest(1u32)));
}

#[test]
fn identified_node_teaches_addresses() {
    let mut service = build_service(key());
    accepted(&mut service, 1);
    let identified = CITAOutEvent::Identified {
        info: IdentifyInfo { listen_addrs: vec![addr(7), addr(8)] },
        observed_addr: addr(9),
    };
    let reaction =
        service.event_handle::<u32>(peer(1), identified, &vec![addr(20), addr(21), addr(20)]);
    assert!(reaction.actions.is_empty());
    match reaction.event {
        Some(ServiceEvent::NodeInfo { index, endpoint, listen_address }) => {
            assert_eq!(index, 0);
            assert_eq!(endpoint, Endpoint::Listener);
            assert_eq!(listen_address, vec![addr(7), addr(8)]);
        }
        other => panic!("{:?}", other),
    }
    // What was learned is told when somebody asks, each address once.
    let request = CITAOutEvent::IdentificationRequest(77);
    let turn = event(&mut service, 1, request);
    assert!(goes_on(&turn));
    assert_eq!(turn.actions.len(), 1);
    match &turn.actions[0] {
        SwarmAction::Respond { responder, listen_addrs, observed_addr, .. } => {
            assert_eq!(*responder, 77);
            assert_eq!(listen_addrs, &vec![addr(20), addr(21)]);
            assert_eq!(observed_addr, &addr(1));
        }
        other => panic!("{:?}", other),
    }
}

#[test]
fn stranger_is_not_told_who_this_node_is() {
    let mut service = build_service(key());
    let turn = event(&mut service, 1, CITAOutEvent::IdentificationRequest(77));
    assert!(goes_on(&turn) && turn.actions.is_empty());
}

#[test]
fn incoming_connection_is_accepted() {
    let mut service = build_service(key());
    let turn = polled(&mut service, RawSwarmEvent::IncomingConnection);
    assert!(goes_on(&turn));
    assert_eq!(turn.actions.len(), 1);
    assert!(matches!(turn.actions[0], SwarmAction::Accept));
    let turn = polled(&mut service, RawSwarmEvent::IncomingConnectionError);
    assert!(goes_on(&turn) && turn.actions.is_empty());
    let turn = polled(&mut service, RawSwarmEvent::ListenerClosed);
    assert!(goes_on(&turn) && turn.actions.is_empty());
}

#[test]
fn failed_dial_is_tried_again_last_first() {
    let mut service = build_service(key());
    let actions: Vec<SwarmAction<u32>> =
        service.handle_hook(vec![addr(1), addr(2)], vec![], vec![]);
    assert!(actions.is_empty());
    let turn = polled(&mut service, RawSwarmEvent::DialError { multiaddr: addr(3) });
    assert!(goes_on(&turn));
    let dials: Vec<Vec<u8>> = turn
        .actions
        .iter()
        .map(|a| match a {
            SwarmAction::Dial(addr) => addr.to_vec(),
            other => panic!("{:?}", other),
        })
        .collect();
    assert_eq!(dials, vec![vec![3], vec![2], vec![1]]);
    let turn = polled(&mut service, RawSwarmEvent::UnknownPeerDialError { multiaddr: addr(4) });
    assert_eq!(turn.actions.len(), 1);
}

#[test]
fn outbound_nodes_are_limited() {
    let mut service = build_service(key());
    for n in 0..29 {
        assert!(dialed(&mut service, n).actions.is_empty());
    }
    let turn = dialed(&mut service, 29);
    assert!(goes_on(&turn));
    assert!(closes(&turn.actions, 29));
    assert!(service.get_index_by_id(&peer(29)).is_none());
    // The index that was given back is used for the next node.
    assert!(accepted(&mut service, 30).actions.is_empty());
    assert_eq!(service.get_index_by_id(&peer(30)), Some(&29));
    // Room is made by dropping a node.
    service.drop_node::<u32>(peer(3));
    assert!(dialed(&mut service, 31).actions.is_empty());
    assert_eq!(service.get_index_by_id(&peer(31)), Some(&30));
}

#[test]
fn inbound_nodes_are_limited() {
    let mut service = build_service(key());
    for n in 0..29 {
        assert!(accepted(&mut service, n).actions.is_empty());
    }
    for n in 29..61 {
        let turn = accepted(&mut service, n);
        assert!(goes_on(&turn));
        assert!(closes(&turn.actions, n));
        assert!(service.get_index_by_id(&peer(n)).is_none());
    }
    // Outbound nodes have a limit of their own.
    for n in 100..129 {
        assert!(dialed(&mut service, n).actions.is_empty());
    }
    assert_eq!(service.get_index_by_id(&peer(128)), Some(&57));
    assert!(closes(&dialed(&mut service, 129).actions, 129));
    // Room is made by dropping a node.
    assert_eq!(service.drop_node::<u32>(peer(0)).0, Some(0));
    assert!(accepted(&mut service, 61).actions.is_empty());
    assert_eq!(service.get_index_by_id(&peer(61)), Some(&58));
}

#[test]
fn observed_addresses_are_told_once() {
    let mut service = build_service(key());
    accepted(&mut service, 1);
    service.add_observed_addr(&vec![addr(20), addr(21), addr(20)]);
    service.add_observed_addr(&vec![addr(21), addr(22)]);
    let turn = event(&mut service, 1, CITAOutEvent::IdentificationRequest(5));
    match &turn.actions[0] {
        SwarmAction::Respond { listen_addrs, .. } => {
            assert_eq!(listen_addrs, &vec![addr(20), addr(21), addr(22)]);
        }
        other => panic!("{:?}", other),
    }
}

#[test]
fn replaced_node_is_forgotten() {
    let mut service = build_service(key());
    dialed(&mut service, 1);
    let turn = polled(&mut service, RawSwarmEvent::Replaced { peer_id: peer(1) });
    assert!(goes_on(&turn) && turn.actions.is_empty());
    assert!(service.get_index_by_id(&peer(1)).is_none());
    assert!(service.get_info_by_index(0).is_none());
}

#[test]
fn hook_disconnects_then_sends() {
    let mut service = build_service(key());
    dialed(&mut service, 1);
    accepted(&mut service, 2);
    accepted(&mut service, 3);
    let actions: Vec<SwarmAction<u32>> = service.handle_hook(
        vec![],
        vec![1, 9, 1],
        vec![(vec![0, 1, 2], 4, vec![5]), (vec![], 6, vec![7])],
    );
    assert_eq!(actions.len(), 4);
    assert!(matches!(&actions[0], SwarmAction::Close(id) if id.same(&peer(2))));
    for (action, n) in actions[1..3].iter().zip(vec![1u8, 3]) {
        match action {
            SwarmAction::SendEvent {
                node,
                event: CITAInEvent::SendCustomMessage { protocol, data },
            } => {
                assert!(node.same(&peer(n)));
                assert_eq!((*protocol, data), (4, &vec![5]));
            }
            other => panic!("{:?}", other),
        }
    }
    match &actions[3] {
        SwarmAction::BroadcastEvent { event: CITAInEvent::SendCustomMessage { protocol, data } } => {
            assert_eq!((*protocol, data), (6, &vec![7]));
        }
        other => panic!("{:?}", other),
    }
    assert!(service.get_info_by_index(1).is_none());
}

#[test]
fn requests_become_actions() {
    let service = build_service(key());
    let action: SwarmAction<u32> = service.dial(addr(1));
    assert!(matches!(action, SwarmAction::Dial(a) if a.same(&addr(1))));
    let action: SwarmAction<u32> = service.send_custom_message(peer(2), 3, vec![4]);
    assert!(matches!(action, SwarmAction::SendEvent { node, .. } if node.same(&peer(2))));
    let action: SwarmAction<u32> = service.broadcast(3, vec![4]);
    assert!(matches!(action, SwarmAction::BroadcastEvent { .. }));
}

#[test]
fn listening_address_names_this_node() {
    let key = key();
    let id = key.to_peer_id().to_bytes();
    let service = build_service(key);
    let mut expected = vec![1, 0xa5, 0x03, 38];
    expected.extend(id);
    assert_eq!(service.listen_on(Ok(addr(1))).unwrap().to_vec(), expected);
    assert_eq!(service.listen_on(Err(addr(2))), Err(addr(2)));
}

#[test]
fn poll_reports_or_runs_the_hook() {
    let service = build_service(key());
    let event = ServiceEvent::NodeClosed { index: 4 };
    assert!(matches!(
        service.poll(Async::Ready(Some(event))),
        PollEnd::OutEvent(Some(ServiceEvent::NodeClosed { index: 4 }))
    ));
    assert!(matches!(service.poll(Async::Ready(None)), PollEnd::OutEvent(None)));
    assert!(matches!(service.poll(Async::NotReady), PollEnd::HandleHook));
}
