use std::time::Duration;
use core_p2p::address::PeerId;
use core_p2p::ping_node::cita_handler::{
    CITAInEvent, CITANodeHandler, CITAOutEvent, FinalUpgrade, Next, OpenedSubstream, PingOutput,
    Substream, UpgradePurpose,
};
use core_p2p::ping_node::{client_polled, server_polled, ServerTurn, SwarmEvent};
use core_p2p::poll::Async;

struct Numbers;

impl Substream for Numbers {
    type PingDialer = u8;
    type PingListener = u16;
    type Upgrade = u32;
    type Task = &'static str;
    type Error = ();
}

type Handler = CITANodeHandler<Numbers>;

fn ended(next: Next<Numbers>) -> CITAOutEvent<()> {
    match next {
        Next::Return(Async::Ready(Some(event))) => event,
        _ => panic!("no event"),
    }
}

/// A handler with upgrades 1, 2 and 3 on the listening side.
fn listening() -> Handler {
    let mut h = Handler::new();
    for upgrade in 1..4 {
        h.inject_substream(OpenedSubstream::Listener(upgrade));
    }
    h
}

fn listen_step(next: Next<Numbers>) -> (usize, u32) {
    match next {
        Next::ListenUpgrade { left, in_progress } => (left, in_progress),
        _ => panic!("no upgrade"),
    }
}

fn peer() -> PeerId {
    PeerId::from_bytes(&vec![0, 4, 1, 2, 3, 4]).unwrap()
}

#[test]
fn outputs_become_upgrades() {
    let upgrade = FinalUpgrade::<Numbers>::from(PingOutput::Ponger(7));
    assert!(matches!(upgrade, FinalUpgrade::PingListener(7)));
    let upgrade = FinalUpgrade::<Numbers>::from(PingOutput::Pinger(8));
    assert!(matches!(upgrade, FinalUpgrade::PingDialer(8)));
}

#[test]
fn new_handler_seeks_a_ping_substream() {
    let mut h = Handler::new();
    assert!(h.has_upgrade_purpose(&UpgradePurpose::Ping));
    assert!(!h.has_upgrade_purpose(&UpgradePurpose::Custom(0)));
    assert!(matches!(h.poll(), Next::Park));
    assert!(matches!(h.park("a"), Async::NotReady));
    let signal = h.inject_event(CITAInEvent::Ping);
    assert!(!signal.ping);
    assert_eq!(signal.wake, None);
}

#[test]
fn dialed_substream_pings() {
    let mut h = Handler::new();
    let _ = h.park("a");
    assert_eq!(h.inject_substream(OpenedSubstream::Dialer(1)), Some("a"));
    // Nothing more was queued.
    let _ = h.park("b");
    assert_eq!(h.inject_substream(OpenedSubstream::Dialer(2)), None);
    assert!(h.has_upgrade_purpose(&UpgradePurpose::Ping));
    match h.poll() {
        Next::DialUpgrade { left, purpose, in_progress } => {
            assert_eq!((left, purpose, in_progress), (0, UpgradePurpose::Ping, 1));
        }
        _ => panic!("no upgrade"),
    }
    let outcome = Ok(Async::Ready(FinalUpgrade::PingDialer(9)));
    let step = h.dial_upgrade_polled(0, UpgradePurpose::Ping, 1, outcome);
    assert!(step.signal.ping);
    assert_eq!(step.signal.wake, Some("b"));
    assert!(matches!(ended(step.next), CITAOutEvent::PingStart));
    assert!(!h.has_upgrade_purpose(&UpgradePurpose::Ping));
    assert!(h.inject_event(CITAInEvent::Ping).ping);
    // The substream answers.
    assert!(matches!(h.poll(), Next::PingOut(9)));
    let next = h.ping_out_polled(9, Ok(Async::Ready(Some(Duration::from_secs(2)))));
    assert!(matches!(ended(next), CITAOutEvent::PingSuccess(t) if t == Duration::from_secs(2)));
    // It is gone, and the next ping seeks another one.
    let signal = h.ping_remote();
    assert!(!signal.ping);
    assert!(h.has_upgrade_purpose(&UpgradePurpose::Ping));
}

#[test]
fn upgrades_are_polled_from_the_last_on() {
    let mut h = listening();
    let (left, upgrade) = listen_step(h.poll());
    assert_eq!((left, upgrade), (2, 3));
    let step = h.listen_upgrade_polled(left, upgrade, Ok(Async::NotReady));
    let (left, upgrade) = listen_step(step.next);
    assert_eq!((left, upgrade), (1, 2));
    // This one is over, and receives pings.
    let outcome = Ok(Async::Ready(FinalUpgrade::PingListener(50)));
    let step = h.listen_upgrade_polled(left, upgrade, outcome);
    assert!(!step.signal.ping);
    let (left, upgrade) = listen_step(step.next);
    assert_eq!((left, upgrade), (0, 1));
    let step = h.listen_upgrade_polled(left, upgrade, Ok(Async::NotReady));
    match step.next {
        Next::PingIn { left, ping } => assert_eq!((left, ping), (0, 50)),
        _ => panic!("no substream for pings"),
    }
    assert!(matches!(h.ping_in_polled(0, 50, Ok(Async::NotReady)), Next::Park));
    // The two that are not over are polled again, each once.
    let (left, first) = listen_step(h.poll());
    let (left, second) = listen_step(h.listen_upgrade_polled(left, first, Ok(Async::NotReady)).next);
    assert_eq!(left, 0);
    let mut both = vec![first, second];
    both.sort();
    assert_eq!(both, vec![1, 3]);
}

#[test]
fn failed_upgrade_is_unresponsive() {
    let mut h = listening();
    h.poll();
    let step = h.listen_upgrade_polled(2, 3, Err(()));
    assert!(matches!(ended(step.next), CITAOutEvent::Unresponsive));
    assert_eq!(listen_step(h.poll()), (1, 2));
    let mut h = Handler::new();
    h.inject_substream(OpenedSubstream::Dialer(1));
    h.poll();
    let step = h.dial_upgrade_polled(0, UpgradePurpose::Ping, 1, Err(()));
    assert!(matches!(ended(step.next), CITAOutEvent::Unresponsive));
}

#[test]
fn custom_upgrade_leads_nowhere() {
    let mut h = Handler::new();
    h.inject_substream(OpenedSubstream::Listener(1));
    h.poll();
    let step = h.listen_upgrade_polled(0, 1, Ok(Async::Ready(FinalUpgrade::Custom)));
    assert!(matches!(step.next, Next::Park));
}

#[test]
fn unfinished_dial_upgrade_keeps_its_purpose() {
    let mut h = Handler::new();
    h.inject_substream(OpenedSubstream::Dialer(1));
    h.poll();
    let step = h.dial_upgrade_polled(0, UpgradePurpose::Ping, 1, Ok(Async::NotReady));
    assert!(matches!(step.next, Next::Park));
    assert!(h.has_upgrade_purpose(&UpgradePurpose::Ping));
}

#[test]
fn closed_ping_listeners_are_dropped() {
    let mut h = Handler::new();
    for listener in 50..53 {
        h.inject_substream(OpenedSubstream::Listener(1));
        h.poll();
        let outcome = Ok(Async::Ready(FinalUpgrade::PingListener(listener)));
        let mut next = h.listen_upgrade_polled(0, 1, outcome).next;
        while let Next::PingIn { left, ping } = next {
            next = h.ping_in_polled(left, ping, Ok(Async::NotReady));
        }
    }
    let mut kept = vec![];
    let mut next = h.poll();
    while let Next::PingIn { left, ping } = next {
        let outcome = match ping {
            50 => Ok(Async::Ready(())),
            51 => Err(()),
            _ => Ok(Async::NotReady),
        };
        next = h.ping_in_polled(left, ping, outcome);
    }
    let mut next = h.poll();
    while let Next::PingIn { left, ping } = next {
        kept.push(ping);
        next = h.ping_in_polled(left, ping, Ok(Async::NotReady));
    }
    assert_eq!(kept, vec![52]);
}

#[test]
fn other_events_change_nothing() {
    let mut h = listening();
    assert_eq!((h.listening(), h.dialing(), h.answering()), (3, 0, 0));
    assert!(!h.inject_event(CITAInEvent::Accept).ping);
    let message = CITAInEvent::SendCustomMessage { protocol: 1, data: vec![2] };
    assert!(!h.inject_event(message).ping);
    h.inject_inbound_closed();
    h.inject_outbound_closed();
    h.shutdown();
    assert_eq!(listen_step(h.poll()), (2, 3));
}

#[test]
fn closed_ping_substream_is_given_up() {
    for outcome in vec![Ok(Async::Ready(None)), Err(())] {
        let mut h = Handler::new();
        h.inject_substream(OpenedSubstream::Listener(1));
        h.poll();
        h.listen_upgrade_polled(0, 1, Ok(Async::Ready(FinalUpgrade::PingDialer(9))));
        assert!(matches!(h.poll(), Next::PingOut(9)));
        assert!(matches!(h.ping_out_polled(9, Ok(Async::NotReady)), Next::Park));
        assert!(matches!(h.poll(), Next::PingOut(9)));
        assert!(matches!(h.ping_out_polled(9, outcome), Next::Park));
        assert!(matches!(h.poll(), Next::Park));
    }
}

#[test]
fn server_accepts_and_reports() {
    let turn = server_polled(Async::Ready(SwarmEvent::Connected { peer_id: peer() }));
    assert!(matches!(turn, ServerTurn::Return(Async::Ready(Some(id))) if id.same(&peer())));
    let turn = server_polled(Async::Ready(SwarmEvent::IncomingConnection));
    assert!(matches!(turn, ServerTurn::Accept));
    let turn = server_polled(Async::Ready(SwarmEvent::IncomingConnectionError));
    assert!(matches!(turn, ServerTurn::PollAgain));
    for event in vec![
        SwarmEvent::NodeClosed { peer_id: peer() },
        SwarmEvent::DialError,
        SwarmEvent::UnknownPeerDialError,
        SwarmEvent::Other,
    ] {
        let turn = server_polled(Async::Ready(event));
        assert!(matches!(turn, ServerTurn::Return(Async::NotReady)));
    }
    assert!(matches!(server_polled(Async::NotReady), ServerTurn::Return(Async::NotReady)));
}

#[test]
fn client_reports_connections_only() {
    let turn = client_polled(Async::Ready(SwarmEvent::Connected { peer_id: peer() }));
    assert!(matches!(turn, Async::Ready(Some(id)) if id.same(&peer())));
    assert!(matches!(client_polled(Async::Ready(SwarmEvent::IncomingConnection)), Async::NotReady));
    assert!(matches!(client_polled(Async::NotReady), Async::NotReady));
}
