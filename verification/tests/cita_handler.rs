use std::time::Duration;
use core_p2p::cita_handler::{
    CITAInEvent, CITANodeHandler, CITAOutEvent, Next, NodeHandlerEvent, OpenedSubstream, Step,
    Substream, FIRST_PING_SECS, PING_PERIOD_SECS,
};
use core_p2p::poll::Async;

struct Numbers;

impl Substream for Numbers {
    type PingDialer = u8;
    type PingListener = u16;
    type InboundUpgrade = u32;
    type OutboundUpgrade = u64;
    type Task = &'static str;
    type Responder = ();
    type TimerError = i8;
}

type Handler = CITANodeHandler<Numbers>;

fn custom(next: Next<Numbers>) -> CITAOutEvent<()> {
    match next {
        Next::Return(Ok(Async::Ready(Some(NodeHandlerEvent::Custom(event))))) => event,
        _ => panic!("no event"),
    }
}

fn asks(next: Next<Numbers>) -> bool {
    matches!(
        next,
        Next::Return(Ok(Async::Ready(Some(NodeHandlerEvent::OutboundSubstreamRequest))))
    )
}

/// A handler with an open substream for pings.
fn pinging() -> Handler {
    let mut h = Handler::new();
    assert!(matches!(h.poll(), Next::Interval));
    assert!(asks(h.interval_polled(Ok(Async::Ready(()))).next));
    assert_eq!(h.inject_substream(OpenedSubstream::Dialer(40)), None);
    assert!(matches!(h.poll(), Next::DialUpgrade(40)));
    let step = h.dial_upgrade_polled(40, Ok(Async::Ready(4)));
    assert!(step.ping);
    assert!(matches!(custom(step.next), CITAOutEvent::PingStart));
    h
}

#[test]
fn ping_times() {
    assert_eq!(FIRST_PING_SECS, 3);
    assert_eq!(PING_PERIOD_SECS, 30);
}

#[test]
fn new_handler_waits_for_its_timer() {
    let mut h = Handler::default();
    assert!(matches!(h.poll(), Next::Interval));
    let Step { ping, wake, next } = h.interval_polled(Ok(Async::NotReady));
    assert!(!ping);
    assert_eq!(wake, None);
    assert!(matches!(next, Next::Park));
    assert!(matches!(h.park("a"), Ok(Async::NotReady)));
    assert_eq!(h.notify, Some("a"));
}

#[test]
fn timer_asks_for_one_substream() {
    let mut h = Handler::new();
    h.poll();
    let _ = h.park("a");
    let step = h.interval_polled(Ok(Async::Ready(())));
    assert!(!step.ping);
    assert_eq!(step.wake, Some("a"));
    assert!(asks(step.next));
    // It is not asked for again.
    h.poll();
    let step = h.interval_polled(Ok(Async::Ready(())));
    assert_eq!(step.wake, None);
    assert!(matches!(step.next, Next::Park));
}

#[test]
fn opened_substream_is_upgraded_and_pings() {
    let mut h = pinging();
    assert_eq!(h.ping_out_substream, Some(4));
    assert!(!h.queued_dial_upgrades);
    h.poll();
    let step = h.interval_polled(Ok(Async::Ready(())));
    assert!(step.ping);
    assert!(matches!(custom(step.next), CITAOutEvent::PingStart));
}

#[test]
fn substream_that_was_not_asked_for_is_given_up() {
    let mut h = Handler::new();
    let _ = h.park("a");
    assert_eq!(h.inject_substream(OpenedSubstream::Dialer(40)), None);
    assert_eq!(h.upgrades_in_progress_dial, None);
    assert_eq!(h.inject_substream(OpenedSubstream::Listener(30)), Some("a"));
    assert_eq!(h.upgrades_in_progress_listen, Some(30));
}

#[test]
fn answered_ping_is_reported() {
    let mut h = pinging();
    h.poll();
    assert!(matches!(h.interval_polled(Ok(Async::NotReady)).next, Next::PingOut(4)));
    let time = Duration::from_millis(12);
    match custom(h.ping_out_polled(4, Ok(Async::Ready(Some(time))))) {
        CITAOutEvent::PingSuccess(elapsed) => assert_eq!(elapsed, time),
        other => panic!("{:?}", other),
    }
    assert_eq!(h.ping_out_substream, None);
}

#[test]
fn closed_ping_substream_is_asked_for_again() {
    let mut h = pinging();
    h.poll();
    h.interval_polled(Ok(Async::NotReady));
    assert!(asks(h.ping_out_polled(4, Ok(Async::Ready(None)))));
    assert!(h.queued_dial_upgrades);
    assert_eq!(h.num_out_user_must_open, 0);
}

#[test]
fn failed_ping_substream_is_given_up() {
    let mut h = pinging();
    h.poll();
    h.interval_polled(Ok(Async::NotReady));
    assert!(matches!(h.ping_out_polled(4, Err(())), Next::Park));
    assert_eq!(h.ping_out_substream, None);
    assert!(!h.queued_dial_upgrades);
}

#[test]
fn pings_of_the_remote_are_answered() {
    let mut h = Handler::new();
    h.inject_substream(OpenedSubstream::Listener(30));
    assert!(matches!(h.poll(), Next::ListenUpgrade(30)));
    assert!(matches!(h.listen_upgrade_polled(30, Ok(Async::Ready(3))), Next::Interval));
    assert!(matches!(h.interval_polled(Ok(Async::NotReady)).next, Next::PingIn(3)));
    assert!(matches!(h.ping_in_polled(3, Ok(Async::NotReady)), Next::Park));
    assert_eq!(h.ping_in_substreams, Some(3));
    h.poll();
    h.interval_polled(Ok(Async::NotReady));
    assert!(matches!(h.ping_in_polled(3, Ok(Async::Ready(()))), Next::Park));
    assert_eq!(h.ping_in_substreams, None);
    assert!(matches!(h.ping_in_polled(3, Err(())), Next::Park));
    assert_eq!(h.ping_in_substreams, None);
}

#[test]
fn failed_upgrades_make_the_node_useless() {
    let mut h = Handler::new();
    h.inject_substream(OpenedSubstream::Listener(30));
    h.poll();
    assert!(matches!(custom(h.listen_upgrade_polled(30, Err(()))), CITAOutEvent::Useless));
    let mut h = Handler::new();
    let step = h.dial_upgrade_polled(40, Err(()));
    assert!(!step.ping);
    assert!(matches!(custom(step.next), CITAOutEvent::Useless));
}

#[test]
fn idle_poll_changes_nothing() {
    let mut h = pinging();
    h.inject_substream(OpenedSubstream::Listener(30));
    assert!(matches!(h.poll(), Next::ListenUpgrade(30)));
    assert!(matches!(h.listen_upgrade_polled(30, Ok(Async::NotReady)), Next::Interval));
    assert!(matches!(h.interval_polled(Ok(Async::NotReady)).next, Next::PingOut(4)));
    assert!(matches!(h.ping_out_polled(4, Ok(Async::NotReady)), Next::Park));
    assert_eq!(h.upgrades_in_progress_listen, Some(30));
    assert_eq!(h.ping_out_substream, Some(4));
}

#[test]
fn unfinished_dial_upgrade_is_kept() {
    let mut h = Handler::new();
    h.poll();
    h.interval_polled(Ok(Async::Ready(())));
    h.inject_substream(OpenedSubstream::Dialer(40));
    h.poll();
    let step = h.dial_upgrade_polled(40, Ok(Async::NotReady));
    assert!(matches!(step.next, Next::Interval));
    assert_eq!(h.upgrades_in_progress_dial, Some(40));
}

#[test]
fn failing_timer_ends_the_poll() {
    let mut h = Handler::new();
    h.poll();
    assert!(matches!(h.interval_polled(Err(-1)).next, Next::Return(Err(-1))));
}

#[test]
fn events_change_nothing() {
    let mut h = pinging();
    h.inject_event(CITAInEvent::Accept);
    h.inject_event(CITAInEvent::SendCustomMessage { protocol: 1, data: vec![2] });
    h.inject_inbound_closed();
    h.inject_outbound_closed();
    h.shutdown();
    assert_eq!(h.ping_out_substream, Some(4));
}
