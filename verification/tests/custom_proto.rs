use core_p2p::custom_proto::p2p_proto::{CustomProtocol, CustomProtocolSubstream, SubstreamStep};
use core_p2p::poll::{Async, AsyncSink};

fn substream() -> CustomProtocolSubstream<u32> {
    CustomProtocol::new(7, &[1, 2]).upgrade(2)
}

fn offered(step: SubstreamStep<()>) -> Vec<u8> {
    match step {
        SubstreamStep::StartSend(packet) => packet,
        other => panic!("{:?}", other),
    }
}

#[test]
fn names_carry_protocol_and_version() {
    let protocol = CustomProtocol::new(7, &[9, 255, 10]);
    assert_eq!(protocol.id(), 7);
    let names = protocol.protocol_names();
    let names: Vec<(Vec<u8>, u8)> = names.into_iter().map(|(n, v)| (n.to_vec(), v)).collect();
    assert_eq!(
        names,
        vec![
            (b"/cita/\x07/255".to_vec(), 255),
            (b"/cita/\x07/10".to_vec(), 10),
            (b"/cita/\x07/9".to_vec(), 9),
        ]
    );
}

#[test]
fn name_holds_low_byte_only() {
    let protocol = CustomProtocol::new(256 + 65, &[0]);
    assert_eq!(protocol.id(), 321);
    let names = protocol.protocol_names();
    assert_eq!(names.len(), 1);
    assert_eq!(names[0].0.to_vec(), b"/cita/A/0".to_vec());
}

#[test]
fn repeated_versions_are_kept() {
    let names = CustomProtocol::new(0, &[1, 3, 1]).protocol_names();
    let versions: Vec<u8> = names.iter().map(|n| n.1).collect();
    assert_eq!(versions, vec![3, 1, 1]);
    assert_eq!(CustomProtocol::new(0, &[]).protocol_names().len(), 0);
}

#[test]
fn upgraded_substream_is_idle() {
    let mut s = substream();
    assert_eq!(s.protocol_id(), 7);
    assert_eq!(s.protocol_version(), 2);
    assert!(matches!(s.poll::<()>(), SubstreamStep::PollInner));
    assert!(matches!(s.received::<()>(Ok(Async::NotReady)), SubstreamStep::Park));
    assert_eq!(s.park::<()>(5), Ok(Async::NotReady));
    assert_eq!(s.send_message(vec![1]), Some(5));
    assert_eq!(s.send_message(vec![2]), None);
}

#[test]
fn messages_go_out_in_order() {
    let mut s = substream();
    s.send_message(vec![1]);
    s.send_message(vec![2]);
    s.send_message(vec![3]);
    assert_eq!(offered(s.poll()), vec![1]);
    assert_eq!(offered(s.sent(Ok(AsyncSink::Ready))), vec![2]);
    assert_eq!(offered(s.sent(Ok(AsyncSink::Ready))), vec![3]);
    assert!(matches!(s.sent::<()>(Ok(AsyncSink::Ready)), SubstreamStep::PollComplete));
    assert!(matches!(s.completed::<()>(Ok(Async::Ready(()))), SubstreamStep::PollInner));
    assert!(matches!(
        s.received::<()>(Ok(Async::Ready(None))),
        SubstreamStep::Return(Ok(Async::Ready(None)))
    ));
}

#[test]
fn refused_packet_is_offered_again() {
    let mut s = substream();
    s.send_message(vec![1]);
    s.send_message(vec![2]);
    assert_eq!(offered(s.poll()), vec![1]);
    let step = s.sent::<()>(Ok(AsyncSink::NotReady(Some(vec![1]))));
    assert!(matches!(step, SubstreamStep::PollInner));
    // The end of the stream does not end a substream that has something to send.
    assert!(matches!(s.received::<()>(Ok(Async::Ready(None))), SubstreamStep::Park));
    assert_eq!(offered(s.poll()), vec![1]);
    assert_eq!(offered(s.sent(Ok(AsyncSink::Ready))), vec![2]);
}

#[test]
fn packet_that_is_not_handed_back_is_lost() {
    let mut s = substream();
    s.send_message(vec![1]);
    s.send_message(vec![2]);
    assert_eq!(offered(s.poll()), vec![1]);
    assert!(matches!(s.sent::<()>(Ok(AsyncSink::NotReady(None))), SubstreamStep::PollInner));
    assert_eq!(offered(s.poll()), vec![2]);
}

#[test]
fn unflushed_substream_does_not_end() {
    let mut s = substream();
    s.send_message(vec![1]);
    assert_eq!(offered(s.poll()), vec![1]);
    assert!(matches!(s.sent::<()>(Ok(AsyncSink::Ready)), SubstreamStep::PollComplete));
    assert!(matches!(s.completed::<()>(Ok(Async::NotReady)), SubstreamStep::PollInner));
    assert!(matches!(s.received::<()>(Ok(Async::Ready(None))), SubstreamStep::Park));
    assert!(matches!(s.poll::<()>(), SubstreamStep::PollComplete));
}

#[test]
fn packets_are_handed_out() {
    let s = substream();
    match s.received::<()>(Ok(Async::Ready(Some(vec![4, 2])))) {
        SubstreamStep::Return(Ok(Async::Ready(Some(Some(data))))) => assert_eq!(data, vec![4, 2]),
        other => panic!("{:?}", other),
    }
}

#[test]
fn errors_of_the_stream_are_handed_on() {
    let mut s = substream();
    assert!(matches!(s.sent(Err(1u8)), SubstreamStep::Return(Err(1))));
    assert!(matches!(s.completed(Err(2u8)), SubstreamStep::Return(Err(2))));
    assert!(matches!(s.received(Err(3u8)), SubstreamStep::Return(Err(3))));
    assert_eq!(s.closed(Err(4u8)), Err(4));
}

#[test]
fn shut_down_substream_closes() {
    let mut s = substream();
    s.send_message(vec![1]);
    let _ = s.park::<()>(8);
    assert_eq!(s.shutdown(), Some(8));
    assert_eq!(s.shutdown(), None);
    assert!(matches!(s.poll::<()>(), SubstreamStep::Close));
    assert_eq!(s.closed::<()>(Ok(Async::NotReady)), Ok(Async::NotReady));
    assert!(matches!(s.poll::<()>(), SubstreamStep::Close));
    assert_eq!(s.closed::<()>(Ok(Async::Ready(()))), Ok(Async::Ready(None)));
}
