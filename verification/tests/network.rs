use core_p2p::address::{Multiaddr, PeerId};
use core_p2p::network::greeting;
use core_p2p::network::{Process, Task};
use core_p2p::poll::Async;
use core_p2p::service::{ServiceEvent, ServiceHandle};

fn addr(n: u8) -> Multiaddr {
    Multiaddr::from_bytes(vec![n])
}

fn given(process: &mut Process, task: Task) {
    assert_eq!(process.poll::<()>(Ok(Async::Ready(Some(task)))), Ok(Async::Ready(Some(()))));
}

#[test]
fn tasks_are_pulled_last_first() {
    let mut process = Process::new();
    given(&mut process, Task::Dial(addr(1)));
    given(&mut process, Task::Listen(addr(3)));
    given(&mut process, Task::Dial(addr(2)));
    given(&mut process, Task::Disconnect(7));
    given(&mut process, Task::Disconnect(8));
    assert_eq!(process.new_dialer(), Some(addr(2)));
    assert_eq!(process.new_dialer(), Some(addr(1)));
    assert_eq!(process.new_dialer(), None);
    assert_eq!(process.new_listen(), Some(addr(3)));
    assert_eq!(process.new_listen(), None);
    assert_eq!(process.disconnect(), Some(8));
    assert_eq!(process.disconnect(), Some(7));
    assert_eq!(process.disconnect(), None);
}

#[test]
fn messages_are_pulled_at_once_in_order() {
    let mut process = Process::new();
    given(&mut process, Task::Messages(vec![(vec![1], 0, vec![10]), (vec![], 1, vec![11])]));
    given(&mut process, Task::Disconnect(7));
    given(&mut process, Task::Messages(vec![(vec![2, 3], 2, vec![12])]));
    assert_eq!(
        process.send_message(),
        vec![(vec![1], 0, vec![10]), (vec![], 1, vec![11]), (vec![2, 3], 2, vec![12])]
    );
    assert_eq!(process.send_message(), vec![]);
}

#[test]
fn channel_without_a_task_changes_nothing() {
    let mut process = Process::new();
    assert_eq!(process.poll::<u8>(Ok(Async::NotReady)), Ok(Async::NotReady));
    assert_eq!(process.poll::<u8>(Ok(Async::Ready(None))), Ok(Async::Ready(None)));
    assert_eq!(process.poll::<u8>(Err(3)), Err(3));
    assert_eq!(process.new_dialer(), None);
    assert_eq!(process.send_message(), vec![]);
}

struct Quiet;

impl ServiceHandle for Quiet {}

#[test]
fn handle_asks_for_nothing_by_default() {
    let mut quiet = Quiet;
    assert_eq!(quiet.new_dialer(), None);
    assert_eq!(quiet.new_listen(), None);
    assert_eq!(quiet.disconnect(), None);
    assert_eq!(quiet.send_message(), vec![]);
}

#[test]
fn greeting_tasks_are_received_in_order() {
    let peer = PeerId::from_bytes(&vec![0, 4, 1, 2, 3, 4]).unwrap();
    let mut process = greeting::Process::new();
    process.receive_task(vec![
        greeting::Task::Dial(addr(1)),
        greeting::Task::Messages(vec![(None, 0, (String::from("a"), vec![]))]),
        greeting::Task::Dial(addr(2)),
        greeting::Task::Listen(addr(3)),
        greeting::Task::Messages(vec![(Some(peer), 1, (String::from("b"), vec![5]))]),
    ]);
    process.receive_task(vec![]);
    assert_eq!(process.new_dialer(), Some(addr(2)));
    assert_eq!(process.new_dialer(), Some(addr(1)));
    assert_eq!(process.new_dialer(), None);
    assert_eq!(process.new_listen(), Some(addr(3)));
    assert_eq!(process.new_listen(), None);
    let messages = process.send_message();
    assert_eq!(messages.len(), 2);
    assert_eq!(messages[0].2, (String::from("a"), vec![]));
    assert!(messages[0].0.is_none());
    assert_eq!(messages[1].1, 1);
    assert_eq!(messages[1].2, (String::from("b"), vec![5]));
    assert!(messages[1].0.is_some());
    assert_eq!(process.send_message().len(), 0);
}

#[test]
fn messages_are_answered() {
    let event = ServiceEvent::CustomMessage { index: 1, protocol: 0, data: None };
    match greeting::answer(&event) {
        Some(greeting::Task::Messages(messages)) => {
            assert_eq!(messages, vec![(None, 0, (String::from("hello too"), vec![]))]);
        }
        other => panic!("{:?}", other),
    }
    assert!(greeting::answer(&ServiceEvent::NodeClosed { index: 1 }).is_none());
}

#[test]
fn events_are_greeted() {
    match greeting::greet() {
        greeting::Task::Messages(messages) => {
            assert_eq!(messages, vec![(None, 0, (String::from("hello"), vec![]))]);
        }
        other => panic!("{:?}", other),
    }
}
