//! What is asked of a service: tasks come in, and the service pulls what is to be done.
//!
//! The channels on which tasks come and events go are outside.

use vstd::prelude::*;
use crate::address::Multiaddr;
use crate::custom_proto::Request;
use crate::poll::Async;
use crate::service::messages_view;
use crate::service::model::{addrs_view, OutgoingView};
use crate::service::ServiceHandle;

pub mod greeting;

verus! {

/// Something that a service is to do.
#[derive(Debug)]
pub enum Task {
    /// Dial an address.
    Dial(Multiaddr),
    /// Listen on an address.
    Listen(Multiaddr),
    /// Disconnect the node with an index.
    Disconnect(usize),
    /// Send messages, each to some nodes on a protocol.
    Messages(Vec<(Vec<usize>, usize, Request)>),
}

/// The contents of a [`Task`].
pub enum TaskView {
    Dial(Seq<u8>),
    Listen(Seq<u8>),
    Disconnect(usize),
    Messages(Seq<OutgoingView>),
}

impl View for Task {
    type V = TaskView;

    open spec fn view(&self) -> TaskView {
        match self {
            Task::Dial(address) => TaskView::Dial(address@),
            Task::Listen(address) => TaskView::Listen(address@),
            Task::Disconnect(id) => TaskView::Disconnect(*id),
            Task::Messages(messages) => TaskView::Messages(messages_view(messages@)),
        }
    }
}

/// The tasks that a service has not pulled yet.
#[derive(Debug)]
pub struct Process {
    new_dialer: Vec<Multiaddr>,
    new_listen: Vec<Multiaddr>,
    disconnect: Vec<usize>,
    messages_buffer: Vec<(Vec<usize>, usize, Request)>,
}

/// The state of a [`Process`].
#[verifier::ext_equal]
pub struct ProcessView {
    pub new_dialer: Seq<Seq<u8>>,
    pub new_listen: Seq<Seq<u8>>,
    pub disconnect: Seq<usize>,
    pub messages: Seq<OutgoingView>,
}

impl View for Process {
    type V = ProcessView;

    closed spec fn view(&self) -> ProcessView {
        ProcessView {
            new_dialer: addrs_view(self.new_dialer@),
            new_listen: addrs_view(self.new_listen@),
            disconnect: self.disconnect@,
            messages: messages_view(self.messages_buffer@),
        }
    }
}

impl ProcessView {
    /// The tasks with one more, behind those of its kind.
    pub open spec fn with_task(self, task: TaskView) -> ProcessView {
        match task {
            TaskView::Dial(address) => ProcessView {
                new_dialer: self.new_dialer.push(address),
                ..self
            },
            TaskView::Listen(address) => ProcessView {
                new_listen: self.new_listen.push(address),
                ..self
            },
            TaskView::Disconnect(id) => ProcessView { disconnect: self.disconnect.push(id), ..self },
            TaskView::Messages(messages) => ProcessView {
                messages: self.messages + messages,
                ..self
            },
        }
    }

    /// The tasks with some more, one after the other.
    pub open spec fn with_tasks(self, tasks: Seq<TaskView>) -> ProcessView
        decreases tasks.len(),
    {
        if tasks.len() == 0 {
            self
        } else {
            self.with_tasks(tasks.drop_last()).with_task(tasks.last())
        }
    }
}

impl Process {
    /// No tasks.
    pub fn new() -> (res: Process)
        ensures
            res@ == (ProcessView {
                new_dialer: seq![],
                new_listen: seq![],
                disconnect: seq![],
                messages: seq![],
            }),
    {
        let res = Process {
            new_dialer: Vec::new(),
            new_listen: Vec::new(),
            disconnect: Vec::new(),
            messages_buffer: Vec::new(),
        };
        assert(res@ =~= (ProcessView {
            new_dialer: seq![],
            new_listen: seq![],
            disconnect: seq![],
            messages: seq![],
        }));
        res
    }

    /// Takes what the channel of tasks answered to a poll.
    pub fn poll<E>(&mut self, polled: Result<Async<Option<Task>>, E>) -> (res: Result<
        Async<Option<()>>,
        E,
    >)
        ensures
            final(self)@ == match polled {
                Ok(Async::Ready(Some(task))) => old(self)@.with_task(task@),
                _ => old(self)@,
            },
            res == match polled {
                Ok(Async::Ready(Some(_))) => Ok(Async::Ready(Some(()))),
                Ok(Async::Ready(None)) => Ok(Async::Ready(None)),
                Ok(Async::NotReady) => Ok(Async::NotReady),
                Err(err) => Err(err),
            },
    {
        match polled {
            Ok(Async::Ready(Some(task))) => {
                let ghost given = task@;
                match task {
                    Task::Dial(address) => self.new_dialer.push(address),
                    Task::Listen(address) => self.new_listen.push(address),
                    Task::Messages(messages) => {
                        let mut messages = messages;
                        self.messages_buffer.append(&mut messages);
                    },
                    Task::Disconnect(id) => self.disconnect.push(id),
                }
                assert(self@ =~= old(self)@.with_task(given));
                Ok(Async::Ready(Some(())))
            },
            Ok(Async::Ready(None)) => Ok(Async::Ready(None)),
            Ok(Async::NotReady) => Ok(Async::NotReady),
            Err(err) => Err(err),
        }
    }
}

impl ServiceHandle for Process {
    /// Hands out the address that was queued last.
    fn new_dialer(&mut self) -> (res: Option<Multiaddr>)
        ensures
            old(self)@.new_dialer.len() == 0 ==> res is None && final(self)@ == old(self)@,
            old(self)@.new_dialer.len() > 0 ==> {
                &&& res matches Some(address) && address@ == old(self)@.new_dialer.last()
                &&& final(self)@ == (ProcessView {
                    new_dialer: old(self)@.new_dialer.drop_last(),
                    ..old(self)@
                })
            },
    {
        let res = self.new_dialer.pop();
        assert(res is Some ==> self@.new_dialer =~= old(self)@.new_dialer.drop_last());
        res
    }

    /// Hands out the address that was queued last.
    fn new_listen(&mut self) -> (res: Option<Multiaddr>)
        ensures
            old(self)@.new_listen.len() == 0 ==> res is None && final(self)@ == old(self)@,
            old(self)@.new_listen.len() > 0 ==> {
                &&& res matches Some(address) && address@ == old(self)@.new_listen.last()
                &&& final(self)@ == (ProcessView {
                    new_listen: old(self)@.new_listen.drop_last(),
                    ..old(self)@
                })
            },
    {
        let res = self.new_listen.pop();
        assert(res is Some ==> self@.new_listen =~= old(self)@.new_listen.drop_last());
        res
    }

    /// Hands out the index that was queued last.
    fn disconnect(&mut self) -> (res: Option<usize>)
        ensures
            old(self)@.disconnect.len() == 0 ==> res is None && final(self)@ == old(self)@,
            old(self)@.disconnect.len() > 0 ==> {
                &&& res == Some(old(self)@.disconnect.last())
                &&& final(self)@ == (ProcessView {
                    disconnect: old(self)@.disconnect.drop_last(),
                    ..old(self)@
                })
            },
    {
        self.disconnect.pop()
    }

    /// Hands out all messages, in the order in which they were queued.
    fn send_message(&mut self) -> (res: Vec<(Vec<usize>, usize, Request)>)
        ensures
            messages_view(res@) == old(self)@.messages,
            final(self)@ == (ProcessView { messages: seq![], ..old(self)@ }),
    {
        let mut res: Vec<(Vec<usize>, usize, Request)> = Vec::new();
        res.append(&mut self.messages_buffer);
        assert(messages_view(res@) =~= old(self)@.messages);
        assert(self@ =~= (ProcessView { messages: seq![], ..old(self)@ }));
        res
    }
}

/// The messages that tasks are about.
pub open spec fn messages_of(tasks: Seq<TaskView>) -> Seq<OutgoingView>
    decreases tasks.len(),
{
    if tasks.len() == 0 {
        seq![]
    } else {
        match tasks.last() {
            TaskView::Messages(messages) => messages_of(tasks.drop_last()) + messages,
            _ => messages_of(tasks.drop_last()),
        }
    }
}

/// The nodes that tasks disconnect.
pub open spec fn disconnects_of(tasks: Seq<TaskView>) -> Seq<usize>
    decreases tasks.len(),
{
    if tasks.len() == 0 {
        seq![]
    } else {
        match tasks.last() {
            TaskView::Disconnect(id) => disconnects_of(tasks.drop_last()).push(id),
            _ => disconnects_of(tasks.drop_last()),
        }
    }
}

/// The addresses that tasks dial.
pub open spec fn dials_of(tasks: Seq<TaskView>) -> Seq<Seq<u8>>
    decreases tasks.len(),
{
    if tasks.len() == 0 {
        seq![]
    } else {
        match tasks.last() {
            TaskView::Dial(address) => dials_of(tasks.drop_last()).push(address),
            _ => dials_of(tasks.drop_last()),
        }
    }
}

/// The addresses on which tasks listen.
pub open spec fn listens_of(tasks: Seq<TaskView>) -> Seq<Seq<u8>>
    decreases tasks.len(),
{
    if tasks.len() == 0 {
        seq![]
    } else {
        match tasks.last() {
            TaskView::Listen(address) => listens_of(tasks.drop_last()).push(address),
            _ => listens_of(tasks.drop_last()),
        }
    }
}

/// Tasks are kept, each kind in the order in which it came in, whatever came between:
/// none is lost, and none is done twice.
pub proof fn law_tasks_are_kept(process: ProcessView, tasks: Seq<TaskView>)
    ensures
        process.with_tasks(tasks) == (ProcessView {
            new_dialer: process.new_dialer + dials_of(tasks),
            new_listen: process.new_listen + listens_of(tasks),
            disconnect: process.disconnect + disconnects_of(tasks),
            messages: process.messages + messages_of(tasks),
        }),
    decreases tasks.len(),
{
    if tasks.len() > 0 {
        law_tasks_are_kept(process, tasks.drop_last());
    }
    assert(process.with_tasks(tasks) =~= (ProcessView {
        new_dialer: process.new_dialer + dials_of(tasks),
        new_listen: process.new_listen + listens_of(tasks),
        disconnect: process.disconnect + disconnects_of(tasks),
        messages: process.messages + messages_of(tasks),
    }));
}

} // verus!
