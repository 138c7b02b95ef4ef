//! Two nodes that greet each other: one says hello whenever something happens to it, and
//! the other one answers every message.

use vstd::prelude::*;
use crate::address::{Multiaddr, PeerId};
use crate::service::ServiceEvent;
use crate::service::model::addrs_view;

verus! {

/// A message: what it is about, and its body.
pub type CitaRequest = (String, Vec<u8>);

/// Something that a service is to do.
#[derive(Debug)]
pub enum Task {
    /// Dial an address.
    Dial(Multiaddr),
    /// Listen on an address.
    Listen(Multiaddr),
    /// Send messages, each to a node or to all nodes, on a protocol.
    Messages(Vec<(Option<PeerId>, usize, CitaRequest)>),
}

/// The contents of a message and of whom it is for.
pub struct LetterView {
    pub node: Option<Seq<u8>>,
    pub protocol: usize,
    pub subject: Seq<char>,
    pub body: Seq<u8>,
}

/// The contents of a [`Task`].
pub enum TaskView {
    Dial(Seq<u8>),
    Listen(Seq<u8>),
    Messages(Seq<LetterView>),
}

/// The contents of one message.
pub open spec fn letter_view(message: (Option<PeerId>, usize, CitaRequest)) -> LetterView {
    LetterView {
        node: match message.0 {
            Some(id) => Some(id@),
            None => None,
        },
        protocol: message.1,
        subject: message.2.0@,
        body: message.2.1@,
    }
}

/// The contents of each message.
pub open spec fn letters_view(messages: Seq<(Option<PeerId>, usize, CitaRequest)>) -> Seq<
    LetterView,
> {
    messages.map_values(|m: (Option<PeerId>, usize, CitaRequest)| letter_view(m))
}

impl View for Task {
    type V = TaskView;

    open spec fn view(&self) -> TaskView {
        match self {
            Task::Dial(address) => TaskView::Dial(address@),
            Task::Listen(address) => TaskView::Listen(address@),
            Task::Messages(messages) => TaskView::Messages(letters_view(messages@)),
        }
    }
}

/// The tasks that a service has not pulled yet.
#[derive(Debug)]
pub struct Process {
    new_dialer: Vec<Multiaddr>,
    new_listen: Vec<Multiaddr>,
    messages_buffer: Vec<(Option<PeerId>, usize, CitaRequest)>,
}

/// The state of a [`Process`].
#[verifier::ext_equal]
pub struct ProcessView {
    pub new_dialer: Seq<Seq<u8>>,
    pub new_listen: Seq<Seq<u8>>,
    pub messages: Seq<LetterView>,
}

impl View for Process {
    type V = ProcessView;

    closed spec fn view(&self) -> ProcessView {
        ProcessView {
            new_dialer: addrs_view(self.new_dialer@),
            new_listen: addrs_view(self.new_listen@),
            messages: letters_view(self.messages_buffer@),
        }
    }
}

impl ProcessView {
    /// The tasks with one more, behind those of its kind.
    pub open spec fn with_task(self, task: TaskView) -> ProcessView {
        match task {
            TaskView::Dial(address) => ProcessView {
                new_dialer: self.new_dialer.push(address),
                ..self
            },
            TaskView::Listen(address) => ProcessView {
                new_listen: self.new_listen.push(address),
                ..self
            },
            TaskView::Messages(messages) => ProcessView {
                messages: self.messages + messages,
                ..self
            },
        }
    }

    /// The tasks with some more, one after the other.
    pub open spec fn with_tasks(self, tasks: Seq<TaskView>) -> ProcessView
        decreases tasks.len(),
    {
        if tasks.len() == 0 {
            self
        } else {
            self.with_tasks(tasks.drop_last()).with_task(tasks.last())
        }
    }
}

/// The contents of each task.
pub open spec fn tasks_view(tasks: Seq<Task>) -> Seq<TaskView> {
    tasks.map_values(|t: Task| t@)
}

proof fn lemma_with_tasks_front(process: ProcessView, first: TaskView, rest: Seq<TaskView>)
    ensures
        process.with_tasks(seq![first] + rest) == process.with_task(first).with_tasks(rest),
    decreases rest.len(),
{
    let all = seq![first] + rest;
    if rest.len() == 0 {
        assert(all.drop_last() =~= seq![]);
        assert(process.with_tasks(all.drop_last()) == process);
    } else {
        lemma_with_tasks_front(process, first, rest.drop_last());
        assert(all.drop_last() =~= seq![first] + rest.drop_last());
    }
}

impl Process {
    /// No tasks.
    pub fn new() -> (res: Process)
        ensures
            res@ == (ProcessView { new_dialer: seq![], new_listen: seq![], messages: seq![] }),
    {
        let res = Process {
            new_dialer: Vec::new(),
            new_listen: Vec::new(),
            messages_buffer: Vec::new(),
        };
        assert(res@ =~= (ProcessView { new_dialer: seq![], new_listen: seq![], messages: seq![] }));
        res
    }

    /// Takes the tasks that have come in, in this order.
    pub fn receive_task(&mut self, tasks: Vec<Task>)
        ensures
            final(self)@ == old(self)@.with_tasks(tasks_view(tasks@)),
    {
        let ghost all = tasks_view(tasks@);
        let ghost mut seen: int = 0;
        let mut tasks = tasks;
        assert(all.skip(0) =~= all);
        while tasks.len() > 0
            invariant
                0 <= seen <= all.len(),
                tasks_view(tasks@) == all.skip(seen),
                tasks@.len() == all.len() - seen,
                self@.with_tasks(all.skip(seen)) == old(self)@.with_tasks(all),
            decreases tasks@.len(),
        {
            let ghost before = self@;
            let ghost rest = all.skip(seen + 1);
            assert(all.skip(seen) =~= seq![all[seen]] + rest);
            assert(tasks_view(tasks@)[0] == all[seen]);
            proof {
                lemma_with_tasks_front(before, all[seen], rest);
            }
            let ghost now = tasks@;
            match tasks.remove(0) {
                Task::Dial(address) => self.new_dialer.push(address),
                Task::Listen(address) => self.new_listen.push(address),
                Task::Messages(messages) => {
                    let mut messages = messages;
                    self.messages_buffer.append(&mut messages);
                },
            }
            assert(tasks@ =~= now.skip(1));
            assert(tasks_view(tasks@) =~= tasks_view(now).skip(1));
            assert(all.skip(seen).skip(1) =~= rest);
            assert(self@ =~= before.with_task(all[seen]));
            proof {
                seen = seen + 1;
            }
        }
        assert(all.skip(seen) =~= seq![]);
    }

    /// Hands out the address to dial that was queued last.
    pub fn new_dialer(&mut self) -> (res: Option<Multiaddr>)
        ensures
            old(self)@.new_dialer.len() == 0 ==> res is None && final(self)@ == old(self)@,
            old(self)@.new_dialer.len() > 0 ==> {
                &&& res matches Some(address) && address@ == old(self)@.new_dialer.last()
                &&& final(self)@ == (ProcessView {
                    new_dialer: old(self)@.new_dialer.drop_last(),
                    ..old(self)@
                })
            },
    {
        let res = self.new_dialer.pop();
        assert(res is Some ==> self@.new_dialer =~= old(self)@.new_dialer.drop_last());
        res
    }

    /// Hands out the address to listen on that was queued last.
    pub fn new_listen(&mut self) -> (res: Option<Multiaddr>)
        ensures
            old(self)@.new_listen.len() == 0 ==> res is None && final(self)@ == old(self)@,
            old(self)@.new_listen.len() > 0 ==> {
                &&& res matches Some(address) && address@ == old(self)@.new_listen.last()
                &&& final(self)@ == (ProcessView {
                    new_listen: old(self)@.new_listen.drop_last(),
                    ..old(self)@
                })
            },
    {
        let res = self.new_listen.pop();
        assert(res is Some ==> self@.new_listen =~= old(self)@.new_listen.drop_last());
        res
    }

    /// Hands out all messages, in the order in which they were queued.
    pub fn send_message(&mut self) -> (res: Vec<(Option<PeerId>, usize, CitaRequest)>)
        ensures
            letters_view(res@) == old(self)@.messages,
            final(self)@ == (ProcessView { messages: seq![], ..old(self)@ }),
    {
        let mut res: Vec<(Option<PeerId>, usize, CitaRequest)> = Vec::new();
        res.append(&mut self.messages_buffer);
        assert(letters_view(res@) =~= old(self)@.messages);
        assert(self@ =~= (ProcessView { messages: seq![], ..old(self)@ }));
        res
    }
}

/// A message without a body to all nodes, on the first protocol.
fn to_all(subject: &str) -> (res: Task)
    ensures
        res@ == TaskView::Messages(
            seq![LetterView { node: None, protocol: 0, subject: subject@, body: seq![] }],
        ),
{
    let mut messages: Vec<(Option<PeerId>, usize, CitaRequest)> = Vec::new();
    let message: (Option<PeerId>, usize, CitaRequest) = (None, 0, (subject.to_owned(), Vec::new()));
    messages.push(message);
    let res = Task::Messages(messages);
    proof {
        assert(letter_view(message).body =~= seq![]);
        assert(letters_view(messages@) =~= seq![
            LetterView { node: None, protocol: 0, subject: subject@, body: seq![] },
        ]);
    }
    res
}

/// What the node that answers does about an event of its service.
pub fn answer(event: &ServiceEvent) -> (res: Option<Task>)
    ensures
        event is CustomMessage ==> (res matches Some(task) && task@ == TaskView::Messages(
            seq![LetterView { node: None, protocol: 0, subject: "hello too"@, body: seq![] }],
        )),
        event !is CustomMessage ==> res is None,
{
    match event {
        ServiceEvent::CustomMessage { .. } => Some(to_all("hello too")),
        _ => None,
    }
}

/// What the node that greets does about anything that comes from its service.
pub fn greet() -> (res: Task)
    ensures
        res@ == TaskView::Messages(
            seq![LetterView { node: None, protocol: 0, subject: "hello"@, body: seq![] }],
        ),
{
    to_all("hello")
}

/// The messages that tasks are about.
pub open spec fn letters_of(tasks: Seq<TaskView>) -> Seq<LetterView>
    decreases tasks.len(),
{
    if tasks.len() == 0 {
        seq![]
    } else {
        match tasks.last() {
            TaskView::Messages(messages) => letters_of(tasks.drop_last()) + messages,
            _ => letters_of(tasks.drop_last()),
        }
    }
}

/// The addresses that tasks dial.
pub open spec fn dials_of(tasks: Seq<TaskView>) -> Seq<Seq<u8>>
    decreases tasks.len(),
{
    if tasks.len() == 0 {
        seq![]
    } else {
        match tasks.last() {
            TaskView::Dial(address) => dials_of(tasks.drop_last()).push(address),
            _ => dials_of(tasks.drop_last()),
        }
    }
}

/// The addresses on which tasks listen.
pub open spec fn listens_of(tasks: Seq<TaskView>) -> Seq<Seq<u8>>
    decreases tasks.len(),
{
    if tasks.len() == 0 {
        seq![]
    } else {
        match tasks.last() {
            TaskView::Listen(address) => listens_of(tasks.drop_last()).push(address),
            _ => listens_of(tasks.drop_last()),
        }
    }
}

/// Tasks are kept, each kind in the order in which it came in, whatever came between:
/// none is lost, and none is done twice.
pub proof fn law_tasks_are_kept(process: ProcessView, tasks: Seq<TaskView>)
    ensures
        process.with_tasks(tasks) == (ProcessView {
            new_dialer: process.new_dialer + dials_of(tasks),
            new_listen: process.new_listen + listens_of(tasks),
            messages: process.messages + letters_of(tasks),
        }),
    decreases tasks.len(),
{
    if tasks.len() > 0 {
        law_tasks_are_kept(process, tasks.drop_last());
    }
    assert(process.with_tasks(tasks) =~= (ProcessView {
        new_dialer: process.new_dialer + dials_of(tasks),
        new_listen: process.new_listen + listens_of(tasks),
        messages: process.messages + letters_of(tasks),
    }));
}

} // verus!
