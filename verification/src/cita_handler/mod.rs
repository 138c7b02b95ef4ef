//! The handler of one connection.

use vstd::prelude::*;
use std::time::Duration;
use crate::address::Multiaddr;
use crate::custom_proto::Response;
use crate::poll::Async;

pub mod laws;

verus! {

/// What the service tells the handler of a connection.
#[derive(Debug, Clone)]
pub enum CITAInEvent {
    /// The connection was accepted.
    Accept,
    /// A message is to be sent on a custom protocol.
    SendCustomMessage { protocol: usize, data: Vec<u8> },
}

/// The contents of a [`CITAInEvent`].
pub enum CITAInEventView {
    Accept,
    SendCustomMessage { protocol: usize, data: Seq<u8> },
}

impl View for CITAInEvent {
    type V = CITAInEventView;

    open spec fn view(&self) -> CITAInEventView {
        match self {
            CITAInEvent::Accept => CITAInEventView::Accept,
            CITAInEvent::SendCustomMessage { protocol, data } => CITAInEventView::SendCustomMessage {
                protocol: *protocol,
                data: data@,
            },
        }
    }
}

/// What a node says of itself when it is identified.
#[derive(Debug)]
pub struct IdentifyInfo {
    /// The addresses on which the node listens.
    pub listen_addrs: Vec<Multiaddr>,
}

/// What the handler of a connection tells the service. `Responder` is what an
/// identification request is answered through.
#[derive(Debug)]
pub enum CITAOutEvent<Responder> {
    /// The node is of no more use.
    Useless,
    /// A custom protocol was opened.
    CustomProtocolOpen { protocol: usize, version: u8 },
    /// A custom protocol was closed.
    CustomProtocolClosed { protocol: usize },
    /// A message came in on a custom protocol.
    CustomMessage { protocol: usize, data: Response },
    /// A ping was sent.
    PingStart,
    /// A ping was answered, after this time.
    PingSuccess(Duration),
    /// The node asks who this node is.
    IdentificationRequest(Responder),
    /// The node said who it is, and under which address it sees this node.
    Identified { info: IdentifyInfo, observed_addr: Multiaddr },
    /// The addresses that could not be reached are to be dialed again.
    NeedReDial,
    /// The node that was just connected is one too many.
    OverMaxConnection,
}

/// How long a handler waits before its first ping, in seconds.
pub const FIRST_PING_SECS: u64 = 3;

/// How often a handler pings the remote, in seconds.
pub const PING_PERIOD_SECS: u64 = 30;

/// What the substreams of a connection are made of. The handler moves these values
/// about, and never looks into them.
pub trait Substream {
    /// A substream for sending pings.
    type PingDialer;

    /// A substream for receiving pings.
    type PingListener;

    /// A substream that is being upgraded on the listening side.
    type InboundUpgrade;

    /// A substream that is being upgraded on the dialing side.
    type OutboundUpgrade;

    /// A task that waits for the connection.
    type Task;

    /// What an identification request is answered through.
    type Responder;

    /// What goes wrong with a timer.
    type TimerError;
}

/// A substream that was opened, as the upgrade that was started on it.
pub enum OpenedSubstream<S: Substream> {
    /// The remote opened it.
    Listener(S::InboundUpgrade),
    /// It was asked for with [`NodeHandlerEvent::OutboundSubstreamRequest`].
    Dialer(S::OutboundUpgrade),
}

/// What a handler reports.
pub enum NodeHandlerEvent<S: Substream> {
    /// A substream to the remote is to be opened.
    OutboundSubstreamRequest,
    /// Something for the service.
    Custom(CITAOutEvent<S::Responder>),
}

/// What polling a handler comes to.
pub type NodePollResult<S> = Result<
    Async<Option<NodeHandlerEvent<S>>>,
    <S as Substream>::TimerError,
>;

/// How polling a handler goes on.
pub enum Next<S: Substream> {
    /// Poll this upgrade, and go on with [`CITANodeHandler::listen_upgrade_polled`].
    ListenUpgrade(S::InboundUpgrade),
    /// Poll this upgrade, and go on with [`CITANodeHandler::dial_upgrade_polled`].
    DialUpgrade(S::OutboundUpgrade),
    /// Poll the timer for pings, and go on with [`CITANodeHandler::interval_polled`].
    Interval,
    /// Poll this substream, and go on with [`CITANodeHandler::ping_in_polled`].
    PingIn(S::PingListener),
    /// Poll this substream, and go on with [`CITANodeHandler::ping_out_polled`].
    PingOut(S::PingDialer),
    /// There is nothing to do: hand the current task to [`CITANodeHandler::park`].
    Park,
    /// Polling is over, with this result.
    Return(NodePollResult<S>),
}

/// One step of polling a handler.
pub struct Step<S: Substream> {
    /// Whether a ping is to be sent on the handler's substream for pings.
    pub ping: bool,
    /// The task that is then to be woken.
    pub wake: Option<S::Task>,
    /// How polling then goes on.
    pub next: Next<S>,
}

/// The handler of a connection.
pub struct CITANodeHandler<S: Substream> {
    /// Substream open for sending pings, if any.
    pub ping_out_substream: Option<S::PingDialer>,
    /// Substream open for receiving pings.
    pub ping_in_substreams: Option<S::PingListener>,
    /// Substream being upgraded on the listening side.
    pub upgrades_in_progress_listen: Option<S::InboundUpgrade>,
    /// Substream being upgraded on the dialing side.
    pub upgrades_in_progress_dial: Option<S::OutboundUpgrade>,
    /// Whether a substream for sending pings was asked for.
    pub queued_dial_upgrades: bool,
    /// How many outbound substreams are still to be asked for.
    pub num_out_user_must_open: usize,
    /// The task that waits for the connection.
    pub notify: Option<S::Task>,
}

/// A step that only goes on.
pub open spec fn plain<S: Substream>(next: Next<S>) -> Step<S> {
    Step { ping: false, wake: None, next }
}

/// The end of polling with something for the service.
pub open spec fn custom<S: Substream>(event: CITAOutEvent<S::Responder>) -> Next<S> {
    Next::Return(Ok(Async::Ready(Some(NodeHandlerEvent::Custom(event)))))
}

impl<S: Substream> CITANodeHandler<S> {
    /// What holds of a handler between polls: every substream that must be opened was
    /// asked for, and a substream for pings that is open is not asked for.
    pub open spec fn wf(self) -> bool {
        &&& self.num_out_user_must_open == 0
        &&& self.ping_out_substream is Some ==> !self.queued_dial_upgrades
    }

    /// What holds of a handler once its timer was polled: as between polls, but that the
    /// substream for pings may still be to be asked for.
    pub open spec fn owes_at_most_one(self) -> bool {
        &&& self.num_out_user_must_open <= 1
        &&& self.num_out_user_must_open == 1 ==> self.queued_dial_upgrades
        &&& self.ping_out_substream is Some ==> !self.queued_dial_upgrades
    }

    /// The handler after it tried to ping: where no substream for pings is open, one is
    /// asked for, once.
    pub open spec fn pinged(self) -> Self {
        if self.ping_out_substream is Some {
            CITANodeHandler { notify: None, ..self }
        } else if !self.queued_dial_upgrades {
            CITANodeHandler {
                queued_dial_upgrades: true,
                num_out_user_must_open: (self.num_out_user_must_open + 1) as usize,
                notify: None,
                ..self
            }
        } else {
            self
        }
    }

    /// The task that is woken when the handler tries to ping.
    pub open spec fn ping_wakes(self) -> Option<S::Task> {
        if self.ping_out_substream is Some || !self.queued_dial_upgrades {
            self.notify
        } else {
            None
        }
    }

    /// Polling, from the upgrade on the dialing side on.
    pub open spec fn from_dial(self) -> (Self, Next<S>) {
        match self.upgrades_in_progress_dial {
            Some(upgrade) => (
                CITANodeHandler { upgrades_in_progress_dial: None, ..self },
                Next::DialUpgrade(upgrade),
            ),
            None => (self, Next::Interval),
        }
    }

    /// Polling, from the upgrade on the listening side on: from the start.
    pub open spec fn from_listen(self) -> (Self, Next<S>) {
        match self.upgrades_in_progress_listen {
            Some(upgrade) => (
                CITANodeHandler { upgrades_in_progress_listen: None, ..self },
                Next::ListenUpgrade(upgrade),
            ),
            None => self.from_dial(),
        }
    }

    /// Polling, once all substreams were polled.
    pub open spec fn at_end(self) -> (Self, Next<S>) {
        if self.num_out_user_must_open >= 1 {
            (
                CITANodeHandler {
                    num_out_user_must_open: (self.num_out_user_must_open - 1) as usize,
                    ..self
                },
                Next::Return(Ok(Async::Ready(Some(NodeHandlerEvent::OutboundSubstreamRequest)))),
            )
        } else {
            (self, Next::Park)
        }
    }

    /// Polling, from the substream for sending pings on.
    pub open spec fn from_ping_out(self) -> (Self, Next<S>) {
        match self.ping_out_substream {
            Some(dialer) => (
                CITANodeHandler { ping_out_substream: None, ..self },
                Next::PingOut(dialer),
            ),
            None => self.at_end(),
        }
    }

    /// Polling, from the substream for receiving pings on.
    pub open spec fn from_ping_in(self) -> (Self, Next<S>) {
        match self.ping_in_substreams {
            Some(listener) => (
                CITANodeHandler { ping_in_substreams: None, ..self },
                Next::PingIn(listener),
            ),
            None => self.from_ping_out(),
        }
    }

    /// Polling, after the upgrade on the listening side was polled.
    pub open spec fn after_listen(
        self,
        in_progress: S::InboundUpgrade,
        outcome: Result<Async<S::PingListener>, ()>,
    ) -> (Self, Next<S>) {
        match outcome {
            Ok(Async::Ready(listener)) => CITANodeHandler {
                ping_in_substreams: Some(listener),
                ..self
            }.from_dial(),
            Ok(Async::NotReady) => CITANodeHandler {
                upgrades_in_progress_listen: Some(in_progress),
                ..self
            }.from_dial(),
            Err(_) => (self, custom(CITAOutEvent::Useless)),
        }
    }

    /// The handler with a new substream for sending pings.
    pub open spec fn with_ping_out(self, dialer: S::PingDialer) -> Self {
        CITANodeHandler {
            queued_dial_upgrades: false,
            ping_out_substream: Some(dialer),
            ..self
        }
    }

    /// Polling, after the upgrade on the dialing side was polled.
    pub open spec fn after_dial(
        self,
        in_progress: S::OutboundUpgrade,
        outcome: Result<Async<S::PingDialer>, ()>,
    ) -> (Self, Step<S>) {
        match outcome {
            Ok(Async::Ready(dialer)) => (
                self.with_ping_out(dialer).pinged(),
                Step { ping: true, wake: self.notify, next: custom(CITAOutEvent::PingStart) },
            ),
            Ok(Async::NotReady) => (
                CITANodeHandler { upgrades_in_progress_dial: Some(in_progress), ..self },
                plain(Next::Interval),
            ),
            Err(_) => (self, plain(custom(CITAOutEvent::Useless))),
        }
    }

    /// Polling, after the timer for pings was polled.
    pub open spec fn after_interval(self, outcome: Result<Async<()>, S::TimerError>) -> (
        Self,
        Step<S>,
    ) {
        match outcome {
            Ok(Async::NotReady) => {
                let (h, next) = self.from_ping_in();
                (h, plain(next))
            },
            Ok(Async::Ready(_)) => if self.ping_out_substream is Some {
                (
                    self.pinged(),
                    Step { ping: true, wake: self.ping_wakes(), next: custom(CITAOutEvent::PingStart) },
                )
            } else {
                let (h, next) = self.pinged().from_ping_in();
                (h, Step { ping: false, wake: self.ping_wakes(), next })
            },
            Err(err) => (self, plain(Next::Return(Err(err)))),
        }
    }

    /// Polling, after the substream for receiving pings was polled.
    pub open spec fn after_ping_in(
        self,
        listener: S::PingListener,
        outcome: Result<Async<()>, ()>,
    ) -> (Self, Next<S>) {
        match outcome {
            Ok(Async::NotReady) => CITANodeHandler {
                ping_in_substreams: Some(listener),
                ..self
            }.from_ping_out(),
            _ => self.from_ping_out(),
        }
    }

    /// Polling, after the substream for sending pings was polled.
    pub open spec fn after_ping_out(
        self,
        dialer: S::PingDialer,
        outcome: Result<Async<Option<Duration>>, ()>,
    ) -> (Self, Next<S>) {
        match outcome {
            Ok(Async::Ready(Some(elapsed))) => (self, custom(CITAOutEvent::PingSuccess(elapsed))),
            Ok(Async::Ready(None)) => CITANodeHandler {
                queued_dial_upgrades: true,
                num_out_user_must_open: (self.num_out_user_must_open + 1) as usize,
                ..self
            }.at_end(),
            Ok(Async::NotReady) => CITANodeHandler {
                ping_out_substream: Some(dialer),
                ..self
            }.at_end(),
            Err(_) => self.at_end(),
        }
    }

    /// The handler after a substream was opened: one that the remote opened is always
    /// taken, one towards the remote where it was asked for.
    pub open spec fn opened(self, substream: OpenedSubstream<S>) -> Self {
        match substream {
            OpenedSubstream::Listener(upgrade) => CITANodeHandler {
                upgrades_in_progress_listen: Some(upgrade),
                notify: None,
                ..self
            },
            OpenedSubstream::Dialer(upgrade) => if self.queued_dial_upgrades {
                CITANodeHandler { upgrades_in_progress_dial: Some(upgrade), notify: None, ..self }
            } else {
                self
            },
        }
    }

    /// A handler without any substream.
    pub fn new() -> (res: Self)
        ensures
            res.wf(),
            res == (CITANodeHandler::<S> {
                ping_out_substream: None,
                ping_in_substreams: None,
                upgrades_in_progress_listen: None,
                upgrades_in_progress_dial: None,
                queued_dial_upgrades: false,
                num_out_user_must_open: 0,
                notify: None,
            }),
    {
        CITANodeHandler {
            ping_out_substream: None,
            ping_in_substreams: None,
            upgrades_in_progress_listen: None,
            upgrades_in_progress_dial: None,
            queued_dial_upgrades: false,
            num_out_user_must_open: 0,
            notify: None,
        }
    }

    /// Tries to ping: hands out whether a ping is to be sent, and the task to wake.
    fn ping_remote(&mut self) -> (res: (bool, Option<S::Task>))
        requires
            old(self).num_out_user_must_open < usize::MAX,
        ensures
            *final(self) == old(self).pinged(),
            res.0 == old(self).ping_out_substream is Some,
            res.1 == old(self).ping_wakes(),
    {
        if self.ping_out_substream.is_some() {
            return (true, self.notify.take());
        }
        // Otherwise, ensure we have an upgrade for a ping substream in queue.
        if !self.queued_dial_upgrades {
            self.queued_dial_upgrades = true;
            self.num_out_user_must_open = self.num_out_user_must_open + 1;
            return (false, self.notify.take());
        }
        (false, None)
    }

    fn poll_dial_upgrade(&mut self) -> (res: Next<S>)
        ensures
            (*final(self), res) == old(self).from_dial(),
    {
        match self.upgrades_in_progress_dial.take() {
            Some(in_progress) => Next::DialUpgrade(in_progress),
            None => Next::Interval,
        }
    }

    fn poll_ping_in(&mut self) -> (res: Next<S>)
        ensures
            (*final(self), res) == old(self).from_ping_in(),
    {
        match self.ping_in_substreams.take() {
            Some(ping) => Next::PingIn(ping),
            None => self.poll_ping_out(),
        }
    }

    fn poll_ping_out(&mut self) -> (res: Next<S>)
        ensures
            (*final(self), res) == old(self).from_ping_out(),
    {
        match self.ping_out_substream.take() {
            Some(ping_dialer) => Next::PingOut(ping_dialer),
            None => self.poll_end(),
        }
    }

    fn poll_end(&mut self) -> (res: Next<S>)
        ensures
            (*final(self), res) == old(self).at_end(),
    {
        if self.num_out_user_must_open >= 1 {
            self.num_out_user_must_open = self.num_out_user_must_open - 1;
            Next::Return(Ok(Async::Ready(Some(NodeHandlerEvent::OutboundSubstreamRequest))))
        } else {
            Next::Park
        }
    }

    /// Starts polling.
    pub fn poll(&mut self) -> (res: Next<S>)
        ensures
            (*final(self), res) == old(self).from_listen(),
    {
        match self.upgrades_in_progress_listen.take() {
            Some(in_progress) => Next::ListenUpgrade(in_progress),
            None => self.poll_dial_upgrade(),
        }
    }

    /// Goes on polling after the upgrade on the listening side was polled.
    pub fn listen_upgrade_polled(
        &mut self,
        in_progress: S::InboundUpgrade,
        outcome: Result<Async<S::PingListener>, ()>,
    ) -> (res: Next<S>)
        ensures
            (*final(self), res) == old(self).after_listen(in_progress, outcome),
    {
        match outcome {
            Ok(Async::Ready(upgrade)) => {
                self.ping_in_substreams = Some(upgrade);
            },
            Ok(Async::NotReady) => {
                self.upgrades_in_progress_listen = Some(in_progress);
            },
            Err(_) => {
                return Next::Return(
                    Ok(Async::Ready(Some(NodeHandlerEvent::Custom(CITAOutEvent::Useless)))),
                );
            },
        }
        self.poll_dial_upgrade()
    }

    /// Goes on polling after the upgrade on the dialing side was polled.
    pub fn dial_upgrade_polled(
        &mut self,
        in_progress: S::OutboundUpgrade,
        outcome: Result<Async<S::PingDialer>, ()>,
    ) -> (res: Step<S>)
        requires
            old(self).wf(),
        ensures
            (*final(self), res) == old(self).after_dial(in_progress, outcome),
    {
        match outcome {
            Ok(Async::Ready(upgrade)) => {
                self.queued_dial_upgrades = false;
                self.ping_out_substream = Some(upgrade);
                let (ping, wake) = self.ping_remote();
                Step {
                    ping,
                    wake,
                    next: Next::Return(
                        Ok(Async::Ready(Some(NodeHandlerEvent::Custom(CITAOutEvent::PingStart)))),
                    ),
                }
            },
            Ok(Async::NotReady) => {
                self.upgrades_in_progress_dial = Some(in_progress);
                Step { ping: false, wake: None, next: Next::Interval }
            },
            Err(_) => Step {
                ping: false,
                wake: None,
                next: Next::Return(
                    Ok(Async::Ready(Some(NodeHandlerEvent::Custom(CITAOutEvent::Useless)))),
                ),
            },
        }
    }

    /// Goes on polling after the timer for pings was polled.
    pub fn interval_polled(&mut self, outcome: Result<Async<()>, S::TimerError>) -> (res: Step<S>)
        requires
            old(self).wf(),
        ensures
            (*final(self), res) == old(self).after_interval(outcome),
            final(self).owes_at_most_one(),
    {
        match outcome {
            Ok(Async::NotReady) => Step { ping: false, wake: None, next: self.poll_ping_in() },
            Ok(Async::Ready(_)) => {
                let (ping, wake) = self.ping_remote();
                let next = if ping {
                    Next::Return(
                        Ok(Async::Ready(Some(NodeHandlerEvent::Custom(CITAOutEvent::PingStart)))),
                    )
                } else {
                    self.poll_ping_in()
                };
                Step { ping, wake, next }
            },
            Err(err) => Step { ping: false, wake: None, next: Next::Return(Err(err)) },
        }
    }

    /// Goes on polling after the substream for receiving pings was polled. One that was
    /// closed, or that failed, is given up.
    pub fn ping_in_polled(&mut self, ping: S::PingListener, outcome: Result<Async<()>, ()>) -> (res:
        Next<S>)
        ensures
            (*final(self), res) == old(self).after_ping_in(ping, outcome),
    {
        match outcome {
            Ok(Async::Ready(_)) => {},
            Ok(Async::NotReady) => {
                self.ping_in_substreams = Some(ping);
            },
            Err(_) => {},
        }
        self.poll_ping_out()
    }

    /// Goes on polling after the substream for sending pings was polled: a ping was
    /// answered after some time, or the substream was closed, and another one is asked
    /// for.
    pub fn ping_out_polled(
        &mut self,
        ping_dialer: S::PingDialer,
        outcome: Result<Async<Option<Duration>>, ()>,
    ) -> (res: Next<S>)
        requires
            old(self).num_out_user_must_open == 0,
        ensures
            (*final(self), res) == old(self).after_ping_out(ping_dialer, outcome),
    {
        match outcome {
            Ok(Async::Ready(Some(elapsed))) => {
                return Next::Return(
                    Ok(
                        Async::Ready(
                            Some(NodeHandlerEvent::Custom(CITAOutEvent::PingSuccess(elapsed))),
                        ),
                    ),
                );
            },
            Ok(Async::Ready(None)) => {
                self.queued_dial_upgrades = true;
                self.num_out_user_must_open = self.num_out_user_must_open + 1;
            },
            Ok(Async::NotReady) => {
                self.ping_out_substream = Some(ping_dialer);
            },
            Err(_) => {},
        }
        self.poll_end()
    }

    /// Ends a poll that found nothing to do: the task is woken when there is.
    pub fn park(&mut self, task: S::Task) -> (res: NodePollResult<S>)
        ensures
            old(self).wf() ==> final(self).wf(),
            *final(self) == (CITANodeHandler { notify: Some(task), ..*old(self) }),
            res == NodePollResult::<S>::Ok(Async::NotReady),
    {
        self.notify = Some(task);
        Ok(Async::NotReady)
    }

    /// Takes a substream that was opened, and hands out the task to wake. One towards the
    /// remote is given up where none was asked for.
    pub fn inject_substream(&mut self, substream: OpenedSubstream<S>) -> (res: Option<S::Task>)
        ensures
            old(self).wf() ==> final(self).wf(),
            *final(self) == old(self).opened(substream),
            match substream {
                OpenedSubstream::Listener(upgrade) => {
                    &&& *final(self) == (CITANodeHandler {
                        upgrades_in_progress_listen: Some(upgrade),
                        notify: None,
                        ..*old(self)
                    })
                    &&& res == old(self).notify
                },
                OpenedSubstream::Dialer(upgrade) => if old(self).queued_dial_upgrades {
                    &&& *final(self) == (CITANodeHandler {
                        upgrades_in_progress_dial: Some(upgrade),
                        notify: None,
                        ..*old(self)
                    })
                    &&& res == old(self).notify
                } else {
                    *final(self) == *old(self) && res is None
                },
            },
    {
        match substream {
            OpenedSubstream::Listener(upgrade) => {
                self.upgrades_in_progress_listen = Some(upgrade);
            },
            OpenedSubstream::Dialer(upgrade) => {
                if !self.queued_dial_upgrades {
                    return None;
                }
                self.upgrades_in_progress_dial = Some(upgrade);
            },
        }
        self.notify.take()
    }

    /// The remote closed its side: nothing changes.
    pub fn inject_inbound_closed(&mut self)
        ensures
            *final(self) == *old(self),
    {
    }

    /// A substream could not be opened: nothing changes.
    pub fn inject_outbound_closed(&mut self)
        ensures
            *final(self) == *old(self),
    {
    }

    /// Takes what the service says. The handler has no substream for custom protocols,
    /// so a message on one goes nowhere.
    pub fn inject_event(&mut self, event: CITAInEvent)
        ensures
            *final(self) == *old(self),
    {
        match event {
            CITAInEvent::Accept => {},
            CITAInEvent::SendCustomMessage { .. } => {},
        }
    }

    /// The connection is being closed: nothing changes.
    pub fn shutdown(&mut self)
        ensures
            *final(self) == *old(self),
    {
    }
}

impl<S: Substream> Default for CITANodeHandler<S> {
    fn default() -> (res: Self)
        ensures
            res.wf(),
            res.ping_out_substream is None,
            res.ping_in_substreams is None,
            res.upgrades_in_progress_listen is None,
            res.upgrades_in_progress_dial is None,
            !res.queued_dial_upgrades,
            res.notify is None,
    {
        Self::new()
    }
}

} // verus!
