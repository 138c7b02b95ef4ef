//! The handler of one connection that may have many substreams: any number of them can
//! be in the middle of an upgrade, and any number can receive pings.

use vstd::prelude::*;
use std::time::Duration;
use vstd::std_specs::convert::FromSpecImpl;
use crate::poll::Async;

verus! {

/// What the swarm tells the handler of a connection.
#[derive(Debug, Clone)]
pub enum CITAInEvent {
    /// The connection was accepted.
    Accept,
    /// A message is to be sent on a custom protocol.
    SendCustomMessage { protocol: usize, data: Vec<u8> },
    /// The remote is to be pinged.
    Ping,
}

/// What the handler of a connection tells the swarm. `E` is what closes a protocol that
/// failed.
#[derive(Debug)]
pub enum CITAOutEvent<E> {
    /// The node does not do its part.
    Unresponsive,
    /// A custom protocol was opened.
    CustomProtocolOpen { protocol: usize, version: u8 },
    /// A custom protocol was closed.
    CustomProtocolClosed { protocol: usize, result: Result<(), E> },
    /// A message came in on a custom protocol.
    CustomMessage { protocol: usize, data: bytes::Bytes },
    /// A ping was sent.
    PingStart,
    /// A ping was answered, after this time.
    PingSuccess(Duration),
}

/// What a substream towards the remote is opened for.
#[derive(Debug, Clone, Copy, PartialEq, Eq, Structural)]
pub enum UpgradePurpose {
    /// A custom protocol.
    Custom(usize),
    /// Pings.
    Ping,
}

/// What the substreams of a connection are made of. The handler moves these values
/// about, and never looks into them.
pub trait Substream {
    /// A substream for sending pings.
    type PingDialer;

    /// A substream for receiving pings.
    type PingListener;

    /// A substream that is being upgraded.
    type Upgrade;

    /// A task that waits for the connection.
    type Task;

    /// What closes a protocol that failed.
    type Error;
}

/// What the ping protocol makes of a substream.
pub enum PingOutput<S: Substream> {
    /// The remote sends pings.
    Ponger(S::PingListener),
    /// This node sends pings.
    Pinger(S::PingDialer),
}

/// What a substream can be upgraded to.
pub enum FinalUpgrade<S: Substream> {
    PingDialer(S::PingDialer),
    PingListener(S::PingListener),
    Custom,
}

impl<S: Substream> From<PingOutput<S>> for FinalUpgrade<S> {
    fn from(out: PingOutput<S>) -> (res: FinalUpgrade<S>) {
        match out {
            PingOutput::Ponger(ponger) => FinalUpgrade::PingListener(ponger),
            PingOutput::Pinger(pinger) => FinalUpgrade::PingDialer(pinger),
        }
    }
}

impl<S: Substream> FromSpecImpl<PingOutput<S>> for FinalUpgrade<S> {
    open spec fn obeys_from_spec() -> bool {
        true
    }

    open spec fn from_spec(out: PingOutput<S>) -> FinalUpgrade<S> {
        match out {
            PingOutput::Ponger(ponger) => FinalUpgrade::PingListener(ponger),
            PingOutput::Pinger(pinger) => FinalUpgrade::PingDialer(pinger),
        }
    }
}

/// A substream that was opened, as the upgrade that was started on it.
pub enum OpenedSubstream<S: Substream> {
    /// The remote opened it.
    Listener(S::Upgrade),
    /// This node opened it.
    Dialer(S::Upgrade),
}

/// What polling a handler comes to.
pub type PollResult<S> = Async<Option<CITAOutEvent<<S as Substream>::Error>>>;

/// How polling a handler goes on. `left` counts what is still to be polled after this.
pub enum Next<S: Substream> {
    /// Poll this upgrade, and go on with [`CITANodeHandler::listen_upgrade_polled`].
    ListenUpgrade { left: usize, in_progress: S::Upgrade },
    /// Poll this upgrade, and go on with [`CITANodeHandler::dial_upgrade_polled`].
    DialUpgrade { left: usize, purpose: UpgradePurpose, in_progress: S::Upgrade },
    /// Poll this substream, and go on with [`CITANodeHandler::ping_out_polled`].
    PingOut(S::PingDialer),
    /// Poll this substream, and go on with [`CITANodeHandler::ping_in_polled`].
    PingIn { left: usize, ping: S::PingListener },
    /// There is nothing to do: hand the current task to [`CITANodeHandler::park`].
    Park,
    /// Polling is over, with this result.
    Return(PollResult<S>),
}

/// A ping that is to be sent, and a task that is then to be woken.
pub struct Signal<S: Substream> {
    /// Whether a ping is to be sent on the handler's substream for pings.
    pub ping: bool,
    /// The task that is then to be woken.
    pub wake: Option<S::Task>,
}

/// One step of polling a handler.
pub struct Step<S: Substream> {
    /// What is to be done first.
    pub signal: Signal<S>,
    /// How polling then goes on.
    pub next: Next<S>,
}

/// The handler of a connection.
pub struct CITANodeHandler<S: Substream> {
    /// Substream open for sending pings, if any.
    ping_out_substream: Option<S::PingDialer>,
    /// Substreams open for receiving pings.
    ping_in_substreams: Vec<S::PingListener>,
    /// Substreams being upgraded on the listening side.
    upgrades_in_progress_listen: Vec<S::Upgrade>,
    /// Substreams being upgraded on the dialing side. Contrary to `upgrades_in_progress_listen`,
    /// these have a known purpose.
    upgrades_in_progress_dial: Vec<(UpgradePurpose, S::Upgrade)>,
    /// What substreams are still to be opened for.
    queued_dial_upgrades: Vec<UpgradePurpose>,
    /// The task that waits for the connection.
    notify: Option<S::Task>,
}

/// The state of a [`CITANodeHandler`].
#[verifier::ext_equal]
pub struct HandlerView<S: Substream> {
    pub ping_out: Option<S::PingDialer>,
    pub ping_in: Seq<S::PingListener>,
    pub listen: Seq<S::Upgrade>,
    pub dial: Seq<(UpgradePurpose, S::Upgrade)>,
    pub queued: Seq<UpgradePurpose>,
    pub notify: Option<S::Task>,
}

impl<S: Substream> View for CITANodeHandler<S> {
    type V = HandlerView<S>;

    closed spec fn view(&self) -> HandlerView<S> {
        HandlerView {
            ping_out: self.ping_out_substream,
            ping_in: self.ping_in_substreams@,
            listen: self.upgrades_in_progress_listen@,
            dial: self.upgrades_in_progress_dial@,
            queued: self.queued_dial_upgrades@,
            notify: self.notify,
        }
    }
}

/// A list without its `i`-th item, whose place the last item takes.
pub open spec fn without<A>(items: Seq<A>, i: int) -> Seq<A> {
    items.update(i, items.last()).drop_last()
}

/// Nothing to send, and nobody to wake.
pub open spec fn quiet<S: Substream>() -> Signal<S> {
    Signal { ping: false, wake: None }
}

/// The end of polling with something for the swarm.
pub open spec fn report<S: Substream>(event: CITAOutEvent<S::Error>) -> Next<S> {
    Next::Return(Async::Ready(Some(event)))
}

impl<S: Substream> HandlerView<S> {
    /// Whether a substream is being upgraded for a purpose, or is to be opened for it.
    pub open spec fn has_purpose(self, purpose: UpgradePurpose) -> bool {
        ||| exists|i: int| 0 <= i < self.dial.len() && (#[trigger] self.dial[i]).0 == purpose
        ||| self.queued.contains(purpose)
    }

    /// The handler after it tried to ping: where no substream for pings is open, one is
    /// to be opened, unless that is under way.
    pub open spec fn pinged(self) -> Self {
        if self.ping_out is Some {
            HandlerView { notify: None, ..self }
        } else if !self.has_purpose(UpgradePurpose::Ping) {
            HandlerView { queued: self.queued.push(UpgradePurpose::Ping), notify: None, ..self }
        } else {
            self
        }
    }

    /// What trying to ping takes.
    pub open spec fn ping_signal(self) -> Signal<S> {
        Signal {
            ping: self.ping_out is Some,
            wake: if self.ping_out is Some || !self.has_purpose(UpgradePurpose::Ping) {
                self.notify
            } else {
                None
            },
        }
    }

    /// The handler with a new substream for sending pings: none is to be opened any
    /// more.
    pub open spec fn with_ping_out(self, dialer: S::PingDialer) -> Self {
        HandlerView {
            ping_out: Some(dialer),
            dial: self.dial.filter(|e: (UpgradePurpose, S::Upgrade)| e.0 != UpgradePurpose::Ping),
            queued: self.queued.filter(|p: UpgradePurpose| p != UpgradePurpose::Ping),
            ..self
        }
    }

    /// The handler after an upgrade was completed.
    pub open spec fn negotiated(self, upgrade: FinalUpgrade<S>) -> Self {
        match upgrade {
            FinalUpgrade::PingDialer(dialer) => self.with_ping_out(dialer).pinged(),
            FinalUpgrade::PingListener(listener) => HandlerView {
                ping_in: self.ping_in.push(listener),
                ..self
            },
            FinalUpgrade::Custom => self,
        }
    }

    /// What a completed upgrade takes.
    pub open spec fn negotiated_signal(self, upgrade: FinalUpgrade<S>) -> Signal<S> {
        match upgrade {
            FinalUpgrade::PingDialer(dialer) => self.with_ping_out(dialer).ping_signal(),
            _ => quiet(),
        }
    }

    /// Polling, once all upgrades and the substream for sending pings were polled:
    /// `left` substreams for receiving pings are left.
    pub open spec fn from_ping_in(self, left: int) -> (Self, Next<S>) {
        if left > 0 {
            (
                HandlerView { ping_in: without(self.ping_in, left - 1), ..self },
                Next::PingIn { left: (left - 1) as usize, ping: self.ping_in[left - 1] },
            )
        } else {
            (self, Next::Park)
        }
    }

    /// Polling, once all upgrades were polled.
    pub open spec fn from_ping_out(self) -> (Self, Next<S>) {
        match self.ping_out {
            Some(dialer) => (HandlerView { ping_out: None, ..self }, Next::PingOut(dialer)),
            None => self.from_ping_in(self.ping_in.len() as int),
        }
    }

    /// Polling, once the upgrades on the listening side were polled: `left` upgrades on
    /// the dialing side are left.
    pub open spec fn from_dial(self, left: int) -> (Self, Next<S>) {
        if left > 0 {
            (
                HandlerView { dial: without(self.dial, left - 1), ..self },
                Next::DialUpgrade {
                    left: (left - 1) as usize,
                    purpose: self.dial[left - 1].0,
                    in_progress: self.dial[left - 1].1,
                },
            )
        } else {
            self.from_ping_out()
        }
    }

    /// Polling, with `left` upgrades on the listening side left.
    pub open spec fn from_listen(self, left: int) -> (Self, Next<S>) {
        if left > 0 {
            (
                HandlerView { listen: without(self.listen, left - 1), ..self },
                Next::ListenUpgrade {
                    left: (left - 1) as usize,
                    in_progress: self.listen[left - 1],
                },
            )
        } else {
            self.from_dial(self.dial.len() as int)
        }
    }

    /// Polling, from the start.
    pub open spec fn from_start(self) -> (Self, Next<S>) {
        self.from_listen(self.listen.len() as int)
    }

    /// Polling, after an upgrade on the listening side was polled.
    pub open spec fn after_listen(
        self,
        left: int,
        in_progress: S::Upgrade,
        outcome: Result<Async<FinalUpgrade<S>>, ()>,
    ) -> (Self, Step<S>) {
        match outcome {
            Ok(Async::Ready(upgrade)) => if upgrade is PingDialer {
                (
                    self.negotiated(upgrade),
                    Step {
                        signal: self.negotiated_signal(upgrade),
                        next: report(CITAOutEvent::PingStart),
                    },
                )
            } else {
                let (h, next) = self.negotiated(upgrade).from_listen(left);
                (h, Step { signal: quiet(), next })
            },
            Ok(Async::NotReady) => {
                let (h, next) = HandlerView {
                    listen: self.listen.push(in_progress),
                    ..self
                }.from_listen(left);
                (h, Step { signal: quiet(), next })
            },
            Err(_) => (self, Step { signal: quiet(), next: report(CITAOutEvent::Unresponsive) }),
        }
    }

    /// Polling, after an upgrade on the dialing side was polled.
    pub open spec fn after_dial(
        self,
        left: int,
        purpose: UpgradePurpose,
        in_progress: S::Upgrade,
        outcome: Result<Async<FinalUpgrade<S>>, ()>,
    ) -> (Self, Step<S>) {
        match outcome {
            Ok(Async::Ready(upgrade)) => if upgrade is PingDialer {
                (
                    self.negotiated(upgrade),
                    Step {
                        signal: self.negotiated_signal(upgrade),
                        next: report(CITAOutEvent::PingStart),
                    },
                )
            } else {
                let (h, next) = self.negotiated(upgrade).from_dial(left);
                (h, Step { signal: quiet(), next })
            },
            Ok(Async::NotReady) => {
                let (h, next) = HandlerView {
                    dial: self.dial.push((purpose, in_progress)),
                    ..self
                }.from_dial(left);
                (h, Step { signal: quiet(), next })
            },
            Err(_) => (self, Step { signal: quiet(), next: report(CITAOutEvent::Unresponsive) }),
        }
    }

    /// Polling, after the substream for sending pings was polled.
    pub open spec fn after_ping_out(
        self,
        dialer: S::PingDialer,
        outcome: Result<Async<Option<Duration>>, ()>,
    ) -> (Self, Next<S>) {
        match outcome {
            Ok(Async::Ready(Some(elapsed))) => (self, report(CITAOutEvent::PingSuccess(elapsed))),
            Ok(Async::NotReady) => HandlerView { ping_out: Some(dialer), ..self }.from_ping_in(
                self.ping_in.len() as int,
            ),
            _ => self.from_ping_in(self.ping_in.len() as int),
        }
    }

    /// Polling, after a substream for receiving pings was polled.
    pub open spec fn after_ping_in(
        self,
        left: int,
        ping: S::PingListener,
        outcome: Result<Async<()>, ()>,
    ) -> (Self, Next<S>) {
        match outcome {
            Ok(Async::NotReady) => HandlerView {
                ping_in: self.ping_in.push(ping),
                ..self
            }.from_ping_in(left),
            _ => self.from_ping_in(left),
        }
    }

    /// The handler after a substream was opened.
    pub open spec fn opened(self, substream: OpenedSubstream<S>) -> Self {
        match substream {
            OpenedSubstream::Listener(upgrade) => HandlerView {
                listen: self.listen.push(upgrade),
                notify: None,
                ..self
            },
            OpenedSubstream::Dialer(upgrade) => if self.queued.len() == 0 {
                self
            } else {
                HandlerView {
                    dial: self.dial.push((self.queued[0], upgrade)),
                    queued: self.queued.skip(1),
                    notify: None,
                    ..self
                }
            },
        }
    }
}

/// One more item of a list that is filtered from the front.
proof fn lemma_filter_next<A>(items: Seq<A>, pred: spec_fn(A) -> bool, k: int)
    requires
        0 <= k < items.len(),
    ensures
        items.take(k + 1).filter(pred) == if pred(items[k]) {
            items.take(k).filter(pred).push(items[k])
        } else {
            items.take(k).filter(pred)
        },
{
    reveal(Seq::filter);
    assert(items.take(k + 1).drop_last() =~= items.take(k));
}

/// Takes all upgrades for pings out of a list.
fn retain_other_upgrades<U>(upgrades: &mut Vec<(UpgradePurpose, U)>)
    ensures
        final(upgrades)@ == old(upgrades)@.filter(
            |e: (UpgradePurpose, U)| e.0 != UpgradePurpose::Ping,
        ),
{
    let ghost all = upgrades@;
    let ghost other = |e: (UpgradePurpose, U)| e.0 != UpgradePurpose::Ping;
    let ghost mut seen: int = 0;
    let mut i: usize = 0;
    proof {
        reveal(Seq::filter);
        assert(all.take(0) =~= seq![]);
        assert(upgrades@ =~= all.take(0).filter(other) + all.skip(0));
    }
    while i < upgrades.len()
        invariant
            0 <= seen <= all.len(),
            other == (|e: (UpgradePurpose, U)| e.0 != UpgradePurpose::Ping),
            i == all.take(seen).filter(other).len(),
            upgrades@ == all.take(seen).filter(other) + all.skip(seen),
        decreases upgrades@.len() - i,
    {
        assert(upgrades@[i as int] == all[seen]);
        proof {
            lemma_filter_next(all, other, seen);
        }
        if upgrades[i].0 == UpgradePurpose::Ping {
            upgrades.remove(i);
        } else {
            i = i + 1;
        }
        proof {
            seen = seen + 1;
            assert(upgrades@ =~= all.take(seen).filter(other) + all.skip(seen));
        }
    }
    assert(all.take(seen) =~= all);
    assert(upgrades@ =~= all.filter(other));
}

/// Takes all pings out of a list.
fn retain_other_purposes(purposes: &mut Vec<UpgradePurpose>)
    ensures
        final(purposes)@ == old(purposes)@.filter(|p: UpgradePurpose| p != UpgradePurpose::Ping),
{
    let ghost all = purposes@;
    let ghost other = |p: UpgradePurpose| p != UpgradePurpose::Ping;
    let ghost mut seen: int = 0;
    let mut i: usize = 0;
    proof {
        reveal(Seq::filter);
        assert(all.take(0) =~= seq![]);
        assert(purposes@ =~= all.take(0).filter(other) + all.skip(0));
    }
    while i < purposes.len()
        invariant
            0 <= seen <= all.len(),
            other == (|p: UpgradePurpose| p != UpgradePurpose::Ping),
            i == all.take(seen).filter(other).len(),
            purposes@ == all.take(seen).filter(other) + all.skip(seen),
        decreases purposes@.len() - i,
    {
        assert(purposes@[i as int] == all[seen]);
        proof {
            lemma_filter_next(all, other, seen);
        }
        if purposes[i] == UpgradePurpose::Ping {
            purposes.remove(i);
        } else {
            i = i + 1;
        }
        proof {
            seen = seen + 1;
            assert(purposes@ =~= all.take(seen).filter(other) + all.skip(seen));
        }
    }
    assert(all.take(seen) =~= all);
    assert(purposes@ =~= all.filter(other));
}

impl<S: Substream> CITANodeHandler<S> {
    /// A handler that will open a substream for pings.
    pub fn new() -> (res: Self)
        ensures
            res@ == (HandlerView::<S> {
                ping_out: None,
                ping_in: seq![],
                listen: seq![],
                dial: seq![],
                queued: seq![UpgradePurpose::Ping],
                notify: None,
            }),
    {
        let mut queued_dial_upgrades: Vec<UpgradePurpose> = Vec::new();
        queued_dial_upgrades.push(UpgradePurpose::Ping);
        let res = CITANodeHandler {
            ping_out_substream: None,
            ping_in_substreams: Vec::new(),
            upgrades_in_progress_listen: Vec::new(),
            upgrades_in_progress_dial: Vec::new(),
            queued_dial_upgrades,
            notify: None,
        };
        assert(res@.queued =~= seq![UpgradePurpose::Ping]);
        res
    }

    /// How many upgrades on the listening side are in progress.
    pub fn listening(&self) -> (res: usize)
        ensures
            res == self@.listen.len(),
    {
        self.upgrades_in_progress_listen.len()
    }

    /// How many upgrades on the dialing side are in progress.
    pub fn dialing(&self) -> (res: usize)
        ensures
            res == self@.dial.len(),
    {
        self.upgrades_in_progress_dial.len()
    }

    /// How many substreams are open for receiving pings.
    pub fn answering(&self) -> (res: usize)
        ensures
            res == self@.ping_in.len(),
    {
        self.ping_in_substreams.len()
    }

    // There is no substream for custom protocols yet, so a message goes nowhere.
    fn send_custom_message(&mut self, _protocol: usize, _data: Vec<u8>)
        ensures
            final(self)@ == old(self)@,
    {
    }

    fn inject_fully_negotiated(&mut self, upgrade: FinalUpgrade<S>) -> (res: (
        Signal<S>,
        Option<CITAOutEvent<S::Error>>,
    ))
        ensures
            final(self)@ == old(self)@.negotiated(upgrade),
            res.0 == old(self)@.negotiated_signal(upgrade),
            res.1 == if upgrade is PingDialer {
                Some(CITAOutEvent::<S::Error>::PingStart)
            } else {
                None
            },
    {
        match upgrade {
            FinalUpgrade::PingDialer(ping_dialer) => {
                retain_other_upgrades(&mut self.upgrades_in_progress_dial);
                retain_other_purposes(&mut self.queued_dial_upgrades);
                self.ping_out_substream = Some(ping_dialer);
                assert(self@ == old(self)@.with_ping_out(ping_dialer));
                let signal = self.ping_remote();
                if signal.ping {
                    (signal, Some(CITAOutEvent::PingStart))
                } else {
                    (signal, None)
                }
            },
            FinalUpgrade::PingListener(ping_listener) => {
                self.ping_in_substreams.push(ping_listener);
                (Signal { ping: false, wake: None }, None)
            },
            FinalUpgrade::Custom => (Signal { ping: false, wake: None }, None),
        }
    }

    /// Whether a substream is being upgraded for a purpose, or is to be opened for it.
    pub fn has_upgrade_purpose(&self, purpose: &UpgradePurpose) -> (res: bool)
        ensures
            res == self@.has_purpose(*purpose),
    {
        let mut i: usize = 0;
        while i < self.upgrades_in_progress_dial.len()
            invariant
                0 <= i <= self@.dial.len(),
                forall|j: int| 0 <= j < i ==> (#[trigger] self@.dial[j]).0 != *purpose,
            decreases self@.dial.len() - i,
        {
            if self.upgrades_in_progress_dial[i].0 == *purpose {
                assert(self@.dial[i as int].0 == *purpose);
                return true;
            }
            i = i + 1;
        }
        let mut i: usize = 0;
        while i < self.queued_dial_upgrades.len()
            invariant
                0 <= i <= self@.queued.len(),
                forall|j: int| 0 <= j < i ==> (#[trigger] self@.queued[j]) != *purpose,
            decreases self@.queued.len() - i,
        {
            if self.queued_dial_upgrades[i] == *purpose {
                assert(self@.queued[i as int] == *purpose);
                return true;
            }
            i = i + 1;
        }
        false
    }

    /// Tries to ping.
    pub fn ping_remote(&mut self) -> (res: Signal<S>)
        ensures
            final(self)@ == old(self)@.pinged(),
            res == old(self)@.ping_signal(),
    {
        if self.ping_out_substream.is_some() {
            return Signal { ping: true, wake: self.notify.take() };
        }
        // Otherwise, ensure we have an upgrade for a ping substream in queue.
        if !self.has_upgrade_purpose(&UpgradePurpose::Ping) {
            self.queued_dial_upgrades.push(UpgradePurpose::Ping);
            return Signal { ping: false, wake: self.notify.take() };
        }
        Signal { ping: false, wake: None }
    }

    fn poll_ping_in(&mut self, left: usize) -> (res: Next<S>)
        requires
            left <= old(self)@.ping_in.len(),
        ensures
            (final(self)@, res) == old(self)@.from_ping_in(left as int),
    {
        if left > 0 {
            let ping = self.ping_in_substreams.swap_remove(left - 1);
            Next::PingIn { left: left - 1, ping }
        } else {
            Next::Park
        }
    }

    fn poll_ping_out(&mut self) -> (res: Next<S>)
        ensures
            (final(self)@, res) == old(self)@.from_ping_out(),
    {
        match self.ping_out_substream.take() {
            Some(ping_dialer) => Next::PingOut(ping_dialer),
            None => {
                let left: usize = self.ping_in_substreams.len();
                self.poll_ping_in(left)
            },
        }
    }

    fn poll_dial_upgrades(&mut self, left: usize) -> (res: Next<S>)
        requires
            left <= old(self)@.dial.len(),
        ensures
            (final(self)@, res) == old(self)@.from_dial(left as int),
    {
        if left > 0 {
            let (purpose, in_progress) = self.upgrades_in_progress_dial.swap_remove(left - 1);
            Next::DialUpgrade { left: left - 1, purpose, in_progress }
        } else {
            self.poll_ping_out()
        }
    }

    fn poll_listen_upgrades(&mut self, left: usize) -> (res: Next<S>)
        requires
            left <= old(self)@.listen.len(),
        ensures
            (final(self)@, res) == old(self)@.from_listen(left as int),
    {
        if left > 0 {
            let in_progress = self.upgrades_in_progress_listen.swap_remove(left - 1);
            Next::ListenUpgrade { left: left - 1, in_progress }
        } else {
            let left: usize = self.upgrades_in_progress_dial.len();
            self.poll_dial_upgrades(left)
        }
    }

    /// Starts polling: all upgrades on the listening side, then those on the dialing
    /// side, each from the last one on, then the substreams for pings.
    pub fn poll(&mut self) -> (res: Next<S>)
        ensures
            (final(self)@, res) == old(self)@.from_start(),
    {
        let left: usize = self.upgrades_in_progress_listen.len();
        self.poll_listen_upgrades(left)
    }

    /// Goes on polling after an upgrade on the listening side was polled.
    pub fn listen_upgrade_polled(
        &mut self,
        left: usize,
        in_progress: S::Upgrade,
        outcome: Result<Async<FinalUpgrade<S>>, ()>,
    ) -> (res: Step<S>)
        requires
            left <= old(self)@.listen.len(),
        ensures
            (final(self)@, res) == old(self)@.after_listen(left as int, in_progress, outcome),
    {
        match outcome {
            Ok(Async::Ready(upgrade)) => {
                let (signal, event) = self.inject_fully_negotiated(upgrade);
                match event {
                    Some(event) => Step { signal, next: Next::Return(Async::Ready(Some(event))) },
                    None => Step { signal, next: self.poll_listen_upgrades(left) },
                }
            },
            Ok(Async::NotReady) => {
                self.upgrades_in_progress_listen.push(in_progress);
                Step {
                    signal: Signal { ping: false, wake: None },
                    next: self.poll_listen_upgrades(left),
                }
            },
            Err(_) => Step {
                signal: Signal { ping: false, wake: None },
                next: Next::Return(Async::Ready(Some(CITAOutEvent::Unresponsive))),
            },
        }
    }

    /// Goes on polling after an upgrade on the dialing side was polled.
    pub fn dial_upgrade_polled(
        &mut self,
        left: usize,
        purpose: UpgradePurpose,
        in_progress: S::Upgrade,
        outcome: Result<Async<FinalUpgrade<S>>, ()>,
    ) -> (res: Step<S>)
        requires
            left <= old(self)@.dial.len(),
        ensures
            (final(self)@, res) == old(self)@.after_dial(
                left as int,
                purpose,
                in_progress,
                outcome,
            ),
    {
        match outcome {
            Ok(Async::Ready(upgrade)) => {
                let (signal, event) = self.inject_fully_negotiated(upgrade);
                match event {
                    Some(event) => Step { signal, next: Next::Return(Async::Ready(Some(event))) },
                    None => Step { signal, next: self.poll_dial_upgrades(left) },
                }
            },
            Ok(Async::NotReady) => {
                self.upgrades_in_progress_dial.push((purpose, in_progress));
                Step {
                    signal: Signal { ping: false, wake: None },
                    next: self.poll_dial_upgrades(left),
                }
            },
            Err(_) => Step {
                signal: Signal { ping: false, wake: None },
                next: Next::Return(Async::Ready(Some(CITAOutEvent::Unresponsive))),
            },
        }
    }

    /// Goes on polling after the substream for sending pings was polled: a ping was
    /// answered after some time, or the substream was closed. Only a substream that is
    /// not ready is kept.
    pub fn ping_out_polled(
        &mut self,
        ping_dialer: S::PingDialer,
        outcome: Result<Async<Option<Duration>>, ()>,
    ) -> (res: Next<S>)
        ensures
            (final(self)@, res) == old(self)@.after_ping_out(ping_dialer, outcome),
    {
        match outcome {
            Ok(Async::Ready(Some(elapsed))) => {
                return Next::Return(Async::Ready(Some(CITAOutEvent::PingSuccess(elapsed))));
            },
            Ok(Async::Ready(None)) => {},
            Ok(Async::NotReady) => {
                self.ping_out_substream = Some(ping_dialer);
            },
            Err(_) => {},
        }
        let left: usize = self.ping_in_substreams.len();
        self.poll_ping_in(left)
    }

    /// Goes on polling after a substream for receiving pings was polled. One that was
    /// closed, or that failed, is given up.
    pub fn ping_in_polled(
        &mut self,
        left: usize,
        ping: S::PingListener,
        outcome: Result<Async<()>, ()>,
    ) -> (res: Next<S>)
        requires
            left <= old(self)@.ping_in.len(),
        ensures
            (final(self)@, res) == old(self)@.after_ping_in(left as int, ping, outcome),
    {
        match outcome {
            Ok(Async::Ready(_)) => {},
            Ok(Async::NotReady) => {
                self.ping_in_substreams.push(ping);
            },
            Err(_) => {},
        }
        self.poll_ping_in(left)
    }

    /// Ends a poll that found nothing to do: the task is woken when there is.
    pub fn park(&mut self, task: S::Task) -> (res: PollResult<S>)
        ensures
            final(self)@ == (HandlerView { notify: Some(task), ..old(self)@ }),
            res == PollResult::<S>::NotReady,
    {
        self.notify = Some(task);
        Async::NotReady
    }

    /// Takes a substream that was opened, and hands out the task to wake. One towards the
    /// remote serves what was queued first, and is given up where nothing is queued.
    pub fn inject_substream(&mut self, substream: OpenedSubstream<S>) -> (res: Option<S::Task>)
        ensures
            final(self)@ == old(self)@.opened(substream),
            res == if substream is Dialer && old(self)@.queued.len() == 0 {
                None
            } else {
                old(self)@.notify
            },
    {
        match substream {
            OpenedSubstream::Listener(upgrade) => {
                self.upgrades_in_progress_listen.push(upgrade);
            },
            OpenedSubstream::Dialer(upgrade) => {
                if self.queued_dial_upgrades.len() == 0 {
                    return None;
                }
                let purpose = self.queued_dial_upgrades.remove(0);
                self.upgrades_in_progress_dial.push((purpose, upgrade));
                assert(self@.queued =~= old(self)@.queued.skip(1));
            },
        }
        self.notify.take()
    }

    /// The remote closed its side: nothing changes.
    pub fn inject_inbound_closed(&mut self)
        ensures
            final(self)@ == old(self)@,
    {
    }

    /// A substream could not be opened: nothing changes.
    pub fn inject_outbound_closed(&mut self)
        ensures
            final(self)@ == old(self)@,
    {
    }

    /// Takes what the swarm says.
    pub fn inject_event(&mut self, event: CITAInEvent) -> (res: Signal<S>)
        ensures
            final(self)@ == if event is Ping {
                old(self)@.pinged()
            } else {
                old(self)@
            },
            res == if event is Ping {
                old(self)@.ping_signal()
            } else {
                quiet()
            },
    {
        match event {
            CITAInEvent::Accept => Signal { ping: false, wake: None },
            CITAInEvent::SendCustomMessage { protocol, data } => {
                self.send_custom_message(protocol, data);
                Signal { ping: false, wake: None }
            },
            CITAInEvent::Ping => self.ping_remote(),
        }
    }

    /// The connection is being closed: nothing changes.
    pub fn shutdown(&mut self)
        ensures
            final(self)@ == old(self)@,
    {
    }
}

} // verus!
