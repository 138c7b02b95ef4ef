//! What holds of a whole poll of a handler, whatever its substreams and its timer answer.

use vstd::prelude::*;
use std::time::Duration;
use crate::cita_handler::{
    custom, CITANodeHandler, CITAOutEvent, Next, NodeHandlerEvent, OpenedSubstream, Substream,
};
use crate::poll::Async;

verus! {

/// What the substreams and the timer of a connection answer when they are polled.
pub struct Answers<S: Substream> {
    pub listen: Result<Async<S::PingListener>, ()>,
    pub dial: Result<Async<S::PingDialer>, ()>,
    pub interval: Result<Async<()>, S::TimerError>,
    pub ping_in: Result<Async<()>, ()>,
    pub ping_out: Result<Async<Option<Duration>>, ()>,
}

/// How many polls can still follow.
pub open spec fn polls_left<S: Substream>(next: Next<S>) -> nat {
    match next {
        Next::ListenUpgrade(_) => 5,
        Next::DialUpgrade(_) => 4,
        Next::Interval => 3,
        Next::PingIn(_) => 2,
        Next::PingOut(_) => 1,
        Next::Park => 0,
        Next::Return(_) => 0,
    }
}

/// The handler at the end of a poll, and how the poll ended: with a result, or parked.
pub open spec fn finished<S: Substream>(
    h: CITANodeHandler<S>,
    next: Next<S>,
    answers: Answers<S>,
) -> (CITANodeHandler<S>, Next<S>)
    decreases polls_left(next),
{
    match next {
        Next::ListenUpgrade(upgrade) => {
            let (h, next) = h.after_listen(upgrade, answers.listen);
            finished(h, next, answers)
        },
        Next::DialUpgrade(upgrade) => {
            let (h, step) = h.after_dial(upgrade, answers.dial);
            finished(h, step.next, answers)
        },
        Next::Interval => {
            let (h, step) = h.after_interval(answers.interval);
            finished(h, step.next, answers)
        },
        Next::PingIn(listener) => {
            let (h, next) = h.after_ping_in(listener, answers.ping_in);
            finished(h, next, answers)
        },
        Next::PingOut(dialer) => {
            let (h, next) = h.after_ping_out(dialer, answers.ping_out);
            finished(h, next, answers)
        },
        Next::Park => (h, next),
        Next::Return(_) => (h, next),
    }
}

/// A whole poll.
pub open spec fn polled<S: Substream>(h: CITANodeHandler<S>, answers: Answers<S>) -> (
    CITANodeHandler<S>,
    Next<S>,
) {
    let (h, next) = h.from_listen();
    finished(h, next, answers)
}

/// The end of a poll that asks for a substream to the remote.
pub open spec fn asks<S: Substream>() -> Next<S> {
    Next::Return(Ok(Async::Ready(Some(NodeHandlerEvent::OutboundSubstreamRequest))))
}

proof fn lemma_finished<S: Substream>(h: CITANodeHandler<S>, next: Next<S>, answers: Answers<S>)
    requires
        match next {
            Next::ListenUpgrade(_) => h.wf(),
            Next::DialUpgrade(_) => h.wf(),
            Next::Interval => h.wf(),
            Next::PingIn(_) => h.owes_at_most_one(),
            Next::PingOut(_) => h.wf() && h.ping_out_substream is None && !h.queued_dial_upgrades,
            Next::Park => h.wf(),
            Next::Return(_) => h.wf() && (next == asks::<S>() ==> h.queued_dial_upgrades
                && h.ping_out_substream is None),
        },
    ensures
        finished(h, next, answers).0.wf(),
        finished(h, next, answers).1 is Park || finished(h, next, answers).1 is Return,
        finished(h, next, answers).1 == asks::<S>() ==> {
            let t = finished(h, next, answers).0;
            t.queued_dial_upgrades && t.ping_out_substream is None
        },
    decreases polls_left(next),
{
    match next {
        Next::ListenUpgrade(upgrade) => {
            let (h, next) = h.after_listen(upgrade, answers.listen);
            lemma_finished(h, next, answers);
        },
        Next::DialUpgrade(upgrade) => {
            let (h, step) = h.after_dial(upgrade, answers.dial);
            lemma_finished(h, step.next, answers);
        },
        Next::Interval => {
            let (h, step) = h.after_interval(answers.interval);
            lemma_finished(h, step.next, answers);
        },
        Next::PingIn(listener) => {
            let (h, next) = h.after_ping_in(listener, answers.ping_in);
            lemma_finished(h, next, answers);
        },
        Next::PingOut(dialer) => {
            let (h, next) = h.after_ping_out(dialer, answers.ping_out);
            lemma_finished(h, next, answers);
        },
        Next::Park => {},
        Next::Return(_) => {},
    }
}

/// A poll ends with a result or parked, and owes no request for a substream: what it
/// queues, it asks for.
pub proof fn law_poll_owes_nothing<S: Substream>(h: CITANodeHandler<S>, answers: Answers<S>)
    requires
        h.wf(),
    ensures
        polled(h, answers).0.wf(),
        polled(h, answers).1 is Park || polled(h, answers).1 is Return,
{
    let (t, next) = h.from_listen();
    lemma_finished(t, next, answers);
}

/// A poll asks for a substream only where none was asked for before, and afterwards one
/// is asked for, and none is open.
pub proof fn law_substream_is_asked_for_once<S: Substream>(
    h: CITANodeHandler<S>,
    answers: Answers<S>,
)
    requires
        h.wf(),
        polled(h, answers).1 == asks::<S>(),
    ensures
        !h.queued_dial_upgrades,
        polled(h, answers).0.queued_dial_upgrades,
        polled(h, answers).0.ping_out_substream is None,
{
    let (t, next) = h.from_listen();
    lemma_finished(t, next, answers);
    if h.queued_dial_upgrades {
        reveal_with_fuel(finished, 6);
    }
}

/// A ping is sent exactly when its start is reported, and on a substream that is open.
pub proof fn law_ping_is_reported<S: Substream>(
    h: CITANodeHandler<S>,
    upgrade: S::OutboundUpgrade,
    answers: Answers<S>,
)
    ensures
        h.after_dial(upgrade, answers.dial).1.ping <==> h.after_dial(upgrade, answers.dial).1.next
            == custom::<S>(CITAOutEvent::PingStart),
        h.after_dial(upgrade, answers.dial).1.ping ==> h.after_dial(
            upgrade,
            answers.dial,
        ).0.ping_out_substream is Some,
        h.after_interval(answers.interval).1.ping <==> h.after_interval(answers.interval).1.next
            == custom::<S>(CITAOutEvent::PingStart),
        h.after_interval(answers.interval).1.ping ==> h.after_interval(
            answers.interval,
        ).0.ping_out_substream is Some,
{
}

/// A poll that reports the start of a ping leaves the substream for pings open, and
/// none is asked for.
pub proof fn law_ping_start_leaves_substream<S: Substream>(
    h: CITANodeHandler<S>,
    answers: Answers<S>,
)
    requires
        h.wf(),
        polled(h, answers).1 == custom::<S>(CITAOutEvent::PingStart),
    ensures
        polled(h, answers).0.ping_out_substream is Some,
        !polled(h, answers).0.queued_dial_upgrades,
{
    reveal_with_fuel(finished, 6);
}

/// A poll that reports an answered ping was told so by the substream for pings, which it
/// then gives up.
pub proof fn law_ping_success_is_told<S: Substream>(
    h: CITANodeHandler<S>,
    answers: Answers<S>,
    elapsed: Duration,
)
    requires
        polled(h, answers).1 == custom::<S>(CITAOutEvent::PingSuccess(elapsed)),
    ensures
        answers.ping_out == Ok::<_, ()>(Async::Ready(Some(elapsed))),
        h.ping_out_substream is Some,
        polled(h, answers).0.ping_out_substream is None,
{
    let (t, next) = h.from_listen();
    lemma_success(t, next, answers, elapsed);
}

proof fn lemma_success<S: Substream>(
    h: CITANodeHandler<S>,
    next: Next<S>,
    answers: Answers<S>,
    elapsed: Duration,
)
    requires
        next is PingOut ==> h.ping_out_substream is None,
        next != custom::<S>(CITAOutEvent::PingSuccess(elapsed)),
        finished(h, next, answers).1 == custom::<S>(CITAOutEvent::PingSuccess(elapsed)),
    ensures
        answers.ping_out == Ok::<_, ()>(Async::Ready(Some(elapsed))),
        next is PingOut || h.ping_out_substream is Some,
        finished(h, next, answers).0.ping_out_substream is None,
    decreases polls_left(next),
{
    match next {
        Next::ListenUpgrade(upgrade) => {
            let (h, next) = h.after_listen(upgrade, answers.listen);
            lemma_success(h, next, answers, elapsed);
        },
        Next::DialUpgrade(upgrade) => {
            let (h, step) = h.after_dial(upgrade, answers.dial);
            lemma_success(h, step.next, answers, elapsed);
        },
        Next::Interval => {
            let (h, step) = h.after_interval(answers.interval);
            lemma_success(h, step.next, answers, elapsed);
        },
        Next::PingIn(listener) => {
            let (h, next) = h.after_ping_in(listener, answers.ping_in);
            lemma_success(h, next, answers, elapsed);
        },
        Next::PingOut(dialer) => {
            let (t, next) = h.after_ping_out(dialer, answers.ping_out);
            assert(finished(t, next, answers) == (t, next));
        },
        Next::Park => {},
        Next::Return(_) => {},
    }
}

/// A poll that finds nothing ready changes nothing, and parks.
pub proof fn law_idle_poll_changes_nothing<S: Substream>(
    h: CITANodeHandler<S>,
    answers: Answers<S>,
)
    requires
        h.wf(),
        answers.listen == Ok::<Async<S::PingListener>, ()>(Async::NotReady),
        answers.dial == Ok::<Async<S::PingDialer>, ()>(Async::NotReady),
        answers.interval == Ok::<Async<()>, S::TimerError>(Async::NotReady),
        answers.ping_in == Ok::<Async<()>, ()>(Async::NotReady),
        answers.ping_out == Ok::<Async<Option<Duration>>, ()>(Async::NotReady),
    ensures
        polled(h, answers) == (h, Next::<S>::Park),
{
    reveal_with_fuel(finished, 6);
}

/// An upgrade that fails makes the node useless.
pub proof fn law_failed_upgrade_is_useless<S: Substream>(
    h: CITANodeHandler<S>,
    answers: Answers<S>,
)
    requires
        (h.upgrades_in_progress_listen is Some && answers.listen is Err) || (
        h.upgrades_in_progress_dial is Some && answers.dial is Err),
    ensures
        polled(h, answers).1 == custom::<S>(CITAOutEvent::Useless),
{
    reveal_with_fuel(finished, 6);
}

/// When the timer fires and a substream for pings is open, a ping is sent and its start
/// is reported, whatever other substreams are open; the task that waits is woken, and
/// nothing else changes.
pub proof fn law_timer_sends_ping<S: Substream>(h: CITANodeHandler<S>)
    requires
        h.ping_out_substream is Some,
    ensures
        ({
            let (t, step) = h.after_interval(Ok(Async::Ready(())));
            &&& step.ping
            &&& step.wake == h.notify
            &&& step.next == custom::<S>(CITAOutEvent::PingStart)
            &&& t == (CITANodeHandler { notify: None, ..h })
        }),
{
}

/// When the timer fires and no substream for pings is open, none can be pinged on, but
/// one is sought from then on, whatever other substreams are open. Who waits is woken
/// where the search begins; where it had begun before, the timer has no effect.
pub proof fn law_timer_seeks_substream<S: Substream>(h: CITANodeHandler<S>)
    requires
        h.wf(),
        h.ping_out_substream is None,
    ensures
        ({
            let (t, step) = h.after_interval(Ok(Async::Ready(())));
            &&& !step.ping
            &&& t.queued_dial_upgrades
            &&& !h.queued_dial_upgrades ==> step.wake == h.notify && t.notify is None
            &&& h.queued_dial_upgrades ==> (t, step) == h.after_interval(Ok(Async::NotReady))
        }),
{
}

/// A poll without a pending upgrade in which the timer fires ends with the start of a ping
/// where a substream for pings is open, and with the request for one where none is open
/// and none was asked for, whatever the substream for receiving pings does.
pub proof fn law_poll_heeds_timer<S: Substream>(h: CITANodeHandler<S>, answers: Answers<S>)
    requires
        h.wf(),
        h.upgrades_in_progress_listen is None,
        h.upgrades_in_progress_dial is None,
        answers.interval == Ok::<Async<()>, S::TimerError>(Async::Ready(())),
    ensures
        h.ping_out_substream is Some ==> polled(h, answers).1 == custom::<S>(
            CITAOutEvent::PingStart,
        ),
        h.ping_out_substream is None && !h.queued_dial_upgrades ==> polled(h, answers).1 == asks::<
            S,
        >(),
{
    reveal_with_fuel(finished, 6);
}

/// A timer that fails ends the poll with its error; one that has not fired sends and wakes
/// nothing. Both leave what the handler seeks alone.
pub proof fn law_timer_that_does_not_fire<S: Substream>(h: CITANodeHandler<S>, err: S::TimerError)
    ensures
        h.after_interval(Err(err)).0 == h,
        h.after_interval(Err(err)).1.next == Next::<S>::Return(Err(err)),
        !h.after_interval(Err(err)).1.ping,
        h.after_interval(Err(err)).1.wake is None,
        !h.after_interval(Ok(Async::NotReady)).1.ping,
        h.after_interval(Ok(Async::NotReady)).1.wake is None,
        h.after_interval(Ok(Async::NotReady)).0.queued_dial_upgrades == h.queued_dial_upgrades,
        h.after_interval(Ok(Async::NotReady)).0.notify == h.notify,
{
}

/// Whether a handler is `before` but for what is being polled: the pending piece was
/// taken out, and everything else is as it was.
pub open spec fn is_handed_out<S: Substream>(
    before: CITANodeHandler<S>,
    after: CITANodeHandler<S>,
    next: Next<S>,
) -> bool {
    match next {
        Next::ListenUpgrade(u) => before == (CITANodeHandler {
            upgrades_in_progress_listen: Some(u),
            ..after
        }) && after.upgrades_in_progress_listen is None,
        Next::DialUpgrade(u) => before == (CITANodeHandler {
            upgrades_in_progress_dial: Some(u),
            ..after
        }) && after.upgrades_in_progress_dial is None,
        Next::PingIn(l) => before == (CITANodeHandler { ping_in_substreams: Some(l), ..after })
            && after.ping_in_substreams is None,
        Next::PingOut(d) => before == (CITANodeHandler { ping_out_substream: Some(d), ..after })
            && after.ping_out_substream is None,
        _ => before == after,
    }
}

/// A poll takes up what is pending: first the upgrade on the listening side, then that on
/// the dialing side, and else the timer.
pub proof fn law_pending_upgrades_are_polled_first<S: Substream>(h: CITANodeHandler<S>)
    ensures
        ({
            let (t, next) = h.from_listen();
            &&& is_handed_out(h, t, next)
            &&& h.upgrades_in_progress_listen is Some <==> next is ListenUpgrade
            &&& h.upgrades_in_progress_listen is None ==> (h.upgrades_in_progress_dial is Some
                <==> next is DialUpgrade)
            &&& h.upgrades_in_progress_listen is None && h.upgrades_in_progress_dial is None
                ==> next is Interval
        }),
{
}

/// An upgrade on the listening side that is over becomes the substream for receiving
/// pings; one that is not is kept; and the dialing side, or else the timer, is next. One
/// that failed ends the poll, and the node is useless.
pub proof fn law_listen_upgrade_is_heeded<S: Substream>(
    h: CITANodeHandler<S>,
    upgrade: S::InboundUpgrade,
    listener: S::PingListener,
)
    ensures
        ({
            let (t, next) = h.after_listen(upgrade, Ok(Async::Ready(listener)));
            let kept = CITANodeHandler { ping_in_substreams: Some(listener), ..h };
            &&& is_handed_out(kept, t, next)
            &&& h.upgrades_in_progress_dial is Some <==> next is DialUpgrade
            &&& h.upgrades_in_progress_dial is None ==> next is Interval
        }),
        ({
            let (t, next) = h.after_listen(upgrade, Ok(Async::NotReady));
            let kept = CITANodeHandler { upgrades_in_progress_listen: Some(upgrade), ..h };
            &&& is_handed_out(kept, t, next)
            &&& h.upgrades_in_progress_dial is Some <==> next is DialUpgrade
            &&& h.upgrades_in_progress_dial is None ==> next is Interval
        }),
        h.after_listen(upgrade, Err(())) == (h, custom::<S>(CITAOutEvent::Useless)),
{
}

/// An upgrade on the dialing side that is over becomes the substream for sending pings, is
/// no longer sought, and is pinged on at once, which is reported; one that is not over is
/// kept, and the timer is next. One that failed ends the poll, and the node is useless.
pub proof fn law_dial_upgrade_is_heeded<S: Substream>(
    h: CITANodeHandler<S>,
    upgrade: S::OutboundUpgrade,
    dialer: S::PingDialer,
)
    ensures
        ({
            let (t, step) = h.after_dial(upgrade, Ok(Async::Ready(dialer)));
            &&& t == (CITANodeHandler {
                ping_out_substream: Some(dialer),
                queued_dial_upgrades: false,
                notify: None,
                ..h
            })
            &&& step.ping
            &&& step.wake == h.notify
            &&& step.next == custom::<S>(CITAOutEvent::PingStart)
        }),
        ({
            let (t, step) = h.after_dial(upgrade, Ok(Async::NotReady));
            &&& t == (CITANodeHandler { upgrades_in_progress_dial: Some(upgrade), ..h })
            &&& !step.ping
            &&& step.wake is None
            &&& step.next is Interval
        }),
        ({
            let (t, step) = h.after_dial(upgrade, Err(()));
            &&& t == h
            &&& !step.ping
            &&& step.wake is None
            &&& step.next == custom::<S>(CITAOutEvent::Useless)
        }),
{
}

/// When the timer has not fired, the substream for receiving pings is polled, else that
/// for sending them; where neither is open and nothing is sought, the poll parks.
pub proof fn law_ping_substreams_are_polled<S: Substream>(h: CITANodeHandler<S>)
    requires
        h.num_out_user_must_open == 0,
    ensures
        ({
            let (t, step) = h.after_interval(Ok(Async::NotReady));
            &&& is_handed_out(h, t, step.next)
            &&& h.ping_in_substreams is Some <==> step.next is PingIn
            &&& h.ping_in_substreams is None ==> (h.ping_out_substream is Some <==> step.next
                is PingOut)
            &&& h.ping_in_substreams is None && h.ping_out_substream is None ==> step.next is Park
        }),
{
}

/// Pings of the remote are answered as long as its substream is open: a substream that is
/// not ready is kept, and one that was closed or failed is given up; then the substream
/// for sending pings is polled.
pub proof fn law_remote_pings_are_answered<S: Substream>(
    h: CITANodeHandler<S>,
    listener: S::PingListener,
    outcome: Result<Async<()>, ()>,
)
    requires
        h.num_out_user_must_open == 0,
    ensures
        ({
            let (t, next) = h.after_ping_in(listener, outcome);
            let kept = if outcome == Ok::<Async<()>, ()>(Async::NotReady) {
                CITANodeHandler { ping_in_substreams: Some(listener), ..h }
            } else {
                h
            };
            &&& is_handed_out(kept, t, next)
            &&& h.ping_out_substream is Some <==> next is PingOut
            &&& h.ping_out_substream is None ==> next is Park
        }),
{
}

/// A ping that was answered is reported with its time; a substream for sending pings that
/// was closed is asked for again at once; one that is not ready is kept, and one that
/// failed is given up, and either way the poll parks.
pub proof fn law_ping_answers_are_heeded<S: Substream>(
    h: CITANodeHandler<S>,
    dialer: S::PingDialer,
    elapsed: Duration,
)
    requires
        h.num_out_user_must_open == 0,
    ensures
        h.after_ping_out(dialer, Ok(Async::Ready(Some(elapsed)))) == (
            h,
            custom::<S>(CITAOutEvent::PingSuccess(elapsed)),
        ),
        h.after_ping_out(dialer, Ok(Async::Ready(None))) == (
            CITANodeHandler { queued_dial_upgrades: true, ..h },
            asks::<S>(),
        ),
        h.after_ping_out(dialer, Ok(Async::NotReady)) == (
            CITANodeHandler { ping_out_substream: Some(dialer), ..h },
            Next::<S>::Park,
        ),
        h.after_ping_out(dialer, Err(())) == (h, Next::<S>::Park),
{
}

/// A substream that the remote opens is upgraded, whatever else is open; one that this node
/// opens is upgraded exactly if it was asked for. Nothing else changes but that who waits
/// is woken.
pub proof fn law_opened_substream_is_upgraded<S: Substream>(
    h: CITANodeHandler<S>,
    inbound: S::InboundUpgrade,
    outbound: S::OutboundUpgrade,
)
    ensures
        ({
            let t = h.opened(OpenedSubstream::Listener(inbound));
            &&& t.upgrades_in_progress_listen == Some(inbound)
            &&& t.notify is None
            &&& h == (CITANodeHandler {
                upgrades_in_progress_listen: h.upgrades_in_progress_listen,
                notify: h.notify,
                ..t
            })
            &&& t.from_listen().1 == Next::<S>::ListenUpgrade(inbound)
        }),
        h.queued_dial_upgrades ==> {
            let t = h.opened(OpenedSubstream::Dialer(outbound));
            &&& t.upgrades_in_progress_dial == Some(outbound)
            &&& t.notify is None
            &&& h == (CITANodeHandler {
                upgrades_in_progress_dial: h.upgrades_in_progress_dial,
                notify: h.notify,
                ..t
            })
            &&& h.upgrades_in_progress_listen is None ==> t.from_listen().1 == Next::<
                S,
            >::DialUpgrade(outbound)
        },
        !h.queued_dial_upgrades ==> h.opened(OpenedSubstream::Dialer(outbound)) == h,
{
}

/// What a handler asks for, it gets: after a poll asked for a substream, one that is then
/// opened and whose upgrade is over at the next poll is pinged on.
pub proof fn law_requested_substream_is_pinged_on<S: Substream>(
    h: CITANodeHandler<S>,
    answers: Answers<S>,
    outbound: S::OutboundUpgrade,
    later: Answers<S>,
    dialer: S::PingDialer,
)
    requires
        h.wf(),
        polled(h, answers).1 == asks::<S>(),
        polled(h, answers).0.upgrades_in_progress_listen is None,
        later.dial == Ok::<Async<S::PingDialer>, ()>(Async::Ready(dialer)),
    ensures
        ({
            let t = polled(h, answers).0.opened(OpenedSubstream::Dialer(outbound));
            &&& polled(t, later).1 == custom::<S>(CITAOutEvent::PingStart)
            &&& polled(t, later).0.ping_out_substream == Some(dialer)
        }),
{
    law_substream_is_asked_for_once(h, answers);
    reveal_with_fuel(finished, 6);
}

/// What a handler reports reaches the service as it is.
pub proof fn law_reports_are_handed_on<S: Substream>(event: CITAOutEvent<S::Responder>)
    ensures
        custom::<S>(event) == Next::<S>::Return(
            Ok(Async::Ready(Some(NodeHandlerEvent::Custom(event)))),
        ),
{
}

} // verus!
