//! What holds of a whole poll of a handler, whatever its substreams answer, and of
//! handlers over their life.

use vstd::prelude::*;
use vstd::multiset::Multiset;
use std::time::Duration;
use crate::ping_node::cita_handler::{
    quiet, report, without, CITAOutEvent, FinalUpgrade, HandlerView, Next, OpenedSubstream, Signal,
    Substream, UpgradePurpose,
};
use crate::poll::Async;

verus! {

/// What the substreams of a connection answer when they are polled.
pub struct Answers<S: Substream> {
    pub upgrade: spec_fn(S::Upgrade) -> Result<Async<FinalUpgrade<S>>, ()>,
    pub ping_out: Result<Async<Option<Duration>>, ()>,
    pub ping_in: spec_fn(S::PingListener) -> Result<Async<()>, ()>,
}

/// A poll up to its end.
pub struct Run<S: Substream> {
    /// The handler at the end.
    pub handler: HandlerView<S>,
    /// How the poll ended: with a result, or parked.
    pub end: Next<S>,
    /// The upgrades on the listening side that were polled, in this order.
    pub listened: Seq<S::Upgrade>,
    /// The upgrades on the dialing side that were polled, in this order.
    pub dialed: Seq<(UpgradePurpose, S::Upgrade)>,
}

/// How far a poll has come: the later, the less.
pub open spec fn stage<S: Substream>(next: Next<S>) -> nat {
    match next {
        Next::ListenUpgrade { .. } => 4,
        Next::DialUpgrade { .. } => 3,
        Next::PingOut(_) => 2,
        Next::PingIn { .. } => 1,
        Next::Park => 0,
        Next::Return(_) => 0,
    }
}

/// What is left to be polled at the same stage.
pub open spec fn left_over<S: Substream>(next: Next<S>) -> nat {
    match next {
        Next::ListenUpgrade { left, .. } => left as nat,
        Next::DialUpgrade { left, .. } => left as nat,
        Next::PingIn { left, .. } => left as nat,
        _ => 0,
    }
}

/// A poll, from a step on to its end.
pub open spec fn finished<S: Substream>(h: HandlerView<S>, next: Next<S>, answers: Answers<S>) -> Run<
    S,
>
    decreases stage(next), left_over(next),
{
    match next {
        Next::ListenUpgrade { left, in_progress } => {
            let (t, step) = h.after_listen(
                left as int,
                in_progress,
                (answers.upgrade)(in_progress),
            );
            let run = finished(t, step.next, answers);
            Run { listened: seq![in_progress] + run.listened, ..run }
        },
        Next::DialUpgrade { left, purpose, in_progress } => {
            let (t, step) = h.after_dial(
                left as int,
                purpose,
                in_progress,
                (answers.upgrade)(in_progress),
            );
            let run = finished(t, step.next, answers);
            Run { dialed: seq![(purpose, in_progress)] + run.dialed, ..run }
        },
        Next::PingOut(dialer) => {
            let (t, next) = h.after_ping_out(dialer, answers.ping_out);
            finished(t, next, answers)
        },
        Next::PingIn { left, ping } => {
            let (t, next) = h.after_ping_in(left as int, ping, (answers.ping_in)(ping));
            finished(t, next, answers)
        },
        Next::Park => Run { handler: h, end: next, listened: seq![], dialed: seq![] },
        Next::Return(_) => Run { handler: h, end: next, listened: seq![], dialed: seq![] },
    }
}

/// A whole poll.
pub open spec fn polled<S: Substream>(h: HandlerView<S>, answers: Answers<S>) -> Run<S> {
    let (t, next) = h.from_start();
    finished(t, next, answers)
}

/// What a handler holds can be counted.
pub open spec fn countable<S: Substream>(h: HandlerView<S>) -> bool {
    h.listen.len() + h.dial.len() + h.ping_in.len() <= usize::MAX
}

/// Whether an upgrade is over, one way or the other.
pub open spec fn settled<S: Substream>(answers: Answers<S>) -> spec_fn(S::Upgrade) -> bool {
    |u: S::Upgrade|
        (answers.upgrade)(u) != Ok::<Async<FinalUpgrade<S>>, ()>(Async::<FinalUpgrade<S>>::NotReady)
}

proof fn lemma_without<A>(items: Seq<A>, i: int)
    requires
        0 <= i < items.len(),
    ensures
        without(items, i).to_multiset().insert(items[i]) == items.to_multiset(),
        without(items, i).len() == items.len() - 1,
        without(items, i).take(i) == items.take(i),
{
    broadcast use vstd::seq_lib::group_to_multiset_ensures;
    broadcast use vstd::multiset::group_multiset_axioms;

    assert(without(items, i).take(i) =~= items.take(i));
    let init = items.drop_last();
    assert(items =~= init.push(items.last()));
    if i < init.len() {
        // The last item takes the place of the `i`-th one.
        assert(without(items, i) =~= init.update(i, items.last()));
        assert(init.update(i, items.last()) =~= init.remove(i).insert(i, items.last()));
        assert(init.remove(i).insert(i, init[i]) =~= init);
        vstd::seq_lib::to_multiset_insert(init.remove(i), i, items.last());
        vstd::seq_lib::to_multiset_insert(init.remove(i), i, init[i]);
        assert(without(items, i).to_multiset().insert(items[i]) =~= items.to_multiset());
    } else {
        assert(without(items, i) =~= init);
    }
}

proof fn lemma_seq_front<A>(first: A, rest: Seq<A>)
    ensures
        (seq![first] + rest).to_multiset() == rest.to_multiset().insert(first),
{
    broadcast use vstd::multiset::group_multiset_axioms;

    assert(rest.insert(0, first) =~= seq![first] + rest);
    vstd::seq_lib::to_multiset_insert(rest, 0, first);
}

proof fn lemma_filter_front<A>(first: A, rest: Seq<A>, pred: spec_fn(A) -> bool)
    ensures
        (seq![first] + rest).filter(pred) == if pred(first) {
            seq![first] + rest.filter(pred)
        } else {
            rest.filter(pred)
        },
    decreases rest.len(),
{
    reveal(Seq::filter);
    let all = seq![first] + rest;
    if rest.len() == 0 {
        assert(all.drop_last() =~= seq![]);
        assert(rest.filter(pred) =~= seq![]);
        assert(all.filter(pred) =~= if pred(first) {
            seq![first] + rest.filter(pred)
        } else {
            rest.filter(pred)
        });
    } else {
        lemma_filter_front(first, rest.drop_last(), pred);
        assert(all.drop_last() =~= seq![first] + rest.drop_last());
        assert(all.filter(pred) =~= if pred(first) {
            seq![first] + rest.filter(pred)
        } else {
            rest.filter(pred)
        });
    }
}

proof fn lemma_filter_none<A>(items: Seq<A>, pred: spec_fn(A) -> bool)
    requires
        items.len() == 0,
    ensures
        items.filter(pred) == Seq::<A>::empty(),
        items.filter(pred).to_multiset() == Multiset::<A>::empty(),
{
    broadcast use vstd::multiset::group_multiset_axioms;

    reveal(Seq::filter);
    assert(items.filter(pred) =~= Seq::<A>::empty());
    assert forall|a: A| Seq::<A>::empty().to_multiset().count(a) == 0 by {
        vstd::seq_lib::to_multiset_contains(Seq::<A>::empty(), a);
    }
    assert(Seq::<A>::empty().to_multiset() =~= Multiset::<A>::empty());
}

proof fn lemma_add_nothing<A>(all: Multiset<A>)
    ensures
        all.add(Multiset::<A>::empty()) == all,
{
    broadcast use vstd::multiset::group_multiset_axioms;

    assert(all.add(Multiset::<A>::empty()) =~= all);
}

// One more item is taken from a list and dropped where it is settled, else put back.
proof fn lemma_first_settled<A>(
    all: Multiset<A>,
    left: Multiset<A>,
    first: A,
    kept: Multiset<A>,
    rest: Seq<A>,
    pred: spec_fn(A) -> bool,
)
    requires
        left.insert(first) == all,
        pred(first) ==> left == kept.add(rest.filter(pred).to_multiset()),
        !pred(first) ==> all == kept.add(rest.filter(pred).to_multiset()),
    ensures
        all == kept.add((seq![first] + rest).filter(pred).to_multiset()),
{
    broadcast use vstd::multiset::group_multiset_axioms;

    lemma_filter_front(first, rest, pred);
    lemma_seq_front(first, rest.filter(pred));
    assert(all =~= kept.add((seq![first] + rest).filter(pred).to_multiset()));
}

// From the dialing side on, the upgrades on the listening side stay as they are.
proof fn lemma_listen_stays<S: Substream>(h: HandlerView<S>, next: Next<S>, answers: Answers<S>)
    requires
        next !is ListenUpgrade,
    ensures
        finished(h, next, answers).handler.listen == h.listen,
        finished(h, next, answers).listened == Seq::<S::Upgrade>::empty(),
    decreases stage(next), left_over(next),
{
    match next {
        Next::DialUpgrade { left, purpose, in_progress } => {
            let (t, step) = h.after_dial(
                left as int,
                purpose,
                in_progress,
                (answers.upgrade)(in_progress),
            );
            lemma_listen_stays(t, step.next, answers);
        },
        Next::PingOut(dialer) => {
            let (t, next) = h.after_ping_out(dialer, answers.ping_out);
            lemma_listen_stays(t, next, answers);
        },
        Next::PingIn { left, ping } => {
            let (t, next) = h.after_ping_in(left as int, ping, (answers.ping_in)(ping));
            lemma_listen_stays(t, next, answers);
        },
        _ => {},
    }
}

#[verifier::spinoff_prover]
proof fn lemma_listening<S: Substream>(h: HandlerView<S>, left: int, answers: Answers<S>)
    requires
        0 <= left <= h.listen.len(),
        left <= usize::MAX,
    ensures
        ({
            let (t, next) = h.from_listen(left);
            let run = finished(t, next, answers);
            &&& run.listened.is_prefix_of(h.listen.take(left).reverse())
            &&& h.listen.to_multiset() == run.handler.listen.to_multiset().add(
                run.listened.filter(settled(answers)).to_multiset(),
            )
        }),
    decreases left, 1int,
{
    let (t, next) = h.from_listen(left);
    let run = finished(t, next, answers);
    if left == 0 {
        lemma_listen_stays(t, next, answers);
        lemma_filter_none(run.listened, settled(answers));
        lemma_add_nothing(h.listen.to_multiset());
    } else {
        let first = h.listen[left - 1];
        let (u, step) = t.after_listen(left - 1, first, (answers.upgrade)(first));
        let rest = finished(u, step.next, answers);
        assert(run == (Run { listened: seq![first] + rest.listened, ..rest }));
        lemma_without(h.listen, left - 1);
        lemma_listen_on(t, left - 1, first, answers);
        lemma_first_settled(
            h.listen.to_multiset(),
            t.listen.to_multiset(),
            first,
            rest.handler.listen.to_multiset(),
            rest.listened,
            settled(answers),
        );
        assert(h.listen.take(left).reverse() =~= seq![first] + h.listen.take(left - 1).reverse());
    }
}

// One upgrade is polled, and then those before it.
proof fn lemma_listen_on<S: Substream>(
    t: HandlerView<S>,
    left: int,
    first: S::Upgrade,
    answers: Answers<S>,
)
    requires
        0 <= left <= t.listen.len(),
        left <= usize::MAX,
    ensures
        ({
            let (u, step) = t.after_listen(left, first, (answers.upgrade)(first));
            let rest = finished(u, step.next, answers);
            let gone = rest.listened.filter(settled(answers)).to_multiset();
            &&& rest.listened.is_prefix_of(t.listen.take(left).reverse())
            &&& settled(answers)(first) ==> t.listen.to_multiset()
                == rest.handler.listen.to_multiset().add(gone)
            &&& !settled(answers)(first) ==> t.listen.to_multiset().insert(first)
                == rest.handler.listen.to_multiset().add(gone)
        }),
    decreases left + 1, 0int,
{
    let outcome = (answers.upgrade)(first);
    let (u, step) = t.after_listen(left, first, outcome);
    let rest = finished(u, step.next, answers);
    match outcome {
        Ok(Async::Ready(upgrade)) => {
            if upgrade is PingDialer {
                lemma_filter_none(rest.listened, settled(answers));
                lemma_add_nothing(t.listen.to_multiset());
            } else {
                lemma_listening(t.negotiated(upgrade), left, answers);
            }
        },
        Ok(Async::NotReady) => {
            let v = HandlerView { listen: t.listen.push(first), ..t };
            assert(v.listen.take(left) =~= t.listen.take(left));
            vstd::seq_lib::to_multiset_build(t.listen, first);
            lemma_listening(v, left, answers);
        },
        Err(_) => {
            lemma_filter_none(rest.listened, settled(answers));
            lemma_add_nothing(t.listen.to_multiset());
        },
    }
}

/// A poll takes the upgrades on the listening side from the last one on, each at most
/// once, and drops exactly those that it polled and that are over.
pub proof fn law_listening_upgrades_are_kept_until_settled<S: Substream>(
    h: HandlerView<S>,
    answers: Answers<S>,
)
    requires
        countable(h),
    ensures
        polled(h, answers).listened.is_prefix_of(h.listen.reverse()),
        h.listen.to_multiset() == polled(h, answers).handler.listen.to_multiset().add(
            polled(h, answers).listened.filter(settled(answers)).to_multiset(),
        ),
{
    assert(h.listen.take(h.listen.len() as int) =~= h.listen);
    lemma_listening(h, h.listen.len() as int, answers);
}

/// Whether an upgrade for a purpose is over, one way or the other.
pub open spec fn settled_for<S: Substream>(answers: Answers<S>) -> spec_fn(
    (UpgradePurpose, S::Upgrade),
) -> bool {
    |e: (UpgradePurpose, S::Upgrade)| settled(answers)(e.1)
}

/// The end of a poll that sent a ping.
pub open spec fn ping_started<S: Substream>() -> Next<S> {
    report(CITAOutEvent::PingStart)
}

// From the pings on, the upgrades on the dialing side stay as they are.
proof fn lemma_dial_stays<S: Substream>(h: HandlerView<S>, next: Next<S>, answers: Answers<S>)
    requires
        next !is ListenUpgrade,
        next !is DialUpgrade,
    ensures
        finished(h, next, answers).handler.dial == h.dial,
        finished(h, next, answers).dialed == Seq::<(UpgradePurpose, S::Upgrade)>::empty(),
    decreases stage(next), left_over(next),
{
    match next {
        Next::PingOut(dialer) => {
            let (t, next) = h.after_ping_out(dialer, answers.ping_out);
            lemma_dial_stays(t, next, answers);
        },
        Next::PingIn { left, ping } => {
            let (t, next) = h.after_ping_in(left as int, ping, (answers.ping_in)(ping));
            lemma_dial_stays(t, next, answers);
        },
        _ => {},
    }
}

#[verifier::spinoff_prover]
proof fn lemma_dialing<S: Substream>(h: HandlerView<S>, left: int, answers: Answers<S>)
    requires
        0 <= left <= h.dial.len(),
        left <= usize::MAX,
        finished(h.from_dial(left).0, h.from_dial(left).1, answers).end != ping_started::<S>(),
    ensures
        ({
            let (t, next) = h.from_dial(left);
            let run = finished(t, next, answers);
            &&& run.dialed.is_prefix_of(h.dial.take(left).reverse())
            &&& h.dial.to_multiset() == run.handler.dial.to_multiset().add(
                run.dialed.filter(settled_for(answers)).to_multiset(),
            )
        }),
    decreases left, 1int,
{
    let (t, next) = h.from_dial(left);
    let run = finished(t, next, answers);
    if left == 0 {
        lemma_dial_stays(t, next, answers);
        lemma_filter_none(run.dialed, settled_for(answers));
        lemma_add_nothing(h.dial.to_multiset());
    } else {
        let first = h.dial[left - 1];
        let (u, step) = t.after_dial(left - 1, first.0, first.1, (answers.upgrade)(first.1));
        let rest = finished(u, step.next, answers);
        assert(run == (Run { dialed: seq![first] + rest.dialed, ..rest }));
        lemma_without(h.dial, left - 1);
        lemma_dial_on(t, left - 1, first, answers);
        lemma_first_settled(
            h.dial.to_multiset(),
            t.dial.to_multiset(),
            first,
            rest.handler.dial.to_multiset(),
            rest.dialed,
            settled_for(answers),
        );
        assert(h.dial.take(left).reverse() =~= seq![first] + h.dial.take(left - 1).reverse());
    }
}

// One upgrade is polled, and then those before it.
proof fn lemma_dial_on<S: Substream>(
    t: HandlerView<S>,
    left: int,
    first: (UpgradePurpose, S::Upgrade),
    answers: Answers<S>,
)
    requires
        0 <= left <= t.dial.len(),
        left <= usize::MAX,
        ({
            let (u, step) = t.after_dial(left, first.0, first.1, (answers.upgrade)(first.1));
            finished(u, step.next, answers).end != ping_started::<S>()
        }),
    ensures
        ({
            let (u, step) = t.after_dial(left, first.0, first.1, (answers.upgrade)(first.1));
            let rest = finished(u, step.next, answers);
            let gone = rest.dialed.filter(settled_for(answers)).to_multiset();
            &&& rest.dialed.is_prefix_of(t.dial.take(left).reverse())
            &&& settled_for(answers)(first) ==> t.dial.to_multiset()
                == rest.handler.dial.to_multiset().add(gone)
            &&& !settled_for(answers)(first) ==> t.dial.to_multiset().insert(first)
                == rest.handler.dial.to_multiset().add(gone)
        }),
    decreases left + 1, 0int,
{
    let outcome = (answers.upgrade)(first.1);
    let (u, step) = t.after_dial(left, first.0, first.1, outcome);
    let rest = finished(u, step.next, answers);
    match outcome {
        Ok(Async::Ready(upgrade)) => {
            if upgrade is PingDialer {
                assert(rest.end == ping_started::<S>());
            } else {
                lemma_dialing(t.negotiated(upgrade), left, answers);
            }
        },
        Ok(Async::NotReady) => {
            let v = HandlerView { dial: t.dial.push(first), ..t };
            assert(v.dial.take(left) =~= t.dial.take(left));
            vstd::seq_lib::to_multiset_build(t.dial, first);
            lemma_dialing(v, left, answers);
        },
        Err(_) => {
            lemma_filter_none(rest.dialed, settled_for(answers));
            lemma_add_nothing(t.dial.to_multiset());
        },
    }
}

proof fn lemma_dialing_after_listening<S: Substream>(
    h: HandlerView<S>,
    left: int,
    answers: Answers<S>,
)
    requires
        0 <= left <= h.listen.len(),
        left <= usize::MAX,
        h.dial.len() <= usize::MAX,
        finished(h.from_listen(left).0, h.from_listen(left).1, answers).end != ping_started::<S>(),
    ensures
        ({
            let (t, next) = h.from_listen(left);
            let run = finished(t, next, answers);
            &&& run.dialed.is_prefix_of(h.dial.reverse())
            &&& h.dial.to_multiset() == run.handler.dial.to_multiset().add(
                run.dialed.filter(settled_for(answers)).to_multiset(),
            )
        }),
    decreases left,
{
    broadcast use vstd::multiset::group_multiset_axioms;

    let (t, next) = h.from_listen(left);
    if left == 0 {
        assert(h.dial.take(h.dial.len() as int) =~= h.dial);
        lemma_dialing(h, h.dial.len() as int, answers);
    } else {
        let first = h.listen[left - 1];
        let outcome = (answers.upgrade)(first);
        let (u, step) = t.after_listen(left - 1, first, outcome);
        let rest = finished(u, step.next, answers);
        match outcome {
            Ok(Async::Ready(upgrade)) => {
                lemma_dialing_after_listening(t.negotiated(upgrade), left - 1, answers);
            },
            Ok(Async::NotReady) => {
                let v = HandlerView { listen: t.listen.push(first), ..t };
                lemma_dialing_after_listening(v, left - 1, answers);
            },
            Err(_) => {
                lemma_filter_none(rest.dialed, settled_for(answers));
                assert(h.dial.to_multiset() =~= rest.handler.dial.to_multiset().add(
                    rest.dialed.filter(settled_for(answers)).to_multiset(),
                ));
            },
        }
    }
}

/// A poll that does not send a ping takes the upgrades on the dialing side from the last
/// one on, each at most once, and drops exactly those that it polled and that are over.
pub proof fn law_dialing_upgrades_are_kept_until_settled<S: Substream>(
    h: HandlerView<S>,
    answers: Answers<S>,
)
    requires
        countable(h),
        polled(h, answers).end != ping_started::<S>(),
    ensures
        polled(h, answers).dialed.is_prefix_of(h.dial.reverse()),
        h.dial.to_multiset() == polled(h, answers).handler.dial.to_multiset().add(
            polled(h, answers).dialed.filter(settled_for(answers)).to_multiset(),
        ),
{
    lemma_dialing_after_listening(h, h.listen.len() as int, answers);
}

/// The purposes for which substreams are being upgraded or are to be opened.
pub open spec fn purposes<S: Substream>(h: HandlerView<S>) -> Multiset<UpgradePurpose> {
    h.dial.map_values(|e: (UpgradePurpose, S::Upgrade)| e.0).to_multiset().add(
        h.queued.to_multiset(),
    )
}

/// How often a substream for pings is being sought.
pub open spec fn pings_sought<S: Substream>(h: HandlerView<S>) -> nat {
    purposes(h).count(UpgradePurpose::Ping)
}

/// What holds of a handler between polls: a substream for pings is sought at most once,
/// and not at all where one is open.
pub open spec fn wf<S: Substream>(h: HandlerView<S>) -> bool {
    &&& pings_sought(h) <= 1
    &&& h.ping_out is Some ==> pings_sought(h) == 0
}

proof fn lemma_filtered<A>(items: Seq<A>, pred: spec_fn(A) -> bool, k: int)
    requires
        0 <= k < items.filter(pred).len(),
    ensures
        pred(items.filter(pred)[k]),
    decreases items.len(),
{
    reveal(Seq::filter);
    if items.len() > 0 {
        let init = items.drop_last();
        if k < init.filter(pred).len() {
            lemma_filtered(init, pred, k);
        }
    }
}

/// With a new substream for pings, none is sought.
proof fn lemma_with_ping_out<S: Substream>(h: HandlerView<S>, dialer: S::PingDialer)
    ensures
        pings_sought(h.with_ping_out(dialer)) == 0,
        !h.with_ping_out(dialer).has_purpose(UpgradePurpose::Ping),
{
    let t = h.with_ping_out(dialer);
    assert forall|i: int| 0 <= i < t.dial.len() implies (#[trigger] t.dial[i]).0
        != UpgradePurpose::Ping by {
        lemma_filtered(
            h.dial,
            |e: (UpgradePurpose, S::Upgrade)| e.0 != UpgradePurpose::Ping,
            i,
        );
    }
    assert forall|i: int| 0 <= i < t.queued.len() implies (#[trigger] t.queued[i])
        != UpgradePurpose::Ping by {
        lemma_filtered(h.queued, |p: UpgradePurpose| p != UpgradePurpose::Ping, i);
    }
    law_purposes_are_found(t, UpgradePurpose::Ping);
}

proof fn lemma_dial_pushed<S: Substream>(h: HandlerView<S>, e: (UpgradePurpose, S::Upgrade))
    ensures
        purposes(HandlerView { dial: h.dial.push(e), ..h }) == purposes(h).insert(e.0),
{
    broadcast use vstd::seq_lib::group_to_multiset_ensures;
    broadcast use vstd::multiset::group_multiset_axioms;

    let f = |e: (UpgradePurpose, S::Upgrade)| e.0;
    assert(h.dial.push(e).map_values(f) =~= h.dial.map_values(f).push(e.0));
    assert(purposes(HandlerView { dial: h.dial.push(e), ..h }) =~= purposes(h).insert(e.0));
}

proof fn lemma_dial_taken<S: Substream>(h: HandlerView<S>, i: int)
    requires
        0 <= i < h.dial.len(),
    ensures
        purposes(HandlerView { dial: without(h.dial, i), ..h }).insert(h.dial[i].0) == purposes(h),
{
    broadcast use vstd::multiset::group_multiset_axioms;

    let f = |e: (UpgradePurpose, S::Upgrade)| e.0;
    assert(without(h.dial, i).map_values(f) =~= without(h.dial.map_values(f), i));
    lemma_without(h.dial.map_values(f), i);
    assert(purposes(HandlerView { dial: without(h.dial, i), ..h }).insert(h.dial[i].0)
        =~= purposes(h));
}

/// A new handler seeks one substream for pings.
pub proof fn law_new_handler_seeks_one<S: Substream>(h: HandlerView<S>)
    requires
        h.ping_out is None,
        h.dial.len() == 0,
        h.queued == seq![UpgradePurpose::Ping],
    ensures
        wf(h),
        pings_sought(h) == 1,
{
    broadcast use vstd::seq_lib::group_to_multiset_ensures;
    broadcast use vstd::multiset::group_multiset_axioms;

    let none = h.dial.map_values(|e: (UpgradePurpose, S::Upgrade)| e.0);
    assert(h.queued =~= Seq::<UpgradePurpose>::empty().push(UpgradePurpose::Ping));
    assert(!Seq::<UpgradePurpose>::empty().contains(UpgradePurpose::Ping));
    assert(Seq::<UpgradePurpose>::empty().to_multiset().count(UpgradePurpose::Ping) == 0);
    assert(!none.contains(UpgradePurpose::Ping));
    assert(none.to_multiset().count(UpgradePurpose::Ping) == 0);
}

/// Trying to ping either sends a ping or leaves a substream for pings being sought;
/// trying again then changes nothing and wakes nobody.
pub proof fn law_ping_is_sought_once<S: Substream>(h: HandlerView<S>)
    requires
        wf(h),
    ensures
        wf(h.pinged()),
        h.ping_signal().ping <==> h.ping_out is Some,
        h.ping_out is None ==> pings_sought(h.pinged()) == 1,
        h.ping_out is None ==> h.pinged().pinged() == h.pinged(),
        h.ping_out is None ==> h.pinged().ping_signal().wake is None,
{
    broadcast use vstd::seq_lib::group_to_multiset_ensures;
    broadcast use vstd::multiset::group_multiset_axioms;

    law_purposes_are_found(h, UpgradePurpose::Ping);
    law_purposes_are_found(h.pinged(), UpgradePurpose::Ping);
}

/// A substream that is opened takes the first purpose out of the queue, and no purpose
/// is lost.
pub proof fn law_opened_substream_keeps_purposes<S: Substream>(
    h: HandlerView<S>,
    substream: OpenedSubstream<S>,
)
    requires
        wf(h),
    ensures
        wf(h.opened(substream)),
        purposes(h.opened(substream)) == purposes(h),
{
    broadcast use vstd::multiset::group_multiset_axioms;

    if let OpenedSubstream::Dialer(upgrade) = substream {
        if h.queued.len() > 0 {
            let first = h.queued[0];
            let t = HandlerView { queued: h.queued.skip(1), ..h };
            lemma_dial_pushed(t, (first, upgrade));
            assert(h.queued =~= seq![first] + h.queued.skip(1));
            lemma_seq_front(first, h.queued.skip(1));
            assert(purposes(h.opened(substream)) =~= purposes(h));
        }
    }
}

/// Whether an upgrade that is just being polled is one for pings.
pub open spec fn ping_in_hand<S: Substream>(next: Next<S>) -> nat {
    match next {
        Next::DialUpgrade { purpose: UpgradePurpose::Ping, .. } => 1,
        _ => 0,
    }
}

/// As between polls, with the upgrade and the substream that are just being polled.
pub open spec fn wf_within<S: Substream>(h: HandlerView<S>, next: Next<S>) -> bool {
    let sought = pings_sought(h) + ping_in_hand(next);
    &&& sought <= 1
    &&& h.ping_out is Some || next is PingOut ==> sought == 0
    &&& next == ping_started::<S>() ==> h.ping_out is Some
    &&& next matches Next::ListenUpgrade { left, .. } ==> left <= h.listen.len() < usize::MAX
    &&& next matches Next::DialUpgrade { left, .. } ==> left <= h.dial.len() < usize::MAX
    &&& h.dial.len() <= usize::MAX
}

proof fn lemma_from_dial<S: Substream>(h: HandlerView<S>, left: int)
    requires
        wf(h),
        0 <= left <= h.dial.len() <= usize::MAX,
    ensures
        wf_within(h.from_dial(left).0, h.from_dial(left).1),
{
    broadcast use vstd::multiset::group_multiset_axioms;

    if left > 0 {
        lemma_dial_taken(h, left - 1);
    }
}

proof fn lemma_from_listen<S: Substream>(h: HandlerView<S>, left: int)
    requires
        wf(h),
        0 <= left <= h.listen.len() <= usize::MAX,
        h.dial.len() <= usize::MAX,
    ensures
        wf_within(h.from_listen(left).0, h.from_listen(left).1),
{
    if left == 0 {
        lemma_from_dial(h, h.dial.len() as int);
    }
}

proof fn lemma_finished<S: Substream>(h: HandlerView<S>, next: Next<S>, answers: Answers<S>)
    requires
        wf_within(h, next),
    ensures
        wf(finished(h, next, answers).handler),
        finished(h, next, answers).end == ping_started::<S>() ==> finished(
            h,
            next,
            answers,
        ).handler.ping_out is Some,
    decreases stage(next), left_over(next),
{
    broadcast use vstd::multiset::group_multiset_axioms;

    match next {
        Next::ListenUpgrade { left, in_progress } => {
            let outcome = (answers.upgrade)(in_progress);
            let (t, step) = h.after_listen(left as int, in_progress, outcome);
            match outcome {
                Ok(Async::Ready(upgrade)) => {
                    if let FinalUpgrade::PingDialer(dialer) = upgrade {
                        lemma_with_ping_out(h, dialer);
                    } else {
                        lemma_from_listen(h.negotiated(upgrade), left as int);
                    }
                },
                Ok(Async::NotReady) => {
                    let v = HandlerView { listen: h.listen.push(in_progress), ..h };
                    lemma_from_listen(v, left as int);
                },
                Err(_) => {},
            }
            lemma_finished(t, step.next, answers);
        },
        Next::DialUpgrade { left, purpose, in_progress } => {
            let outcome = (answers.upgrade)(in_progress);
            let (t, step) = h.after_dial(left as int, purpose, in_progress, outcome);
            match outcome {
                Ok(Async::Ready(upgrade)) => {
                    if let FinalUpgrade::PingDialer(dialer) = upgrade {
                        lemma_with_ping_out(h, dialer);
                    } else {
                        lemma_from_dial(h.negotiated(upgrade), left as int);
                    }
                },
                Ok(Async::NotReady) => {
                    lemma_dial_pushed(h, (purpose, in_progress));
                    let v = HandlerView { dial: h.dial.push((purpose, in_progress)), ..h };
                    lemma_from_dial(v, left as int);
                },
                Err(_) => {},
            }
            lemma_finished(t, step.next, answers);
        },
        Next::PingOut(dialer) => {
            let (t, next) = h.after_ping_out(dialer, answers.ping_out);
            lemma_finished(t, next, answers);
        },
        Next::PingIn { left, ping } => {
            let (t, next) = h.after_ping_in(left as int, ping, (answers.ping_in)(ping));
            lemma_finished(t, next, answers);
        },
        Next::Park => {},
        Next::Return(_) => {},
    }
}

/// A poll never seeks a second substream for pings. One that sent a ping leaves the
/// substream for pings open.
pub proof fn law_poll_seeks_at_most_one<S: Substream>(h: HandlerView<S>, answers: Answers<S>)
    requires
        wf(h),
        countable(h),
    ensures
        wf(polled(h, answers).handler),
        polled(h, answers).end == ping_started::<S>() ==> polled(h, answers).handler.ping_out is Some,
{
    lemma_from_listen(h, h.listen.len() as int);
    let (t, next) = h.from_start();
    lemma_finished(t, next, answers);
}

/// A poll that reports an answered ping was told so by the substream for pings, which it
/// then gives up; and that substream was open before.
pub proof fn law_ping_success_is_told<S: Substream>(
    h: HandlerView<S>,
    answers: Answers<S>,
    elapsed: Duration,
)
    requires
        countable(h),
        polled(h, answers).end == report::<S>(CITAOutEvent::PingSuccess(elapsed)),
    ensures
        answers.ping_out == Ok::<_, ()>(Async::Ready(Some(elapsed))),
        h.ping_out is Some,
        polled(h, answers).handler.ping_out is None,
{
    let (t, next) = h.from_start();
    lemma_success(t, next, answers, elapsed);
}

proof fn lemma_success<S: Substream>(
    h: HandlerView<S>,
    next: Next<S>,
    answers: Answers<S>,
    elapsed: Duration,
)
    requires
        next is PingOut ==> h.ping_out is None,
        next != report::<S>(CITAOutEvent::PingSuccess(elapsed)),
        finished(h, next, answers).end == report::<S>(CITAOutEvent::PingSuccess(elapsed)),
    ensures
        answers.ping_out == Ok::<_, ()>(Async::Ready(Some(elapsed))),
        next is PingOut || h.ping_out is Some,
        next !is PingIn,
        finished(h, next, answers).handler.ping_out is None,
    decreases stage(next), left_over(next),
{
    match next {
        Next::ListenUpgrade { left, in_progress } => {
            let (t, step) = h.after_listen(
                left as int,
                in_progress,
                (answers.upgrade)(in_progress),
            );
            lemma_success(t, step.next, answers, elapsed);
        },
        Next::DialUpgrade { left, purpose, in_progress } => {
            let (t, step) = h.after_dial(
                left as int,
                purpose,
                in_progress,
                (answers.upgrade)(in_progress),
            );
            lemma_success(t, step.next, answers, elapsed);
        },
        Next::PingOut(dialer) => {
            let (t, after) = h.after_ping_out(dialer, answers.ping_out);
            if after != report::<S>(CITAOutEvent::PingSuccess(elapsed)) {
                lemma_success(t, after, answers, elapsed);
            }
        },
        Next::PingIn { left, ping } => {
            let (t, after) = h.after_ping_in(left as int, ping, (answers.ping_in)(ping));
            lemma_success(t, after, answers, elapsed);
        },
        Next::Park => {},
        Next::Return(_) => {},
    }
}

/// A poll finds the node unresponsive exactly when it polled an upgrade that failed.
pub proof fn law_unresponsive_means_failed_upgrade<S: Substream>(
    h: HandlerView<S>,
    answers: Answers<S>,
)
    ensures
        polled(h, answers).end == report::<S>(CITAOutEvent::Unresponsive) <==> met_failure(
            polled(h, answers),
            answers,
        ),
{
    let (t, next) = h.from_start();
    lemma_unresponsive(t, next, answers);
}

/// Whether a poll came upon an upgrade that failed.
pub open spec fn met_failure<S: Substream>(run: Run<S>, answers: Answers<S>) -> bool {
    ||| exists|i: int|
        0 <= i < run.listened.len() && (answers.upgrade)(#[trigger] run.listened[i]) is Err
    ||| exists|i: int|
        0 <= i < run.dialed.len() && (answers.upgrade)((#[trigger] run.dialed[i]).1) is Err
}

proof fn lemma_failure_front<S: Substream>(run: Run<S>, first: S::Upgrade, answers: Answers<S>)
    ensures
        met_failure(Run { listened: seq![first] + run.listened, ..run }, answers) <==> (
        answers.upgrade)(first) is Err || met_failure(run, answers),
{
    let all = seq![first] + run.listened;
    assert(all[0] == first);
    assert forall|i: int| 0 <= i < run.listened.len() implies #[trigger] run.listened[i] == all[i
        + 1] by {}
    if exists|i: int| 0 <= i < all.len() && (answers.upgrade)(#[trigger] all[i]) is Err {
        let i = choose|i: int| 0 <= i < all.len() && (answers.upgrade)(#[trigger] all[i]) is Err;
        if i > 0 {
            assert(run.listened[i - 1] == all[i]);
        }
    }
}

proof fn lemma_failure_front_dialed<S: Substream>(
    run: Run<S>,
    first: (UpgradePurpose, S::Upgrade),
    answers: Answers<S>,
)
    ensures
        met_failure(Run { dialed: seq![first] + run.dialed, ..run }, answers) <==> (
        answers.upgrade)(first.1) is Err || met_failure(run, answers),
{
    let all = seq![first] + run.dialed;
    assert(all[0] == first);
    assert forall|i: int| 0 <= i < run.dialed.len() implies #[trigger] run.dialed[i] == all[i
        + 1] by {}
    if exists|i: int| 0 <= i < all.len() && (answers.upgrade)((#[trigger] all[i]).1) is Err {
        let i = choose|i: int|
            0 <= i < all.len() && (answers.upgrade)((#[trigger] all[i]).1) is Err;
        if i > 0 {
            assert(run.dialed[i - 1] == all[i]);
        }
    }
}

proof fn lemma_unresponsive<S: Substream>(h: HandlerView<S>, next: Next<S>, answers: Answers<S>)
    requires
        next != report::<S>(CITAOutEvent::Unresponsive),
    ensures
        finished(h, next, answers).end == report::<S>(CITAOutEvent::Unresponsive) <==> met_failure(
            finished(h, next, answers),
            answers,
        ),
    decreases stage(next), left_over(next),
{
    match next {
        Next::ListenUpgrade { left, in_progress } => {
            let outcome = (answers.upgrade)(in_progress);
            let (t, step) = h.after_listen(left as int, in_progress, outcome);
            let rest = finished(t, step.next, answers);
            lemma_failure_front(rest, in_progress, answers);
            if outcome is Ok {
                lemma_unresponsive(t, step.next, answers);
            }
        },
        Next::DialUpgrade { left, purpose, in_progress } => {
            let outcome = (answers.upgrade)(in_progress);
            let (t, step) = h.after_dial(left as int, purpose, in_progress, outcome);
            let rest = finished(t, step.next, answers);
            lemma_failure_front_dialed(rest, (purpose, in_progress), answers);
            if outcome is Ok {
                lemma_unresponsive(t, step.next, answers);
            }
        },
        Next::PingOut(dialer) => {
            let (t, after) = h.after_ping_out(dialer, answers.ping_out);
            lemma_unresponsive(t, after, answers);
        },
        Next::PingIn { left, ping } => {
            let (t, after) = h.after_ping_in(left as int, ping, (answers.ping_in)(ping));
            lemma_unresponsive(t, after, answers);
        },
        Next::Park => {},
        Next::Return(_) => {},
    }
}

/// Whether a substream for receiving pings was closed, or failed.
pub open spec fn closed<S: Substream>(answers: Answers<S>) -> spec_fn(S::PingListener) -> bool {
    |ping: S::PingListener| (answers.ping_in)(ping) != Ok::<Async<()>, ()>(Async::<()>::NotReady)
}

proof fn lemma_answering<S: Substream>(h: HandlerView<S>, left: int, answers: Answers<S>)
    requires
        0 <= left <= h.ping_in.len(),
        left <= usize::MAX,
    ensures
        ({
            let (t, next) = h.from_ping_in(left);
            let run = finished(t, next, answers);
            &&& run.end is Park
            &&& h.ping_in.to_multiset() == run.handler.ping_in.to_multiset().add(
                h.ping_in.take(left).filter(closed(answers)).to_multiset(),
            )
        }),
    decreases left,
{
    let (t, next) = h.from_ping_in(left);
    let run = finished(t, next, answers);
    if left == 0 {
        lemma_filter_none(h.ping_in.take(0), closed(answers));
        lemma_add_nothing(h.ping_in.to_multiset());
    } else {
        let first = h.ping_in[left - 1];
        let before = h.ping_in.take(left - 1);
        lemma_without(h.ping_in, left - 1);
        reveal(Seq::filter);
        assert(h.ping_in.take(left).drop_last() =~= before);
        let gone = before.filter(closed(answers));
        if closed(answers)(first) {
            lemma_answering(t, left - 1, answers);
            vstd::seq_lib::to_multiset_build(gone, first);
            lemma_insert_into_sum(run.handler.ping_in.to_multiset(), gone.to_multiset(), first);
        } else {
            let v = HandlerView { ping_in: t.ping_in.push(first), ..t };
            assert(v.ping_in.take(left - 1) =~= before);
            vstd::seq_lib::to_multiset_build(t.ping_in, first);
            lemma_answering(v, left - 1, answers);
        }
    }
}

proof fn lemma_insert_into_sum<A>(a: Multiset<A>, b: Multiset<A>, x: A)
    ensures
        a.add(b).insert(x) == a.add(b.insert(x)),
{
    broadcast use vstd::multiset::group_multiset_axioms;

    assert(a.add(b).insert(x) =~= a.add(b.insert(x)));
}

/// Once the upgrades and the substream for sending pings were polled, a poll goes
/// through all substreams for receiving pings and parks; it drops exactly those that
/// were closed or failed.
pub proof fn law_ping_listeners_are_kept_until_closed<S: Substream>(
    h: HandlerView<S>,
    answers: Answers<S>,
)
    requires
        countable(h),
    ensures
        ({
            let (t, next) = h.from_ping_in(h.ping_in.len() as int);
            let run = finished(t, next, answers);
            &&& run.end is Park
            &&& h.ping_in.to_multiset() == run.handler.ping_in.to_multiset().add(
                h.ping_in.filter(closed(answers)).to_multiset(),
            )
        }),
{
    assert(h.ping_in.take(h.ping_in.len() as int) =~= h.ping_in);
    lemma_answering(h, h.ping_in.len() as int, answers);
}

/// How many upgrades on either side a poll that parks has polled from a step on.
proof fn lemma_parked<S: Substream>(h: HandlerView<S>, next: Next<S>, answers: Answers<S>)
    requires
        finished(h, next, answers).end is Park,
        next is ListenUpgrade ==> h.dial.len() <= usize::MAX,
        next matches Next::ListenUpgrade { left, .. } ==> left <= h.listen.len() < usize::MAX,
        next matches Next::DialUpgrade { left, .. } ==> left <= h.dial.len() < usize::MAX,
        next is PingOut ==> h.ping_out is None,
    ensures
        ({
            let run = finished(h, next, answers);
            &&& next matches Next::ListenUpgrade { left, .. } ==> run.listened.len() == left + 1
                && run.dialed.len() == h.dial.len()
            &&& next matches Next::DialUpgrade { left, .. } ==> run.listened.len() == 0
                && run.dialed.len() == left + 1
            &&& next is PingOut || next is PingIn || next is Park ==> run.listened.len() == 0
                && run.dialed.len() == 0
            &&& next is PingIn || next is Park ==> run.handler.ping_out == h.ping_out
            &&& next matches Next::PingOut(dialer) ==> {
                let waits = answers.ping_out == Ok::<Async<Option<Duration>>, ()>(Async::NotReady);
                &&& waits ==> run.handler.ping_out == Some(dialer)
                &&& !waits ==> run.handler.ping_out is None
            }
            &&& next is ListenUpgrade || next is DialUpgrade ==> {
                let waits = answers.ping_out == Ok::<Async<Option<Duration>>, ()>(Async::NotReady);
                &&& waits ==> run.handler.ping_out == h.ping_out
                &&& !waits ==> run.handler.ping_out is None
            }
        }),
    decreases stage(next), left_over(next),
{
    match next {
        Next::ListenUpgrade { left, in_progress } => {
            let outcome = (answers.upgrade)(in_progress);
            let (t, step) = h.after_listen(left as int, in_progress, outcome);
            lemma_parked(t, step.next, answers);
        },
        Next::DialUpgrade { left, purpose, in_progress } => {
            let outcome = (answers.upgrade)(in_progress);
            let (t, step) = h.after_dial(left as int, purpose, in_progress, outcome);
            lemma_parked(t, step.next, answers);
        },
        Next::PingOut(dialer) => {
            let (t, after) = h.after_ping_out(dialer, answers.ping_out);
            lemma_parked(t, after, answers);
        },
        Next::PingIn { left, ping } => {
            let (t, after) = h.after_ping_in(left as int, ping, (answers.ping_in)(ping));
            lemma_parked(t, after, answers);
        },
        Next::Park => {},
        Next::Return(_) => {},
    }
}

/// A poll that parks has passed nothing over: it polled every upgrade on both sides, once,
/// from the last one on, and the substream for sending pings, which it keeps exactly if
/// that is not ready.
pub proof fn law_parked_poll_has_polled_everything<S: Substream>(
    h: HandlerView<S>,
    answers: Answers<S>,
)
    requires
        countable(h),
        polled(h, answers).end is Park,
    ensures
        polled(h, answers).listened == h.listen.reverse(),
        polled(h, answers).dialed == h.dial.reverse(),
        h.ping_out is None ==> polled(h, answers).handler.ping_out is None,
        answers.ping_out == Ok::<Async<Option<Duration>>, ()>(Async::NotReady) ==> polled(
            h,
            answers,
        ).handler.ping_out == h.ping_out,
        answers.ping_out != Ok::<Async<Option<Duration>>, ()>(Async::NotReady) ==> polled(
            h,
            answers,
        ).handler.ping_out is None,
{
    let (t, next) = h.from_start();
    lemma_parked(t, next, answers);
    law_listening_upgrades_are_kept_until_settled(h, answers);
    law_dialing_upgrades_are_kept_until_settled(h, answers);
    let run = polled(h, answers);
    assert(run.listened =~= h.listen.reverse());
    assert(run.dialed =~= h.dial.reverse());
}

/// A handler has a purpose exactly if a substream is being upgraded for it or is queued to
/// be opened for it, as often as that may be.
pub proof fn law_purposes_are_found<S: Substream>(h: HandlerView<S>, purpose: UpgradePurpose)
    ensures
        h.has_purpose(purpose) <==> purposes(h).count(purpose) > 0,
{
    broadcast use vstd::seq_lib::group_to_multiset_ensures;
    broadcast use vstd::multiset::group_multiset_axioms;

    let dialed = h.dial.map_values(|e: (UpgradePurpose, S::Upgrade)| e.0);
    if exists|i: int| 0 <= i < h.dial.len() && (#[trigger] h.dial[i]).0 == purpose {
        let i = choose|i: int| 0 <= i < h.dial.len() && (#[trigger] h.dial[i]).0 == purpose;
        assert(dialed[i] == purpose);
    }
    if dialed.contains(purpose) {
        let i = choose|i: int| 0 <= i < dialed.len() && dialed[i] == purpose;
        assert(h.dial[i].0 == purpose);
    }
    assert(dialed.to_multiset().count(purpose) > 0 <==> dialed.contains(purpose));
    assert(h.queued.to_multiset().count(purpose) > 0 <==> h.queued.contains(purpose));
}

/// Trying to ping sends a ping exactly if a substream for pings is open. Where none is open
/// and none is sought, one is queued, behind all else. Both wake who waits; where one is
/// sought already, nothing happens.
pub proof fn law_trying_to_ping<S: Substream>(h: HandlerView<S>)
    ensures
        h.ping_signal().ping <==> h.ping_out is Some,
        h.ping_out is Some ==> {
            &&& h.pinged() == (HandlerView { notify: None, ..h })
            &&& h.ping_signal().wake == h.notify
        },
        h.ping_out is None && pings_sought(h) == 0 ==> {
            &&& h.pinged() == (HandlerView {
                queued: h.queued.push(UpgradePurpose::Ping),
                notify: None,
                ..h
            })
            &&& h.ping_signal().wake == h.notify
        },
        h.ping_out is None && pings_sought(h) > 0 ==> {
            &&& h.pinged() == h
            &&& h.ping_signal().wake is None
        },
{
    law_purposes_are_found(h, UpgradePurpose::Ping);
}

/// A new substream for sending pings takes the place of the one there was, and ends every
/// search for one; what is sought for other purposes stays, in its order; and nothing else
/// changes.
pub proof fn law_new_ping_substream_ends_search<S: Substream>(
    h: HandlerView<S>,
    dialer: S::PingDialer,
    upgrade: (UpgradePurpose, S::Upgrade),
    purpose: UpgradePurpose,
)
    ensures
        h.with_ping_out(dialer).ping_out == Some(dialer),
        pings_sought(h.with_ping_out(dialer)) == 0,
        h.dial.len() == 0 ==> h.with_ping_out(dialer).dial.len() == 0,
        h.queued.len() == 0 ==> h.with_ping_out(dialer).queued.len() == 0,
        (HandlerView { dial: h.dial.push(upgrade), ..h }).with_ping_out(dialer).dial
            == if upgrade.0 == UpgradePurpose::Ping {
            h.with_ping_out(dialer).dial
        } else {
            h.with_ping_out(dialer).dial.push(upgrade)
        },
        (HandlerView { queued: h.queued.push(purpose), ..h }).with_ping_out(dialer).queued
            == if purpose == UpgradePurpose::Ping {
            h.with_ping_out(dialer).queued
        } else {
            h.with_ping_out(dialer).queued.push(purpose)
        },
        h.with_ping_out(dialer).ping_in == h.ping_in,
        h.with_ping_out(dialer).listen == h.listen,
        h.with_ping_out(dialer).notify == h.notify,
{
    reveal(Seq::filter);
    lemma_with_ping_out(h, dialer);
    assert(h.dial.push(upgrade).drop_last() =~= h.dial);
    assert(h.queued.push(purpose).drop_last() =~= h.queued);
}

/// An upgrade that is over becomes what it is: a substream for sending pings is pinged on
/// at once, and who waits is woken; one for receiving pings is kept beside the others; and
/// one for a custom protocol leads nowhere.
pub proof fn law_upgrade_becomes_what_it_is<S: Substream>(
    h: HandlerView<S>,
    dialer: S::PingDialer,
    listener: S::PingListener,
)
    ensures
        h.negotiated(FinalUpgrade::PingDialer(dialer)) == (HandlerView {
            notify: None,
            ..h.with_ping_out(dialer)
        }),
        h.negotiated_signal(FinalUpgrade::PingDialer(dialer)).ping,
        h.negotiated_signal(FinalUpgrade::PingDialer(dialer)).wake == h.notify,
        h.negotiated(FinalUpgrade::PingListener(listener)) == (HandlerView {
            ping_in: h.ping_in.push(listener),
            ..h
        }),
        h.negotiated(FinalUpgrade::Custom) == h,
        !h.negotiated_signal(FinalUpgrade::PingListener(listener)).ping,
        h.negotiated_signal(FinalUpgrade::PingListener(listener)).wake is None,
        !h.negotiated_signal(FinalUpgrade::Custom).ping,
        h.negotiated_signal(FinalUpgrade::Custom).wake is None,
{
}

/// A poll takes up one pending piece after the other: the last upgrade on the listening side
/// that is left, then the last one on the dialing side, then the substream for sending
/// pings, then the last one for receiving them; and parks where nothing is left. What it
/// takes up is taken out, those before it stay in their places, and nothing else changes.
pub proof fn law_pieces_are_taken_up_in_turn<S: Substream>(h: HandlerView<S>, left: int)
    requires
        countable(h),
    ensures
        0 < left <= h.listen.len() ==> {
            let (t, next) = h.from_listen(left);
            &&& next == Next::<S>::ListenUpgrade {
                left: (left - 1) as usize,
                in_progress: h.listen[left - 1],
            }
            &&& t.listen.to_multiset().insert(h.listen[left - 1]) == h.listen.to_multiset()
            &&& t.listen.take(left - 1) == h.listen.take(left - 1)
            &&& h == (HandlerView { listen: h.listen, ..t })
        },
        h.from_listen(0) == h.from_dial(h.dial.len() as int),
        0 < left <= h.dial.len() ==> {
            let (t, next) = h.from_dial(left);
            &&& next == Next::<S>::DialUpgrade {
                left: (left - 1) as usize,
                purpose: h.dial[left - 1].0,
                in_progress: h.dial[left - 1].1,
            }
            &&& t.dial.to_multiset().insert(h.dial[left - 1]) == h.dial.to_multiset()
            &&& t.dial.take(left - 1) == h.dial.take(left - 1)
            &&& h == (HandlerView { dial: h.dial, ..t })
        },
        h.ping_out matches Some(dialer) ==> {
            let (t, next) = h.from_dial(0);
            &&& next == Next::<S>::PingOut(dialer)
            &&& t == (HandlerView { ping_out: None, ..h })
        },
        h.ping_out is None ==> h.from_dial(0) == h.from_ping_in(h.ping_in.len() as int),
        0 < left <= h.ping_in.len() ==> {
            let (t, next) = h.from_ping_in(left);
            &&& next == Next::<S>::PingIn { left: (left - 1) as usize, ping: h.ping_in[left - 1] }
            &&& t.ping_in.to_multiset().insert(h.ping_in[left - 1]) == h.ping_in.to_multiset()
            &&& t.ping_in.take(left - 1) == h.ping_in.take(left - 1)
            &&& h == (HandlerView { ping_in: h.ping_in, ..t })
        },
        h.from_ping_in(0) == (h, Next::<S>::Park),
        h.from_start() == h.from_listen(h.listen.len() as int),
{
    if 0 < left <= h.listen.len() {
        lemma_without(h.listen, left - 1);
    }
    if 0 < left <= h.dial.len() {
        lemma_without(h.dial, left - 1);
    }
    if 0 < left <= h.ping_in.len() {
        lemma_without(h.ping_in, left - 1);
    }
}

/// What an upgrade on the listening side comes to: one that opens a substream for sending
/// pings ends the poll with the start of a ping; one that opens another substream is done
/// with, one that is not over is put back, and either way the poll goes on with those that
/// are left; one that failed ends the poll, and the node is unresponsive.
pub proof fn law_listen_upgrade_is_heeded<S: Substream>(
    h: HandlerView<S>,
    left: int,
    in_progress: S::Upgrade,
    upgrade: FinalUpgrade<S>,
)
    ensures
        ({
            let (t, step) = h.after_listen(left, in_progress, Ok(Async::Ready(upgrade)));
            if upgrade is PingDialer {
                &&& t == h.negotiated(upgrade)
                &&& step.signal == h.negotiated_signal(upgrade)
                &&& step.next == ping_started::<S>()
            } else {
                &&& (t, step.next) == h.negotiated(upgrade).from_listen(left)
                &&& !step.signal.ping && step.signal.wake is None
            }
        }),
        ({
            let (t, step) = h.after_listen(left, in_progress, Ok(Async::NotReady));
            let back = HandlerView { listen: h.listen.push(in_progress), ..h };
            &&& (t, step.next) == back.from_listen(left)
            &&& !step.signal.ping && step.signal.wake is None
        }),
        ({
            let (t, step) = h.after_listen(left, in_progress, Err(()));
            &&& t == h
            &&& step.next == report::<S>(CITAOutEvent::Unresponsive)
            &&& !step.signal.ping && step.signal.wake is None
        }),
{
}

/// What an upgrade on the dialing side comes to, whatever its purpose: as on the listening
/// side, and one that is not over keeps its purpose.
pub proof fn law_dial_upgrade_is_heeded<S: Substream>(
    h: HandlerView<S>,
    left: int,
    purpose: UpgradePurpose,
    in_progress: S::Upgrade,
    upgrade: FinalUpgrade<S>,
)
    ensures
        ({
            let (t, step) = h.after_dial(left, purpose, in_progress, Ok(Async::Ready(upgrade)));
            if upgrade is PingDialer {
                &&& t == h.negotiated(upgrade)
                &&& step.signal == h.negotiated_signal(upgrade)
                &&& step.next == ping_started::<S>()
            } else {
                &&& (t, step.next) == h.negotiated(upgrade).from_dial(left)
                &&& !step.signal.ping && step.signal.wake is None
            }
        }),
        ({
            let (t, step) = h.after_dial(left, purpose, in_progress, Ok(Async::NotReady));
            let back = HandlerView { dial: h.dial.push((purpose, in_progress)), ..h };
            &&& (t, step.next) == back.from_dial(left)
            &&& !step.signal.ping && step.signal.wake is None
        }),
        ({
            let (t, step) = h.after_dial(left, purpose, in_progress, Err(()));
            &&& t == h
            &&& step.next == report::<S>(CITAOutEvent::Unresponsive)
            &&& !step.signal.ping && step.signal.wake is None
        }),
{
}

/// A ping that was answered is reported with its time, and ends the poll; a substream for
/// sending pings that is not ready is put back, one that was closed or failed is given up,
/// and either way all substreams for receiving pings are next.
pub proof fn law_ping_answers_are_heeded<S: Substream>(
    h: HandlerView<S>,
    dialer: S::PingDialer,
    elapsed: Duration,
)
    ensures
        h.after_ping_out(dialer, Ok(Async::Ready(Some(elapsed)))) == (
            h,
            report::<S>(CITAOutEvent::PingSuccess(elapsed)),
        ),
        h.after_ping_out(dialer, Ok(Async::NotReady)) == (HandlerView {
            ping_out: Some(dialer),
            ..h
        }).from_ping_in(h.ping_in.len() as int),
        h.after_ping_out(dialer, Ok(Async::Ready(None))) == h.from_ping_in(h.ping_in.len() as int),
        h.after_ping_out(dialer, Err(())) == h.from_ping_in(h.ping_in.len() as int),
{
}

/// A substream for receiving pings that is not ready is put back, one that was closed or
/// failed is given up, and either way those that are left are next.
pub proof fn law_remote_pings_are_answered<S: Substream>(
    h: HandlerView<S>,
    left: int,
    ping: S::PingListener,
)
    ensures
        h.after_ping_in(left, ping, Ok(Async::NotReady)) == (HandlerView {
            ping_in: h.ping_in.push(ping),
            ..h
        }).from_ping_in(left),
        h.after_ping_in(left, ping, Ok(Async::Ready(()))) == h.from_ping_in(left),
        h.after_ping_in(left, ping, Err(())) == h.from_ping_in(left),
{
}

/// A substream that the remote opens is upgraded beside the others. One that this node opens
/// is upgraded for what was queued first, and given up where nothing is queued. Who waits
/// is to be woken where it is upgraded, and nothing else changes.
pub proof fn law_opened_substream_is_upgraded<S: Substream>(h: HandlerView<S>, upgrade: S::Upgrade)
    ensures
        h.opened(OpenedSubstream::Listener(upgrade)) == (HandlerView {
            listen: h.listen.push(upgrade),
            notify: None,
            ..h
        }),
        h.queued.len() == 0 ==> h.opened(OpenedSubstream::Dialer(upgrade)) == h,
        h.queued.len() > 0 ==> {
            let t = h.opened(OpenedSubstream::Dialer(upgrade));
            &&& t.dial == h.dial.push((h.queued[0], upgrade))
            &&& seq![h.queued[0]] + t.queued == h.queued
            &&& t.notify is None
            &&& h == (HandlerView { dial: h.dial, queued: h.queued, notify: h.notify, ..t })
        },
{
    if h.queued.len() > 0 {
        assert(seq![h.queued[0]] + h.queued.skip(1) =~= h.queued);
    }
}

/// What a handler reports reaches the swarm as it is, and where nothing is to be done,
/// nothing is.
pub proof fn law_reports_are_handed_on<S: Substream>(event: CITAOutEvent<S::Error>)
    ensures
        report::<S>(event) == Next::<S>::Return(Async::Ready(Some(event))),
        quiet::<S>() == (Signal::<S> { ping: false, wake: None }),
{
}

} // verus!
