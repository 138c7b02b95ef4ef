//! A custom protocol: its names, and the substream on which its messages go.

use vstd::prelude::*;
use bytes::Bytes;
use std::collections::VecDeque;
use crate::custom_proto::{Request, Response};
use crate::poll::{Async, AsyncSink};

verus! {

/// A string of bytes of the `bytes` crate.
#[verifier::external_type_specification]
#[verifier::external_body]
pub struct ExBytes(bytes::Bytes);

/// The bytes that a `bytes::Bytes` holds.
pub uninterp spec fn contents(b: bytes::Bytes) -> Seq<u8>;

/// Calls `bytes::Bytes::from_static`.
///
/// Trusted: the result holds the bytes that it is made from.
#[verifier::external_body]
fn bytes_from_static(data: &'static [u8]) -> (res: Bytes)
    ensures
        contents(res) == data@,
{
    Bytes::from_static(data)
}

/// Calls `bytes::Bytes::extend_from_slice`.
///
/// Trusted: the bytes are appended. A total that no allocation can hold is ruled out.
#[verifier::external_body]
fn bytes_extend(b: &mut Bytes, data: &[u8])
    requires
        contents(*old(b)).len() + data@.len() <= isize::MAX,
    ensures
        contents(*final(b)) == contents(*old(b)) + data@,
{
    b.extend_from_slice(data)
}

/// Calls `bytes::Bytes::clone`.
///
/// Trusted: the copy holds the same bytes.
#[verifier::external_body]
fn bytes_clone(b: &Bytes) -> (res: Bytes)
    ensures
        contents(res) == contents(*b),
{
    b.clone()
}

/// The ASCII digits of a number, without leading zeros.
pub open spec fn decimal(n: u8) -> Seq<u8> {
    if n >= 100 {
        seq![(48 + n / 100) as u8, (48 + n / 10 % 10) as u8, (48 + n % 10) as u8]
    } else if n >= 10 {
        seq![(48 + n / 10) as u8, (48 + n % 10) as u8]
    } else {
        seq![(48 + n) as u8]
    }
}

/// What every name of a protocol begins with: `/cita/`, the low byte of the protocol's
/// number, and a slash.
pub open spec fn name_of(protocol: usize) -> Seq<u8> {
    seq![47u8, 99u8, 105u8, 116u8, 97u8, 47u8, (protocol % 256) as u8, 47u8]
}

/// No version comes before a higher one.
pub open spec fn highest_first(versions: Seq<u8>) -> bool {
    forall|i: int, j: int| 0 <= i < j < versions.len() ==> versions[i] >= versions[j]
}

fn decimal_digits(n: u8) -> (res: Vec<u8>)
    ensures
        res@ == decimal(n),
{
    let mut res: Vec<u8> = Vec::new();
    if n >= 100 {
        res.push(48 + n / 100);
    }
    if n >= 10 {
        res.push(48 + n / 10 % 10);
    }
    res.push(48 + n % 10);
    assert(res@ =~= decimal(n));
    res
}

/// The same versions, the highest first.
fn sort_versions(versions: &[u8]) -> (res: Vec<u8>)
    ensures
        highest_first(res@),
        res@.to_multiset() == versions@.to_multiset(),
{
    let mut res: Vec<u8> = Vec::new();
    let mut i: usize = 0;
    assert(versions@.take(0) =~= res@);
    while i < versions.len()
        invariant
            0 <= i <= versions@.len(),
            highest_first(res@),
            res@.to_multiset() == versions@.take(i as int).to_multiset(),
        decreases versions@.len() - i,
    {
        let v = versions[i];
        let mut p: usize = 0;
        while p < res.len() && res[p] >= v
            invariant
                0 <= p <= res@.len(),
                forall|j: int| 0 <= j < p ==> res@[j] >= v,
            decreases res@.len() - p,
        {
            p = p + 1;
        }
        let ghost before = res@;
        res.insert(p, v);
        proof {
            assert(highest_first(res@)) by {
                assert forall|a: int, b: int| 0 <= a < b < res@.len() implies res@[a] >= res@[b] by {
                    if a < p && p < b {
                        assert(before[a] >= before[b - 1]);
                    } else if a == p {
                        assert(before[p as int] >= before[b - 1]);
                    }
                }
            }
            broadcast use vstd::seq_lib::group_to_multiset_ensures;
            assert(res@.remove(p as int) =~= before);
            assert(res@.to_multiset().remove(v).insert(v) =~= res@.to_multiset());
            assert(versions@.take(i + 1) =~= versions@.take(i as int).push(v));
        }
        i = i + 1;
    }
    assert(versions@.take(i as int) =~= versions@);
    res
}

/// A custom protocol.
#[derive(Debug)]
pub struct CustomProtocol {
    id: usize,
    name: Bytes,
    supported_versions: Vec<u8>,
}

/// The contents of a [`CustomProtocol`].
pub struct CustomProtocolView {
    pub id: usize,
    pub name: Seq<u8>,
    pub supported_versions: Seq<u8>,
}

impl View for CustomProtocol {
    type V = CustomProtocolView;

    closed spec fn view(&self) -> CustomProtocolView {
        CustomProtocolView {
            id: self.id,
            name: contents(self.name),
            supported_versions: self.supported_versions@,
        }
    }
}

impl CustomProtocol {
    #[verifier::type_invariant]
    spec fn inv(self) -> bool {
        &&& contents(self.name) == name_of(self.id)
        &&& highest_first(self.supported_versions@)
    }

    /// A protocol with the versions of it that this node speaks.
    pub fn new(protocol: usize, versions: &[u8]) -> (res: CustomProtocol)
        ensures
            res@.id == protocol,
            res@.name == name_of(protocol),
            highest_first(res@.supported_versions),
            res@.supported_versions.to_multiset() == versions@.to_multiset(),
    {
        let mut name = bytes_from_static(&[47u8, 99u8, 105u8, 116u8, 97u8, 47u8]);
        assert(protocol as u8 == protocol % 256) by (bit_vector);
        bytes_extend(&mut name, &[protocol as u8]);
        bytes_extend(&mut name, &[47u8]);
        assert(contents(name) =~= name_of(protocol));
        CustomProtocol { name, id: protocol, supported_versions: sort_versions(versions) }
    }

    /// The number of the protocol.
    pub fn id(&self) -> (res: usize)
        ensures
            res == self@.id,
    {
        self.id
    }

    /// The names under which the protocol is offered, one for each version, the highest
    /// version first.
    pub fn protocol_names(&self) -> (res: Vec<(Bytes, u8)>)
        ensures
            res@.len() == self@.supported_versions.len(),
            forall|i: int|
                0 <= i < res@.len() ==> (#[trigger] res@[i]).1 == self@.supported_versions[i]
                    && contents(res@[i].0) == name_of(self@.id) + decimal(res@[i].1),
            highest_first(self@.supported_versions),
    {
        proof {
            use_type_invariant(self);
        }
        let mut res: Vec<(Bytes, u8)> = Vec::new();
        let mut i: usize = 0;
        while i < self.supported_versions.len()
            invariant
                0 <= i <= self.supported_versions@.len(),
                contents(self.name) == name_of(self.id),
                res@.len() == i,
                forall|j: int|
                    0 <= j < i ==> (#[trigger] res@[j]).1 == self.supported_versions@[j]
                        && contents(res@[j].0) == name_of(self.id) + decimal(res@[j].1),
            decreases self.supported_versions@.len() - i,
        {
            let ver = self.supported_versions[i];
            let num = decimal_digits(ver);
            let mut name = bytes_clone(&self.name);
            bytes_extend(&mut name, num.as_slice());
            res.push((name, ver));
            i = i + 1;
        }
        res
    }

    /// The protocol, once one of its versions was agreed on.
    pub fn upgrade<T>(self, protocol_version: u8) -> (res: CustomProtocolSubstream<T>)
        ensures
            res@ == (SubstreamView::<T> {
                is_closing: false,
                send_queue: seq![],
                requires_poll_complete: false,
                protocol_id: self@.id,
                protocol_version,
                notify: None,
            }),
    {
        CustomProtocolSubstream {
            is_closing: false,
            send_queue: VecDeque::new(),
            requires_poll_complete: false,
            protocol_id: self.id,
            protocol_version,
            notify: None,
        }
    }
}

/// How polling a substream goes on.
#[derive(Debug)]
pub enum SubstreamStep<E> {
    /// Close the stream, and go on with [`CustomProtocolSubstream::closed`].
    Close,
    /// Offer this packet to the stream, and go on with [`CustomProtocolSubstream::sent`].
    StartSend(Request),
    /// Flush the stream, and go on with [`CustomProtocolSubstream::completed`].
    PollComplete,
    /// Poll the stream for a packet, and go on with [`CustomProtocolSubstream::received`].
    PollInner,
    /// There is nothing to do: hand the current task to [`CustomProtocolSubstream::park`].
    Park,
    /// Polling is over, with this result.
    Return(Result<Async<Option<Response>>, E>),
}

/// A substream on which a custom protocol is spoken. The framed stream below it is
/// outside: [`CustomProtocolSubstream::poll`] says what is to be done on it. `T` is a
/// task that waits for the substream.
#[derive(Debug)]
pub struct CustomProtocolSubstream<T> {
    is_closing: bool,
    /// Buffer to send
    send_queue: VecDeque<Request>,
    /// if true, we should call `poll_complete`
    requires_poll_complete: bool,
    protocol_id: usize,
    protocol_version: u8,
    /// Task to notify when something is changed and must to be polled.
    notify: Option<T>,
}

/// The state of a [`CustomProtocolSubstream`].
#[verifier::ext_equal]
pub struct SubstreamView<T> {
    pub is_closing: bool,
    pub send_queue: Seq<Request>,
    pub requires_poll_complete: bool,
    pub protocol_id: usize,
    pub protocol_version: u8,
    pub notify: Option<T>,
}

impl<T> View for CustomProtocolSubstream<T> {
    type V = SubstreamView<T>;

    closed spec fn view(&self) -> SubstreamView<T> {
        SubstreamView {
            is_closing: self.is_closing,
            send_queue: self.send_queue@,
            requires_poll_complete: self.requires_poll_complete,
            protocol_id: self.protocol_id,
            protocol_version: self.protocol_version,
            notify: self.notify,
        }
    }
}

impl<T> SubstreamView<T> {
    /// The substream with one more message to send.
    pub open spec fn with_message(self, data: Request) -> Self {
        SubstreamView { send_queue: self.send_queue.push(data), notify: None, ..self }
    }

    /// The substream once it is to be closed.
    pub open spec fn shut_down(self) -> Self {
        SubstreamView { is_closing: true, notify: None, ..self }
    }

    /// Polling, once no packet can be sent any more.
    pub open spec fn from_complete<E>(self) -> (Self, SubstreamStep<E>) {
        if self.requires_poll_complete {
            (self, SubstreamStep::PollComplete)
        } else {
            (self, SubstreamStep::PollInner)
        }
    }

    /// Polling, from the packets to send on: the first one is offered.
    pub open spec fn from_send<E>(self) -> (Self, SubstreamStep<E>) {
        if self.send_queue.len() > 0 {
            (
                SubstreamView { send_queue: self.send_queue.skip(1), ..self },
                SubstreamStep::StartSend(self.send_queue[0]),
            )
        } else {
            self.from_complete()
        }
    }

    /// Polling, from the start.
    pub open spec fn from_start<E>(self) -> (Self, SubstreamStep<E>) {
        if self.is_closing {
            (self, SubstreamStep::Close)
        } else {
            self.from_send()
        }
    }

    /// Polling, after a packet was offered: it was taken, or handed back, or lost.
    pub open spec fn after_sent<E>(self, outcome: Result<AsyncSink<Option<Request>>, E>) -> (
        Self,
        SubstreamStep<E>,
    ) {
        match outcome {
            Ok(AsyncSink::Ready) => SubstreamView { requires_poll_complete: true, ..self }.from_send(),
            Ok(AsyncSink::NotReady(Some(packet))) => SubstreamView {
                send_queue: seq![packet] + self.send_queue,
                ..self
            }.from_complete(),
            Ok(AsyncSink::NotReady(None)) => self.from_complete(),
            Err(err) => (self, SubstreamStep::Return(Err(err))),
        }
    }

    /// Polling, after the stream was flushed.
    pub open spec fn after_completed<E>(self, outcome: Result<Async<()>, E>) -> (
        Self,
        SubstreamStep<E>,
    ) {
        match outcome {
            Ok(Async::Ready(_)) => (
                SubstreamView { requires_poll_complete: false, ..self },
                SubstreamStep::PollInner,
            ),
            Ok(Async::NotReady) => (self, SubstreamStep::PollInner),
            Err(err) => (self, SubstreamStep::Return(Err(err))),
        }
    }

    /// How polling goes on after the stream was polled for a packet. Where the stream has
    /// ended, so has the substream, unless something is still to be sent or flushed.
    pub open spec fn when_received<E>(self, outcome: Result<Async<Option<Vec<u8>>>, E>) -> SubstreamStep<
        E,
    > {
        match outcome {
            Ok(Async::Ready(Some(data))) => SubstreamStep::Return(
                Ok(Async::Ready(Some(Some(data)))),
            ),
            Ok(Async::Ready(None)) => if !self.requires_poll_complete && self.send_queue.len() == 0 {
                SubstreamStep::Return(Ok(Async::Ready(None)))
            } else {
                SubstreamStep::Park
            },
            Ok(Async::NotReady) => SubstreamStep::Park,
            Err(err) => SubstreamStep::Return(Err(err)),
        }
    }
}

/// What closing the stream comes to: where it is closed, the substream has ended.
pub open spec fn when_closed<E>(outcome: Result<Async<()>, E>) -> Result<Async<Option<Response>>, E> {
    match outcome {
        Ok(Async::Ready(_)) => Ok(Async::Ready(None)),
        Ok(Async::NotReady) => Ok(Async::NotReady),
        Err(err) => Err(err),
    }
}

impl<T> CustomProtocolSubstream<T> {
    /// The number of the protocol.
    pub fn protocol_id(&self) -> (res: usize)
        ensures
            res == self@.protocol_id,
    {
        self.protocol_id
    }

    /// The version of the protocol.
    pub fn protocol_version(&self) -> (res: u8)
        ensures
            res == self@.protocol_version,
    {
        self.protocol_version
    }

    /// Closes the substream, and hands out the task to wake.
    pub fn shutdown(&mut self) -> (res: Option<T>)
        ensures
            final(self)@ == old(self)@.shut_down(),
            final(self)@ == (SubstreamView { is_closing: true, notify: None, ..old(self)@ }),
            res == old(self)@.notify,
    {
        self.is_closing = true;
        self.notify.take()
    }

    /// Queues a message, and hands out the task to wake.
    pub fn send_message(&mut self, data: Request) -> (res: Option<T>)
        ensures
            final(self)@ == old(self)@.with_message(data),
            final(self)@ == (SubstreamView {
                send_queue: old(self)@.send_queue.push(data),
                notify: None,
                ..old(self)@
            }),
            res == old(self)@.notify,
    {
        self.send_queue.push_back(data);
        self.notify.take()
    }

    /// Starts polling.
    pub fn poll<E>(&mut self) -> (res: SubstreamStep<E>)
        ensures
            (final(self)@, res) == old(self)@.from_start::<E>(),
    {
        if self.is_closing {
            return SubstreamStep::Close;
        }
        self.poll_send()
    }

    // Flushing the local queue.
    fn poll_send<E>(&mut self) -> (res: SubstreamStep<E>)
        ensures
            (final(self)@, res) == old(self)@.from_send::<E>(),
    {
        match self.send_queue.pop_front() {
            Some(packet) => {
                assert(self@.send_queue =~= old(self)@.send_queue.skip(1));
                SubstreamStep::StartSend(packet)
            },
            None => self.poll_complete(),
        }
    }

    // Flushing if necessary.
    fn poll_complete<E>(&mut self) -> (res: SubstreamStep<E>)
        ensures
            (final(self)@, res) == old(self)@.from_complete::<E>(),
    {
        if self.requires_poll_complete {
            SubstreamStep::PollComplete
        } else {
            SubstreamStep::PollInner
        }
    }

    /// Ends a poll that closed the stream.
    pub fn closed<E>(&self, outcome: Result<Async<()>, E>) -> (res: Result<Async<Option<Response>>, E>)
        ensures
            res == when_closed(outcome),
    {
        match outcome {
            Ok(Async::Ready(_)) => Ok(Async::Ready(None)),
            Ok(Async::NotReady) => Ok(Async::NotReady),
            Err(err) => Err(err),
        }
    }

    /// Goes on polling after a packet was offered to the stream.
    pub fn sent<E>(&mut self, outcome: Result<AsyncSink<Option<Request>>, E>) -> (res: SubstreamStep<
        E,
    >)
        ensures
            (final(self)@, res) == old(self)@.after_sent(outcome),
    {
        match outcome {
            Ok(AsyncSink::NotReady(Some(packet))) => {
                self.send_queue.push_front(packet);
                self.poll_complete()
            },
            Ok(AsyncSink::NotReady(None)) => self.poll_complete(),
            Ok(AsyncSink::Ready) => {
                self.requires_poll_complete = true;
                self.poll_send()
            },
            Err(err) => SubstreamStep::Return(Err(err)),
        }
    }

    /// Goes on polling after the stream was flushed.
    pub fn completed<E>(&mut self, outcome: Result<Async<()>, E>) -> (res: SubstreamStep<E>)
        ensures
            (final(self)@, res) == old(self)@.after_completed(outcome),
    {
        match outcome {
            Ok(Async::Ready(_)) => {
                self.requires_poll_complete = false;
                SubstreamStep::PollInner
            },
            Ok(Async::NotReady) => SubstreamStep::PollInner,
            Err(err) => SubstreamStep::Return(Err(err)),
        }
    }

    /// Goes on polling after the stream was polled for a packet.
    pub fn received<E>(&self, outcome: Result<Async<Option<Vec<u8>>>, E>) -> (res: SubstreamStep<E>)
        ensures
            res == self@.when_received(outcome),
    {
        match outcome {
            Ok(Async::Ready(Some(data))) => SubstreamStep::Return(
                Ok(Async::Ready(Some(Some(data)))),
            ),
            Ok(Async::Ready(None)) => {
                if !self.requires_poll_complete && self.send_queue.len() == 0 {
                    SubstreamStep::Return(Ok(Async::Ready(None)))
                } else {
                    SubstreamStep::Park
                }
            },
            Ok(Async::NotReady) => SubstreamStep::Park,
            Err(err) => SubstreamStep::Return(Err(err)),
        }
    }

    /// Ends a poll that found nothing more to do: the task is woken when there is.
    pub fn park<E>(&mut self, task: T) -> (res: Result<Async<Option<Response>>, E>)
        ensures
            final(self)@ == (SubstreamView { notify: Some(task), ..old(self)@ }),
            res == Result::<Async<Option<Response>>, E>::Ok(Async::NotReady),
    {
        self.notify = Some(task);
        Ok(Async::NotReady)
    }
}

/// A name tells which version of a protocol is offered, and the low byte of the
/// protocol's number: names are the same only where both are.
pub proof fn law_names_tell_versions_apart(p: usize, a: u8, q: usize, b: u8)
    requires
        name_of(p) + decimal(a) == name_of(q) + decimal(b),
    ensures
        a == b,
        p % 256 == q % 256,
{
    let x = name_of(p) + decimal(a);
    let y = name_of(q) + decimal(b);
    assert(x[6] == name_of(p)[6] && y[6] == name_of(q)[6]);
    assert(x.skip(8) =~= decimal(a));
    assert(y.skip(8) =~= decimal(b));
    assert(decimal(a)[0] == decimal(b)[0]);
    if a >= 10 {
        assert(decimal(a)[1] == decimal(b)[1]);
    }
    if a >= 100 {
        assert(decimal(a)[2] == decimal(b)[2]);
    }
}

/// Polling, after the stream took `n` packets in a row.
pub open spec fn after_taken<T, E>(s: SubstreamView<T>, n: nat) -> (SubstreamView<T>, SubstreamStep<E>)
    decreases n,
{
    if n == 0 {
        s.from_send()
    } else {
        after_taken::<T, E>(s, (n - 1) as nat).0.after_sent(Ok(AsyncSink::Ready))
    }
}

/// Messages go out in the order in which they were queued: after the stream took `n` of
/// them, the next one is offered, and those behind it are left; after it took all of
/// them, they are flushed.
pub proof fn law_first_queued_first_sent<T, E>(s: SubstreamView<T>, n: nat)
    requires
        n <= s.send_queue.len(),
    ensures
        n < s.send_queue.len() ==> {
            &&& after_taken::<T, E>(s, n).1 == SubstreamStep::<E>::StartSend(s.send_queue[n as int])
            &&& after_taken::<T, E>(s, n).0 == (SubstreamView {
                send_queue: s.send_queue.skip(n as int + 1),
                requires_poll_complete: s.requires_poll_complete || n > 0,
                ..s
            })
        },
        n == s.send_queue.len() ==> {
            &&& after_taken::<T, E>(s, n).0 == (SubstreamView {
                send_queue: seq![],
                requires_poll_complete: s.requires_poll_complete || n > 0,
                ..s
            })
            &&& after_taken::<T, E>(s, n).1 == if s.requires_poll_complete || n > 0 {
                SubstreamStep::<E>::PollComplete
            } else {
                SubstreamStep::<E>::PollInner
            }
        },
    decreases n,
{
    if n == 0 {
        assert(s.send_queue.skip(1) =~= s.send_queue.skip(n as int + 1));
        if s.send_queue.len() == 0 {
            assert(s.send_queue =~= seq![]);
            assert(s =~= after_taken::<T, E>(s, n).0);
        }
    } else {
        law_first_queued_first_sent::<T, E>(s, (n - 1) as nat);
        let before = after_taken::<T, E>(s, (n - 1) as nat).0;
        let after = after_taken::<T, E>(s, n).0;
        if n < s.send_queue.len() {
            assert(before.send_queue.skip(1) =~= s.send_queue.skip(n as int + 1));
        } else {
            assert(before.send_queue =~= seq![]);
        }
    }
}

/// A packet that the stream hands back is the next one to be offered: nothing is lost or
/// overtaken.
pub proof fn law_refused_packet_stays_first<T, E>(s: SubstreamView<T>)
    requires
        s.send_queue.len() > 0,
    ensures
        s.from_send::<E>().0.after_sent(
            Ok::<_, E>(AsyncSink::NotReady(Some(s.send_queue[0]))),
        ).0 == s,
{
    assert(seq![s.send_queue[0]] + s.send_queue.skip(1) =~= s.send_queue);
    assert(s.from_send::<E>().0.after_sent(
        Ok::<_, E>(AsyncSink::NotReady(Some(s.send_queue[0]))),
    ).0 =~= s);
}

/// The end of the stream ends a substream that is not being closed only once everything
/// was sent and flushed.
pub proof fn law_end_means_drained<T, E>(
    s: SubstreamView<T>,
    outcome: Result<Async<Option<Vec<u8>>>, E>,
)
    requires
        s.when_received(outcome) == SubstreamStep::<E>::Return(Ok(Async::Ready(None))),
    ensures
        s.send_queue.len() == 0,
        !s.requires_poll_complete,
{
}

/// A substream that was shut down does nothing but close, and keeps what was not sent.
pub proof fn law_shutdown_only_closes<T, E>(s: SubstreamView<T>)
    requires
        s.is_closing,
    ensures
        s.from_start::<E>() == (s, SubstreamStep::<E>::Close),
{
}

/// Every packet that the stream hands over is handed out, unchanged, whatever is queued,
/// not flushed or about to close; an error is handed out too; and where nothing has come,
/// the poll parks.
pub proof fn law_received_packets_are_handed_out<T, E>(s: SubstreamView<T>, data: Vec<u8>, err: E)
    ensures
        s.when_received::<E>(Ok(Async::Ready(Some(data)))) == SubstreamStep::<E>::Return(
            Ok(Async::Ready(Some(Some(data)))),
        ),
        s.when_received::<E>(Err(err)) == SubstreamStep::<E>::Return(Err(err)),
        s.when_received::<E>(Ok(Async::NotReady)) == SubstreamStep::<E>::Park,
{
}

/// Where the stream has ended, so has the substream, exactly if nothing is left to send
/// or to flush; else it goes on waiting.
pub proof fn law_drained_substream_ends<T, E>(s: SubstreamView<T>)
    ensures
        s.send_queue.len() == 0 && !s.requires_poll_complete ==> s.when_received::<E>(
            Ok(Async::Ready(None)),
        ) == SubstreamStep::<E>::Return(Ok(Async::Ready(None))),
        s.send_queue.len() > 0 || s.requires_poll_complete ==> s.when_received::<E>(
            Ok(Async::Ready(None)),
        ) == SubstreamStep::<E>::Park,
{
}

/// A message that is queued goes out after all that were queued before it, once the stream
/// has taken those, whatever the substream was waiting for.
pub proof fn law_queued_message_is_sent<T, E>(s: SubstreamView<T>, data: Request)
    ensures
        ({
            let t = s.with_message(data);
            let n = s.send_queue.len();
            &&& after_taken::<T, E>(t, n).1 == SubstreamStep::<E>::StartSend(data)
            &&& after_taken::<T, E>(t, n).0.send_queue.len() == 0
            &&& t.is_closing == s.is_closing
            &&& t.requires_poll_complete == s.requires_poll_complete
            &&& t.protocol_id == s.protocol_id
            &&& t.protocol_version == s.protocol_version
            &&& t.notify is None
        }),
{
    let n = s.send_queue.len();
    law_first_queued_first_sent::<T, E>(s.with_message(data), n);
}

/// A substream that is not being closed starts a poll with its first message, if it has
/// one; else with flushing what was sent, if that is not done; else with the stream.
pub proof fn law_open_substream_sends_first<T, E>(s: SubstreamView<T>)
    requires
        !s.is_closing,
    ensures
        s.from_start::<E>() == after_taken::<T, E>(s, 0),
        s.send_queue.len() > 0 ==> s.from_start::<E>().1 == SubstreamStep::<E>::StartSend(
            s.send_queue[0],
        ),
        s.send_queue.len() == 0 ==> s.from_start::<E>().0 == s,
        s.send_queue.len() == 0 && s.requires_poll_complete ==> s.from_start::<E>().1
            == SubstreamStep::<E>::PollComplete,
        s.send_queue.len() == 0 && !s.requires_poll_complete ==> s.from_start::<E>().1
            == SubstreamStep::<E>::PollInner,
{
}

/// A substream that is shut down closes from then on, whatever it holds, and wakes who
/// waits; what it holds stays.
pub proof fn law_shutdown_closes<T, E>(s: SubstreamView<T>, data: Request)
    ensures
        s.shut_down().from_start::<E>() == (s.shut_down(), SubstreamStep::<E>::Close),
        s.shut_down().with_message(data).from_start::<E>().1 == SubstreamStep::<E>::Close,
        s.shut_down().notify is None,
        s == (SubstreamView { is_closing: s.is_closing, notify: s.notify, ..s.shut_down() }),
{
}

/// A stream that could be closed ends the substream; until then the substream waits, and
/// an error is handed out.
pub proof fn law_closed_stream_ends_substream<E>(err: E)
    ensures
        when_closed::<E>(Ok(Async::Ready(()))) == Ok::<_, E>(Async::<Option<Response>>::Ready(None)),
        when_closed::<E>(Ok(Async::NotReady)) == Ok::<_, E>(Async::<Option<Response>>::NotReady),
        when_closed::<E>(Err(err)) == Err::<Async<Option<Response>>, E>(err),
{
}

/// What became of a packet that was offered: one that the stream took has to be flushed;
/// one that it handed back is the first again; one that it kept without taking it is
/// lost; an error ends the poll. Only what was taken lets the next packet be offered; else
/// the poll goes on with flushing, if there is anything to flush, and with the stream.
pub proof fn law_offered_packet_is_accounted_for<T, E>(s: SubstreamView<T>, packet: Request, err: E)
    ensures
        ({
            let (t, step) = s.after_sent::<E>(Ok(AsyncSink::Ready));
            &&& t.requires_poll_complete
            &&& s.send_queue.len() > 0 ==> step == SubstreamStep::<E>::StartSend(s.send_queue[0])
                && t.send_queue == s.send_queue.skip(1)
            &&& s.send_queue.len() == 0 ==> step == SubstreamStep::<E>::PollComplete
                && t.send_queue == s.send_queue
            &&& s == (SubstreamView {
                requires_poll_complete: s.requires_poll_complete,
                send_queue: s.send_queue,
                ..t
            })
        }),
        ({
            let (t, step) = s.after_sent::<E>(Ok(AsyncSink::NotReady(Some(packet))));
            &&& t == (SubstreamView { send_queue: seq![packet] + s.send_queue, ..s })
            &&& step == if s.requires_poll_complete {
                SubstreamStep::<E>::PollComplete
            } else {
                SubstreamStep::<E>::PollInner
            }
        }),
        ({
            let (t, step) = s.after_sent::<E>(Ok(AsyncSink::NotReady(None)));
            &&& t == s
            &&& step == if s.requires_poll_complete {
                SubstreamStep::<E>::PollComplete
            } else {
                SubstreamStep::<E>::PollInner
            }
        }),
        s.after_sent::<E>(Err(err)) == (s, SubstreamStep::<E>::Return(Err(err))),
{
}

/// Once the stream was flushed, nothing is left to flush; where it could not be, that
/// stays to be done; either way the stream is polled next. An error ends the poll. What is
/// queued stays.
pub proof fn law_flushing_is_remembered<T, E>(s: SubstreamView<T>, err: E)
    ensures
        s.after_completed::<E>(Ok(Async::Ready(()))) == (
            SubstreamView { requires_poll_complete: false, ..s },
            SubstreamStep::<E>::PollInner,
        ),
        s.after_completed::<E>(Ok(Async::NotReady)) == (s, SubstreamStep::<E>::PollInner),
        s.after_completed::<E>(Err(err)) == (s, SubstreamStep::<E>::Return(Err(err))),
{
}

/// The number that decimal digits in ASCII stand for.
pub open spec fn digits_value(digits: Seq<u8>) -> int
    decreases digits.len(),
{
    if digits.len() == 0 {
        0
    } else {
        10 * digits_value(digits.drop_last()) + (digits.last() - 48)
    }
}

/// The digits of a version are ASCII digits, begin with no needless zero, and stand for
/// the version.
pub proof fn law_digits_stand_for_the_number(n: u8)
    ensures
        1 <= decimal(n).len() <= 3,
        forall|i: int| 0 <= i < decimal(n).len() ==> 48 <= #[trigger] decimal(n)[i] <= 57,
        decimal(n).len() > 1 ==> decimal(n)[0] != 48,
        digits_value(decimal(n)) == n,
{
    reveal_with_fuel(digits_value, 4);
    let digits = decimal(n);
    if n >= 100 {
        assert(digits.drop_last() =~= seq![digits[0], digits[1]]);
        assert(digits.drop_last().drop_last() =~= seq![digits[0]]);
        assert(digits.drop_last().drop_last().drop_last() =~= seq![]);
    } else if n >= 10 {
        assert(digits.drop_last() =~= seq![digits[0]]);
        assert(digits.drop_last().drop_last() =~= seq![]);
    } else {
        assert(digits.drop_last() =~= seq![]);
    }
}

/// Every name begins with the network's prefix, and then tells the low byte of the
/// protocol's number between slashes.
pub proof fn law_name_begins_with_prefix(protocol: usize)
    ensures
        name_of(protocol).len() == 8,
        name_of(protocol)[0] == '/' as u8,
        name_of(protocol)[1] == 'c' as u8,
        name_of(protocol)[2] == 'i' as u8,
        name_of(protocol)[3] == 't' as u8,
        name_of(protocol)[4] == 'a' as u8,
        name_of(protocol)[5] == '/' as u8,
        name_of(protocol)[6] == protocol % 256,
        name_of(protocol)[7] == '/' as u8,
{
}

/// Sorting leaves no choice: two lists of the same versions, the highest first, are the
/// same list. So every version is offered before each lower one.
pub proof fn law_order_of_versions_is_fixed(a: Seq<u8>, b: Seq<u8>)
    requires
        highest_first(a),
        highest_first(b),
        a.to_multiset() == b.to_multiset(),
    ensures
        a == b,
    decreases a.len(),
{
    broadcast use vstd::seq_lib::group_to_multiset_ensures;
    broadcast use vstd::multiset::group_multiset_axioms;

    vstd::seq_lib::to_multiset_len(a);
    vstd::seq_lib::to_multiset_len(b);
    assert(a.len() == b.len());
    if a.len() > 0 {
        assert(a.contains(a[a.len() - 1]));
        assert(b.contains(b[b.len() - 1]));
        assert(b.to_multiset().count(a.last()) > 0);
        assert(a.to_multiset().count(b.last()) > 0);
        let i = choose|i: int| 0 <= i < b.len() && b[i] == a.last();
        let j = choose|j: int| 0 <= j < a.len() && a[j] == b.last();
        assert(a.last() == b.last());
        assert(a.remove(a.len() - 1) =~= a.drop_last());
        assert(b.remove(b.len() - 1) =~= b.drop_last());
        law_order_of_versions_is_fixed(a.drop_last(), b.drop_last());
        assert(a =~= a.drop_last().push(a.last()));
        assert(b =~= b.drop_last().push(b.last()));
    } else {
        assert(a =~= b);
    }
}

} // verus!
