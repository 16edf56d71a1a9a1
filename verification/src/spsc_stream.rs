//! A single-producer single-consumer stream: the sender queues values, and
//! a receiver task hands them to the subscriber in order.
//!
//! At most one receiver task runs at a time: a send starts one, by queuing
//! a `ReceiverTask` on the core's task queue, only when a subscriber is there
//! and none runs. The task hands over every queued value, then stops; when
//! the sender has closed the stream by then, the subscriber is told and
//! taken off the stream. Tasks run one after the other, so no value arrives
//! while a receiver task runs.
use vstd::prelude::*;
use std::collections::VecDeque;
use core::marker::PhantomData;
use crate::stream::{
    FoldSubscriber,
    MapStream,
    MapSubscriber,
    Subscriber,
    folds_to,
    law_fold_subscriber_holds_the_fold,
    law_map_subscriber_passes_values_through_f,
};
use crate::task_queue::TaskQueue;

verus! {

/// The state that the two ends of a stream share.
pub struct SpscStreamInner<T, S> {
    queue: VecDeque<T>,
    receiver: Option<S>,
    running: bool,
    closed: bool,
}

/// The receiving end.
pub struct SpscStream<T> {
    value_type: PhantomData<T>,
}

/// The sending end.
pub struct SpscStreamSender<T> {
    value_type: PhantomData<T>,
}

impl<T, S> SpscStreamInner<T, S> {
    /// The values sent and not yet handed over, oldest first.
    pub closed spec fn queued(&self) -> Seq<T> {
        self.queue@
    }

    /// The subscriber, once there is one and until it is let go.
    pub closed spec fn receiver_spec(&self) -> Option<S> {
        self.receiver
    }

    /// Whether a receiver task runs.
    pub closed spec fn is_running(&self) -> bool {
        self.running
    }

    /// Whether the sender closed the stream.
    pub closed spec fn is_closed(&self) -> bool {
        self.closed
    }

    /// Number of values waiting.
    pub fn queued_len(&self) -> (n: usize)
        ensures
            n == self.queued().len(),
    {
        self.queue.len()
    }

    /// Whether a subscriber is there.
    pub fn has_receiver(&self) -> (r: bool)
        ensures
            r == self.receiver_spec() is Some,
    {
        self.receiver.is_some()
    }

    /// Whether a receiver task runs.
    pub fn running(&self) -> (r: bool)
        ensures
            r == self.is_running(),
    {
        self.running
    }

    /// Whether the sender closed the stream.
    pub fn closed(&self) -> (r: bool)
        ensures
            r == self.is_closed(),
    {
        self.closed
    }

    /// The subscriber, when there is one.
    pub fn receiver(&self) -> (r: &Option<S>)
        ensures
            *r == self.receiver_spec(),
    {
        &self.receiver
    }

    /// Starts a receiver task, by queuing a `ReceiverTask` on the core's
    /// task queue, when a subscriber is there and none runs; says whether it
    /// did. The queue must take the task.
    pub fn new_values(&mut self, queue: &mut TaskQueue<ReceiverTask>) -> (start: bool)
        requires
            starts_receiver(*old(self)) ==> !old(queue).is_locked(),
        ensures
            start == starts_receiver(*old(self)),
            final(self).is_running() == (old(self).is_running() || start),
            final(self).queued() == old(self).queued(),
            final(self).receiver_spec() == old(self).receiver_spec(),
            final(self).is_closed() == old(self).is_closed(),
            start ==> final(queue).tasks() == old(queue).tasks().push(ReceiverTask),
            !start ==> *final(queue) == *old(queue),
    {
        if self.receiver.is_some() && !self.running {
            self.running = true;
            let r = crate::task_queue::add(queue, ReceiverTask);
            true
        } else {
            false
        }
    }
}

/// The task that runs `run_receiver` on a stream.
#[derive(Clone, Copy, Debug, PartialEq, Eq, Structural)]
pub struct ReceiverTask;

/// Whether new values start a receiver task: a subscriber is there and no
/// receiver task runs.
pub open spec fn starts_receiver<T, S>(inner: SpscStreamInner<T, S>) -> bool {
    inner.receiver_spec() is Some && !inner.is_running()
}

/// What a send did, from `a` to `b`: `value` is queued at the back, and a
/// receiver task was started when new values start one.
pub open spec fn sent_spec<T, S>(a: SpscStreamInner<T, S>, value: T, b: SpscStreamInner<T, S>) -> bool {
    &&& b.queued() == a.queued().push(value)
    &&& b.receiver_spec() == a.receiver_spec()
    &&& b.is_closed() == a.is_closed()
    &&& b.is_running() == (a.is_running() || starts_receiver(a))
}

/// What a close did, from `a` to `b`: the stream is closed, and a receiver
/// task was started when new values start one.
pub open spec fn closed_spec<T, S>(a: SpscStreamInner<T, S>, b: SpscStreamInner<T, S>) -> bool {
    &&& b.is_closed()
    &&& b.queued() == a.queued()
    &&& b.receiver_spec() == a.receiver_spec()
    &&& b.is_running() == (a.is_running() || starts_receiver(a))
}

impl<T: Send> SpscStream<T> {
    /// The two ends of a new stream with nothing queued, no subscriber, no
    /// receiver task, and open.
    pub fn new<S>() -> (r: (SpscStream<T>, SpscStreamSender<T>, SpscStreamInner<T, S>))
        ensures
            r.2.queued() == Seq::<T>::empty(),
            r.2.receiver_spec() is None,
            !r.2.is_running(),
            !r.2.is_closed(),
    {
        (
            SpscStream { value_type: PhantomData },
            SpscStreamSender { value_type: PhantomData },
            SpscStreamInner { queue: VecDeque::new(), receiver: None, running: false, closed: false },
        )
    }

    /// Makes `subscriber` the receiver of the stream. Values queued already
    /// wait for the next send or close.
    pub fn subscribe<S>(self, inner: &mut SpscStreamInner<T, S>, subscriber: S)
        ensures
            final(inner).receiver_spec() == Some(subscriber),
            final(inner).queued() == old(inner).queued(),
            final(inner).is_running() == old(inner).is_running(),
            final(inner).is_closed() == old(inner).is_closed(),
    {
        inner.receiver = Some(subscriber);
    }
}

impl<T: Send> SpscStreamSender<T> {
    /// Queues `value`, then starts a receiver task when a subscriber is
    /// there and none runs; says whether it did.
    pub fn send<S>(
        &mut self,
        inner: &mut SpscStreamInner<T, S>,
        queue: &mut TaskQueue<ReceiverTask>,
        value: T,
    ) -> (start: bool)
        requires
            starts_receiver(*old(inner)) ==> !old(queue).is_locked(),
        ensures
            sent_spec(*old(inner), value, *final(inner)),
            start == starts_receiver(*old(inner)),
            start ==> final(queue).tasks() == old(queue).tasks().push(ReceiverTask),
            !start ==> *final(queue) == *old(queue),
    {
        inner.queue.push_back(value);
        inner.new_values(queue)
    }

    /// Closes the stream, then starts a receiver task when a subscriber is
    /// there and none runs; says whether it did.
    pub fn close<S>(self, inner: &mut SpscStreamInner<T, S>, queue: &mut TaskQueue<ReceiverTask>) -> (start: bool)
        requires
            starts_receiver(*old(inner)) ==> !old(queue).is_locked(),
        ensures
            closed_spec(*old(inner), *final(inner)),
            start == starts_receiver(*old(inner)),
            start ==> final(queue).tasks() == old(queue).tasks().push(ReceiverTask),
            !start ==> *final(queue) == *old(queue),
    {
        inner.closed = true;
        inner.new_values(queue)
    }
}

impl<T: Send, F> MapStream<SpscStream<T>, F> {
    /// Subscribes `subscriber` to the mapped stream: the stream's receiver
    /// becomes a `MapSubscriber` that passes each value through `f` on to
    /// `subscriber`.
    pub fn subscribe<S: Subscriber>(self, inner: &mut SpscStreamInner<T, MapSubscriber<T, F, S>>, subscriber: S)
        where F: FnMut(T) -> S::Item
        requires
            subscriber.inv(),
        ensures
            final(inner).receiver_spec() is Some,
            final(inner).receiver_spec()->Some_0.f == self.f,
            final(inner).receiver_spec()->Some_0.subscriber == subscriber,
            final(inner).receiver_spec()->Some_0.passed() == Seq::<T>::empty(),
            final(inner).receiver_spec()->Some_0.first() == subscriber.received().len(),
            final(inner).receiver_spec()->Some_0.inv(),
            final(inner).queued() == old(inner).queued(),
            final(inner).is_running() == old(inner).is_running(),
            final(inner).is_closed() == old(inner).is_closed(),
    {
        let MapStream { stream, f } = self;
        stream.subscribe(inner, MapSubscriber::new(f, subscriber))
    }
}

/// How a receiver task ended.
pub enum ReceiverEnd<S> {
    /// The stream was closed: the subscriber was told, and is handed back
    /// to be let go.
    Closed(S),
    /// Nothing more to do until the next send.
    Idle,
}

/// What a receiver task did, from `a` to `b`, with result `r`: every queued
/// value was handed over, oldest first, and the task stopped; on a closed
/// stream the subscriber was told and handed back, else it stays. For a
/// subscriber that keeps a record, its record grew by the queued values.
pub open spec fn received_spec<T, S: Subscriber<Item = T>>(
    a: SpscStreamInner<T, S>,
    b: SpscStreamInner<T, S>,
    r: (ReceiverEnd<S>, usize),
) -> bool {
    &&& r.1 == a.queued().len()
    &&& b.queued() == Seq::<T>::empty()
    &&& b.is_closed() == a.is_closed()
    &&& !b.is_running()
    &&& a.is_closed() ==> {
        &&& r.0 is Closed
        &&& r.0->Closed_0.inv()
        &&& b.receiver_spec() is None
        &&& S::records_values() ==> r.0->Closed_0.was_closed() && r.0->Closed_0.received()
            == a.receiver_spec()->Some_0.received() + a.queued()
    }
    &&& !a.is_closed() ==> {
        &&& r.0 is Idle
        &&& b.receiver_spec() is Some
        &&& b.receiver_spec()->Some_0.inv()
        &&& S::records_values() ==> b.receiver_spec()->Some_0.received()
            == a.receiver_spec()->Some_0.received() + a.queued()
    }
}

/// The run of a receiver task: hands every queued value to the
/// subscriber's `on_value`, oldest first, then marks the task stopped; when
/// the stream is closed, the subscriber's `on_close` is called and the
/// subscriber is taken off the stream and handed back. Returns how the task
/// ended and how many values it handed over.
pub fn run_receiver<T, S: Subscriber<Item = T>>(inner: &mut SpscStreamInner<T, S>) -> (r: (
    ReceiverEnd<S>,
    usize,
))
    requires
        old(inner).receiver_spec() is Some,
        old(inner).receiver_spec()->Some_0.inv(),
        old(inner).is_running(),
        forall|i: int|
            0 <= i < old(inner).queued().len() ==> old(inner).receiver_spec()->Some_0.accepts(
                #[trigger] old(inner).queued()[i],
            ),
    ensures
        received_spec(*old(inner), *final(inner), r),
{
    let ghost q0 = inner.queue@;
    let ghost r0 = inner.receiver->Some_0.received();
    let ghost c0 = inner.closed;
    assert forall|i: int| 0 <= i < q0.len() implies inner.receiver->Some_0.accepts(#[trigger] q0[i]) by {
        assert(old(inner).queued()[i] == q0[i]);
    }
    let mut subscriber = match inner.receiver.take() {
        Some(s) => s,
        None => {
            return (ReceiverEnd::Idle, 0);
        },
    };
    let mut count: usize = 0;
    let total = inner.queue.len();
    loop
        invariant
            total == q0.len(),
            count <= q0.len(),
            inner.queue@ == q0.subrange(count as int, q0.len() as int),
            S::records_values() ==> subscriber.received() == r0 + q0.subrange(0, count as int),
            forall|i: int| count <= i < q0.len() ==> subscriber.accepts(#[trigger] q0[i]),
            subscriber.inv(),
            inner.receiver is None,
            inner.closed == c0,
        ensures
            count == q0.len(),
            inner.queue@ == Seq::<T>::empty(),
            S::records_values() ==> subscriber.received() == r0 + q0,
            subscriber.inv(),
            inner.receiver is None,
            inner.closed == c0,
        decreases q0.len() - count,
    {
        match inner.queue.pop_front() {
            Some(v) => {
                assert(v == q0[count as int]);
                subscriber.on_value(v);
                proof {
                    assert(q0.subrange(0, count as int).push(v) =~= q0.subrange(0, count as int + 1));
                    assert(inner.queue@ =~= q0.subrange(count as int + 1, q0.len() as int));
                    if S::records_values() {
                        assert(subscriber.received() =~= r0 + q0.subrange(0, count as int + 1));
                    }
                }
                count = count + 1;
            },
            None => {
                assert(q0.subrange(0, count as int) =~= q0);
                break ;
            },
        }
    }
    inner.running = false;
    if inner.closed {
        subscriber.on_close();
        (ReceiverEnd::Closed(subscriber), count)
    } else {
        inner.receiver = Some(subscriber);
        (ReceiverEnd::Idle, count)
    }
}

/// The values sent one after the other on a stream that has a subscriber
/// after those queued already, after all earlier ones, by `states[i]` to
/// `states[i + 1]`.
proof fn lemma_sends_queue_in_order<T, S>(states: Seq<SpscStreamInner<T, S>>, sent: Seq<T>, i: int)
    requires
        states.len() == sent.len() + 1,
        0 <= i <= sent.len(),
        forall|k: int| 0 <= k < sent.len() ==> #[trigger] sent_spec(states[k], sent[k], states[k + 1]),
    ensures
        states[i].queued() == states[0].queued() + sent.subrange(0, i),
        states[i].receiver_spec() == states[0].receiver_spec(),
        states[i].is_closed() == states[0].is_closed(),
    decreases i,
{
    if i > 0 {
        lemma_sends_queue_in_order(states, sent, i - 1);
        assert(sent_spec(states[i - 1], sent[i - 1], states[i]));
        assert(sent.subrange(0, i - 1).push(sent[i - 1]) =~= sent.subrange(0, i));
        assert(states[0].queued() + sent.subrange(0, i) =~= (states[0].queued() + sent.subrange(
            0,
            i - 1,
        )).push(sent[i - 1]));
    } else {
        assert(states[0].queued() + sent.subrange(0, 0) =~= states[0].queued());
    }
}

/// No value is lost or reordered, and the close comes last and once: when
/// values are sent one after the other on an open stream whose subscriber
/// keeps a record, the stream is closed, and the receiver task runs, the
/// subscriber received what was queued before and then every sent value,
/// in the order sent, was told of the close, and is off the stream.
pub proof fn law_spsc_delivers_in_order_then_closes<T, S: Subscriber<Item = T>>(
    states: Seq<SpscStreamInner<T, S>>,
    sent: Seq<T>,
    closed: SpscStreamInner<T, S>,
    after: SpscStreamInner<T, S>,
    r: (ReceiverEnd<S>, usize),
)
    requires
        S::records_values(),
        states.len() == sent.len() + 1,
        states[0].receiver_spec() is Some,
        !states[0].is_closed(),
        forall|k: int| 0 <= k < sent.len() ==> #[trigger] sent_spec(states[k], sent[k], states[k + 1]),
        closed_spec(states.last(), closed),
        received_spec(closed, after, r),
    ensures
        closed.is_running(),
        r.0 is Closed,
        r.1 == states[0].queued().len() + sent.len(),
        r.0->Closed_0.was_closed(),
        r.0->Closed_0.received() == states[0].receiver_spec()->Some_0.received() + states[0].queued()
            + sent,
        after.receiver_spec() is None,
        after.queued() == Seq::<T>::empty(),
{
    lemma_sends_queue_in_order(states, sent, sent.len() as int);
    assert(sent.subrange(0, sent.len() as int) =~= sent);
    assert(states.last() == states[sent.len() as int]);
    assert(states[0].receiver_spec()->Some_0.received() + (states[0].queued() + sent) =~= states[0].receiver_spec()->Some_0.received()
        + states[0].queued() + sent);
}

/// A mapped stream hands every value through `f`, in order, and then the
/// close: when values are sent one after the other on an open stream whose
/// map subscriber's inner subscriber keeps a record, the stream is closed,
/// and the receiver task runs, the inner subscriber holds, after what it
/// held before, one result of `f` for each value received before, queued
/// and sent, in order, and was told of the close.
pub proof fn law_mapped_spsc_delivers_mapped_values<T, F: FnMut(T) -> S::Item, S: Subscriber>(
    states: Seq<SpscStreamInner<T, MapSubscriber<T, F, S>>>,
    sent: Seq<T>,
    closed: SpscStreamInner<T, MapSubscriber<T, F, S>>,
    after: SpscStreamInner<T, MapSubscriber<T, F, S>>,
    r: (ReceiverEnd<MapSubscriber<T, F, S>>, usize),
)
    requires
        S::records_values(),
        states.len() == sent.len() + 1,
        states[0].receiver_spec() is Some,
        !states[0].is_closed(),
        forall|k: int| 0 <= k < sent.len() ==> #[trigger] sent_spec(states[k], sent[k], states[k + 1]),
        closed_spec(states.last(), closed),
        received_spec(closed, after, r),
    ensures
        r.0 is Closed,
        ({
            let m = r.0->Closed_0;
            let values = states[0].receiver_spec()->Some_0.received() + states[0].queued() + sent;
            &&& m.subscriber.was_closed()
            &&& m.subscriber.received().len() == m.first() + values.len()
            &&& forall|k: int|
                0 <= k < values.len() ==> call_ensures(
                    m.f,
                    (values[k],),
                    #[trigger] m.subscriber.received()[m.first() + k],
                )
        }),
{
    law_spsc_delivers_in_order_then_closes(states, sent, closed, after, r);
    law_map_subscriber_passes_values_through_f(r.0->Closed_0);
}

/// A stream drives a fold to the fold of its values: when values are sent
/// one after the other on an open stream whose fold subscriber has folded
/// nothing yet, the stream is closed, and the receiver task runs, the fold
/// subscriber is closed and holds the fold with its `f`, from its initial
/// value, of the values queued and sent, in order; `give_result` hands that
/// value to the computation.
pub proof fn law_spsc_fold_gives_fold_of_values<T, B, F: FnMut(B, T) -> B>(
    states: Seq<SpscStreamInner<T, FoldSubscriber<T, B, F>>>,
    sent: Seq<T>,
    closed: SpscStreamInner<T, FoldSubscriber<T, B, F>>,
    after: SpscStreamInner<T, FoldSubscriber<T, B, F>>,
    r: (ReceiverEnd<FoldSubscriber<T, B, F>>, usize),
)
    requires
        states.len() == sent.len() + 1,
        states[0].receiver_spec() is Some,
        states[0].receiver_spec()->Some_0.seen() == Seq::<T>::empty(),
        !states[0].is_closed(),
        forall|k: int| 0 <= k < sent.len() ==> #[trigger] sent_spec(states[k], sent[k], states[k + 1]),
        closed_spec(states.last(), closed),
        received_spec(closed, after, r),
    ensures
        r.0 is Closed,
        r.0->Closed_0.closed,
        folds_to(
            r.0->Closed_0.f,
            r.0->Closed_0.initial(),
            states[0].queued() + sent,
            r.0->Closed_0.accumulator_spec(),
        ),
{
    law_spsc_delivers_in_order_then_closes(states, sent, closed, after, r);
    law_fold_subscriber_holds_the_fold(r.0->Closed_0);
    assert(Seq::<T>::empty() + states[0].queued() + sent =~= states[0].queued() + sent);
}

} // verus!
