//! Streams of values that a sender sends and a subscriber receives, and the
//! adaptors that map and fold them.
use vstd::prelude::*;
use crate::computation::{
    Computation,
    ComputationResultSetter,
    Computations,
    ComputationInner,
    ComputationTask,
    invoke_if_set_spec,
    live,
    finishing_dispatches,
    new_pair,
};
use crate::task_queue::TaskQueue;

verus! {

/// The receiving end of a stream.
pub trait Subscriber {
    type Item;

    /// Whether the subscriber keeps a record of the values it received; one
    /// that does not says nothing of them.
    open spec fn records_values() -> bool {
        false
    }

    /// The values received so far, oldest first, for a subscriber that
    /// keeps a record.
    open spec fn received(&self) -> Seq<Self::Item> {
        Seq::empty()
    }

    /// Whether the subscriber was told that no more values come, for a
    /// subscriber that keeps a record.
    open spec fn was_closed(&self) -> bool {
        false
    }

    /// The subscriber's own invariant, which it keeps through every call;
    /// none, unless the subscriber says otherwise.
    open spec fn inv(&self) -> bool {
        true
    }

    /// Whether the subscriber can take `value`; every value, unless the
    /// subscriber says otherwise.
    open spec fn accepts(&self, value: Self::Item) -> bool {
        true
    }

    /// Receives the next value, which the subscriber must accept, keeps its
    /// invariant and goes on accepting what it accepted: a subscriber that
    /// keeps a record adds the value at the end.
    fn on_value(&mut self, value: Self::Item)
        requires
            old(self).inv(),
            old(self).accepts(value),
        ensures
            final(self).inv(),
            forall|v: Self::Item| old(self).accepts(v) ==> #[trigger] final(self).accepts(v),
            Self::records_values() ==> final(self).received() == old(self).received().push(value),
    ;

    /// Learns that no more values come and keeps its invariant: a
    /// subscriber that keeps a record notes it and keeps the values it
    /// received.
    fn on_close(&mut self)
        requires
            old(self).inv(),
        ensures
            final(self).inv(),
            Self::records_values() ==> final(self).was_closed() && final(self).received() == old(
                self,
            ).received(),
    ;
}

/// A source of values that one subscriber can subscribe to.
pub trait Stream {
    type Item;

    /// Hands the values of the stream to `subscriber`.
    fn subscribe<S: Subscriber<Item = Self::Item>>(self, subscriber: S);
}

/// The sending end of a stream.
pub trait StreamSender {
    type Item;

    /// Sends a value.
    fn send(&mut self, value: Self::Item);

    /// Ends the stream.
    fn close(self);
}

/// A stream whose values pass through `f`.
pub struct MapStream<Strm, F> {
    pub stream: Strm,
    pub f: F,
}

/// Adaptors of streams.
pub trait StreamExt: Stream + Sized {
    /// The stream of the values of this one passed through `f`.
    fn map<F>(self, f: F) -> (m: MapStream<Self, F>)
        ensures
            m.stream == self,
            m.f == f,
    {
        MapStream { stream: self, f }
    }

    /// The fold of this stream's values with `f`, starting from `init`: the
    /// stream, a fresh computation of the result at the end of the table,
    /// and the subscriber that folds into it.
    fn fold<B, F: FnMut(B, Self::Item) -> B, G>(self, cells: &mut Computations<B, G>, init: B, f: F) -> (r: FoldFuture<Self, Self::Item, B, F>)
        ensures
            final(cells)@ == old(cells)@.push(
                ComputationInner { counterpart_finished: false, value: None, continuation: None, freed: false },
            ),
            r.stream == self,
            r.future.slot_spec() == old(cells)@.len(),
            r.subscriber.future_setter.slot_spec() == old(cells)@.len(),
            r.subscriber.wf(),
            r.subscriber.initial() == init,
            r.subscriber.accumulator_spec() == init,
            r.subscriber.seen() == Seq::<Self::Item>::empty(),
            !r.subscriber.closed,
            r.subscriber.f == f,
    {
        FoldFuture::new(self, cells, init, f)
    }
}

impl<Strm: Stream> StreamExt for Strm {
}

/// The subscriber of a mapped stream: passes each value through `f` on to
/// the inner subscriber. It keeps, as ghost state, the values it passed on
/// and how many values the inner subscriber held before.
pub struct MapSubscriber<I, F, S> {
    pub f: F,
    pub subscriber: S,
    pub inputs: Ghost<Seq<I>>,
    pub base: Ghost<nat>,
}

impl<I, F, S: Subscriber> MapSubscriber<I, F, S> {
    /// The values passed on so far, oldest first.
    pub closed spec fn passed(&self) -> Seq<I> {
        self.inputs@
    }

    /// How many values the inner subscriber held before the first one
    /// passed on.
    pub closed spec fn first(&self) -> nat {
        self.base@
    }

    /// For an inner subscriber that keeps a record: after what it held
    /// before, it holds one result of `f` for each value passed on, in
    /// order.
    pub closed spec fn mapped(&self) -> bool where F: FnMut(I) -> S::Item {
        S::records_values() ==> {
            &&& self.base@ + self.inputs@.len() == self.subscriber.received().len()
            &&& forall|k: int|
                0 <= k < self.inputs@.len() ==> call_ensures(
                    self.f,
                    (self.inputs@[k],),
                    #[trigger] self.subscriber.received()[self.base@ + k],
                )
        }
    }

    /// A map subscriber that passes values through `f` on to `subscriber`.
    pub fn new(f: F, subscriber: S) -> (m: MapSubscriber<I, F, S>) where F: FnMut(I) -> S::Item
        ensures
            m.f == f,
            m.subscriber == subscriber,
            m.passed() == Seq::<I>::empty(),
            m.first() == subscriber.received().len(),
            m.mapped(),
    {
        MapSubscriber { f, subscriber, inputs: Ghost(Seq::empty()), base: Ghost(subscriber.received().len()) }
    }
}

impl<I, F: FnMut(I) -> S::Item, S: Subscriber> Subscriber for MapSubscriber<I, F, S> {
    type Item = I;

    /// A map subscriber keeps a record when its inner subscriber does: the
    /// values passed on.
    open spec fn records_values() -> bool {
        S::records_values()
    }

    open spec fn received(&self) -> Seq<I> {
        self.passed()
    }

    open spec fn was_closed(&self) -> bool {
        self.subscriber.was_closed()
    }

    open spec fn inv(&self) -> bool {
        self.mapped() && self.subscriber.inv()
    }

    /// A value is accepted when `f` takes it and the inner subscriber
    /// accepts whatever `f` gives for it.
    open spec fn accepts(&self, value: I) -> bool {
        &&& call_requires(self.f, (value,))
        &&& forall|r: S::Item| call_ensures(self.f, (value,), r) ==> self.subscriber.accepts(r)
    }

    /// Hands `f(value)` to the inner subscriber.
    fn on_value(&mut self, value: I)
        ensures
            final(self).f == old(self).f,
            final(self).first() == old(self).first(),
    {
        let ghost old_inputs = self.inputs@;
        let ghost old_record = self.subscriber.received();
        let mapped = (self.f)(value);
        self.subscriber.on_value(mapped);
        proof {
            self.inputs@ = old_inputs.push(value);
            if S::records_values() {
                assert forall|k: int| 0 <= k < self.inputs@.len() implies call_ensures(
                    self.f,
                    (self.inputs@[k],),
                    #[trigger] self.subscriber.received()[self.base@ + k],
                ) by {
                    if k < old_inputs.len() {
                        assert(self.subscriber.received()[self.base@ + k] == old_record[self.base@ + k]);
                    }
                }
            }
        }
    }

    /// Tells the inner subscriber that the stream ended.
    fn on_close(&mut self) {
        self.subscriber.on_close()
    }
}

/// A map subscriber hands each value through `f`, in order: when its inner
/// subscriber keeps a record, it holds, after what it held before, one
/// result of `f` for each value the map subscriber received.
pub proof fn law_map_subscriber_passes_values_through_f<I, F: FnMut(I) -> S::Item, S: Subscriber>(
    m: MapSubscriber<I, F, S>,
)
    requires
        S::records_values(),
        m.inv(),
    ensures
        m.subscriber.received().len() == m.first() + m.received().len(),
        forall|k: int|
            0 <= k < m.received().len() ==> call_ensures(
                m.f,
                (m.received()[k],),
                #[trigger] m.subscriber.received()[m.first() + k],
            ),
{
}

/// Whether `result` is the fold of `values` with `f` from `init`: there
/// are accumulators, the first `init` and the last `result`, each after the
/// first one that `f` may give for the one before it and the next value.
pub open spec fn folds_to<I, B, F: FnMut(B, I) -> B>(f: F, init: B, values: Seq<I>, result: B) -> bool {
    exists|steps: Seq<B>| #[trigger] fold_steps(f, init, values, steps) && steps.last() == result
}

/// The accumulators of a fold of `values` with `f` from `init`.
pub open spec fn fold_steps<I, B, F: FnMut(B, I) -> B>(f: F, init: B, values: Seq<I>, steps: Seq<B>) -> bool {
    &&& steps.len() == values.len() + 1
    &&& steps[0] == init
    &&& forall|k: int| 0 <= k < values.len() ==> call_ensures(f, (steps[k], values[k]), #[trigger] steps[k + 1])
}

/// The subscriber that folds the values into an accumulator and, once the
/// stream ended, gives the result to a computation. It keeps, as ghost
/// state, the values it folded and the accumulators it went through.
pub struct FoldSubscriber<I, B, F> {
    pub accumulator: Option<B>,
    pub f: F,
    pub future_setter: ComputationResultSetter<B>,
    pub closed: bool,
    pub values: Ghost<Seq<I>>,
    pub steps: Ghost<Seq<B>>,
}

impl<I, B, F> FoldSubscriber<I, B, F> {
    /// The accumulated value.
    pub open spec fn accumulator_spec(&self) -> B {
        self.accumulator->Some_0
    }

    /// The values folded so far, oldest first.
    pub closed spec fn seen(&self) -> Seq<I> {
        self.values@
    }

    /// The value the fold started from.
    pub closed spec fn initial(&self) -> B {
        self.steps@[0]
    }

    /// The subscriber holds its accumulator, which is the fold of the values
    /// seen from the initial value.
    pub closed spec fn wf(&self) -> bool where F: FnMut(B, I) -> B {
        &&& self.accumulator is Some
        &&& fold_steps(self.f, self.steps@[0], self.values@, self.steps@)
        &&& self.steps@.last() == self.accumulator->Some_0
    }

    /// A subscriber that starts folding from `init` with `f` and gives the
    /// result to `future_setter`.
    pub fn new(init: B, f: F, future_setter: ComputationResultSetter<B>) -> (s: FoldSubscriber<I, B, F>)
        where F: FnMut(B, I) -> B
        ensures
            s.wf(),
            s.initial() == init,
            s.accumulator_spec() == init,
            s.seen() == Seq::<I>::empty(),
            !s.closed,
            s.f == f,
            s.future_setter == future_setter,
    {
        let ghost steps = seq![init];
        FoldSubscriber {
            accumulator: Some(init),
            f,
            future_setter,
            closed: false,
            values: Ghost(Seq::empty()),
            steps: Ghost(steps),
        }
    }

    /// Gives the accumulated value to the computation, as its setter's `set`
    /// does; the stream must have ended.
    pub fn give_result<H, G>(
        self,
        cells: &mut Computations<B, G>,
        queue: &mut TaskQueue<ComputationTask<H, G, B>>,
    )
        requires
            self.accumulator is Some,
            live(old(cells)@, self.future_setter.slot_spec()),
            finishing_dispatches(old(cells)@[self.future_setter.slot_spec()], true) ==> !old(
                queue,
            ).is_locked(),
        ensures
            ({
                let cell = old(cells)@[self.future_setter.slot_spec()];
                let given = ComputationInner { value: Some(self.accumulator_spec()), ..cell };
                let (after, task) = invoke_if_set_spec(given);
                &&& final(cells)@ == old(cells)@.update(self.future_setter.slot_spec(), after)
                &&& task is None ==> *final(queue) == *old(queue)
                &&& task is Some ==> final(queue).tasks() == old(queue).tasks().push(
                    ComputationTask::Continue {
                        continuation: cell.continuation->Some_0,
                        value: self.accumulator_spec(),
                    },
                )
            }),
    {
        let FoldSubscriber { accumulator, f, future_setter, closed, values, steps } = self;
        match accumulator {
            Some(a) => future_setter.set(cells, queue, a),
            None => {},
        }
    }
}

impl<I, B, F: FnMut(B, I) -> B> Subscriber for FoldSubscriber<I, B, F> {
    type Item = I;

    open spec fn records_values() -> bool {
        true
    }

    open spec fn received(&self) -> Seq<I> {
        self.seen()
    }

    open spec fn was_closed(&self) -> bool {
        self.closed
    }

    open spec fn inv(&self) -> bool {
        self.wf()
    }

    /// A value is accepted when `f` takes it with any accumulator.
    open spec fn accepts(&self, value: I) -> bool {
        forall|a: B| call_requires(self.f, (a, value))
    }

    /// Folds `value` into the accumulator with `f`.
    fn on_value(&mut self, value: I)
        ensures
            final(self).wf(),
            final(self).f == old(self).f,
            final(self).initial() == old(self).initial(),
            final(self).future_setter == old(self).future_setter,
            final(self).closed == old(self).closed,
            call_ensures(old(self).f, (old(self).accumulator_spec(), value), final(self).accumulator_spec()),
    {
        let ghost old_steps = self.steps@;
        let ghost old_values = self.values@;
        let acc = self.accumulator.take();
        match acc {
            Some(a) => {
                let next = (self.f)(a, value);
                proof {
                    self.steps@ = old_steps.push(next);
                    self.values@ = old_values.push(value);
                    assert forall|k: int| 0 <= k < self.values@.len() implies call_ensures(
                        self.f,
                        (self.steps@[k], self.values@[k]),
                        #[trigger] self.steps@[k + 1],
                    ) by {
                        if k < old_values.len() {
                            assert(self.steps@[k] == old_steps[k]);
                            assert(self.steps@[k + 1] == old_steps[k + 1]);
                        }
                    }
                }
                self.accumulator = Some(next);
            },
            None => {},
        }
    }

    /// Notes that the stream ended; `give_result` hands the accumulated
    /// value on.
    fn on_close(&mut self)
        ensures
            final(self).accumulator == old(self).accumulator,
            final(self).f == old(self).f,
            final(self).future_setter == old(self).future_setter,
            final(self).seen() == old(self).seen(),
            final(self).initial() == old(self).initial(),
    {
        self.closed = true;
    }
}

/// The accumulator of a well-formed fold subscriber is the fold of the
/// values it received, from the value it started with.
pub proof fn law_fold_subscriber_holds_the_fold<I, B, F: FnMut(B, I) -> B>(s: FoldSubscriber<I, B, F>)
    requires
        s.wf(),
    ensures
        folds_to(s.f, s.initial(), s.seen(), s.accumulator_spec()),
{
    assert(fold_steps(s.f, s.initial(), s.seen(), s.steps@));
}

/// A computation of the fold of a stream: the stream, the computation of the
/// result, and the subscriber that folds.
pub struct FoldFuture<Strm, I, B, F> {
    pub stream: Strm,
    pub future: Computation<B>,
    pub subscriber: FoldSubscriber<I, B, F>,
}

impl<Strm, I, B, F> FoldFuture<Strm, I, B, F> {
    /// A fold of `stream` with `f`, starting from `init`, and a fresh
    /// computation of its result.
    pub fn new<G>(stream: Strm, cells: &mut Computations<B, G>, init: B, f: F) -> (r: FoldFuture<Strm, I, B, F>)
        where F: FnMut(B, I) -> B
        ensures
            final(cells)@ == old(cells)@.push(
                ComputationInner { counterpart_finished: false, value: None, continuation: None, freed: false },
            ),
            r.future.slot_spec() == old(cells)@.len(),
            r.subscriber.future_setter.slot_spec() == old(cells)@.len(),
            r.subscriber.wf(),
            r.subscriber.initial() == init,
            r.subscriber.accumulator_spec() == init,
            r.subscriber.seen() == Seq::<I>::empty(),
            !r.subscriber.closed,
            r.stream == stream,
            r.subscriber.f == f,
    {
        let (future, setter) = new_pair(cells);
        FoldFuture { stream, future, subscriber: FoldSubscriber::new(init, f, setter) }
    }

    /// Attaches `g` to the fold's result, as its computation's `and_then`
    /// does, and hands back the stream and the subscriber that folds, to be
    /// subscribed to the stream: once the stream ended, the subscriber's
    /// `give_result` gives the result.
    pub fn and_then<H, G>(
        self,
        cells: &mut Computations<B, G>,
        queue: &mut TaskQueue<ComputationTask<H, G, B>>,
        g: G,
    ) -> (r: (Strm, FoldSubscriber<I, B, F>))
        requires
            live(old(cells)@, self.future.slot_spec()),
            finishing_dispatches(old(cells)@[self.future.slot_spec()], false) ==> !old(queue).is_locked(),
        ensures
            r.0 == self.stream,
            r.1 == self.subscriber,
            ({
                let cell = old(cells)@[self.future.slot_spec()];
                let given = ComputationInner { continuation: Some(g), ..cell };
                let (after, task) = invoke_if_set_spec(given);
                &&& final(cells)@ == old(cells)@.update(self.future.slot_spec(), after)
                &&& task is None ==> *final(queue) == *old(queue)
                &&& task is Some ==> final(queue).tasks() == old(queue).tasks().push(
                    ComputationTask::Continue { continuation: g, value: cell.value->Some_0 },
                )
            }),
    {
        let FoldFuture { stream, future, subscriber } = self;
        future.and_then(cells, queue, g);
        (stream, subscriber)
    }
}

} // verus!
