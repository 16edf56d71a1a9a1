//! A stream whose subscriber arrives later: the stream's end gives the
//! subscriber to a computation, and the sender's end waits on that
//! computation.
use vstd::prelude::*;
use core::marker::PhantomData;
use crate::computation::{
    Computation,
    ComputationResultSetter,
    Computations,
    ComputationInner,
    ComputationTask,
    invoke_if_set_spec,
    live,
    finishing_dispatches,
    new_pair,
};
use crate::task_queue::TaskQueue;
use crate::stream::Subscriber;

verus! {

/// The receiving end: gives the subscriber once it is known.
pub struct FutureStream<T, S> {
    pub subscriber_setter: ComputationResultSetter<S>,
    pub value_type: PhantomData<T>,
}

/// The sending end: waits for the subscriber.
pub struct FutureStreamSender<T, S> {
    pub subscriber: Computation<S>,
    pub value_type: PhantomData<T>,
}

impl<T, S> FutureStream<T, S> {
    /// The two ends of a new stream, sharing a fresh computation of the
    /// subscriber.
    pub fn new<C>(cells: &mut Computations<S, C>) -> (r: (FutureStream<T, S>, FutureStreamSender<T, S>))
        ensures
            final(cells)@ == old(cells)@.push(
                ComputationInner { counterpart_finished: false, value: None, continuation: None, freed: false },
            ),
            r.0.subscriber_setter.slot_spec() == old(cells)@.len(),
            r.1.subscriber.slot_spec() == old(cells)@.len(),
    {
        let (future, setter) = new_pair(cells);
        (
            FutureStream { subscriber_setter: setter, value_type: PhantomData },
            FutureStreamSender { subscriber: future, value_type: PhantomData },
        )
    }

    /// Gives `subscriber` to the sender's end, as the setter's `set` does.
    pub fn subscribe<F, C>(
        self,
        cells: &mut Computations<S, C>,
        queue: &mut TaskQueue<ComputationTask<F, C, S>>,
        subscriber: S,
    )
        requires
            live(old(cells)@, self.subscriber_setter.slot_spec()),
            finishing_dispatches(old(cells)@[self.subscriber_setter.slot_spec()], true) ==> !old(
                queue,
            ).is_locked(),
        ensures
            ({
                let cell = old(cells)@[self.subscriber_setter.slot_spec()];
                let given = ComputationInner { value: Some(subscriber), ..cell };
                let (after, task) = invoke_if_set_spec(given);
                &&& final(cells)@ == old(cells)@.update(self.subscriber_setter.slot_spec(), after)
                &&& task is None ==> *final(queue) == *old(queue)
                &&& task is Some ==> final(queue).tasks() == old(queue).tasks().push(
                    ComputationTask::Continue { continuation: cell.continuation->Some_0, value: subscriber },
                )
            }),
    {
        self.subscriber_setter.set(cells, queue, subscriber)
    }
}

impl<T, S> FutureStreamSender<T, S> {
    /// Ends the stream: `on_close`, the continuation that tells the
    /// subscriber, is attached to the computation of the subscriber, as its
    /// `and_then` does.
    pub fn close<F, C>(
        self,
        cells: &mut Computations<S, C>,
        queue: &mut TaskQueue<ComputationTask<F, C, S>>,
        on_close: C,
    )
        requires
            live(old(cells)@, self.subscriber.slot_spec()),
            finishing_dispatches(old(cells)@[self.subscriber.slot_spec()], false) ==> !old(
                queue,
            ).is_locked(),
        ensures
            ({
                let cell = old(cells)@[self.subscriber.slot_spec()];
                let given = ComputationInner { continuation: Some(on_close), ..cell };
                let (after, task) = invoke_if_set_spec(given);
                &&& final(cells)@ == old(cells)@.update(self.subscriber.slot_spec(), after)
                &&& task is None ==> *final(queue) == *old(queue)
                &&& task is Some ==> final(queue).tasks() == old(queue).tasks().push(
                    ComputationTask::Continue { continuation: on_close, value: cell.value->Some_0 },
                )
            }),
    {
        self.subscriber.and_then(cells, queue, on_close)
    }
}

/// What the sender's end does once the subscriber is known.
pub enum SenderStep<T, S> {
    /// Hand `value` to the subscriber, then give the subscriber on to the
    /// computation that `next` sets, where the following step waits.
    Deliver { value: T, next: ComputationResultSetter<S> },
    /// Tell the subscriber that no more values come.
    Close,
}

/// The empty cell at the end of the table that a send adds.
pub open spec fn fresh_cell<S, C>() -> ComputationInner<S, C> {
    ComputationInner { counterpart_finished: false, value: None, continuation: None, freed: false }
}

impl<T, S> FutureStreamSender<T, S> {
    /// Sends `value`: once the subscriber is known it receives `value` and
    /// is given on to a fresh computation, which the sender waits on from
    /// now on. The step is attached to the computation of the subscriber,
    /// as its `and_then` does.
    pub fn send<F>(
        &mut self,
        cells: &mut Computations<S, SenderStep<T, S>>,
        queue: &mut TaskQueue<ComputationTask<F, SenderStep<T, S>, S>>,
        value: T,
    )
        requires
            live(old(cells)@, old(self).subscriber.slot_spec()),
            finishing_dispatches(old(cells)@[old(self).subscriber.slot_spec()], false) ==> !old(
                queue,
            ).is_locked(),
        ensures
            ({
                let slot = old(self).subscriber.slot_spec();
                let n = old(cells)@.len() as int;
                let step = SenderStep::Deliver { value, next: ComputationResultSetter::<S>::for_slot(n) };
                let cell = old(cells)@[slot];
                let (after, task) = invoke_if_set_spec(ComputationInner { continuation: Some(step), ..cell });
                &&& final(self).subscriber.slot_spec() == n
                &&& final(cells)@ == old(cells)@.push(fresh_cell()).update(slot, after)
                &&& task is None ==> *final(queue) == *old(queue)
                &&& task is Some ==> final(queue).tasks() == old(queue).tasks().push(
                    ComputationTask::Continue { continuation: step, value: cell.value->Some_0 },
                )
            }),
    {
        let (future, setter) = new_pair(cells);
        let mut waiting = future;
        core::mem::swap(&mut self.subscriber, &mut waiting);
        waiting.and_then(cells, queue, SenderStep::Deliver { value, next: setter });
    }
}

/// Whether `given`, the subscriber after it received `value`, was given on
/// to cell `slot` as a setter's `set` does, taking the cells and the queue
/// from `cells` and `queue` to `cells2` and `queue2`.
pub open spec fn given_on<T, S: Subscriber<Item = T>, F>(
    given: S,
    subscriber: S,
    value: T,
    slot: int,
    cells: Seq<ComputationInner<S, SenderStep<T, S>>>,
    cells2: Seq<ComputationInner<S, SenderStep<T, S>>>,
    queue: TaskQueue<ComputationTask<F, SenderStep<T, S>, S>>,
    queue2: TaskQueue<ComputationTask<F, SenderStep<T, S>, S>>,
) -> bool {
    let cell = cells[slot];
    let (after, task) = invoke_if_set_spec(ComputationInner { value: Some(given), ..cell });
    &&& given.inv()
    &&& S::records_values() ==> given.received() == subscriber.received().push(value)
    &&& cells2 == cells.update(slot, after)
    &&& task is None ==> queue2 == queue
    &&& task is Some ==> queue2.tasks() == queue.tasks().push(
        ComputationTask::Continue { continuation: cell.continuation->Some_0, value: given },
    )
}

/// Runs a step of the sender's end with the subscriber it waited for: a
/// delivery hands the value to the subscriber's `on_value` and gives the
/// subscriber on to the next computation, as its setter's `set` does; a
/// close calls the subscriber's `on_close` and hands the subscriber back,
/// to be let go.
pub fn run_sender_step<T, S: Subscriber<Item = T>, F>(
    step: SenderStep<T, S>,
    subscriber: S,
    cells: &mut Computations<S, SenderStep<T, S>>,
    queue: &mut TaskQueue<ComputationTask<F, SenderStep<T, S>, S>>,
) -> (closed: Option<S>)
    requires
        subscriber.inv(),
        step matches SenderStep::Deliver { value, next } ==> {
            &&& subscriber.accepts(value)
            &&& live(old(cells)@, next.slot_spec())
            &&& finishing_dispatches(old(cells)@[next.slot_spec()], true) ==> !old(queue).is_locked()
        },
    ensures
        match step {
            SenderStep::Deliver { value, next } => {
                &&& closed is None
                &&& exists|given: S|
                    #[trigger] given_on(
                        given,
                        subscriber,
                        value,
                        next.slot_spec(),
                        old(cells)@,
                        final(cells)@,
                        *old(queue),
                        *final(queue),
                    )
            },
            SenderStep::Close => {
                &&& closed is Some
                &&& closed->Some_0.inv()
                &&& S::records_values() ==> closed->Some_0.was_closed() && closed->Some_0.received()
                    == subscriber.received()
                &&& final(cells)@ == old(cells)@
                &&& *final(queue) == *old(queue)
            },
        },
{
    let mut subscriber = subscriber;
    match step {
        SenderStep::Deliver { value, next } => {
            let ghost cells0 = cells@;
            let ghost queue0 = *queue;
            let ghost s0 = subscriber;
            subscriber.on_value(value);
            let ghost delivered = subscriber;
            let ghost slot = next.slot_spec();
            next.set(cells, queue, subscriber);
            assert(given_on(delivered, s0, value, slot, cells0, cells@, queue0, *queue));
            None
        },
        SenderStep::Close => {
            subscriber.on_close();
            Some(subscriber)
        },
    }
}

} // verus!
