//! One-shot futures: a value that a setter provides once, and a
//! continuation that the future's owner attaches once.
//!
//! The two halves share a cell. When both halves are gone and both the
//! value and the continuation were given, the continuation is queued as a
//! task, with the value, on the core's task queue. The cells live in a
//! `FutureValues` table; a half is an index into it.
use vstd::prelude::*;
use core::marker::PhantomData;
use crate::task_queue::TaskQueue;

verus! {

/// The cell shared by a future and its setter.
pub struct FutureValueInner<T, C> {
    pub value: Option<T>,
    pub continuation: Option<C>,
    pub future_alive: bool,
    pub setter_alive: bool,
}

/// The owner's half: attaches the continuation.
pub struct FutureValue<T> {
    slot: usize,
    value_type: PhantomData<T>,
}

/// The producer's half: provides the value.
pub struct FutureValueSetter<T> {
    slot: usize,
    value_type: PhantomData<T>,
}

/// What attaching continuation `f` to the future of cell `slot` did,
/// taking the cells and the queue from `values` and `queue` to `values2`
/// and `queue2`: the future half is gone with `f` left in the cell, as
/// `release_spec` says, and `f` is queued with the value when the value is
/// there and the setter gone.
pub open spec fn continuation_attached<T, F, C>(
    values: Seq<FutureValueInner<T, C>>,
    values2: Seq<FutureValueInner<T, C>>,
    queue: TaskQueue<FutureTask<F, C, T>>,
    queue2: TaskQueue<FutureTask<F, C, T>>,
    slot: int,
    f: C,
) -> bool {
    let cell = values[slot];
    let given = FutureValueInner { continuation: Some(f), future_alive: false, ..cell };
    let (after, task) = release_spec(given);
    &&& values2 =~= values.update(slot, after)
    &&& task is Some <==> continuation_dispatches(cell)
    &&& task is None ==> queue2 == queue
    &&& task is Some ==> queue2.tasks() == queue.tasks().push(
        FutureTask::Continue { continuation: f, value: cell.value->Some_0 },
    )
}

impl<T> FutureValue<T> {
    /// The cell this half refers to.
    pub closed spec fn slot_spec(&self) -> int {
        self.slot as int
    }

    /// The cell this half refers to.
    pub fn slot(&self) -> (s: usize)
        ensures
            s == self.slot_spec(),
    {
        self.slot
    }
}

impl<T> FutureValueSetter<T> {
    /// The cell this half refers to.
    pub closed spec fn slot_spec(&self) -> int {
        self.slot as int
    }

    /// The cell this half refers to.
    pub fn slot(&self) -> (s: usize)
        ensures
            s == self.slot_spec(),
    {
        self.slot
    }
}

/// A task for the core's task queue.
pub enum FutureTask<F, C, T> {
    /// Compute a value with `function` and give it to `setter`.
    Compute { setter: FutureValueSetter<T>, function: F },
    /// Run the continuation `continuation` with `value`.
    Continue { continuation: C, value: T },
}

/// The table of shared cells.
pub struct FutureValues<T, C> {
    cells: Vec<FutureValueInner<T, C>>,
}

impl<T, C> View for FutureValues<T, C> {
    type V = Seq<FutureValueInner<T, C>>;

    closed spec fn view(&self) -> Seq<FutureValueInner<T, C>> {
        self.cells@
    }
}

/// The cell after one of its halves went away: when the other half is gone
/// too and both value and continuation are there, they are taken out to
/// form the task that runs the continuation.
pub open spec fn release_spec<T, C>(cell: FutureValueInner<T, C>) -> (FutureValueInner<T, C>, Option<(C, T)>) {
    if !cell.future_alive && !cell.setter_alive && cell.value is Some && cell.continuation is Some {
        (
            FutureValueInner { value: None, continuation: None, ..cell },
            Some((cell.continuation->Some_0, cell.value->Some_0)),
        )
    } else {
        (cell, None)
    }
}

/// Whether attaching the continuation to `cell` queues it: the setter is
/// gone and its value is there.
pub open spec fn continuation_dispatches<T, C>(cell: FutureValueInner<T, C>) -> bool {
    !cell.setter_alive && cell.value is Some
}

/// Whether giving the value to `cell` queues the continuation: the future
/// half is gone and its continuation is there.
pub open spec fn set_dispatches<T, C>(cell: FutureValueInner<T, C>) -> bool {
    !cell.future_alive && cell.continuation is Some
}

impl<T, C> FutureValues<T, C> {
    /// A table without cells.
    pub fn new() -> (t: FutureValues<T, C>)
        ensures
            t@ == Seq::<FutureValueInner<T, C>>::empty(),
    {
        FutureValues { cells: Vec::new() }
    }

    /// Number of cells.
    pub fn len(&self) -> (n: usize)
        ensures
            n == self@.len(),
    {
        self.cells.len()
    }

    /// Cell `slot`.
    pub fn get(&self, slot: usize) -> (c: &FutureValueInner<T, C>)
        requires
            slot < self@.len(),
        ensures
            *c == self@[slot as int],
    {
        &self.cells[slot]
    }

    /// Takes the task out of cell `slot` when both halves are gone and
    /// both parts are there.
    fn release(&mut self, slot: usize) -> (r: Option<(C, T)>)
        requires
            slot < old(self)@.len(),
        ensures
            final(self)@ == old(self)@.update(slot as int, release_spec(old(self)@[slot as int]).0),
            r == release_spec(old(self)@[slot as int]).1,
    {
        if !self.cells[slot].future_alive && !self.cells[slot].setter_alive
            && self.cells[slot].value.is_some() && self.cells[slot].continuation.is_some() {
            let value = self.cells[slot].value.take();
            let continuation = self.cells[slot].continuation.take();
            match (continuation, value) {
                (Some(c), Some(v)) => Some((c, v)),
                _ => None,
            }
        } else {
            None
        }
    }
}

/// A fresh pair of halves sharing a new, empty cell at the end of the table.
pub fn new_pair<T, C>(values: &mut FutureValues<T, C>) -> (r: (FutureValue<T>, FutureValueSetter<T>))
    ensures
        final(values)@ == old(values)@.push(
            FutureValueInner { value: None, continuation: None, future_alive: true, setter_alive: true },
        ),
        r.0.slot_spec() == old(values)@.len(),
        r.1.slot_spec() == old(values)@.len(),
{
    let slot = values.cells.len();
    values.cells.push(FutureValueInner { value: None, continuation: None, future_alive: true, setter_alive: true });
    (FutureValue { slot, value_type: PhantomData }, FutureValueSetter { slot, value_type: PhantomData })
}

/// Queues `task` on the core's queue, which must take it.
fn dispatch<F, C, T>(queue: &mut TaskQueue<FutureTask<F, C, T>>, task: Option<(C, T)>)
    requires
        task is Some ==> !old(queue).is_locked(),
    ensures
        task is None ==> *final(queue) == *old(queue),
        task is Some ==> final(queue).is_locked() && final(queue).tasks() == old(queue).tasks().push(
            FutureTask::Continue { continuation: task->Some_0.0, value: task->Some_0.1 },
        ),
{
    match task {
        Some((continuation, value)) => {
            let r = crate::task_queue::add(queue, FutureTask::Continue { continuation, value });
        },
        None => {},
    }
}

impl<T> FutureValue<T> {
    /// A future whose value `f` computes: a task that runs `f` and gives
    /// the value to the setter is queued. The queue must take it.
    pub fn new<F, C>(
        values: &mut FutureValues<T, C>,
        queue: &mut TaskQueue<FutureTask<F, C, T>>,
        f: F,
    ) -> (future: FutureValue<T>)
        requires
            !old(queue).is_locked(),
        ensures
            final(values)@ == old(values)@.push(
                FutureValueInner { value: None, continuation: None, future_alive: true, setter_alive: true },
            ),
            future.slot_spec() == old(values)@.len(),
            final(queue).is_locked(),
            final(queue).tasks().len() == old(queue).tasks().len() + 1,
            final(queue).tasks().drop_last() == old(queue).tasks(),
            final(queue).tasks().last() matches FutureTask::Compute { setter, function }
                && setter.slot_spec() == old(values)@.len() && function == f,
    {
        let (future, setter) = new_pair(values);
        let r = crate::task_queue::add(queue, FutureTask::Compute { setter, function: f });
        assert(final(queue).tasks().drop_last() =~= old(queue).tasks()) by {
            assert(queue.tasks().drop_last() =~= old(queue).tasks());
        }
        future
    }

    /// A future whose value is there already.
    pub fn from_value<C>(values: &mut FutureValues<T, C>, value: T) -> (future: FutureValue<T>)
        ensures
            final(values)@ == old(values)@.push(
                FutureValueInner { value: Some(value), continuation: None, future_alive: true, setter_alive: false },
            ),
            future.slot_spec() == old(values)@.len(),
    {
        let (future, setter) = new_pair(values);
        let slot = setter.slot;
        values.cells[slot].value = Some(value);
        values.cells[slot].setter_alive = false;
        future
    }

    /// Attaches the continuation and gives this half up. When the setter is
    /// gone and its value is there, the continuation is queued with the
    /// value; the queue must
    /// take it in that case.
    pub fn and_then<F, C>(
        self,
        values: &mut FutureValues<T, C>,
        queue: &mut TaskQueue<FutureTask<F, C, T>>,
        f: C,
    )
        requires
            0 <= self.slot_spec() < old(values)@.len(),
            old(values)@[self.slot_spec()].future_alive,
            continuation_dispatches(old(values)@[self.slot_spec()]) ==> !old(queue).is_locked(),
        ensures
            continuation_attached(old(values)@, final(values)@, *old(queue), *final(queue), self.slot_spec(), f),
    {
        let slot = self.slot;
        values.cells[slot].continuation = Some(f);
        values.cells[slot].future_alive = false;
        let task = values.release(slot);
        dispatch(queue, task);
    }
}

impl<T> FutureValueSetter<T> {
    /// Gives the value and gives this half up. When the future is gone and
    /// its continuation is there, the continuation is queued with the
    /// value; the queue must
    /// take it in that case.
    pub fn set<F, C>(
        self,
        values: &mut FutureValues<T, C>,
        queue: &mut TaskQueue<FutureTask<F, C, T>>,
        value: T,
    )
        requires
            0 <= self.slot_spec() < old(values)@.len(),
            old(values)@[self.slot_spec()].setter_alive,
            set_dispatches(old(values)@[self.slot_spec()]) ==> !old(queue).is_locked(),
        ensures
            ({
                let cell = old(values)@[self.slot_spec()];
                let given = FutureValueInner { value: Some(value), setter_alive: false, ..cell };
                let (after, task) = release_spec(given);
                &&& final(values)@ == old(values)@.update(self.slot_spec(), after)
                &&& task is Some <==> set_dispatches(cell)
                &&& task is None ==> *final(queue) == *old(queue)
                &&& task is Some ==> final(queue).tasks() == old(queue).tasks().push(
                    FutureTask::Continue { continuation: cell.continuation->Some_0, value },
                )
            }),
    {
        let slot = self.slot;
        values.cells[slot].value = Some(value);
        values.cells[slot].setter_alive = false;
        let task = values.release(slot);
        dispatch(queue, task);
    }
}

/// Whichever half gives its part first, once both halves have given their
/// parts the continuation is queued exactly once, with the value.
pub proof fn law_continuation_runs_once<T, C>(value: T, continuation: C)
    ensures
        ({
            let fresh = FutureValueInner::<T, C> {
                value: None,
                continuation: None,
                future_alive: true,
                setter_alive: true,
            };
            let (a1, t1) = release_spec(FutureValueInner { value: Some(value), setter_alive: false, ..fresh });
            let (a2, t2) = release_spec(FutureValueInner { continuation: Some(continuation), future_alive: false, ..a1 });
            let (b1, u1) = release_spec(FutureValueInner { continuation: Some(continuation), future_alive: false, ..fresh });
            let (b2, u2) = release_spec(FutureValueInner { value: Some(value), setter_alive: false, ..b1 });
            &&& t1 is None && t2 == Some((continuation, value))
            &&& u1 is None && u2 == Some((continuation, value))
            &&& a2.value is None && a2.continuation is None
        }),
{
}

} // verus!
