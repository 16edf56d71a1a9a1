//! Computations: a one-shot future whose two halves each mark, when they
//! finish, that they are done. The half that finishes second finds the
//! mark, queues the continuation with the value when both are there, and
//! frees the shared cell.
//!
//! The cells live in a `Computations` table; a half is an index into it.
use vstd::prelude::*;
use core::marker::PhantomData;
use crate::task_queue::TaskQueue;

verus! {

/// The cell shared by a computation and its result setter.
pub struct ComputationInner<T, C> {
    pub counterpart_finished: bool,
    pub value: Option<T>,
    pub continuation: Option<C>,
    pub freed: bool,
}

/// The owner's half: attaches the continuation.
pub struct Computation<T> {
    slot: usize,
    value_type: PhantomData<T>,
}

/// The producer's half: provides the result.
pub struct ComputationResultSetter<T> {
    slot: usize,
    value_type: PhantomData<T>,
}

impl<T> Computation<T> {
    /// The cell this half refers to.
    pub closed spec fn slot_spec(&self) -> int {
        self.slot as int
    }

    /// The cell this half refers to.
    pub fn slot(&self) -> (s: usize)
        ensures
            s == self.slot_spec(),
    {
        self.slot
    }
}

impl<T> ComputationResultSetter<T> {
    /// The cell this half refers to.
    pub closed spec fn slot_spec(&self) -> int {
        self.slot as int
    }

    /// The setter of cell `slot`.
    pub closed spec fn for_slot(slot: int) -> ComputationResultSetter<T> {
        ComputationResultSetter { slot: slot as usize, value_type: PhantomData }
    }

    /// The cell this half refers to.
    pub fn slot(&self) -> (s: usize)
        ensures
            s == self.slot_spec(),
    {
        self.slot
    }
}

/// A task for the core's task queue.
pub enum ComputationTask<F, C, T> {
    /// Compute a value with `function` and give it to `setter`.
    Compute { setter: ComputationResultSetter<T>, function: F },
    /// Run the continuation with `value`.
    Continue { continuation: C, value: T },
}

/// The table of shared cells.
pub struct Computations<T, C> {
    cells: Vec<ComputationInner<T, C>>,
}

impl<T, C> View for Computations<T, C> {
    type V = Seq<ComputationInner<T, C>>;

    closed spec fn view(&self) -> Seq<ComputationInner<T, C>> {
        self.cells@
    }
}

/// A half finishes: the first to finish leaves a mark; the second takes the
/// value and the continuation out, when both are there, to form the task,
/// and frees the cell.
pub open spec fn invoke_if_set_spec<T, C>(cell: ComputationInner<T, C>) -> (ComputationInner<T, C>, Option<(C, T)>) {
    if cell.counterpart_finished {
        if cell.value is Some && cell.continuation is Some {
            (
                ComputationInner { value: None, continuation: None, freed: true, ..cell },
                Some((cell.continuation->Some_0, cell.value->Some_0)),
            )
        } else {
            (ComputationInner { freed: true, ..cell }, None)
        }
    } else {
        (ComputationInner { counterpart_finished: true, ..cell }, None)
    }
}

/// A cell in use: not freed yet.
pub open spec fn live<T, C>(cells: Seq<ComputationInner<T, C>>, slot: int) -> bool {
    0 <= slot < cells.len() && !cells[slot].freed
}

impl<T, C> Computations<T, C> {
    /// A table without cells.
    pub fn new() -> (t: Computations<T, C>)
        ensures
            t@ == Seq::<ComputationInner<T, C>>::empty(),
    {
        Computations { cells: Vec::new() }
    }

    /// Number of cells.
    pub fn len(&self) -> (n: usize)
        ensures
            n == self@.len(),
    {
        self.cells.len()
    }

    /// Cell `slot`.
    pub fn get(&self, slot: usize) -> (c: &ComputationInner<T, C>)
        requires
            slot < self@.len(),
        ensures
            *c == self@[slot as int],
    {
        &self.cells[slot]
    }

    /// One half of cell `slot` finishes.
    fn invoke_if_set(&mut self, slot: usize) -> (r: Option<(C, T)>)
        requires
            slot < old(self)@.len(),
        ensures
            final(self)@ == old(self)@.update(slot as int, invoke_if_set_spec(old(self)@[slot as int]).0),
            r == invoke_if_set_spec(old(self)@[slot as int]).1,
    {
        if self.cells[slot].counterpart_finished {
            self.cells[slot].freed = true;
            if self.cells[slot].value.is_some() && self.cells[slot].continuation.is_some() {
                let value = self.cells[slot].value.take();
                let continuation = self.cells[slot].continuation.take();
                match (continuation, value) {
                    (Some(c), Some(v)) => Some((c, v)),
                    _ => None,
                }
            } else {
                None
            }
        } else {
            self.cells[slot].counterpart_finished = true;
            None
        }
    }
}

/// A fresh pair of halves sharing a new cell at the end of the table.
pub fn new_pair<T, C>(cells: &mut Computations<T, C>) -> (r: (Computation<T>, ComputationResultSetter<T>))
    ensures
        final(cells)@ == old(cells)@.push(
            ComputationInner { counterpart_finished: false, value: None, continuation: None, freed: false },
        ),
        r.0.slot_spec() == old(cells)@.len(),
        r.1.slot_spec() == old(cells)@.len(),
        r.1 == ComputationResultSetter::<T>::for_slot(old(cells)@.len() as int),
{
    let slot = cells.cells.len();
    cells.cells.push(ComputationInner { counterpart_finished: false, value: None, continuation: None, freed: false });
    (Computation { slot, value_type: PhantomData }, ComputationResultSetter { slot, value_type: PhantomData })
}

/// Queues `task` on the core's queue, which must take it.
fn dispatch<F, C, T>(queue: &mut TaskQueue<ComputationTask<F, C, T>>, task: Option<(C, T)>)
    requires
        task is Some ==> !old(queue).is_locked(),
    ensures
        task is None ==> *final(queue) == *old(queue),
        task is Some ==> final(queue).is_locked() && final(queue).tasks() == old(queue).tasks().push(
            ComputationTask::Continue { continuation: task->Some_0.0, value: task->Some_0.1 },
        ),
{
    match task {
        Some((continuation, value)) => {
            let r = crate::task_queue::add(queue, ComputationTask::Continue { continuation, value });
        },
        None => {},
    }
}

/// Whether the half that gives its part (the value when `gives_value`, else
/// the continuation) queues the continuation: the other half finished
/// already and left its part.
pub open spec fn finishing_dispatches<T, C>(cell: ComputationInner<T, C>, gives_value: bool) -> bool {
    cell.counterpart_finished && (if gives_value {
        cell.continuation is Some
    } else {
        cell.value is Some
    })
}

/// What starting a computation of `f` did, taking the cells and the queue
/// from `cells` and `queue` to `cells2` and `queue2`: a fresh cell at the
/// end of the table, which `c` refers to, and a task at the back of the
/// queue that computes `f` and gives the result to that cell's setter.
pub open spec fn computation_started<T, F, C>(
    cells: Seq<ComputationInner<T, C>>,
    cells2: Seq<ComputationInner<T, C>>,
    queue: TaskQueue<ComputationTask<F, C, T>>,
    queue2: TaskQueue<ComputationTask<F, C, T>>,
    c: Computation<T>,
    f: F,
) -> bool {
    &&& cells2 == cells.push(
        ComputationInner { counterpart_finished: false, value: None, continuation: None, freed: false },
    )
    &&& c.slot_spec() == cells.len()
    &&& queue2.is_locked()
    &&& queue2.tasks().len() == queue.tasks().len() + 1
    &&& queue2.tasks().drop_last() == queue.tasks()
    &&& queue2.tasks().last() matches ComputationTask::Compute { setter, function } && setter
        == ComputationResultSetter::<T>::for_slot(cells.len() as int) && setter.slot_spec() == cells.len()
        && function == f
}

impl<T> Computation<T> {
    /// A computation of `f`: a task that runs `f` and gives the result to
    /// the setter is queued. The queue must take it.
    pub fn new<F, C>(
        cells: &mut Computations<T, C>,
        queue: &mut TaskQueue<ComputationTask<F, C, T>>,
        f: F,
    ) -> (c: Computation<T>)
        requires
            !old(queue).is_locked(),
        ensures
            computation_started(old(cells)@, final(cells)@, *old(queue), *final(queue), c, f),
    {
        let (c, setter) = new_pair(cells);
        let r = crate::task_queue::add(queue, ComputationTask::Compute { setter, function: f });
        assert(queue.tasks().drop_last() =~= old(queue).tasks());
        c
    }

    /// A computation whose result is there already: the setter has given it
    /// and finished.
    pub fn from_value<C>(cells: &mut Computations<T, C>, value: T) -> (c: Computation<T>)
        ensures
            final(cells)@ == old(cells)@.push(
                ComputationInner { counterpart_finished: true, value: Some(value), continuation: None, freed: false },
            ),
            c.slot_spec() == old(cells)@.len(),
    {
        let (c, setter) = new_pair(cells);
        let slot = setter.slot;
        cells.cells[slot].value = Some(value);
        cells.cells[slot].counterpart_finished = true;
        c
    }

    /// Attaches the continuation and finishes this half, as
    /// `invoke_if_set_spec` says; the queue must take a task that results.
    pub fn and_then<F, C>(
        self,
        cells: &mut Computations<T, C>,
        queue: &mut TaskQueue<ComputationTask<F, C, T>>,
        f: C,
    )
        requires
            live(old(cells)@, self.slot_spec()),
            finishing_dispatches(old(cells)@[self.slot_spec()], false) ==> !old(queue).is_locked(),
        ensures
            ({
                let cell = old(cells)@[self.slot_spec()];
                let given = ComputationInner { continuation: Some(f), ..cell };
                let (after, task) = invoke_if_set_spec(given);
                &&& final(cells)@ == old(cells)@.update(self.slot_spec(), after)
                &&& task is Some <==> finishing_dispatches(cell, false)
                &&& task is None ==> *final(queue) == *old(queue)
                &&& task is Some ==> final(queue).tasks() == old(queue).tasks().push(
                    ComputationTask::Continue { continuation: f, value: cell.value->Some_0 },
                )
            }),
    {
        let slot = self.slot;
        cells.cells[slot].continuation = Some(f);
        let task = cells.invoke_if_set(slot);
        dispatch(queue, task);
    }
}

impl<T> ComputationResultSetter<T> {
    /// Gives the result and finishes this half, as `invoke_if_set_spec`
    /// says; the queue must take a task that results.
    pub fn set<F, C>(
        self,
        cells: &mut Computations<T, C>,
        queue: &mut TaskQueue<ComputationTask<F, C, T>>,
        value: T,
    )
        requires
            live(old(cells)@, self.slot_spec()),
            finishing_dispatches(old(cells)@[self.slot_spec()], true) ==> !old(queue).is_locked(),
        ensures
            ({
                let cell = old(cells)@[self.slot_spec()];
                let given = ComputationInner { value: Some(value), ..cell };
                let (after, task) = invoke_if_set_spec(given);
                &&& final(cells)@ == old(cells)@.update(self.slot_spec(), after)
                &&& task is Some <==> finishing_dispatches(cell, true)
                &&& task is None ==> *final(queue) == *old(queue)
                &&& task is Some ==> final(queue).tasks() == old(queue).tasks().push(
                    ComputationTask::Continue { continuation: cell.continuation->Some_0, value },
                )
            }),
    {
        let slot = self.slot;
        cells.cells[slot].value = Some(value);
        let task = cells.invoke_if_set(slot);
        dispatch(queue, task);
    }
}

/// Whichever half finishes first, once both have given their parts the
/// continuation is queued exactly once, with the value, and the cell is
/// freed.
pub proof fn law_continuation_runs_once<T, C>(value: T, continuation: C)
    ensures
        ({
            let fresh = ComputationInner::<T, C> {
                counterpart_finished: false,
                value: None,
                continuation: None,
                freed: false,
            };
            let (a1, t1) = invoke_if_set_spec(ComputationInner { value: Some(value), ..fresh });
            let (a2, t2) = invoke_if_set_spec(ComputationInner { continuation: Some(continuation), ..a1 });
            let (b1, u1) = invoke_if_set_spec(ComputationInner { continuation: Some(continuation), ..fresh });
            let (b2, u2) = invoke_if_set_spec(ComputationInner { value: Some(value), ..b1 });
            &&& t1 is None && t2 == Some((continuation, value)) && a2.freed
            &&& u1 is None && u2 == Some((continuation, value)) && b2.freed
        }),
{
}

/// Starts a computation of `f` on the core's task queue: the same as
/// `Computation::new(f)`, as the shared contract `computation_started` says.
pub fn run<F, C, T>(
    cells: &mut Computations<T, C>,
    queue: &mut TaskQueue<ComputationTask<F, C, T>>,
    f: F,
) -> (c: Computation<T>)
    requires
        !old(queue).is_locked(),
    ensures
        computation_started(old(cells)@, final(cells)@, *old(queue), *final(queue), c, f),
{
    Computation::new(cells, queue, f)
}

} // verus!
