//! The thread scheduler of the scheduler library: a queue of threads that
//! wait for the processor, and the decisions taken when the running thread
//! is interrupted or ends.
//!
//! Switching stacks and jumping into a thread is the caller's part: the
//! decisions here end in a `StartAction` that says what to run.
use vstd::prelude::*;
use std::collections::VecDeque;
use core::marker::PhantomData;
use crate::allocator::{KernelMemory, can_allocate_stack, new_stack, new_stack_top, stack_allocated};
use crate::paging::VirtualAddress;

verus! {

/// A saved stack pointer of a thread that was interrupted.
#[derive(Clone, Copy, Debug, PartialEq, Eq, Structural)]
pub struct StackPointer(pub usize);

/// The identity of a thread.
#[derive(Clone, Copy, Debug, PartialEq, Eq, Structural)]
pub struct ThreadId(pub usize);

impl ThreadId {
    /// The number of the thread.
    pub fn as_usize(&self) -> (n: usize)
        ensures
            n == self.0,
    {
        self.0
    }
}

/// Hands out thread identities: 2, 3, 4 and so on (1 is the thread that
/// started the kernel).
pub struct ThreadIds {
    pub next: usize,
}

impl ThreadIds {
    /// A counter that has handed out nothing yet.
    pub fn new() -> (c: ThreadIds)
        ensures
            c.next == 0,
    {
        ThreadIds { next: 0 }
    }
}

/// Where a thread stands.
pub enum ThreadState<F> {
    /// Not started yet: the function it runs.
    New { function: F },
    /// Interrupted: the stack pointer to resume at.
    Active { stack_pointer: StackPointer },
    /// On the processor now.
    Running,
}

/// A thread and its state; `F` is the type of the functions that threads
/// run.
pub struct Thread<F> {
    pub id: ThreadId,
    pub state: ThreadState<F>,
}

impl<F> Thread<F> {
    /// The next identity: two more than the number of identities handed
    /// out before.
    pub fn next_id(ids: &mut ThreadIds) -> (id: ThreadId)
        requires
            old(ids).next + 2 <= usize::MAX,
        ensures
            id.0 == old(ids).next + 2,
            final(ids).next == old(ids).next + 1,
    {
        let id = ThreadId(ids.next + 2);
        ids.next = ids.next + 1;
        id
    }

    /// A new thread that will run `f`.
    pub fn new(ids: &mut ThreadIds, f: F) -> (t: Thread<F>)
        requires
            old(ids).next + 2 <= usize::MAX,
        ensures
            t.id.0 == old(ids).next + 2,
            final(ids).next == old(ids).next + 1,
            t.state == (ThreadState::New { function: f }),
    {
        Thread { id: Thread::<F>::next_id(ids), state: ThreadState::New { function: f } }
    }

    /// The thread run when no other waits: a new thread running the
    /// default function.
    pub fn default_thread(ids: &mut ThreadIds) -> (t: Thread<F>) where F: Default
        requires
            old(ids).next + 2 <= usize::MAX,
        ensures
            t.id.0 == old(ids).next + 2,
            final(ids).next == old(ids).next + 1,
            t.state is New,
    {
        Thread::new(ids, F::default())
    }
}

/// The result of a computation started by `spawn`.
pub struct Future<T> {
    pub result: PhantomData<T>,
}

/// The threads waiting for the processor, in the order they will run, and
/// the thread that holds the lock on them, if any.
pub struct GlobalScheduler<F> {
    threads: VecDeque<Thread<F>>,
    lock_holder: Option<ThreadId>,
}

impl<F> GlobalScheduler<F> {
    /// The waiting threads, the next to run first.
    pub closed spec fn waiting(&self) -> Seq<Thread<F>> {
        self.threads@
    }

    /// The thread that holds the lock on the queue.
    pub closed spec fn holder(&self) -> Option<ThreadId> {
        self.lock_holder
    }

    /// No thread waits and nobody holds the lock.
    pub fn new() -> (s: GlobalScheduler<F>)
        ensures
            s.waiting() == Seq::<Thread<F>>::empty(),
            s.holder() is None,
    {
        GlobalScheduler { threads: VecDeque::new(), lock_holder: None }
    }

    /// Number of waiting threads.
    pub fn len(&self) -> (n: usize)
        ensures
            n == self.waiting().len(),
    {
        self.threads.len()
    }

    /// Thread `holder` takes the lock on the queue.
    pub fn lock(&mut self, holder: ThreadId)
        ensures
            final(self).holder() == Some(holder),
            final(self).waiting() == old(self).waiting(),
    {
        self.lock_holder = Some(holder);
    }

    /// The lock on the queue is given back.
    pub fn unlock(&mut self)
        ensures
            final(self).holder() is None,
            final(self).waiting() == old(self).waiting(),
    {
        self.lock_holder = None;
    }

    /// Queues a new thread that runs `f`.
    pub fn spawn<R>(&mut self, ids: &mut ThreadIds, f: F) -> (r: Future<R>)
        requires
            old(ids).next + 2 <= usize::MAX,
        ensures
            final(ids).next == old(ids).next + 1,
            final(self).holder() == old(self).holder(),
            final(self).waiting() == old(self).waiting().push(
                Thread { id: ThreadId((old(ids).next + 2) as usize), state: ThreadState::New { function: f } },
            ),
    {
        let t = Thread::new(ids, f);
        self.threads.push_back(t);
        Future { result: PhantomData }
    }

    /// Queues a thread that was taken off the processor.
    pub fn park(&mut self, thread: Thread<F>)
        ensures
            final(self).holder() == old(self).holder(),
            final(self).waiting() == old(self).waiting().push(thread),
    {
        self.threads.push_back(thread)
    }

    /// Takes the thread that waited longest, or `None` when none waits.
    pub fn schedule(&mut self) -> (r: Option<Thread<F>>)
        ensures
            final(self).holder() == old(self).holder(),
            old(self).waiting().len() == 0 ==> r is None
                && final(self).waiting() == old(self).waiting(),
            old(self).waiting().len() > 0 ==> r == Some(old(self).waiting()[0])
                && final(self).waiting() == old(self).waiting().drop_first(),
    {
        self.threads.pop_front()
    }

    /// Whether thread `current` holds the lock on the queue.
    pub fn locked_by_current_thread(&self, current: ThreadId) -> (r: bool)
        ensures
            r == (self.holder() == Some(current)),
    {
        match self.lock_holder {
            Some(h) => h.0 == current.0,
            None => false,
        }
    }
}

/// The data each processor keeps for itself: the thread it runs, and
/// whether that thread may be taken off the processor.
pub struct Data<F> {
    pub current_thread: Thread<F>,
    pub parkable: bool,
}

/// Starts a thread `spawn`ed on the scheduler.
pub fn spawn<F, R>(scheduler: &mut GlobalScheduler<F>, ids: &mut ThreadIds, f: F) -> (r: Future<R>)
    requires
        old(ids).next + 2 <= usize::MAX,
    ensures
        final(ids).next == old(ids).next + 1,
        final(scheduler).holder() == old(scheduler).holder(),
        final(scheduler).waiting() == old(scheduler).waiting().push(
            Thread { id: ThreadId((old(ids).next + 2) as usize), state: ThreadState::New { function: f } },
        ),
{
    scheduler.spawn(ids, f)
}

/// Whether the current thread may be parked: not while it holds the lock
/// on the thread queue, nor while its per-processor data is borrowed, and
/// only when that data says it is parkable.
pub open spec fn parkable_spec<F>(scheduler: &GlobalScheduler<F>, data: &Data<F>, data_borrowed: bool) -> bool {
    scheduler.holder() != Some(data.current_thread.id) && !data_borrowed && data.parkable
}

/// Whether the current thread may be parked, as `parkable_spec` says.
pub fn current_thread_parkable<F>(scheduler: &GlobalScheduler<F>, data: &Data<F>, data_borrowed: bool) -> (r: bool)
    ensures
        r == parkable_spec(scheduler, data, data_borrowed),
{
    !scheduler.locked_by_current_thread(data.current_thread.id) && !data_borrowed && data.parkable
}

/// Puts `new_thread` on the processor and returns the thread it replaces.
pub fn replace_current_thread<F>(data: &mut Data<F>, new_thread: Thread<F>) -> (old_thread: Thread<F>)
    ensures
        old_thread == old(data).current_thread,
        final(data).current_thread == new_thread,
        final(data).parkable == old(data).parkable,
{
    let mut thread = new_thread;
    core::mem::swap(&mut data.current_thread, &mut thread);
    thread
}

/// What the processor does next.
pub enum StartAction<F> {
    /// Restore the registers saved on this stack and return from the
    /// interrupt.
    Resume(StackPointer),
    /// Run this function on the new stack whose top is given.
    RunOnNewStack(F, VirtualAddress),
}

/// The action that starts a thread in the given state, when the next
/// thread stack would be allocated from `mem`; none for a thread that runs
/// already.
pub open spec fn start_action_spec<F>(state: ThreadState<F>, mem: KernelMemory) -> Option<StartAction<F>> {
    match state {
        ThreadState::Active { stack_pointer } => Some(StartAction::Resume(stack_pointer)),
        ThreadState::New { function } => Some(
            StartAction::RunOnNewStack(function, VirtualAddress(new_stack_top(mem))),
        ),
        ThreadState::Running => None,
    }
}

/// Memory after a thread in the given state was started: a new thread got
/// a stack from the heap; resuming a thread touches nothing.
pub open spec fn memory_after_start<F>(state: ThreadState<F>, before: KernelMemory, after: KernelMemory) -> bool {
    if state is New {
        stack_allocated(before, after)
    } else {
        after == before
    }
}

/// Whether a thread in the given state can be started: it does not run
/// already, and a new thread needs a stack from the heap.
pub open spec fn can_start<F>(state: ThreadState<F>, mem: KernelMemory) -> bool {
    &&& !(state is Running)
    &&& state is New ==> can_allocate_stack(mem)
}

/// Marks the current thread running and says how to start it: resume it
/// where it was interrupted, or run its function on a new stack allocated
/// from the heap. The current thread must not be running yet.
pub fn start_current_thread<F>(data: &mut Data<F>, mem: &mut KernelMemory) -> (action: StartAction<F>)
    requires
        can_start(old(data).current_thread.state, *old(mem)),
    ensures
        start_action_spec(old(data).current_thread.state, *old(mem)) == Some(action),
        memory_after_start(old(data).current_thread.state, *old(mem), *final(mem)),
        final(data).current_thread.state is Running,
        final(data).current_thread.id == old(data).current_thread.id,
        final(data).parkable == old(data).parkable,
{
    let mut current_state = ThreadState::Running;
    core::mem::swap(&mut data.current_thread.state, &mut current_state);
    match current_state {
        ThreadState::Active { stack_pointer } => StartAction::Resume(stack_pointer),
        ThreadState::New { function } => {
            let top = new_stack(mem);
            StartAction::RunOnNewStack(function, top)
        },
        ThreadState::Running => StartAction::Resume(StackPointer(0)),
    }
}

/// On a timer interrupt: when the current thread may be parked and another
/// thread waits, the current thread is parked at `current_stack_pointer`
/// and the waiting thread is started; otherwise nothing changes and the
/// interrupted thread goes on (`None`).
pub fn reschedule<F>(
    scheduler: &mut GlobalScheduler<F>,
    data: &mut Data<F>,
    data_borrowed: bool,
    mem: &mut KernelMemory,
    current_stack_pointer: StackPointer,
) -> (action: Option<StartAction<F>>)
    requires
        old(scheduler).waiting().len() > 0 ==> can_start(old(scheduler).waiting()[0].state, *old(mem)),
    ensures
        !parkable_spec(old(scheduler), old(data), data_borrowed) || old(scheduler).waiting().len()
            == 0 ==> action is None && final(scheduler).waiting() == old(scheduler).waiting()
            && final(scheduler).holder() == old(scheduler).holder() && *final(data) == *old(data)
            && *final(mem) == *old(mem),
        parkable_spec(old(scheduler), old(data), data_borrowed) && old(scheduler).waiting().len()
            > 0 ==> {
            let next = old(scheduler).waiting()[0];
            &&& action == start_action_spec(next.state, *old(mem))
            &&& memory_after_start(next.state, *old(mem), *final(mem))
            &&& final(data).current_thread == (Thread::<F> { id: next.id, state: ThreadState::Running })
            &&& final(data).parkable == old(data).parkable
            &&& final(scheduler).holder() == old(scheduler).holder()
            &&& final(scheduler).waiting() == old(scheduler).waiting().drop_first().push(
                Thread {
                    id: old(data).current_thread.id,
                    state: ThreadState::Active { stack_pointer: current_stack_pointer },
                },
            )
        },
{
    if current_thread_parkable(scheduler, data, data_borrowed) {
        if let Some(new_thread) = scheduler.schedule() {
            let mut old_thread = replace_current_thread(data, new_thread);
            old_thread.state = ThreadState::Active { stack_pointer: current_stack_pointer };
            scheduler.park(old_thread);
            return Some(start_current_thread(data, mem));
        }
    }
    None
}

/// When the current thread ends: the thread that waited longest is
/// started, or a new default thread when none waits; a new thread gets its
/// stack from the heap. The current thread must be parkable.
pub fn schedule<F: Default>(
    scheduler: &mut GlobalScheduler<F>,
    data: &mut Data<F>,
    data_borrowed: bool,
    ids: &mut ThreadIds,
    mem: &mut KernelMemory,
) -> (action: StartAction<F>)
    requires
        parkable_spec(old(scheduler), old(data), data_borrowed),
        old(scheduler).waiting().len() > 0 ==> can_start(old(scheduler).waiting()[0].state, *old(mem)),
        old(scheduler).waiting().len() == 0 ==> can_allocate_stack(*old(mem)),
        old(ids).next + 2 <= usize::MAX,
    ensures
        final(scheduler).holder() == old(scheduler).holder(),
        final(data).parkable == old(data).parkable,
        final(data).current_thread.state is Running,
        old(scheduler).waiting().len() > 0 ==> {
            let next = old(scheduler).waiting()[0];
            &&& start_action_spec(next.state, *old(mem)) == Some(action)
            &&& memory_after_start(next.state, *old(mem), *final(mem))
            &&& final(data).current_thread == (Thread::<F> { id: next.id, state: ThreadState::Running })
            &&& final(scheduler).waiting() == old(scheduler).waiting().drop_first()
            &&& final(ids).next == old(ids).next
        },
        old(scheduler).waiting().len() == 0 ==> {
            &&& action is RunOnNewStack
            &&& action->1 == VirtualAddress(new_stack_top(*old(mem)))
            &&& stack_allocated(*old(mem), *final(mem))
            &&& final(data).current_thread.id.0 == old(ids).next + 2
            &&& final(scheduler).waiting() == old(scheduler).waiting()
            &&& final(ids).next == old(ids).next + 1
        },
{
    let new_thread = if let Some(thread) = scheduler.schedule() {
        thread
    } else {
        Thread::default_thread(ids)
    };
    let _old_thread = replace_current_thread(data, new_thread);
    start_current_thread(data, mem)
}

/// The state shared by all processors: the thread queue.
pub struct Global<F> {
    pub scheduler: GlobalScheduler<F>,
}

/// The scheduler right after boot: an empty thread queue, and the boot
/// thread, number 1, running on the processor and parkable.
pub fn init<F>() -> (r: (Global<F>, Data<F>))
    ensures
        r.0.scheduler.waiting() == Seq::<Thread<F>>::empty(),
        r.0.scheduler.holder() is None,
        r.1.current_thread == (Thread::<F> { id: ThreadId(1), state: ThreadState::Running }),
        r.1.parkable,
{
    (
        Global { scheduler: GlobalScheduler::new() },
        Data { current_thread: Thread { id: ThreadId(1), state: ThreadState::Running }, parkable: true },
    )
}

/// A thread parked by `reschedule` is queued behind every thread that
/// waited before, and is resumed at the stack pointer it was parked with.
pub proof fn law_parked_thread_resumes_where_it_stopped<F>(
    waiting: Seq<Thread<F>>,
    id: ThreadId,
    stack_pointer: StackPointer,
)
    requires
        waiting.len() > 0,
    ensures
        ({
            let after = waiting.drop_first().push(
                Thread { id, state: ThreadState::Active { stack_pointer } },
            );
            &&& after.len() == waiting.len()
            &&& after.last().id == id
            &&& after.last().state == ThreadState::<F>::Active { stack_pointer }
            &&& forall|mem: KernelMemory|
                start_action_spec(after.last().state, mem) == Some(StartAction::<F>::Resume(stack_pointer))
        }),
{
}

} // verus!
