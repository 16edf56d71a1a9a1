//! The kernel's own scheduler: threads wait in a queue behind a lock; on a
//! timer interrupt the running thread is parked unless the queue is locked,
//! and the thread that waited longest runs next.
//!
//! Switching stacks and jumping into a thread is the caller's part: the
//! decisions here end in a `StartAction` that says what to run.
use vstd::prelude::*;
use std::collections::VecDeque;
use core::marker::PhantomData;
use crate::allocator::{KernelMemory, can_allocate_stack, new_stack, new_stack_top, stack_allocated};
use crate::paging::VirtualAddress;

verus! {

/// Where a thread stands.
pub enum ThreadState<F> {
    /// Not started yet: the function it runs.
    New { function: F },
    /// Interrupted: the stack pointer to resume at.
    Active { rsp: usize },
}

/// A thread; `F` is the type of the functions that threads run.
pub struct Thread<F> {
    pub state: ThreadState<F>,
}

impl<F> Thread<F> {
    /// A new thread that will run `f`.
    pub fn new(f: F) -> (t: Thread<F>)
        ensures
            t.state == (ThreadState::New { function: f }),
    {
        Thread { state: ThreadState::New { function: f } }
    }

    /// The interrupted thread whose registers were saved on the stack at
    /// `rsp`.
    pub fn from_rsp(rsp: usize) -> (t: Thread<F>)
        ensures
            t.state == (ThreadState::<F>::Active { rsp }),
    {
        Thread { state: ThreadState::Active { rsp } }
    }

    /// The thread run when no other waits: a new thread running the
    /// default function.
    pub fn default_thread() -> (t: Thread<F>) where F: Default
        ensures
            t.state is New,
    {
        Thread::new(F::default())
    }
}

/// The result of a computation started by `spawn`.
pub struct Future<T> {
    pub result: PhantomData<T>,
}

/// The threads waiting for the processor, in the order they will run, and
/// whether their queue is locked.
pub struct GlobalScheduler<F> {
    threads: VecDeque<Thread<F>>,
    locked: bool,
}

impl<F> GlobalScheduler<F> {
    /// The waiting threads, the next to run first.
    pub closed spec fn waiting(&self) -> Seq<Thread<F>> {
        self.threads@
    }

    /// Whether the queue is locked.
    pub closed spec fn is_locked(&self) -> bool {
        self.locked
    }

    /// No thread waits and the queue is unlocked.
    pub fn new() -> (s: GlobalScheduler<F>)
        ensures
            s.waiting() == Seq::<Thread<F>>::empty(),
            !s.is_locked(),
    {
        GlobalScheduler { threads: VecDeque::new(), locked: false }
    }

    /// Number of waiting threads.
    pub fn len(&self) -> (n: usize)
        ensures
            n == self.waiting().len(),
    {
        self.threads.len()
    }

    /// Locks the queue, as a thread in the middle of `spawn` holds it.
    pub fn lock(&mut self)
        ensures
            final(self).is_locked(),
            final(self).waiting() == old(self).waiting(),
    {
        self.locked = true;
    }

    /// Unlocks the queue.
    pub fn unlock(&mut self)
        ensures
            !final(self).is_locked(),
            final(self).waiting() == old(self).waiting(),
    {
        self.locked = false;
    }

    /// Queues a new thread that runs `f`.
    pub fn spawn<R>(&mut self, f: F) -> (r: Future<R>)
        ensures
            final(self).is_locked() == old(self).is_locked(),
            final(self).waiting() == old(self).waiting().push(
                Thread { state: ThreadState::New { function: f } },
            ),
    {
        self.threads.push_back(Thread::new(f));
        Future { result: PhantomData }
    }

    /// Queues `thread` unless the queue is locked; then the thread is handed
    /// back.
    pub fn try_park(&mut self, thread: Thread<F>) -> (r: Result<(), Thread<F>>)
        ensures
            final(self).is_locked() == old(self).is_locked(),
            old(self).is_locked() ==> r == Err::<(), Thread<F>>(thread)
                && final(self).waiting() == old(self).waiting(),
            !old(self).is_locked() ==> r is Ok && final(self).waiting() == old(self).waiting().push(
                thread,
            ),
    {
        if self.locked {
            Err(thread)
        } else {
            self.threads.push_back(thread);
            Ok(())
        }
    }

    /// Takes the thread that waited longest, or a new default thread when
    /// none waits.
    pub fn schedule(&mut self) -> (t: Thread<F>) where F: Default
        ensures
            final(self).is_locked() == old(self).is_locked(),
            old(self).waiting().len() > 0 ==> t == old(self).waiting()[0]
                && final(self).waiting() == old(self).waiting().drop_first(),
            old(self).waiting().len() == 0 ==> t.state is New
                && final(self).waiting() == old(self).waiting(),
    {
        match self.threads.pop_front() {
            Some(t) => t,
            None => Thread::default_thread(),
        }
    }
}

/// Starts a thread that runs `f`.
pub fn spawn<F, R>(scheduler: &mut GlobalScheduler<F>, f: F) -> (r: Future<R>)
    ensures
        final(scheduler).is_locked() == old(scheduler).is_locked(),
        final(scheduler).waiting() == old(scheduler).waiting().push(
            Thread { state: ThreadState::New { function: f } },
        ),
{
    scheduler.spawn(f)
}

/// What the processor does next.
pub enum StartAction<F> {
    /// Restore the registers saved on this stack and return from the
    /// interrupt.
    Resume(usize),
    /// Run this function on the new stack whose top is given.
    RunOnNewStack(F, VirtualAddress),
}

/// The action that starts a thread in the given state, when the next
/// thread stack would be allocated from `mem`.
pub open spec fn start_action_spec<F>(state: ThreadState<F>, mem: KernelMemory) -> StartAction<F> {
    match state {
        ThreadState::Active { rsp } => StartAction::Resume(rsp),
        ThreadState::New { function } => StartAction::RunOnNewStack(function, VirtualAddress(new_stack_top(mem))),
    }
}

/// Memory after a thread in the given state was started: a new thread got
/// a stack from the heap; resuming a thread touches nothing.
pub open spec fn memory_after_start<F>(state: ThreadState<F>, before: KernelMemory, after: KernelMemory) -> bool {
    if state is New {
        stack_allocated(before, after)
    } else {
        after == before
    }
}

/// Whether starting a thread in the given state can be done: a new thread
/// needs a stack from the heap.
pub open spec fn can_start<F>(state: ThreadState<F>, mem: KernelMemory) -> bool {
    state is New ==> can_allocate_stack(mem)
}

/// How to start `thread`: resume it where it was interrupted, or run its
/// function on a new stack allocated from the heap.
pub fn start_thread<F>(thread: Thread<F>, mem: &mut KernelMemory) -> (action: StartAction<F>)
    requires
        can_start(thread.state, *old(mem)),
    ensures
        action == start_action_spec(thread.state, *old(mem)),
        memory_after_start(thread.state, *old(mem), *final(mem)),
{
    match thread.state {
        ThreadState::Active { rsp } => StartAction::Resume(rsp),
        ThreadState::New { function } => {
            let top = new_stack(mem);
            StartAction::RunOnNewStack(function, top)
        },
    }
}

/// The thread that `reschedule` starts when the queue is unlocked: the
/// first of the waiting threads with the interrupted one queued behind.
pub open spec fn next_after_park<F>(waiting: Seq<Thread<F>>, current_rsp: usize) -> Thread<F> {
    waiting.push(Thread { state: ThreadState::Active { rsp: current_rsp } })[0]
}

/// Whether `reschedule` can run: with the queue unlocked, the thread it
/// starts can be started.
pub open spec fn can_reschedule<F>(s: GlobalScheduler<F>, mem: KernelMemory, current_rsp: usize) -> bool {
    !s.is_locked() ==> can_start(next_after_park(s.waiting(), current_rsp).state, mem)
}

/// What `reschedule` did, from scheduler `s0` and memory `m0` to `s1` and
/// `m1`, with result `r`: with the queue locked the interrupted thread is
/// resumed and nothing changes; else it is queued at the back and the front
/// thread is started.
pub open spec fn rescheduled<F>(
    s0: GlobalScheduler<F>,
    s1: GlobalScheduler<F>,
    m0: KernelMemory,
    m1: KernelMemory,
    current_rsp: usize,
    r: (StartAction<F>, bool),
) -> bool {
    &&& s1.is_locked() == s0.is_locked()
    &&& r.1 == !s0.is_locked()
    &&& s0.is_locked() ==> r.0 == StartAction::<F>::Resume(current_rsp) && s1.waiting() == s0.waiting()
        && m1 == m0
    &&& !s0.is_locked() ==> {
        let queued = s0.waiting().push(Thread { state: ThreadState::Active { rsp: current_rsp } });
        &&& r.0 == start_action_spec(queued[0].state, m0)
        &&& memory_after_start(queued[0].state, m0, m1)
        &&& s1.waiting() == queued.drop_first()
    }
}

/// On a timer interrupt of the thread whose registers lie at `current_rsp`:
/// it is parked, and the thread that waited longest is started; when the
/// queue is locked the interrupted thread is started again. The flag says
/// whether the thread was parked.
pub fn reschedule<F: Default>(
    scheduler: &mut GlobalScheduler<F>,
    mem: &mut KernelMemory,
    current_rsp: usize,
) -> (r: (StartAction<F>, bool))
    requires
        can_reschedule(*old(scheduler), *old(mem), current_rsp),
    ensures
        rescheduled(*old(scheduler), *final(scheduler), *old(mem), *final(mem), current_rsp, r),
{
    let current: Thread<F> = Thread::from_rsp(current_rsp);
    match scheduler.try_park(current) {
        Ok(()) => (start_thread(scheduler.schedule(), mem), true),
        Err(thread) => (start_thread(thread, mem), false),
    }
}

/// Whether `schedule` can run: the thread it starts can be started.
pub open spec fn can_schedule<F>(s: GlobalScheduler<F>, mem: KernelMemory) -> bool {
    &&& s.waiting().len() > 0 ==> can_start(s.waiting()[0].state, mem)
    &&& s.waiting().len() == 0 ==> can_allocate_stack(mem)
}

/// What `schedule` did, from scheduler `s0` and memory `m0` to `s1` and
/// `m1`, with result `action`: the front thread is started, or a new
/// default thread on a new stack when none waits.
pub open spec fn scheduled<F>(
    s0: GlobalScheduler<F>,
    s1: GlobalScheduler<F>,
    m0: KernelMemory,
    m1: KernelMemory,
    action: StartAction<F>,
) -> bool {
    &&& s1.is_locked() == s0.is_locked()
    &&& s0.waiting().len() > 0 ==> {
        let next = s0.waiting()[0];
        &&& action == start_action_spec(next.state, m0)
        &&& memory_after_start(next.state, m0, m1)
        &&& s1.waiting() == s0.waiting().drop_first()
    }
    &&& s0.waiting().len() == 0 ==> {
        &&& action is RunOnNewStack
        &&& action->1 == VirtualAddress(new_stack_top(m0))
        &&& stack_allocated(m0, m1)
        &&& s1.waiting() == s0.waiting()
    }
}

/// When the current thread ends: starts the thread that waited longest, or
/// a new default thread when none waits; a new thread gets its stack from
/// the heap.
pub fn schedule<F: Default>(scheduler: &mut GlobalScheduler<F>, mem: &mut KernelMemory) -> (action: StartAction<F>)
    requires
        can_schedule(*old(scheduler), *old(mem)),
    ensures
        scheduled(*old(scheduler), *final(scheduler), *old(mem), *final(mem), action),
{
    start_thread(scheduler.schedule(), mem)
}

/// The state shared by all processors: the thread queue behind its lock.
pub struct Global<F> {
    pub scheduler: GlobalScheduler<F>,
}

/// The scheduler right after boot: an empty, unlocked thread queue.
pub fn init<F>() -> (g: Global<F>)
    ensures
        g.scheduler.waiting() == Seq::<Thread<F>>::empty(),
        !g.scheduler.is_locked(),
{
    Global { scheduler: GlobalScheduler::new() }
}

/// Round robin: with the queue unlocked, a thread interrupted while others
/// wait goes to the back of the queue and the first waiting thread runs;
/// with none waiting, it is resumed at once.
pub proof fn law_round_robin<F>(waiting: Seq<Thread<F>>, rsp: usize)
    ensures
        ({
            let queued = waiting.push(Thread { state: ThreadState::Active { rsp } });
            &&& waiting.len() > 0 ==> queued[0] == waiting[0] && queued.drop_first()
                == waiting.drop_first().push(Thread { state: ThreadState::Active { rsp } })
            &&& waiting.len() == 0 ==> queued.drop_first().len() == 0 && forall|mem: KernelMemory|
                start_action_spec(queued[0].state, mem) == StartAction::<F>::Resume(rsp)
        }),
{
    let t = Thread::<F> { state: ThreadState::Active { rsp } };
    assert(waiting.len() > 0 ==> waiting.push(t).drop_first() =~= waiting.drop_first().push(t));
}

} // verus!
