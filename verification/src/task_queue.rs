//! The task queue of a processor core: tasks waiting to run, in the order
//! they were added.
//!
//! Access goes through a lock flag. Taking the lock sets the flag, and
//! nothing ever clears it again, so only the first access to a queue
//! succeeds; every later `add` hands its task back and every later `next`
//! finds nothing.
use vstd::prelude::*;
use std::collections::VecDeque;

verus! {

/// The tasks of one core and its lock flag.
pub struct TaskQueue<T> {
    locked: bool,
    tasks: VecDeque<T>,
}

impl<T> TaskQueue<T> {
    /// Whether the lock flag is set.
    pub closed spec fn is_locked(&self) -> bool {
        self.locked
    }

    /// The waiting tasks, the next to run first.
    pub closed spec fn tasks(&self) -> Seq<T> {
        self.tasks@
    }

    /// An empty, unlocked queue.
    pub fn new() -> (q: TaskQueue<T>)
        ensures
            !q.is_locked(),
            q.tasks() == Seq::<T>::empty(),
    {
        TaskQueue { locked: false, tasks: VecDeque::new() }
    }

    /// Whether the lock flag is set.
    pub fn locked(&self) -> (r: bool)
        ensures
            r == self.is_locked(),
    {
        self.locked
    }

    /// Number of waiting tasks.
    pub fn len(&self) -> (n: usize)
        ensures
            n == self.tasks().len(),
    {
        self.tasks.len()
    }

    /// Adds a task at the back.
    pub fn push_back(&mut self, f: T)
        ensures
            final(self).tasks() == old(self).tasks().push(f),
            final(self).is_locked() == old(self).is_locked(),
    {
        self.tasks.push_back(f)
    }

    /// Takes the task at the front, or `None` when no task waits.
    pub fn pop_front(&mut self) -> (r: Option<T>)
        ensures
            final(self).is_locked() == old(self).is_locked(),
            old(self).tasks().len() == 0 ==> r is None && final(self).tasks() == old(self).tasks(),
            old(self).tasks().len() > 0 ==> r == Some(old(self).tasks()[0]) && final(self).tasks()
                == old(self).tasks().drop_first(),
    {
        self.tasks.pop_front()
    }

    /// Takes the lock: succeeds, and sets the flag, only when the flag was
    /// clear.
    pub fn core_local(&mut self) -> (acquired: bool)
        ensures
            acquired == !old(self).is_locked(),
            final(self).is_locked(),
            final(self).tasks() == old(self).tasks(),
    {
        if self.locked {
            false
        } else {
            self.locked = true;
            true
        }
    }
}

/// Adds a task to the queue; hands it back when the queue is locked.
pub fn add<T>(queue: &mut TaskQueue<T>, f: T) -> (r: Result<(), T>)
    ensures
        final(queue).is_locked(),
        old(queue).is_locked() ==> r == Err::<(), T>(f) && final(queue).tasks() == old(queue).tasks(),
        !old(queue).is_locked() ==> r is Ok && final(queue).tasks() == old(queue).tasks().push(f),
{
    if queue.core_local() {
        queue.push_back(f);
        Ok(())
    } else {
        Err(f)
    }
}

/// Takes the next task to run; `None` when the queue is locked or empty.
pub fn next<T>(queue: &mut TaskQueue<T>) -> (r: Option<T>)
    ensures
        final(queue).is_locked(),
        old(queue).is_locked() ==> r is None && final(queue).tasks() == old(queue).tasks(),
        !old(queue).is_locked() && old(queue).tasks().len() == 0 ==> r is None
            && final(queue).tasks() == old(queue).tasks(),
        !old(queue).is_locked() && old(queue).tasks().len() > 0 ==> r == Some(old(queue).tasks()[0])
            && final(queue).tasks() == old(queue).tasks().drop_first(),
{
    if queue.core_local() {
        queue.pop_front()
    } else {
        None
    }
}

/// Tasks leave the queue in the order they entered it: after pushing `f`
/// at the back of a queue holding `tasks`, the front is the first of
/// `tasks`, or `f` when there were none.
pub proof fn law_first_in_first_out<T>(tasks: Seq<T>, f: T)
    ensures
        tasks.len() == 0 ==> tasks.push(f)[0] == f && tasks.push(f).drop_first() == tasks,
        tasks.len() > 0 ==> tasks.push(f)[0] == tasks[0] && tasks.push(f).drop_first()
            == tasks.drop_first().push(f),
{
    assert(tasks.len() == 0 ==> tasks.push(f).drop_first() =~= tasks);
    assert(tasks.len() > 0 ==> tasks.push(f).drop_first() =~= tasks.drop_first().push(f));
}

} // verus!
