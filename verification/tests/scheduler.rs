use lib::allocator::{HeapMemory, KernelMemory};
use lib::frame::Frame;
use lib::frame_stack::FrameStack;
use lib::page_table::PageTableMemory;
use lib::paging::VirtualAddress;
use lib::scheduler::{
    current_thread_parkable, init, replace_current_thread, reschedule, schedule, spawn,
    start_current_thread, Data, GlobalScheduler, StackPointer, StartAction, Thread, ThreadId,
    ThreadIds, ThreadState,
};

#[derive(Debug, PartialEq, Default)]
struct Job(u32);

fn memory() -> KernelMemory {
    let mut frames = FrameStack::new();
    for i in 0..16u32 {
        frames.push(Frame { number: 100 + i });
    }
    KernelMemory { allocator: None, tables: PageTableMemory::new(), frames, heap: HeapMemory::new() }
}

#[test]
fn thread_ids_start_at_two() {
    let mut ids = ThreadIds::new();
    let a: Thread<Job> = Thread::new(&mut ids, Job(1));
    let b: Thread<Job> = Thread::new(&mut ids, Job(2));
    assert_eq!(a.id.as_usize(), 2);
    assert_eq!(b.id.as_usize(), 3);
    assert_eq!(ids.next, 2);
}

#[test]
fn init_runs_the_boot_thread() {
    let (g, d) = init::<Job>();
    assert_eq!(g.scheduler.len(), 0);
    assert_eq!(d.current_thread.id, ThreadId(1));
    assert!(matches!(d.current_thread.state, ThreadState::Running));
    assert!(d.parkable);
}

#[test]
fn spawned_threads_wait_in_order() {
    let mut s: GlobalScheduler<Job> = GlobalScheduler::new();
    let mut ids = ThreadIds::new();
    let _f: lib::scheduler::Future<()> = spawn(&mut s, &mut ids, Job(7));
    let _g: lib::scheduler::Future<()> = s.spawn(&mut ids, Job(8));
    assert_eq!(s.len(), 2);
    let first = s.schedule().unwrap();
    assert_eq!(first.id, ThreadId(2));
    assert!(matches!(first.state, ThreadState::New { function: Job(7) }));
    assert_eq!(s.schedule().unwrap().id, ThreadId(3));
    assert!(s.schedule().is_none());
}

#[test]
fn lock_holder_is_recognized() {
    let mut s: GlobalScheduler<Job> = GlobalScheduler::new();
    assert!(!s.locked_by_current_thread(ThreadId(1)));
    s.lock(ThreadId(1));
    assert!(s.locked_by_current_thread(ThreadId(1)));
    assert!(!s.locked_by_current_thread(ThreadId(2)));
    s.unlock();
    assert!(!s.locked_by_current_thread(ThreadId(1)));
}

#[test]
fn parkable_when_data_free_and_marked() {
    let (g, mut d) = init::<Job>();
    assert!(current_thread_parkable(&g.scheduler, &d, false));
    assert!(!current_thread_parkable(&g.scheduler, &d, true));
    d.parkable = false;
    assert!(!current_thread_parkable(&g.scheduler, &d, false));
}

#[test]
fn thread_holding_the_queue_lock_is_not_parkable() {
    let (mut g, d) = init::<Job>();
    g.scheduler.lock(ThreadId(1));
    assert!(!current_thread_parkable(&g.scheduler, &d, false));
    g.scheduler.unlock();
    g.scheduler.lock(ThreadId(2));
    assert!(current_thread_parkable(&g.scheduler, &d, false));
}

#[test]
fn replace_returns_the_previous_thread() {
    let (_g, mut d) = init::<Job>();
    let mut ids = ThreadIds::new();
    let t = Thread::new(&mut ids, Job(3));
    let old = replace_current_thread(&mut d, t);
    assert_eq!(old.id, ThreadId(1));
    assert_eq!(d.current_thread.id, ThreadId(2));
}

#[test]
fn start_runs_new_thread_on_new_stack() {
    let mut ids = ThreadIds::new();
    let mut d = Data { current_thread: Thread::new(&mut ids, Job(5)), parkable: true };
    let mut mem = memory();
    match start_current_thread(&mut d, &mut mem) {
        StartAction::RunOnNewStack(Job(5), VirtualAddress(0x80_0000_2000)) => {}
        _ => panic!("expected a new stack"),
    }
    assert!(matches!(d.current_thread.state, ThreadState::Running));
    assert_eq!(mem.allocator.unwrap().next_byte.0, 0x80_0000_2000);
    assert_eq!(mem.heap.read(0x80_0000_1fff), 0);
}

#[test]
fn reschedule_parks_current_and_starts_next() {
    let (mut g, mut d) = init::<Job>();
    let mut ids = ThreadIds::new();
    let _f: lib::scheduler::Future<()> = g.scheduler.spawn(&mut ids, Job(9));
    let mut mem = memory();
    let action = reschedule(&mut g.scheduler, &mut d, false, &mut mem, StackPointer(0x7000));
    assert!(matches!(action, Some(StartAction::RunOnNewStack(Job(9), VirtualAddress(0x80_0000_2000)))));
    assert_eq!(d.current_thread.id, ThreadId(2));
    let parked = g.scheduler.schedule().unwrap();
    assert_eq!(parked.id, ThreadId(1));
    assert!(matches!(parked.state, ThreadState::Active { stack_pointer: StackPointer(0x7000) }));
}

#[test]
fn reschedule_without_waiting_threads_does_nothing() {
    let (mut g, mut d) = init::<Job>();
    assert!(reschedule(&mut g.scheduler, &mut d, false, &mut memory(), StackPointer(1)).is_none());
    assert_eq!(d.current_thread.id, ThreadId(1));
}

#[test]
fn reschedule_of_unparkable_thread_does_nothing() {
    let (mut g, mut d) = init::<Job>();
    let mut ids = ThreadIds::new();
    let _f: lib::scheduler::Future<()> = g.scheduler.spawn(&mut ids, Job(9));
    assert!(reschedule(&mut g.scheduler, &mut d, true, &mut memory(), StackPointer(1)).is_none());
    assert_eq!(g.scheduler.len(), 1);
}

#[test]
fn schedule_without_waiting_threads_starts_a_default_thread() {
    let (mut g, mut d) = init::<Job>();
    let mut ids = ThreadIds::new();
    match schedule(&mut g.scheduler, &mut d, false, &mut ids, &mut memory()) {
        StartAction::RunOnNewStack(Job(0), VirtualAddress(0x80_0000_2000)) => {}
        _ => panic!("expected the default thread"),
    }
    assert_eq!(d.current_thread.id, ThreadId(2));
}

#[test]
fn schedule_resumes_a_parked_thread() {
    let (mut g, mut d) = init::<Job>();
    let mut ids = ThreadIds::new();
    g.scheduler.park(Thread { id: ThreadId(9), state: ThreadState::Active { stack_pointer: StackPointer(0x42) } });
    let mut mem = memory();
    match schedule(&mut g.scheduler, &mut d, false, &mut ids, &mut mem) {
        StartAction::Resume(StackPointer(0x42)) => {}
        _ => panic!("expected a resume"),
    }
    assert_eq!(d.current_thread.id, ThreadId(9));
    assert!(mem.allocator.is_none());
}
