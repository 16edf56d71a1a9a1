use lib::allocator::{HeapMemory, KernelMemory};
use lib::frame::Frame;
use lib::frame_stack::FrameStack;
use lib::page_table::PageTableMemory;
use lib::paging::VirtualAddress;
use lib::kernel_scheduler::{
    init, reschedule, schedule, spawn, start_thread, Future, GlobalScheduler, StartAction, Thread,
    ThreadState,
};

#[derive(Debug, PartialEq, Default)]
struct Job(u32);

fn memory() -> KernelMemory {
    let mut frames = FrameStack::new();
    for i in 0..16u32 {
        frames.push(Frame { number: 100 + i });
    }
    KernelMemory { allocator: None, tables: PageTableMemory::new(), frames, heap: HeapMemory::new() }
}

#[test]
fn thread_from_rsp_is_active() {
    let t: Thread<Job> = Thread::from_rsp(0x1234);
    assert!(matches!(t.state, ThreadState::Active { rsp: 0x1234 }));
}

#[test]
fn start_thread_resumes_or_runs() {
    let mut mem = memory();
    assert!(matches!(start_thread(Thread::<Job>::from_rsp(8), &mut mem), StartAction::Resume(8)));
    assert!(mem.allocator.is_none());
    assert!(matches!(
        start_thread(Thread::new(Job(3)), &mut mem),
        StartAction::RunOnNewStack(Job(3), VirtualAddress(0x80_0000_2000))
    ));
    assert!(matches!(
        start_thread(Thread::new(Job(4)), &mut mem),
        StartAction::RunOnNewStack(Job(4), VirtualAddress(0x80_0000_4000))
    ));
}

#[test]
fn locked_queue_refuses_parking() {
    let mut s: GlobalScheduler<Job> = GlobalScheduler::new();
    s.lock();
    let r = s.try_park(Thread::from_rsp(4));
    assert!(matches!(r, Err(Thread { state: ThreadState::Active { rsp: 4 } })));
    s.unlock();
    assert!(s.try_park(Thread::from_rsp(4)).is_ok());
    assert_eq!(s.len(), 1);
}

#[test]
fn schedule_takes_oldest_or_default() {
    let mut s: GlobalScheduler<Job> = GlobalScheduler::new();
    let _f: Future<()> = spawn(&mut s, Job(1));
    let _g: Future<()> = s.spawn(Job(2));
    let mut mem = memory();
    assert!(matches!(schedule(&mut s, &mut mem), StartAction::RunOnNewStack(Job(1), VirtualAddress(0x80_0000_2000))));
    assert!(matches!(schedule(&mut s, &mut mem), StartAction::RunOnNewStack(Job(2), VirtualAddress(0x80_0000_4000))));
    assert!(matches!(schedule(&mut s, &mut mem), StartAction::RunOnNewStack(Job(0), VirtualAddress(0x80_0000_6000))));
}

#[test]
fn reschedule_round_robin() {
    let mut g = init::<Job>();
    let _f: Future<()> = g.scheduler.spawn(Job(5));
    let mut mem = memory();
    let (action, parked) = reschedule(&mut g.scheduler, &mut mem, 0x900);
    assert!(parked);
    assert!(matches!(action, StartAction::RunOnNewStack(Job(5), VirtualAddress(0x80_0000_2000))));
    assert_eq!(g.scheduler.len(), 1);
    let (action, parked) = reschedule(&mut g.scheduler, &mut mem, 0xa00);
    assert!(parked);
    assert!(matches!(action, StartAction::Resume(0x900)));
}

#[test]
fn reschedule_alone_resumes_itself() {
    let mut g = init::<Job>();
    let (action, parked) = reschedule(&mut g.scheduler, &mut memory(), 0x900);
    assert!(parked);
    assert!(matches!(action, StartAction::Resume(0x900)));
    assert_eq!(g.scheduler.len(), 0);
}

#[test]
fn reschedule_with_locked_queue_resumes_interrupted_thread() {
    let mut g = init::<Job>();
    let _f: Future<()> = g.scheduler.spawn(Job(5));
    g.scheduler.lock();
    let (action, parked) = reschedule(&mut g.scheduler, &mut memory(), 0x900);
    assert!(!parked);
    assert!(matches!(action, StartAction::Resume(0x900)));
    assert_eq!(g.scheduler.len(), 1);
}
