use lib::allocator::{HeapMemory, KernelMemory};
use lib::frame::Frame;
use lib::frame_stack::FrameStack;
use lib::interrupts::{handle_interrupt, interrupt_handler, interrupt_step, send_eoi, InterruptAction, SchedulerCall};
use lib::kernel_scheduler::{GlobalScheduler, StartAction};
use lib::page_table::PageTableMemory;
use lib::paging::VirtualAddress;

#[derive(Debug, PartialEq, Default)]
struct Job(u32);

fn memory() -> KernelMemory {
    let mut frames = FrameStack::new();
    for i in 0..16u32 {
        frames.push(Frame { number: 100 + i });
    }
    KernelMemory { allocator: None, tables: PageTableMemory::new(), frames, heap: HeapMemory::new() }
}

#[test]
fn eoi_for_slave_interrupts_goes_to_both_controllers() {
    assert_eq!(send_eoi(40), vec![(0xA0, 0x20), (0x20, 0x20)]);
    assert_eq!(send_eoi(47), vec![(0xA0, 0x20), (0x20, 0x20)]);
}

#[test]
fn eoi_for_master_interrupts_goes_to_master() {
    assert_eq!(send_eoi(32), vec![(0x20, 0x20)]);
    assert_eq!(send_eoi(39), vec![(0x20, 0x20)]);
}

#[test]
fn exceptions_need_no_eoi() {
    assert_eq!(send_eoi(13), vec![]);
    assert_eq!(send_eoi(31), vec![]);
}

#[test]
fn interrupt_numbers_are_classified() {
    assert_eq!(interrupt_handler(13, 8), InterruptAction::GeneralProtectionFault { error_code: 8 });
    assert_eq!(interrupt_handler(13, 0), InterruptAction::Unknown { number: 13, error_code: 0 });
    assert_eq!(interrupt_handler(32, 0), InterruptAction::Timer);
    assert_eq!(interrupt_handler(33, 0), InterruptAction::Keyboard);
    assert_eq!(interrupt_handler(50, 0), InterruptAction::OutOfMemory);
    assert_eq!(interrupt_handler(66, 0), InterruptAction::EndThread);
    assert_eq!(interrupt_handler(7, 3), InterruptAction::Unknown { number: 7, error_code: 3 });
}

#[test]
fn survived_interrupts_end_with_master_eoi() {
    for n in [32u64, 33, 66] {
        assert_eq!(send_eoi(n).last(), Some(&(0x20, 0x20)));
    }
}

#[test]
fn fatal_interrupts_write_nothing_and_call_no_scheduler() {
    for (n, e) in [(13u64, 5u64), (50, 0), (7, 0), (40, 0), (13, 0)] {
        let step = interrupt_step(n, e, 0x100);
        assert!(step.text.is_none());
        assert!(step.writes.is_empty());
        assert_eq!(step.next, SchedulerCall::Nothing);
    }
}

#[test]
fn keyboard_prints_k_and_acknowledges_master() {
    let step = interrupt_step(33, 0, 0x100);
    assert_eq!(step.action, InterruptAction::Keyboard);
    assert_eq!(step.text, Some("k"));
    assert_eq!(step.writes, vec![(0x20, 0x20)]);
    assert_eq!(step.next, SchedulerCall::Nothing);
}

#[test]
fn timer_acknowledges_then_reschedules_at_rsp() {
    let step = interrupt_step(32, 0, 0x1234);
    assert_eq!(step.text, None);
    assert_eq!(step.writes, vec![(0x20, 0x20)]);
    assert_eq!(step.next, SchedulerCall::Reschedule(0x1234));
}

#[test]
fn thread_end_prints_acknowledges_both_then_schedules() {
    let step = interrupt_step(66, 0, 0x1234);
    assert_eq!(step.text, Some("ending thread...\n"));
    assert_eq!(step.writes, vec![(0xA0, 0x20), (0x20, 0x20)]);
    assert_eq!(step.next, SchedulerCall::Schedule);
}

#[test]
fn handled_timer_parks_and_starts_next_thread() {
    let mut s: GlobalScheduler<Job> = GlobalScheduler::new();
    let mut mem = memory();
    let _f: lib::kernel_scheduler::Future<()> = s.spawn(Job(4));
    let (step, started) = handle_interrupt(&mut s, &mut mem, 32, 0, 0x900);
    assert_eq!(step.next, SchedulerCall::Reschedule(0x900));
    match started {
        Some((StartAction::RunOnNewStack(Job(4), VirtualAddress(0x80_0000_2000)), true)) => {}
        _ => panic!("expected the spawned thread on a new stack"),
    }
    let (_, started) = handle_interrupt(&mut s, &mut mem, 66, 0, 0);
    assert!(matches!(started, Some((StartAction::Resume(0x900), true))));
}

#[test]
fn handled_keyboard_touches_no_scheduler() {
    let mut s: GlobalScheduler<Job> = GlobalScheduler::new();
    let mut mem = memory();
    let (step, started) = handle_interrupt(&mut s, &mut mem, 33, 0, 0x900);
    assert_eq!(step.text, Some("k"));
    assert!(started.is_none());
    assert!(mem.allocator.is_none());
    assert_eq!(s.len(), 0);
}
