//! What the kernel does on an interrupt: which interrupts are faults, which
//! wake the scheduler, which end-of-interrupt bytes go to the two
//! programmable interrupt controllers, and the handler's step that ties
//! these together and makes the scheduler call.
use vstd::prelude::*;
use crate::allocator::KernelMemory;
use crate::kernel_scheduler::{
    GlobalScheduler,
    StartAction,
    can_reschedule,
    can_schedule,
    reschedule,
    rescheduled,
    schedule,
    scheduled,
};

verus! {

/// I/O port of the master interrupt controller.
pub const MASTER_PORT: u16 = 0x20;

/// I/O port of the slave interrupt controller.
pub const SLAVE_PORT: u16 = 0xA0;

/// The end-of-interrupt command byte.
pub const EOI: u8 = 0x20;

/// The byte writes that acknowledge interrupt `number`: interrupts from 40
/// on came through the slave controller, which is acknowledged first and
/// then the master; interrupts 32 to 39 only need the master; others need
/// nothing.
pub open spec fn eoi_writes_spec(number: u64) -> Seq<(u16, u8)> {
    if number >= 40 {
        seq![(SLAVE_PORT, EOI), (MASTER_PORT, EOI)]
    } else if 32 <= number <= 40 {
        seq![(MASTER_PORT, EOI)]
    } else {
        Seq::empty()
    }
}

/// The port writes, in order, that acknowledge interrupt `number`.
pub fn send_eoi(number: u64) -> (writes: Vec<(u16, u8)>)
    ensures
        writes@ == eoi_writes_spec(number),
{
    let mut writes: Vec<(u16, u8)> = Vec::new();
    if number >= 40 {
        writes.push((SLAVE_PORT, EOI));
        writes.push((MASTER_PORT, EOI));
        assert(writes@ =~= seq![(SLAVE_PORT, EOI), (MASTER_PORT, EOI)]);
    } else if 32 <= number && number <= 40 {
        writes.push((MASTER_PORT, EOI));
        assert(writes@ =~= seq![(MASTER_PORT, EOI)]);
    } else {
        assert(writes@ =~= Seq::<(u16, u8)>::empty());
    }
    writes
}

/// How an interrupt is handled.
#[derive(Clone, Copy, Debug, PartialEq, Eq, Structural)]
pub enum InterruptAction {
    /// A general protection fault with a segment error: the kernel stops.
    GeneralProtectionFault { error_code: u64 },
    /// The timer: the scheduler may switch threads.
    Timer,
    /// The keyboard: a "k" is printed.
    Keyboard,
    /// The allocator ran out of memory: the kernel stops.
    OutOfMemory,
    /// The running thread ended: "ending thread..." is printed and the next
    /// thread is scheduled.
    EndThread,
    /// Any other interrupt: the kernel stops.
    Unknown { number: u64, error_code: u64 },
}

/// The handling of interrupt `number` with `error_code`: 13 with a nonzero
/// error code is a general protection fault, 32 the timer, 33 the keyboard,
/// 50 out of memory, 66 the end of a thread; everything else, 13 with a
/// zero error code among it, is unknown.
pub open spec fn interrupt_action_spec(number: u64, error_code: u64) -> InterruptAction {
    if number == 13 && error_code != 0 {
        InterruptAction::GeneralProtectionFault { error_code }
    } else if number == 32 {
        InterruptAction::Timer
    } else if number == 33 {
        InterruptAction::Keyboard
    } else if number == 50 {
        InterruptAction::OutOfMemory
    } else if number == 66 {
        InterruptAction::EndThread
    } else {
        InterruptAction::Unknown { number, error_code }
    }
}

/// How to handle interrupt `number` with `error_code`.
pub fn interrupt_handler(number: u64, error_code: u64) -> (action: InterruptAction)
    ensures
        action == interrupt_action_spec(number, error_code),
{
    if number == 13 && error_code != 0 {
        InterruptAction::GeneralProtectionFault { error_code }
    } else if number == 32 {
        InterruptAction::Timer
    } else if number == 33 {
        InterruptAction::Keyboard
    } else if number == 50 {
        InterruptAction::OutOfMemory
    } else if number == 66 {
        InterruptAction::EndThread
    } else {
        InterruptAction::Unknown { number, error_code }
    }
}

/// Whether handling the interrupt stops the kernel.
pub open spec fn is_fatal(action: InterruptAction) -> bool {
    action is GeneralProtectionFault || action is OutOfMemory || action is Unknown
}

/// Every interrupt that the kernel survives is acknowledged at the master
/// controller: the timer, the keyboard and the end of a thread all come
/// through it.
pub proof fn law_survived_interrupts_are_acknowledged(number: u64, error_code: u64)
    requires
        !is_fatal(interrupt_action_spec(number, error_code)),
    ensures
        eoi_writes_spec(number).len() > 0,
        eoi_writes_spec(number).last() == (MASTER_PORT, EOI),
{
}

/// The scheduler call that follows an interrupt.
#[derive(Clone, Copy, Debug, PartialEq, Eq, Structural)]
pub enum SchedulerCall {
    /// None: the interrupted code goes on.
    Nothing,
    /// The timer fired: park the thread whose registers lie at this stack
    /// pointer and start the next one.
    Reschedule(usize),
    /// The running thread ended: start the next one.
    Schedule,
}

/// The scheduler call after the interrupt with the given handling, for a
/// thread interrupted at `rsp`.
pub open spec fn scheduler_call_spec(action: InterruptAction, rsp: usize) -> SchedulerCall {
    match action {
        InterruptAction::Timer => SchedulerCall::Reschedule(rsp),
        InterruptAction::EndThread => SchedulerCall::Schedule,
        _ => SchedulerCall::Nothing,
    }
}

/// What the handler does with one interrupt: how it handles it, the text
/// it prints, the port writes that acknowledge it, and the scheduler call
/// that follows. A fatal interrupt stops the kernel before any of these.
pub struct InterruptStep {
    pub action: InterruptAction,
    pub text: Option<&'static str>,
    pub writes: Vec<(u16, u8)>,
    pub next: SchedulerCall,
}

/// The handler's step for interrupt `number` with `error_code`, raised
/// while the thread whose registers lie at `rsp` ran: a fatal interrupt
/// prints nothing here, writes no port and calls no scheduler (the kernel
/// stops with its report); the keyboard prints "k", the end of a thread
/// "ending thread..." and a newline; every other interrupt is acknowledged
/// at the controllers, then the timer reschedules at `rsp` and the end of a
/// thread schedules.
pub fn interrupt_step(number: u64, error_code: u64, rsp: usize) -> (step: InterruptStep)
    ensures
        step.action == interrupt_action_spec(number, error_code),
        is_fatal(step.action) ==> step.text is None && step.writes@ == Seq::<(u16, u8)>::empty()
            && step.next == SchedulerCall::Nothing,
        !is_fatal(step.action) ==> step.writes@ == eoi_writes_spec(number) && step.next
            == scheduler_call_spec(step.action, rsp),
        step.action is Keyboard ==> step.text is Some && step.text->Some_0@ == "k"@,
        step.action is EndThread ==> step.text is Some && step.text->Some_0@ == "ending thread...\n"@,
        step.action is Timer ==> step.text is None,
{
    let action = interrupt_handler(number, error_code);
    match action {
        InterruptAction::Timer => InterruptStep {
            action,
            text: None,
            writes: send_eoi(number),
            next: SchedulerCall::Reschedule(rsp),
        },
        InterruptAction::Keyboard => InterruptStep {
            action,
            text: Some("k"),
            writes: send_eoi(number),
            next: SchedulerCall::Nothing,
        },
        InterruptAction::EndThread => InterruptStep {
            action,
            text: Some("ending thread...\n"),
            writes: send_eoi(number),
            next: SchedulerCall::Schedule,
        },
        _ => InterruptStep { action, text: None, writes: Vec::new(), next: SchedulerCall::Nothing },
    }
}

/// Whether the scheduler call after interrupt `number` can be made.
pub open spec fn can_handle<F>(s: GlobalScheduler<F>, mem: KernelMemory, number: u64, error_code: u64, rsp: usize) -> bool {
    match scheduler_call_spec(interrupt_action_spec(number, error_code), rsp) {
        SchedulerCall::Reschedule(at) => can_reschedule(s, mem, at),
        SchedulerCall::Schedule => can_schedule(s, mem),
        SchedulerCall::Nothing => true,
    }
}

/// Handles interrupt `number` as the kernel's handler does: takes the
/// step, and makes the scheduler call it names on the kernel's scheduler.
/// Returns the step and, after a reschedule, what to run and whether the
/// thread was parked; after a schedule, what to run (and `true`).
pub fn handle_interrupt<F: Default>(
    scheduler: &mut GlobalScheduler<F>,
    mem: &mut KernelMemory,
    number: u64,
    error_code: u64,
    rsp: usize,
) -> (r: (InterruptStep, Option<(StartAction<F>, bool)>))
    requires
        can_handle(*old(scheduler), *old(mem), number, error_code, rsp),
    ensures
        r.0.action == interrupt_action_spec(number, error_code),
        is_fatal(r.0.action) ==> r.0.text is None && r.0.writes@ == Seq::<(u16, u8)>::empty(),
        !is_fatal(r.0.action) ==> r.0.writes@ == eoi_writes_spec(number),
        r.0.next == (if is_fatal(r.0.action) {
            SchedulerCall::Nothing
        } else {
            scheduler_call_spec(r.0.action, rsp)
        }),
        r.0.action is Keyboard ==> r.0.text is Some && r.0.text->Some_0@ == "k"@,
        r.0.action is EndThread ==> r.0.text is Some && r.0.text->Some_0@ == "ending thread...\n"@,
        r.0.action is Timer ==> r.0.text is None,
        r.0.next is Nothing ==> r.1 is None && *final(scheduler) == *old(scheduler) && *final(mem)
            == *old(mem),
        r.0.next is Reschedule ==> r.1 is Some && rescheduled(
            *old(scheduler),
            *final(scheduler),
            *old(mem),
            *final(mem),
            rsp,
            r.1->Some_0,
        ),
        r.0.next is Schedule ==> r.1 is Some && r.1->Some_0.1 && scheduled(
            *old(scheduler),
            *final(scheduler),
            *old(mem),
            *final(mem),
            r.1->Some_0.0,
        ),
{
    let step = interrupt_step(number, error_code, rsp);
    let started = match step.next {
        SchedulerCall::Reschedule(at) => Some(reschedule(scheduler, mem, at)),
        SchedulerCall::Schedule => Some((schedule(scheduler, mem), true)),
        SchedulerCall::Nothing => None,
    };
    (step, started)
}

} // verus!
