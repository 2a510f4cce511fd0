//! The trap dispatcher: what the kernel does on every hardware trap, from
//! the captured register state to the task that is resumed.
use vstd::prelude::*;
use crate::hart::Hart;
use crate::interrupts::{
    EXCEPTION_ECALL_U,
    INTERRUPT_SUPERVISOR_EXTERNAL,
    INTERRUPT_SUPERVISOR_TIMER,
    cause_is_interrupt,
};
use crate::kernel::Kernel;
use crate::scheduler::{
    Scheduler,
    Task,
    TaskContext,
    MAX_TASKS,
    installs,
    next_of,
    next_task,
    save_context,
    switch_to_task,
};
use crate::syscall::{
    ExternalCall,
    SyscallOutcome,
    SYS_EXIT,
    external_call_of,
    handle_syscall,
    tasks_after_call,
    value_of_call,
};

verus! {

/// Number of the register that carries a system call's number.
pub const REG_SYSCALL_NUM: usize = 17;

/// Number of the register that carries a system call's first argument and
/// takes its result.
pub const REG_ARG0: usize = 10;

/// Number of the register that carries a system call's second argument.
pub const REG_ARG1: usize = 11;

/// Number of the register that carries a system call's third argument.
pub const REG_ARG2: usize = 12;

/// Number of the stack-pointer register.
pub const REG_SP: usize = 2;

/// Width of the instruction that makes a system call, in bytes.
pub const ECALL_WIDTH: u64 = 4;

/// The kinds of trap that the dispatcher tells apart.
#[derive(Clone, Copy, PartialEq, Eq, Structural, Debug)]
pub enum TrapKind {
    /// The supervisor timer fired.
    Timer,
    /// A device raised the supervisor external interrupt.
    External,
    /// An interrupt with the given code, which is not handled.
    UnhandledInterrupt(u64),
    /// A task made a system call.
    Syscall,
    /// Any other exception.
    Fault,
}

/// How the dispatcher left a trap.
#[derive(Clone, Copy, PartialEq, Eq, Structural, Debug)]
pub enum TrapOutcome {
    /// The trap is handled, and task `next` is installed in the hart, ready
    /// for the privilege return.
    Resume { kind: TrapKind, next: usize },
    /// The trap is a system call that has to be carried out on the console or
    /// the file store. Nothing has changed; `finish_syscall` takes the call's
    /// result and completes the trap.
    Pending(ExternalCall),
}

/// The numeric code that the dispatcher reads from a trap cause.
pub open spec fn trap_code(scause: u64) -> u64 {
    scause & 0xff
}

/// The kind of trap that a cause stands for.
pub open spec fn trap_kind_of(scause: u64) -> TrapKind {
    if cause_is_interrupt(scause) {
        if trap_code(scause) == INTERRUPT_SUPERVISOR_TIMER {
            TrapKind::Timer
        } else if trap_code(scause) == INTERRUPT_SUPERVISOR_EXTERNAL {
            TrapKind::External
        } else {
            TrapKind::UnhandledInterrupt(trap_code(scause))
        }
    } else if trap_code(scause) == EXCEPTION_ECALL_U {
        TrapKind::Syscall
    } else {
        TrapKind::Fault
    }
}

/// Tells which kind of trap a cause stands for.
pub fn classify_trap(scause: u64) -> (kind: TrapKind)
    ensures
        kind == trap_kind_of(scause),
{
    let is_interrupt: bool = (scause & 0x8000_0000_0000_0000) != 0;
    let code: u64 = scause & 0xff;
    if is_interrupt {
        if code == INTERRUPT_SUPERVISOR_TIMER {
            TrapKind::Timer
        } else if code == INTERRUPT_SUPERVISOR_EXTERNAL {
            TrapKind::External
        } else {
            TrapKind::UnhandledInterrupt(code)
        }
    } else if code == EXCEPTION_ECALL_U {
        TrapKind::Syscall
    } else {
        TrapKind::Fault
    }
}

/// Whether `after` is `before` with a captured state persisted into it: the
/// register file, the resuming program counter, the stack pointer taken from
/// the register file, and the status word. The privilege tag and the rest of
/// the slot stay.
pub open spec fn persists(before: Task, regs: Seq<u64>, pc: u64, sstatus: u64, after: Task) -> bool {
    &&& after.ctx.regs@ == regs
    &&& after == (Task {
        ctx: TaskContext {
            regs: after.ctx.regs,
            pc,
            sp: regs[REG_SP as int],
            sstatus,
            mode: before.ctx.mode,
        },
        ..before
    })
}

/// Whether the scheduler `after` and the hart `installed` are what comes of
/// persisting the captured state (`regs`, `pc`, and the status word of
/// `hart`) into slot `current` of `tasks`, making `next` the running task,
/// and installing its context into `hart`.
pub open spec fn resumes(
    tasks: Seq<Task>,
    current: int,
    hart: Hart,
    regs: Seq<u64>,
    pc: u64,
    next: int,
    after: Scheduler,
    installed: Hart,
) -> bool {
    &&& persists(tasks[current], regs, pc, hart.sstatus, after.tasks[current])
    &&& forall|i: int| 0 <= i < MAX_TASKS && i != current ==> after.tasks[i] == tasks[i]
    &&& after.current == next
    &&& 0 <= next < MAX_TASKS
    &&& installs(hart, after.tasks[next].ctx, installed)
}

/// Persists the captured state into the current task's slot.
fn persist(sched: &mut Scheduler, regs: &[u64; 32], pc: u64, sstatus: u64)
    requires
        old(sched).wf(),
    ensures
        final(sched).current == old(sched).current,
        old(sched).ids_match() ==> final(sched).ids_match(),
        persists(
            old(sched).tasks[old(sched).current as int],
            regs@,
            pc,
            sstatus,
            final(sched).tasks[old(sched).current as int],
        ),
        forall|i: int|
            0 <= i < MAX_TASKS && i != old(sched).current ==> final(sched).tasks[i] == old(
                sched,
            ).tasks[i],
{
    let cur: usize = sched.current;
    let mut task: Task = sched.tasks[cur];
    save_context(&mut task.ctx, regs, pc, regs[2], sstatus);
    sched.tasks[cur] = task;
}

/// Completes a system-call trap with the call's result: the result goes
/// into the register that carries it, the resuming program counter moves
/// past the calling instruction, the state is persisted into the caller's
/// slot, and the task that the scheduler selects next is installed.
pub fn finish_syscall(kernel: &mut Kernel, hart: &mut Hart, ret: u64) -> (next: usize)
    requires
        old(kernel).scheduler.wf(),
        old(hart).sepc + ECALL_WIDTH <= u64::MAX,
    ensures
        final(kernel).scheduler.wf(),
        old(kernel).scheduler.ids_match() ==> final(kernel).scheduler.ids_match(),
        final(kernel).pages == old(kernel).pages,
        final(kernel).heap == old(kernel).heap,
        final(kernel).interrupts == old(kernel).interrupts,
        final(kernel).vm == old(kernel).vm,
        final(kernel).ramfs == old(kernel).ramfs,
        next == next_of(final(kernel).scheduler.tasks@, old(kernel).scheduler.current as int),
        resumes(
            old(kernel).scheduler.tasks@,
            old(kernel).scheduler.current as int,
            *old(hart),
            old(hart).regs@.update(REG_ARG0 as int, ret),
            (old(hart).sepc + ECALL_WIDTH) as u64,
            next as int,
            final(kernel).scheduler,
            *final(hart),
        ),
{
    let mut regs: [u64; 32] = hart.regs;
    regs[10] = ret;
    assert(regs@ =~= old(hart).regs@.update(REG_ARG0 as int, ret));
    let new_sepc: u64 = hart.sepc + 4;
    persist(&mut kernel.scheduler, &regs, new_sepc, hart.sstatus);
    let next: usize = next_task(&kernel.scheduler);
    switch_to_task(&mut kernel.scheduler, hart, next);
    next
}

/// Handles one trap. `hart` holds the state captured on entry: the register
/// file, the cause, the resuming program counter, the status word and the
/// fault value.
///
/// A timer interrupt rearms the timer, persists the state into the running
/// task's slot and resumes the task that the scheduler selects next. An
/// external interrupt persists the state and resumes the same task. Any
/// other interrupt, and any exception but a system call, persists the state
/// and resumes the task that the scheduler selects next. A system call is
/// dispatched; if it ends with a value, the trap is completed as
/// `finish_syscall` does; if the caller exits, the next task is installed
/// without persisting anything; if the call has to be carried out elsewhere,
/// nothing changes and the outcome names the call.
///
/// A fault changes nothing of the faulting task's slot but the persisted
/// state: the task is not retired and its slot is not freed.
pub fn trap_handler(kernel: &mut Kernel, hart: &mut Hart) -> (outcome: TrapOutcome)
    requires
        old(kernel).scheduler.wf(),
        trap_kind_of(old(hart).scause) == TrapKind::Syscall ==> old(hart).sepc + ECALL_WIDTH
            <= u64::MAX,
    ensures
        final(kernel).scheduler.wf(),
        old(kernel).scheduler.ids_match() ==> final(kernel).scheduler.ids_match(),
        final(kernel).pages == old(kernel).pages,
        final(kernel).heap == old(kernel).heap,
        final(kernel).interrupts == old(kernel).interrupts,
        final(kernel).vm == old(kernel).vm,
        final(kernel).ramfs == old(kernel).ramfs,
        outcome matches TrapOutcome::Pending(call) ==> {
            &&& trap_kind_of(old(hart).scause) == TrapKind::Syscall
            &&& external_call_of(old(hart).regs[REG_SYSCALL_NUM as int]) == Some(call)
            &&& *final(kernel) == *old(kernel)
            &&& *final(hart) == *old(hart)
        },
        outcome matches TrapOutcome::Resume { kind, next } ==> {
            let tasks = old(kernel).scheduler.tasks@;
            let current = old(kernel).scheduler.current as int;
            let after = final(kernel).scheduler;
            let num = old(hart).regs[REG_SYSCALL_NUM as int];
            let arg0 = old(hart).regs[REG_ARG0 as int];
            &&& kind == trap_kind_of(old(hart).scause)
            &&& next == after.current
            &&& kind == TrapKind::Timer ==> resumes(
                tasks,
                current,
                old(kernel).interrupts.rearmed(*old(hart)),
                old(hart).regs@,
                old(hart).sepc,
                next_of(after.tasks@, current),
                after,
                *final(hart),
            )
            &&& kind == TrapKind::External ==> resumes(
                tasks,
                current,
                *old(hart),
                old(hart).regs@,
                old(hart).sepc,
                current,
                after,
                *final(hart),
            )
            &&& (kind is UnhandledInterrupt || kind == TrapKind::Fault) ==> resumes(
                tasks,
                current,
                *old(hart),
                old(hart).regs@,
                old(hart).sepc,
                next_of(after.tasks@, current),
                after,
                *final(hart),
            )
            &&& kind == TrapKind::Syscall ==> external_call_of(num) is None
            &&& kind == TrapKind::Syscall && num == SYS_EXIT ==> {
                &&& after.tasks@ == tasks_after_call(tasks, current, num, arg0)
                &&& next == next_of(after.tasks@, current)
                &&& installs(*old(hart), after.tasks[next as int].ctx, *final(hart))
            }
            &&& kind == TrapKind::Syscall && num != SYS_EXIT ==> resumes(
                tasks_after_call(tasks, current, num, arg0),
                current,
                *old(hart),
                old(hart).regs@.update(
                    REG_ARG0 as int,
                    value_of_call(tasks, current, num, arg0),
                ),
                (old(hart).sepc + ECALL_WIDTH) as u64,
                next_of(after.tasks@, current),
                after,
                *final(hart),
            )
        },
{
    let sepc: u64 = hart.sepc;
    let sstatus: u64 = hart.sstatus;
    let kind: TrapKind = classify_trap(hart.scause);
    match kind {
        TrapKind::Timer => {
            let regs: [u64; 32] = hart.regs;
            persist(&mut kernel.scheduler, &regs, sepc, sstatus);
            kernel.interrupts.handle_timer_interrupt(hart);
            let next: usize = next_task(&kernel.scheduler);
            switch_to_task(&mut kernel.scheduler, hart, next);
            TrapOutcome::Resume { kind, next }
        },
        TrapKind::External => {
            let regs: [u64; 32] = hart.regs;
            persist(&mut kernel.scheduler, &regs, sepc, sstatus);
            kernel.interrupts.handle_external_interrupt();
            let next: usize = kernel.scheduler.current;
            switch_to_task(&mut kernel.scheduler, hart, next);
            TrapOutcome::Resume { kind, next }
        },
        TrapKind::Syscall => {
            let syscall_num: u64 = hart.regs[17];
            let arg0: u64 = hart.regs[10];
            let arg1: u64 = hart.regs[11];
            let arg2: u64 = hart.regs[12];
            match handle_syscall(&mut kernel.scheduler, hart, syscall_num, arg0, arg1, arg2) {
                SyscallOutcome::Return(ret) => {
                    let next: usize = finish_syscall(kernel, hart, ret);
                    TrapOutcome::Resume { kind, next }
                },
                SyscallOutcome::Switched => {
                    TrapOutcome::Resume { kind, next: kernel.scheduler.current }
                },
                SyscallOutcome::External(call) => TrapOutcome::Pending(call),
            }
        },
        TrapKind::UnhandledInterrupt(_) | TrapKind::Fault => {
            let regs: [u64; 32] = hart.regs;
            persist(&mut kernel.scheduler, &regs, sepc, sstatus);
            let next: usize = next_task(&kernel.scheduler);
            switch_to_task(&mut kernel.scheduler, hart, next);
            TrapOutcome::Resume { kind, next }
        },
    }
}

} // verus!
