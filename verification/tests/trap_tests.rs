use star_kernel::hart::Hart;
use star_kernel::kernel::Kernel;
use star_kernel::scheduler::{init_scheduler, TaskState};
use star_kernel::syscall::ExternalCall;
use star_kernel::trap::{
    classify_trap, finish_syscall, trap_handler, TrapKind, TrapOutcome, ECALL_WIDTH, REG_ARG0,
    REG_ARG1, REG_ARG2, REG_SP, REG_SYSCALL_NUM,
};

const INTERRUPT: u64 = 1 << 63;

fn booted() -> Kernel {
    let mut kernel = Kernel::new();
    assert!(init_scheduler(&mut kernel.scheduler));
    kernel
}

fn captured(base: u64) -> Hart {
    let mut hart = Hart::new();
    for r in 0..32 {
        hart.regs[r] = base + r as u64;
    }
    hart
}

#[test]
fn register_slots_have_their_numbers() {
    assert_eq!(REG_SYSCALL_NUM, 17);
    assert_eq!(REG_ARG0, 10);
    assert_eq!(REG_ARG1, 11);
    assert_eq!(REG_ARG2, 12);
    assert_eq!(REG_SP, 2);
    assert_eq!(ECALL_WIDTH, 4);
}

#[test]
fn timer_traps_alternate_between_two_tasks() {
    let mut kernel = booted();
    let mut hart = captured(100);
    hart.time = 1_000;
    assert!(kernel.interrupts.setup_timer(&mut hart, 500));
    hart.scause = INTERRUPT | 5;
    hart.sepc = 0xa000;
    hart.sstatus = 0x22;
    hart.time = 1_500;
    let outcome = trap_handler(&mut kernel, &mut hart);
    assert_eq!(outcome, TrapOutcome::Resume { kind: TrapKind::Timer, next: 1 });
    assert_eq!(kernel.scheduler.current, 1);
    assert_eq!(hart.time_compare, 2_000);
    let saved = kernel.scheduler.tasks[0].ctx;
    for r in 0..32 {
        assert_eq!(saved.regs[r], 100 + r as u64);
    }
    assert_eq!(saved.pc, 0xa000);
    assert_eq!(saved.sp, 102);
    assert_eq!(saved.sstatus, 0x22);
    assert_eq!(saved.mode, 0);
    assert_eq!(hart.sepc, 0x8040_0000);
    assert_eq!(hart.sstatus, 0);
    assert_eq!(hart.regs[2], 0);
    assert_eq!(hart.regs[0], 100);
    assert_eq!(hart.regs[5], 105);

    for r in 0..32 {
        hart.regs[r] = 200 + r as u64;
    }
    hart.sepc = 0x8040_0004;
    hart.sstatus = 0x1;
    hart.time = 2_100;
    let outcome = trap_handler(&mut kernel, &mut hart);
    assert_eq!(outcome, TrapOutcome::Resume { kind: TrapKind::Timer, next: 0 });
    assert_eq!(kernel.scheduler.current, 0);
    assert_eq!(hart.time_compare, 2_600);
    assert_eq!(kernel.scheduler.tasks[1].ctx.pc, 0x8040_0004);
    assert_eq!(kernel.scheduler.tasks[1].ctx.sp, 202);
    assert_eq!(kernel.scheduler.tasks[1].ctx.mode, 1);
    assert_eq!(hart.sepc, 0xa000);
    assert_eq!(hart.sstatus, 0x22);
    for r in 1..32 {
        if r != 5 {
            assert_eq!(hart.regs[r], 100 + r as u64);
        }
    }
    assert_eq!(hart.regs[0], 200);
    assert_eq!(hart.regs[5], 205);
}

#[test]
fn external_interrupt_resumes_the_same_task() {
    let mut kernel = booted();
    let mut hart = captured(10);
    hart.scause = INTERRUPT | 9;
    hart.sepc = 0x500;
    hart.sstatus = 0x2;
    hart.time_compare = 55;
    let outcome = trap_handler(&mut kernel, &mut hart);
    assert_eq!(outcome, TrapOutcome::Resume { kind: TrapKind::External, next: 0 });
    assert_eq!(kernel.scheduler.current, 0);
    assert_eq!(kernel.scheduler.tasks[0].ctx.pc, 0x500);
    assert_eq!(hart.sepc, 0x500);
    assert_eq!(hart.sstatus, 0x2);
    assert_eq!(hart.time_compare, 55);
    for r in 0..32 {
        assert_eq!(hart.regs[r], 10 + r as u64);
    }
}

#[test]
fn unhandled_interrupt_is_a_reschedule_point() {
    let mut kernel = booted();
    let mut hart = captured(0);
    hart.scause = INTERRUPT | 1;
    hart.sepc = 0x600;
    let outcome = trap_handler(&mut kernel, &mut hart);
    assert_eq!(outcome, TrapOutcome::Resume { kind: TrapKind::UnhandledInterrupt(1), next: 1 });
    assert_eq!(kernel.scheduler.tasks[0].ctx.pc, 0x600);
    assert!(kernel.scheduler.tasks[0].state == TaskState::Ready);
    assert!(kernel.scheduler.tasks[0].active);
    assert_eq!(hart.time_compare, 0);
}

#[test]
fn fault_persists_and_moves_on_without_retiring_the_task() {
    let mut kernel = booted();
    let mut hart = captured(0);
    hart.scause = 13;
    hart.sepc = 0x700;
    hart.stval = 0xbad;
    let outcome = trap_handler(&mut kernel, &mut hart);
    assert_eq!(outcome, TrapOutcome::Resume { kind: TrapKind::Fault, next: 1 });
    assert_eq!(kernel.scheduler.tasks[0].ctx.pc, 0x700);
    assert!(kernel.scheduler.tasks[0].active);
    assert!(kernel.scheduler.tasks[0].state == TaskState::Ready);
    assert_eq!(kernel.scheduler.current, 1);
    assert_eq!(hart.stval, 0xbad);
}

#[test]
fn supervisor_call_is_a_fault_not_a_system_call() {
    let mut kernel = booted();
    let mut hart = captured(0);
    hart.scause = 9;
    hart.regs[17] = 93;
    let outcome = trap_handler(&mut kernel, &mut hart);
    assert_eq!(outcome, TrapOutcome::Resume { kind: TrapKind::Fault, next: 1 });
    assert!(kernel.scheduler.tasks[0].active);
}

#[test]
fn getpid_call_returns_in_the_argument_register() {
    let mut kernel = booted();
    kernel.scheduler.current = 1;
    let mut hart = captured(300);
    hart.scause = 8;
    hart.sepc = 0x8040_0010;
    hart.sstatus = 0x20;
    hart.regs[17] = 172;
    let outcome = trap_handler(&mut kernel, &mut hart);
    assert_eq!(outcome, TrapOutcome::Resume { kind: TrapKind::Syscall, next: 0 });
    let saved = kernel.scheduler.tasks[1].ctx;
    assert_eq!(saved.regs[10], 1);
    assert_eq!(saved.regs[11], 311);
    assert_eq!(saved.regs[17], 172);
    assert_eq!(saved.pc, 0x8040_0014);
    assert_eq!(saved.sp, 302);
    assert_eq!(saved.sstatus, 0x20);
    assert_eq!(kernel.scheduler.current, 0);
    assert_eq!(hart.sepc, 0);
}

#[test]
fn unknown_call_fails_and_still_advances() {
    let mut kernel = booted();
    let mut hart = captured(0);
    hart.scause = 8;
    hart.sepc = 0x100;
    hart.regs[17] = 4242;
    let outcome = trap_handler(&mut kernel, &mut hart);
    assert_eq!(outcome, TrapOutcome::Resume { kind: TrapKind::Syscall, next: 1 });
    assert_eq!(kernel.scheduler.tasks[0].ctx.regs[10], u64::MAX);
    assert_eq!(kernel.scheduler.tasks[0].ctx.pc, 0x104);
}

#[test]
fn exit_call_retires_the_caller_and_selects_another_task() {
    let mut kernel = booted();
    kernel.scheduler.current = 1;
    let before = kernel.scheduler.tasks[1].ctx;
    let mut hart = captured(40);
    hart.scause = 8;
    hart.sepc = 0x8040_0020;
    hart.regs[17] = 93;
    let outcome = trap_handler(&mut kernel, &mut hart);
    assert_eq!(outcome, TrapOutcome::Resume { kind: TrapKind::Syscall, next: 0 });
    assert!(!kernel.scheduler.tasks[1].active);
    assert!(kernel.scheduler.tasks[1].state == TaskState::Exited);
    assert_eq!(kernel.scheduler.tasks[1].ctx.pc, before.pc);
    assert_eq!(kernel.scheduler.tasks[1].ctx.regs, before.regs);
    assert_eq!(kernel.scheduler.current, 0);
    assert_ne!(kernel.scheduler.current, 1);

    hart.scause = INTERRUPT | 5;
    for _ in 0..5 {
        let outcome = trap_handler(&mut kernel, &mut hart);
        assert_eq!(outcome, TrapOutcome::Resume { kind: TrapKind::Timer, next: 0 });
    }
}

#[test]
fn fork_call_gives_the_child_the_saved_context_of_the_parent() {
    let mut kernel = booted();
    kernel.scheduler.current = 1;
    let parent_before = kernel.scheduler.tasks[1].ctx;
    let mut hart = captured(500);
    hart.scause = 8;
    hart.sepc = 0x8040_0030;
    hart.regs[17] = 220;
    let outcome = trap_handler(&mut kernel, &mut hart);
    assert_eq!(outcome, TrapOutcome::Resume { kind: TrapKind::Syscall, next: 2 });
    let child = kernel.scheduler.tasks[2];
    assert!(child.active);
    assert_eq!(child.pid, 2);
    assert_eq!(child.ppid, 1);
    assert_eq!(child.ctx.pc, parent_before.pc);
    assert_eq!(child.ctx.regs, parent_before.regs);
    assert_eq!(kernel.scheduler.tasks[1].ctx.regs[10], 2);
    assert_eq!(kernel.scheduler.tasks[1].ctx.pc, 0x8040_0034);
    assert_eq!(hart.sepc, parent_before.pc);
}

#[test]
fn console_and_file_calls_are_handed_out_and_finished_later() {
    let calls = [
        (0u64, ExternalCall::Read),
        (64, ExternalCall::Write),
        (1000, ExternalCall::RamfsCreate),
        (1001, ExternalCall::RamfsRead),
        (1002, ExternalCall::RamfsWrite),
        (1003, ExternalCall::RamfsList),
    ];
    for (num, call) in calls {
        let mut kernel = booted();
        let mut hart = captured(0);
        hart.scause = 8;
        hart.sepc = 0x900;
        hart.regs[17] = num;
        hart.regs[10] = 1;
        let outcome = trap_handler(&mut kernel, &mut hart);
        assert_eq!(outcome, TrapOutcome::Pending(call));
        assert_eq!(kernel.scheduler.current, 0);
        assert_eq!(kernel.scheduler.tasks[0].ctx.pc, 0);
        assert_eq!(hart.sepc, 0x900);
        assert_eq!(hart.regs[10], 1);
        let next = finish_syscall(&mut kernel, &mut hart, 13);
        assert_eq!(next, 1);
        assert_eq!(kernel.scheduler.current, 1);
        assert_eq!(kernel.scheduler.tasks[0].ctx.regs[10], 13);
        assert_eq!(kernel.scheduler.tasks[0].ctx.regs[17], num);
        assert_eq!(kernel.scheduler.tasks[0].ctx.pc, 0x904);
        assert_eq!(hart.sepc, 0x8040_0000);
    }
}

#[test]
fn only_the_low_byte_of_the_cause_is_the_code() {
    let mut kernel = booted();
    let mut hart = captured(0);
    hart.scause = INTERRUPT | 0x105;
    let outcome = trap_handler(&mut kernel, &mut hart);
    assert_eq!(outcome, TrapOutcome::Resume { kind: TrapKind::Timer, next: 1 });
    let mut hart = captured(0);
    hart.scause = 0x308;
    hart.regs[17] = 172;
    let outcome = trap_handler(&mut kernel, &mut hart);
    assert_eq!(outcome, TrapOutcome::Resume { kind: TrapKind::Syscall, next: 0 });
    assert_eq!(kernel.scheduler.tasks[1].ctx.regs[10], 1);
}

#[test]
fn causes_are_classified() {
    assert_eq!(classify_trap(INTERRUPT | 5), TrapKind::Timer);
    assert_eq!(classify_trap(INTERRUPT | 9), TrapKind::External);
    assert_eq!(classify_trap(INTERRUPT | 1), TrapKind::UnhandledInterrupt(1));
    assert_eq!(classify_trap(INTERRUPT), TrapKind::UnhandledInterrupt(0));
    assert_eq!(classify_trap(INTERRUPT | 0x1ff), TrapKind::UnhandledInterrupt(0xff));
    assert_eq!(classify_trap(8), TrapKind::Syscall);
    assert_eq!(classify_trap(5), TrapKind::Fault);
    assert_eq!(classify_trap(9), TrapKind::Fault);
    assert_eq!(classify_trap(0), TrapKind::Fault);
    assert_eq!(classify_trap(2), TrapKind::Fault);
    assert_eq!(classify_trap(15), TrapKind::Fault);
}
