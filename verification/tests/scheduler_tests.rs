use star_kernel::hart::Hart;
use star_kernel::scheduler::{
    init_scheduler, next_task, save_context, switch_to_task, Scheduler, TaskContext, TaskState,
    MAX_TASKS, SCRATCH_REG,
};
use star_kernel::user_loader::{
    getchar, run_user_program, USER_PROG, USER_PROG2, USER_PROG2_BASE, USER_PROG_BASE,
    USER_STACK_BASE, USER_STACK_SIZE,
};

fn ready(sched: &mut Scheduler, slot: usize) {
    sched.tasks[slot].active = true;
    sched.tasks[slot].state = TaskState::Ready;
}

#[test]
fn new_table_is_empty() {
    let sched = Scheduler::new();
    assert_eq!(MAX_TASKS, 4);
    assert_eq!(sched.current, 0);
    for (i, task) in sched.tasks.iter().enumerate() {
        assert!(!task.active);
        assert!(task.state == TaskState::Exited);
        assert_eq!(task.pid, i);
        assert_eq!(task.ppid, 0);
        assert_eq!(task.ctx.pc, 0);
        assert_eq!(task.ctx.sp, 0);
        assert_eq!(task.ctx.sstatus, 0);
        assert_eq!(task.ctx.mode, 0);
        assert_eq!(task.ctx.regs, [0; 32]);
    }
}

#[test]
fn init_sets_up_the_two_boot_tasks() {
    let mut sched = Scheduler::new();
    sched.tasks[0].ctx.regs[7] = 7;
    sched.tasks[3].ctx.pc = 33;
    assert!(init_scheduler(&mut sched));
    assert!(sched.tasks[0].active && sched.tasks[0].state == TaskState::Ready);
    assert_eq!(sched.tasks[0].ctx.regs, [0; 32]);
    assert_eq!(sched.tasks[0].ctx.mode, 0);
    assert!(sched.tasks[1].active && sched.tasks[1].state == TaskState::Ready);
    assert_eq!(sched.tasks[1].pid, 1);
    assert_eq!(sched.tasks[1].ppid, 0);
    assert_eq!(sched.tasks[1].ctx.pc, 0x8040_0000);
    assert_eq!(sched.tasks[1].ctx.sp, 0x8050_1000);
    assert_eq!(sched.tasks[1].ctx.mode, 1);
    assert!(!sched.tasks[2].active);
    assert!(!sched.tasks[3].active);
    assert_eq!(sched.tasks[3].ctx.pc, 33);
    assert_eq!(sched.current, 0);
}

#[test]
fn save_context_keeps_the_mode() {
    let mut ctx = TaskContext { regs: [0; 32], pc: 1, sp: 2, sstatus: 3, mode: 1 };
    let mut regs = [0u64; 32];
    for (i, r) in regs.iter_mut().enumerate() {
        *r = 100 + i as u64;
    }
    save_context(&mut ctx, &regs, 0x8000, 0x9000, 0x22);
    assert_eq!(ctx.regs, regs);
    assert_eq!(ctx.pc, 0x8000);
    assert_eq!(ctx.sp, 0x9000);
    assert_eq!(ctx.sstatus, 0x22);
    assert_eq!(ctx.mode, 1);
}

#[test]
fn next_task_goes_round_the_ready_tasks() {
    let mut sched = Scheduler::new();
    ready(&mut sched, 0);
    ready(&mut sched, 1);
    ready(&mut sched, 3);
    let mut order = Vec::new();
    for _ in 0..6 {
        let next = next_task(&sched);
        order.push(next);
        sched.current = next;
    }
    assert_eq!(order, vec![1, 3, 0, 1, 3, 0]);
}

#[test]
fn next_task_starts_just_after_the_current_one() {
    let mut sched = Scheduler::new();
    ready(&mut sched, 0);
    ready(&mut sched, 1);
    ready(&mut sched, 2);
    ready(&mut sched, 3);
    for current in 0..4 {
        sched.current = current;
        assert_eq!(next_task(&sched), (current + 1) % 4);
    }
}

#[test]
fn next_task_can_select_the_current_task_again() {
    let mut sched = Scheduler::new();
    ready(&mut sched, 2);
    sched.current = 2;
    assert_eq!(next_task(&sched), 2);
    sched.current = 3;
    assert_eq!(next_task(&sched), 2);
}

#[test]
fn next_task_skips_tasks_that_are_not_ready_or_not_active() {
    let mut sched = Scheduler::new();
    ready(&mut sched, 1);
    ready(&mut sched, 2);
    ready(&mut sched, 3);
    sched.tasks[1].state = TaskState::Waiting;
    sched.tasks[2].active = false;
    sched.current = 0;
    assert_eq!(next_task(&sched), 3);
    sched.tasks[3].state = TaskState::Running;
    assert_eq!(next_task(&sched), 0);
}

#[test]
fn next_task_falls_back_to_slot_zero() {
    let mut sched = Scheduler::new();
    for current in 0..4 {
        sched.current = current;
        assert_eq!(next_task(&sched), 0);
    }
}

#[test]
fn switch_installs_all_but_the_zero_and_scratch_registers() {
    let mut sched = Scheduler::new();
    for r in 0..32 {
        sched.tasks[2].ctx.regs[r] = 1000 + r as u64;
    }
    sched.tasks[2].ctx.pc = 0x4444;
    sched.tasks[2].ctx.sstatus = 0x120;
    sched.tasks[2].ctx.sp = 0xdead;
    let mut hart = Hart::new();
    for r in 0..32 {
        hart.regs[r] = r as u64;
    }
    hart.satp = 5;
    hart.scause = 6;
    hart.time = 7;
    switch_to_task(&mut sched, &mut hart, 2);
    assert_eq!(sched.current, 2);
    assert_eq!(SCRATCH_REG, 5);
    for r in 0..32 {
        if r == 0 || r == 5 {
            assert_eq!(hart.regs[r], r as u64);
        } else {
            assert_eq!(hart.regs[r], 1000 + r as u64);
        }
    }
    assert_eq!(hart.sepc, 0x4444);
    assert_eq!(hart.sstatus, 0x120);
    assert_eq!(hart.satp, 5);
    assert_eq!(hart.scause, 6);
    assert_eq!(hart.time, 7);
    assert_eq!(sched.tasks[2].ctx.pc, 0x4444);
}

#[test]
fn loader_constants_have_their_values() {
    assert_eq!(USER_PROG_BASE, 0x8040_0000);
    assert_eq!(USER_PROG2_BASE, 0x8040_1000);
    assert_eq!(USER_STACK_BASE, 0x8050_0000);
    assert_eq!(USER_STACK_SIZE, 0x1000);
    assert_eq!(USER_PROG, [0x0000_0013, 0x0000_006f]);
    assert_eq!(USER_PROG2, [0x0000_0013, 0x0000_006f]);
}

#[test]
fn run_user_program_points_the_hart_at_the_program() {
    let mut hart = Hart::new();
    for r in 0..32 {
        hart.regs[r] = 50 + r as u64;
    }
    hart.sstatus = 0x122;
    hart.satp = 9;
    run_user_program(&mut hart);
    assert_eq!(hart.sepc, 0x8040_0000);
    assert_eq!(hart.sstatus, 0);
    assert_eq!(hart.satp, 9);
    for r in 0..32 {
        let expected = match r {
            2 => 0x8050_1000,
            5 => 0,
            _ => 50 + r as u64,
        };
        assert_eq!(hart.regs[r], expected);
    }
}

#[test]
fn getchar_takes_a_character_or_asks_again() {
    assert_eq!(getchar(-1), None);
    assert_eq!(getchar(i32::MIN), None);
    assert_eq!(getchar(0), Some(0));
    assert_eq!(getchar(65), Some(b'A'));
    assert_eq!(getchar(255), Some(255));
    assert_eq!(getchar(256 + 10), Some(10));
}
