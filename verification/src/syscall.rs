//! The system-call boundary: the numbers, the dispatch table, and the calls
//! that act on the task table. Calls that move bytes between a task and the
//! console or the file store are named here and carried out elsewhere.
use vstd::prelude::*;
use crate::hart::Hart;
use crate::scheduler::{
    Scheduler,
    Task,
    TaskContext,
    TaskState,
    MAX_TASKS,
    installs,
    lemma_not_runnable_not_selected,
    next_of,
    next_task,
    switch_to_task,
};

verus! {

pub const SYS_READ: u64 = 0;

pub const SYS_WRITE: u64 = 64;

pub const SYS_OPEN: u64 = 2;

pub const SYS_CLOSE: u64 = 3;

pub const SYS_EXIT: u64 = 93;

pub const SYS_FORK: u64 = 220;

pub const SYS_EXECVE: u64 = 221;

pub const SYS_WAIT: u64 = 260;

pub const SYS_GETPID: u64 = 172;

pub const SYS_BRK: u64 = 9;

pub const SYS_RAMFS_CREATE: u64 = 1000;

pub const SYS_RAMFS_READ: u64 = 1001;

pub const SYS_RAMFS_WRITE: u64 = 1002;

pub const SYS_RAMFS_LIST: u64 = 1003;

/// What a call returns when it fails or is not known.
pub const SYSCALL_FAILED: u64 = 0xffff_ffff_ffff_ffff;

/// A call that is carried out on the console or the file store.
#[derive(Clone, Copy, PartialEq, Eq, Structural, Debug)]
pub enum ExternalCall {
    Read,
    Write,
    RamfsCreate,
    RamfsRead,
    RamfsWrite,
    RamfsList,
}

/// How a system call ended.
#[derive(Clone, Copy, PartialEq, Eq, Structural, Debug)]
pub enum SyscallOutcome {
    /// The call is done; the value goes back to the caller.
    Return(u64),
    /// The caller has exited and another task has been installed; no value
    /// goes back.
    Switched,
    /// The call has to be carried out on the console or the file store; its
    /// result is the value that goes back to the caller.
    External(ExternalCall),
}

/// The external call that a call number stands for, if it stands for one.
pub open spec fn external_call_of(syscall_num: u64) -> Option<ExternalCall> {
    if syscall_num == SYS_READ {
        Some(ExternalCall::Read)
    } else if syscall_num == SYS_WRITE {
        Some(ExternalCall::Write)
    } else if syscall_num == SYS_RAMFS_CREATE {
        Some(ExternalCall::RamfsCreate)
    } else if syscall_num == SYS_RAMFS_READ {
        Some(ExternalCall::RamfsRead)
    } else if syscall_num == SYS_RAMFS_WRITE {
        Some(ExternalCall::RamfsWrite)
    } else if syscall_num == SYS_RAMFS_LIST {
        Some(ExternalCall::RamfsList)
    } else {
        None
    }
}

/// The table with the task in `slot` exited: inactive and in state Exited,
/// the rest of the slot and all other slots as before.
pub open spec fn with_exited(tasks: Seq<Task>, slot: int) -> Seq<Task> {
    tasks.update(slot, Task { active: false, state: TaskState::Exited, ..tasks[slot] })
}

/// Whether `slot` is the first inactive slot of the table.
pub open spec fn is_first_inactive(tasks: Seq<Task>, slot: int) -> bool {
    &&& 0 <= slot < tasks.len()
    &&& !tasks[slot].active
    &&& forall|i: int| 0 <= i < slot ==> tasks[i].active
}

/// The first inactive slot at or after `from`; the table's length if every
/// slot from there on is active.
pub open spec fn first_inactive_from(tasks: Seq<Task>, from: int) -> int
    decreases tasks.len() - from,
{
    if from < 0 || from >= tasks.len() {
        tasks.len() as int
    } else if !tasks[from].active {
        from
    } else {
        first_inactive_from(tasks, from + 1)
    }
}

/// The first inactive slot of the table; the table's length if every slot is
/// active.
pub open spec fn first_inactive(tasks: Seq<Task>) -> int {
    first_inactive_from(tasks, 0)
}

/// `first_inactive` is the first inactive slot, if there is one.
pub proof fn lemma_first_inactive(tasks: Seq<Task>)
    ensures
        0 <= first_inactive(tasks) <= tasks.len(),
        first_inactive(tasks) < tasks.len() ==> is_first_inactive(tasks, first_inactive(tasks)),
        first_inactive(tasks) == tasks.len() ==> forall|i: int|
            0 <= i < tasks.len() ==> tasks[i].active,
        forall|slot: int| is_first_inactive(tasks, slot) ==> slot == first_inactive(tasks),
{
    lemma_first_inactive_from(tasks, 0);
}

proof fn lemma_first_inactive_from(tasks: Seq<Task>, from: int)
    requires
        0 <= from <= tasks.len(),
    ensures
        from <= first_inactive_from(tasks, from) <= tasks.len(),
        first_inactive_from(tasks, from) < tasks.len() ==> !tasks[first_inactive_from(
            tasks,
            from,
        )].active,
        forall|i: int| from <= i < first_inactive_from(tasks, from) ==> tasks[i].active,
    decreases tasks.len() - from,
{
    if from < tasks.len() && tasks[from].active {
        lemma_first_inactive_from(tasks, from + 1);
    }
}

/// The table after the call with number `syscall_num` made by the task in
/// slot `current`.
pub open spec fn tasks_after_call(tasks: Seq<Task>, current: int, syscall_num: u64, arg1: u64) -> Seq<
    Task,
> {
    if syscall_num == SYS_EXIT {
        with_exited(tasks, current)
    } else if syscall_num == SYS_FORK && first_inactive(tasks) < tasks.len() {
        with_forked(tasks, current, first_inactive(tasks))
    } else if syscall_num == SYS_EXECVE {
        with_entry(tasks, current, arg1)
    } else {
        tasks
    }
}

/// The value that goes back to the task in slot `current` from the call with
/// number `syscall_num`, for the calls that are carried out on the task table
/// and for unknown numbers.
pub open spec fn value_of_call(tasks: Seq<Task>, current: int, syscall_num: u64, arg1: u64) -> u64 {
    if syscall_num == SYS_GETPID {
        current as u64
    } else if syscall_num == SYS_FORK {
        if first_inactive(tasks) < tasks.len() {
            first_inactive(tasks) as u64
        } else {
            SYSCALL_FAILED
        }
    } else if syscall_num == SYS_EXECVE {
        0
    } else if syscall_num == SYS_WAIT {
        if has_live_task(tasks, arg1) {
            0
        } else {
            1
        }
    } else {
        SYSCALL_FAILED
    }
}

/// How the call with number `syscall_num` ends.
pub open spec fn outcome_of_call(tasks: Seq<Task>, current: int, syscall_num: u64, arg1: u64) -> SyscallOutcome {
    if syscall_num == SYS_EXIT {
        SyscallOutcome::Switched
    } else if external_call_of(syscall_num) is Some {
        SyscallOutcome::External(external_call_of(syscall_num)->0)
    } else {
        SyscallOutcome::Return(value_of_call(tasks, current, syscall_num, arg1))
    }
}

/// The table with `parent` forked into `child`: the child has the parent's
/// saved context, its own slot number as id, the parent as parent, and is
/// active and ready.
pub open spec fn with_forked(tasks: Seq<Task>, parent: int, child: int) -> Seq<Task> {
    tasks.update(
        child,
        Task {
            ctx: tasks[parent].ctx,
            active: true,
            pid: child as usize,
            ppid: parent as usize,
            state: TaskState::Ready,
        },
    )
}

/// The table with the task in `slot` set to resume at `entry`, ready.
pub open spec fn with_entry(tasks: Seq<Task>, slot: int, entry: u64) -> Seq<Task> {
    tasks.update(
        slot,
        Task {
            ctx: TaskContext { pc: entry, ..tasks[slot].ctx },
            state: TaskState::Ready,
            ..tasks[slot]
        },
    )
}

/// Whether some slot holds a task with id `pid` that has not exited.
pub open spec fn has_live_task(tasks: Seq<Task>, pid: u64) -> bool {
    exists|i: int| 0 <= i < tasks.len() && tasks[i].pid == pid && tasks[i].state != TaskState::Exited
}

/// A task that has exited is inactive and in state Exited, and no selection
/// picks its slot, whoever is running, for as long as the slot stays as the
/// exit left it. The one exception is slot 0 while no task at all is
/// runnable, which is where the scheduler falls back to.
pub proof fn lemma_exited_task_not_selected(tasks: Seq<Task>, slot: int, current: int)
    requires
        tasks.len() == MAX_TASKS,
        0 <= slot < MAX_TASKS,
        0 <= current < MAX_TASKS,
        slot != 0 || exists|i: int|
            0 <= i < MAX_TASKS && (#[trigger] with_exited(tasks, slot)[i]).runnable(),
    ensures
        !with_exited(tasks, slot)[slot].active,
        with_exited(tasks, slot)[slot].state == TaskState::Exited,
        next_of(with_exited(tasks, slot), current) != slot,
{
    lemma_not_runnable_not_selected(with_exited(tasks, slot), current, slot);
}

/// Ends the current task: it becomes inactive and exited, and the task that
/// the scheduler selects next is installed in its place.
pub fn sys_exit(sched: &mut Scheduler, hart: &mut Hart, _status: u64, _arg2: u64, _arg3: u64)
    requires
        old(sched).wf(),
    ensures
        final(sched).wf(),
        old(sched).ids_match() ==> final(sched).ids_match(),
        final(sched).tasks@ == with_exited(old(sched).tasks@, old(sched).current as int),
        final(sched).current == next_of(final(sched).tasks@, old(sched).current as int),
        installs(*old(hart), final(sched).tasks[final(sched).current as int].ctx, *final(hart)),
{
    let cur: usize = sched.current;
    let mut task: Task = sched.tasks[cur];
    task.state = TaskState::Exited;
    task.active = false;
    sched.tasks[cur] = task;
    assert(sched.tasks@ =~= with_exited(old(sched).tasks@, cur as int));
    let next: usize = next_task(sched);
    switch_to_task(sched, hart, next);
}

/// The id of the current task.
pub fn sys_getpid(sched: &Scheduler, _arg1: u64, _arg2: u64, _arg3: u64) -> (pid: u64)
    ensures
        pid == sched.current,
{
    sched.current as u64
}

/// Forks the current task into the first inactive slot and returns the
/// child's id. Fails, changing nothing, when every slot is active.
pub fn sys_fork(sched: &mut Scheduler, _arg1: u64, _arg2: u64, _arg3: u64) -> (child: u64)
    requires
        old(sched).wf(),
    ensures
        final(sched).current == old(sched).current,
        old(sched).ids_match() ==> final(sched).ids_match(),
        child == value_of_call(old(sched).tasks@, old(sched).current as int, SYS_FORK, _arg1),
        final(sched).tasks@ == tasks_after_call(
            old(sched).tasks@,
            old(sched).current as int,
            SYS_FORK,
            _arg1,
        ),
        (forall|i: int| 0 <= i < MAX_TASKS ==> old(sched).tasks[i].active) ==> child
            == SYSCALL_FAILED && *final(sched) == *old(sched),
        (exists|i: int| 0 <= i < MAX_TASKS && !old(sched).tasks[i].active) ==> {
            &&& is_first_inactive(old(sched).tasks@, child as int)
            &&& final(sched).tasks@ == with_forked(
                old(sched).tasks@,
                old(sched).current as int,
                child as int,
            )
        },
{
    proof {
        lemma_first_inactive(sched.tasks@);
    }
    let parent: usize = sched.current;
    let mut i: usize = 0;
    while i < MAX_TASKS
        invariant
            i <= MAX_TASKS,
            parent < MAX_TASKS,
            *sched == *old(sched),
            parent == sched.current,
            forall|k: int| 0 <= k < i ==> sched.tasks[k].active,
        decreases MAX_TASKS - i,
    {
        if !sched.tasks[i].active {
            proof {
                lemma_first_inactive(sched.tasks@);
                assert(is_first_inactive(sched.tasks@, i as int));
            }
            let mut task: Task = sched.tasks[parent];
            task.pid = i;
            task.ppid = parent;
            task.state = TaskState::Ready;
            task.active = true;
            sched.tasks[i] = task;
            assert(sched.tasks@ =~= with_forked(old(sched).tasks@, parent as int, i as int));
            return i as u64;
        }
        i = i + 1;
    }
    proof {
        lemma_first_inactive(sched.tasks@);
    }
    0xffff_ffff_ffff_ffff
}

/// Makes the current task resume at `entry`, ready. Returns zero.
pub fn sys_execve(sched: &mut Scheduler, entry: u64, _argv: u64, _envp: u64) -> (r: u64)
    requires
        old(sched).wf(),
    ensures
        r == 0,
        final(sched).current == old(sched).current,
        old(sched).ids_match() ==> final(sched).ids_match(),
        final(sched).tasks@ == with_entry(old(sched).tasks@, old(sched).current as int, entry),
{
    let cur: usize = sched.current;
    let mut task: Task = sched.tasks[cur];
    task.ctx.pc = entry;
    task.state = TaskState::Ready;
    sched.tasks[cur] = task;
    assert(sched.tasks@ =~= with_entry(old(sched).tasks@, cur as int, entry));
    0
}

/// Zero while some task with id `pid` has not exited, one otherwise.
pub fn sys_wait(sched: &Scheduler, pid: u64, _arg2: u64, _arg3: u64) -> (r: u64)
    ensures
        r == (if has_live_task(sched.tasks@, pid) {
            0u64
        } else {
            1u64
        }),
{
    let mut i: usize = 0;
    while i < MAX_TASKS
        invariant
            i <= MAX_TASKS,
            forall|k: int|
                0 <= k < i ==> !(sched.tasks[k].pid == pid && sched.tasks[k].state
                    != TaskState::Exited),
        decreases MAX_TASKS - i,
    {
        let task: Task = sched.tasks[i];
        if task.pid as u64 == pid && task.state != TaskState::Exited {
            return 0;
        }
        i = i + 1;
    }
    1
}

/// Dispatches a system call by its number. Calls on the task table are
/// carried out here; calls on the console or the file store are named in
/// the outcome and change nothing; an unknown number fails.
pub fn handle_syscall(
    sched: &mut Scheduler,
    hart: &mut Hart,
    syscall_num: u64,
    arg1: u64,
    arg2: u64,
    arg3: u64,
) -> (outcome: SyscallOutcome)
    requires
        old(sched).wf(),
    ensures
        final(sched).wf(),
        old(sched).ids_match() ==> final(sched).ids_match(),
        outcome == outcome_of_call(
            old(sched).tasks@,
            old(sched).current as int,
            syscall_num,
            arg1,
        ),
        final(sched).tasks@ == tasks_after_call(
            old(sched).tasks@,
            old(sched).current as int,
            syscall_num,
            arg1,
        ),
        syscall_num != SYS_EXIT ==> *final(hart) == *old(hart) && final(sched).current == old(
            sched,
        ).current,
        syscall_num == SYS_EXIT ==> {
            &&& outcome == SyscallOutcome::Switched
            &&& final(sched).tasks@ == with_exited(old(sched).tasks@, old(sched).current as int)
            &&& final(sched).current == next_of(final(sched).tasks@, old(sched).current as int)
            &&& installs(
                *old(hart),
                final(sched).tasks[final(sched).current as int].ctx,
                *final(hart),
            )
        },
        syscall_num == SYS_GETPID ==> outcome == SyscallOutcome::Return(old(sched).current as u64)
            && *final(sched) == *old(sched),
        syscall_num == SYS_FORK ==> {
            &&& (forall|i: int| 0 <= i < MAX_TASKS ==> old(sched).tasks[i].active) ==> outcome
                == SyscallOutcome::Return(SYSCALL_FAILED) && *final(sched) == *old(sched)
            &&& (exists|i: int| 0 <= i < MAX_TASKS && !old(sched).tasks[i].active) ==> {
                &&& outcome matches SyscallOutcome::Return(child)
                &&& is_first_inactive(old(sched).tasks@, child as int)
                &&& final(sched).tasks@ == with_forked(
                    old(sched).tasks@,
                    old(sched).current as int,
                    child as int,
                )
            }
        },
        syscall_num == SYS_EXECVE ==> outcome == SyscallOutcome::Return(0) && final(sched).tasks@
            == with_entry(old(sched).tasks@, old(sched).current as int, arg1),
        syscall_num == SYS_WAIT ==> outcome == SyscallOutcome::Return(
            if has_live_task(old(sched).tasks@, arg1) {
                0u64
            } else {
                1u64
            },
        ) && *final(sched) == *old(sched),
        external_call_of(syscall_num) matches Some(call) ==> outcome == SyscallOutcome::External(
            call,
        ) && *final(sched) == *old(sched),
        syscall_num != SYS_EXIT && syscall_num != SYS_GETPID && syscall_num != SYS_FORK
            && syscall_num != SYS_EXECVE && syscall_num != SYS_WAIT && external_call_of(
            syscall_num,
        ) is None ==> outcome == SyscallOutcome::Return(SYSCALL_FAILED) && *final(sched) == *old(
            sched,
        ),
{
    if syscall_num == SYS_READ {
        SyscallOutcome::External(ExternalCall::Read)
    } else if syscall_num == SYS_WRITE {
        SyscallOutcome::External(ExternalCall::Write)
    } else if syscall_num == SYS_EXIT {
        sys_exit(sched, hart, arg1, arg2, arg3);
        SyscallOutcome::Switched
    } else if syscall_num == SYS_GETPID {
        SyscallOutcome::Return(sys_getpid(sched, arg1, arg2, arg3))
    } else if syscall_num == SYS_FORK {
        SyscallOutcome::Return(sys_fork(sched, arg1, arg2, arg3))
    } else if syscall_num == SYS_EXECVE {
        SyscallOutcome::Return(sys_execve(sched, arg1, arg2, arg3))
    } else if syscall_num == SYS_WAIT {
        SyscallOutcome::Return(sys_wait(sched, arg1, arg2, arg3))
    } else if syscall_num == SYS_RAMFS_CREATE {
        SyscallOutcome::External(ExternalCall::RamfsCreate)
    } else if syscall_num == SYS_RAMFS_READ {
        SyscallOutcome::External(ExternalCall::RamfsRead)
    } else if syscall_num == SYS_RAMFS_WRITE {
        SyscallOutcome::External(ExternalCall::RamfsWrite)
    } else if syscall_num == SYS_RAMFS_LIST {
        SyscallOutcome::External(ExternalCall::RamfsList)
    } else {
        SyscallOutcome::Return(0xffff_ffff_ffff_ffff)
    }
}

} // verus!
