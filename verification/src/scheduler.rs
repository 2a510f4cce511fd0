//! The task table, the task state machine and the choice of the task that
//! runs next.
use vstd::prelude::*;
use crate::hart::Hart;
use crate::user_loader::{USER_PROG_BASE, USER_STACK_BASE, USER_STACK_SIZE};

verus! {

/// Where a task stands. The running task is the one at the scheduler's
/// current index and keeps whatever state it had when it was selected.
#[derive(Copy, Clone, PartialEq, Eq, Structural)]
pub enum TaskState {
    Ready,
    Running,
    Exited,
    Waiting,
}

/// The resumable state of one task at a trap boundary.
#[derive(Clone, Copy)]
pub struct TaskContext {
    pub regs: [u64; 32],
    pub pc: u64,
    pub sp: u64,
    pub sstatus: u64,
    pub mode: u8,
}

/// One slot of the task table.
#[derive(Clone, Copy)]
pub struct Task {
    pub ctx: TaskContext,
    pub active: bool,
    pub pid: usize,
    pub ppid: usize,
    pub state: TaskState,
}

/// Number of slots in the task table.
pub const MAX_TASKS: usize = 4;

/// Number of the general register that addresses the saved context while a
/// task is being installed, and so cannot itself be loaded from it.
pub const SCRATCH_REG: usize = 5;

impl Task {
    /// Whether the scheduler may select the task in the slot.
    pub open spec fn runnable(&self) -> bool {
        self.active && self.state == TaskState::Ready
    }
}

/// The task table and the index of the task that is running.
pub struct Scheduler {
    pub tasks: [Task; 4],
    pub current: usize,
}

/// The slot that lies `steps` slots after `current`, going round the table.
pub open spec fn slot_after(current: int, steps: int) -> int {
    (current + steps) % (MAX_TASKS as int)
}

/// The first runnable slot met when going round the table from `steps` slots
/// after `current` up to `current` itself; slot 0 if there is none.
pub open spec fn scan_from(tasks: Seq<Task>, current: int, steps: int) -> int
    decreases MAX_TASKS + 1 - steps,
{
    if steps < 1 || steps > MAX_TASKS {
        0
    } else if tasks[slot_after(current, steps)].runnable() {
        slot_after(current, steps)
    } else {
        scan_from(tasks, current, steps + 1)
    }
}

/// The task that runs after `current`: the first runnable slot in circular
/// order from just after `current`, with `current` itself last; slot 0 if no
/// slot is runnable.
pub open spec fn next_of(tasks: Seq<Task>, current: int) -> int {
    scan_from(tasks, current, 1)
}

/// The number of runnable tasks among the first `n` slots.
pub open spec fn runnable_count(tasks: Seq<Task>, n: int) -> int
    decreases n,
{
    if n <= 0 {
        0
    } else {
        runnable_count(tasks, n - 1) + if tasks[n - 1].runnable() {
            1int
        } else {
            0int
        }
    }
}

/// The task that runs after `rounds` selections in a row, starting with
/// `current` running and with the table left as it is.
pub open spec fn selected_after(tasks: Seq<Task>, current: int, rounds: nat) -> int
    decreases rounds,
{
    if rounds == 0 {
        current
    } else {
        next_of(tasks, selected_after(tasks, current, (rounds - 1) as nat))
    }
}

/// What `next_of` selects: a slot of the table; if any slot is runnable, a
/// runnable one with no runnable slot passed over on the way to it; and
/// slot 0 if none is.
pub proof fn lemma_next_of(tasks: Seq<Task>, current: int)
    requires
        tasks.len() == MAX_TASKS,
        0 <= current < MAX_TASKS,
    ensures
        0 <= next_of(tasks, current) < MAX_TASKS,
        (forall|i: int| 0 <= i < MAX_TASKS ==> !tasks[i].runnable()) ==> next_of(tasks, current)
            == 0,
        (exists|i: int| 0 <= i < MAX_TASKS && tasks[i].runnable()) ==> exists|d: int|
            {
                &&& 1 <= d <= MAX_TASKS
                &&& next_of(tasks, current) == slot_after(current, d)
                &&& tasks[slot_after(current, d)].runnable()
                &&& forall|k: int| 1 <= k < d ==> !tasks[#[trigger] slot_after(current, k)].runnable()
            },
{
    reveal_with_fuel(scan_from, 6);
    let s1 = slot_after(current, 1);
    let s2 = slot_after(current, 2);
    let s3 = slot_after(current, 3);
    let s4 = slot_after(current, 4);
    assert(s4 == current);
    if tasks[s1].runnable() {
        assert(next_of(tasks, current) == slot_after(current, 1));
    } else if tasks[s2].runnable() {
        assert(next_of(tasks, current) == slot_after(current, 2));
    } else if tasks[s3].runnable() {
        assert(next_of(tasks, current) == slot_after(current, 3));
    } else if tasks[s4].runnable() {
        assert(next_of(tasks, current) == slot_after(current, 4));
    } else {
        assert forall|i: int| 0 <= i < MAX_TASKS implies !tasks[i].runnable() by {
            assert(i == s1 || i == s2 || i == s3 || i == s4);
        }
    }
}

/// A slot that is not runnable is never selected, unless it is slot 0 and no
/// slot at all is runnable.
pub proof fn lemma_not_runnable_not_selected(tasks: Seq<Task>, current: int, slot: int)
    requires
        tasks.len() == MAX_TASKS,
        0 <= current < MAX_TASKS,
        0 <= slot < MAX_TASKS,
        !tasks[slot].runnable(),
        slot != 0 || exists|i: int| 0 <= i < MAX_TASKS && tasks[i].runnable(),
    ensures
        next_of(tasks, current) != slot,
{
    lemma_next_of(tasks, current);
}

/// The first of four candidates whose flag holds; 0 if none does.
spec fn first_of(a: bool, sa: int, b: bool, sb: int, c: bool, sc: int, d: bool, sd: int) -> int {
    if a {
        sa
    } else if b {
        sb
    } else if c {
        sc
    } else if d {
        sd
    } else {
        0
    }
}

/// `next_of` written out over the four slots' runnable flags.
spec fn next_by_flags(r0: bool, r1: bool, r2: bool, r3: bool, current: int) -> int {
    if current == 0 {
        first_of(r1, 1, r2, 2, r3, 3, r0, 0)
    } else if current == 1 {
        first_of(r2, 2, r3, 3, r0, 0, r1, 1)
    } else if current == 2 {
        first_of(r3, 3, r0, 0, r1, 1, r2, 2)
    } else {
        first_of(r0, 0, r1, 1, r2, 2, r3, 3)
    }
}

/// The runnable flag of `slot` among the four.
spec fn flag_at(r0: bool, r1: bool, r2: bool, r3: bool, slot: int) -> bool {
    if slot == 0 {
        r0
    } else if slot == 1 {
        r1
    } else if slot == 2 {
        r2
    } else {
        r3
    }
}

proof fn lemma_next_by_flags(tasks: Seq<Task>, current: int)
    requires
        tasks.len() == MAX_TASKS,
        0 <= current < MAX_TASKS,
    ensures
        next_of(tasks, current) == next_by_flags(
            tasks[0].runnable(),
            tasks[1].runnable(),
            tasks[2].runnable(),
            tasks[3].runnable(),
            current,
        ),
{
    reveal_with_fuel(scan_from, 6);
    assert(slot_after(current, 1) == if current == 3 { 0 } else { current + 1 });
    assert(slot_after(current, 2) == if current >= 2 { current - 2 } else { current + 2 });
    assert(slot_after(current, 3) == if current >= 1 { current - 1 } else { current + 3 });
    assert(slot_after(current, 4) == current);
}

proof fn lemma_rotation(r0: bool, r1: bool, r2: bool, r3: bool, current: int)
    requires
        0 <= current < MAX_TASKS,
    ensures
        ({
            let n = (if r0 { 1int } else { 0int }) + (if r1 { 1int } else { 0int }) + (if r2 {
                1int
            } else {
                0int
            }) + (if r3 { 1int } else { 0int });
            let c1 = next_by_flags(r0, r1, r2, r3, current);
            let c2 = next_by_flags(r0, r1, r2, r3, c1);
            let c3 = next_by_flags(r0, r1, r2, r3, c2);
            let c4 = next_by_flags(r0, r1, r2, r3, c3);
            &&& 0 <= c1 < 4 && 0 <= c2 < 4 && 0 <= c3 < 4 && 0 <= c4 < 4
            &&& n >= 1 ==> flag_at(r0, r1, r2, r3, c1)
            &&& n >= 2 ==> flag_at(r0, r1, r2, r3, c2) && c2 != c1
            &&& n >= 3 ==> flag_at(r0, r1, r2, r3, c3) && c3 != c1 && c3 != c2
            &&& n >= 4 ==> flag_at(r0, r1, r2, r3, c4) && c4 != c1 && c4 != c2 && c4 != c3
            &&& forall|slot: int|
                0 <= slot < 4 && flag_at(r0, r1, r2, r3, slot) ==> (slot == c1 || (n >= 2 && slot
                    == c2) || (n >= 3 && slot == c3) || (n >= 4 && slot == c4))
        }),
{
}

/// Fairness: with the table left as it is and `n` of its tasks runnable, the
/// first `n` selections in a row are `n` different runnable tasks, each the
/// first runnable one in circular order after the one before it.
pub proof fn lemma_round_robin(tasks: Seq<Task>, current: int, i: nat, j: nat)
    requires
        tasks.len() == MAX_TASKS,
        0 <= current < MAX_TASKS,
        1 <= i < j <= runnable_count(tasks, MAX_TASKS as int),
    ensures
        0 <= selected_after(tasks, current, i) < MAX_TASKS,
        0 <= selected_after(tasks, current, j) < MAX_TASKS,
        tasks[selected_after(tasks, current, i)].runnable(),
        tasks[selected_after(tasks, current, j)].runnable(),
        selected_after(tasks, current, i) != selected_after(tasks, current, j),
        selected_after(tasks, current, i) == next_of(
            tasks,
            selected_after(tasks, current, (i - 1) as nat),
        ),
{
    let r0 = tasks[0].runnable();
    let r1 = tasks[1].runnable();
    let r2 = tasks[2].runnable();
    let r3 = tasks[3].runnable();
    let c1 = next_by_flags(r0, r1, r2, r3, current);
    let c2 = next_by_flags(r0, r1, r2, r3, c1);
    let c3 = next_by_flags(r0, r1, r2, r3, c2);
    let c4 = next_by_flags(r0, r1, r2, r3, c3);
    lemma_rotation(r0, r1, r2, r3, current);
    lemma_next_by_flags(tasks, current);
    lemma_next_by_flags(tasks, c1);
    lemma_next_by_flags(tasks, c2);
    lemma_next_by_flags(tasks, c3);
    assert(runnable_count(tasks, 4) == (if r0 { 1int } else { 0int }) + (if r1 { 1int } else {
        0int
    }) + (if r2 { 1int } else { 0int }) + (if r3 { 1int } else { 0int })) by {
        reveal_with_fuel(runnable_count, 5);
    }
    assert(selected_after(tasks, current, 0) == current);
    assert(selected_after(tasks, current, 1) == c1) by {
        reveal_with_fuel(selected_after, 2);
    }
    assert(selected_after(tasks, current, 2) == c2) by {
        reveal_with_fuel(selected_after, 3);
    }
    assert(selected_after(tasks, current, 3) == c3) by {
        reveal_with_fuel(selected_after, 4);
    }
    assert(selected_after(tasks, current, 4) == c4) by {
        reveal_with_fuel(selected_after, 5);
    }
    assert(forall|c: int| 0 <= c < 4 ==> tasks[c].runnable() == flag_at(r0, r1, r2, r3, c));
}

/// Whether `after` is `before` with the context `ctx` installed: every general
/// register but x0 and the scratch register taken from the context, the
/// resuming program counter and the status word taken from it, and
/// everything else as before.
pub open spec fn installs(before: Hart, ctx: TaskContext, after: Hart) -> bool {
    &&& forall|r: int|
        0 <= r < 32 ==> (#[trigger] after.regs[r]) == (if r == 0 || r == SCRATCH_REG {
            before.regs[r]
        } else {
            ctx.regs[r]
        })
    &&& after == (Hart { regs: after.regs, sepc: ctx.pc, sstatus: ctx.sstatus, ..before })
}

/// Fairness, seen from one task: with the table left as it is and `n` of
/// its tasks runnable, every runnable task is among the first `n` selections
/// in a row.
pub proof fn lemma_every_runnable_task_is_visited(tasks: Seq<Task>, current: int, slot: int)
    requires
        tasks.len() == MAX_TASKS,
        0 <= current < MAX_TASKS,
        0 <= slot < MAX_TASKS,
        tasks[slot].runnable(),
    ensures
        exists|k: nat|
            1 <= k <= runnable_count(tasks, MAX_TASKS as int) && #[trigger] selected_after(
                tasks,
                current,
                k,
            ) == slot,
{
    let r0 = tasks[0].runnable();
    let r1 = tasks[1].runnable();
    let r2 = tasks[2].runnable();
    let r3 = tasks[3].runnable();
    let c1 = next_by_flags(r0, r1, r2, r3, current);
    let c2 = next_by_flags(r0, r1, r2, r3, c1);
    let c3 = next_by_flags(r0, r1, r2, r3, c2);
    let c4 = next_by_flags(r0, r1, r2, r3, c3);
    lemma_rotation(r0, r1, r2, r3, current);
    lemma_next_by_flags(tasks, current);
    lemma_next_by_flags(tasks, c1);
    lemma_next_by_flags(tasks, c2);
    lemma_next_by_flags(tasks, c3);
    let n = runnable_count(tasks, 4);
    assert(n == (if r0 { 1int } else { 0int }) + (if r1 { 1int } else { 0int }) + (if r2 {
        1int
    } else {
        0int
    }) + (if r3 { 1int } else { 0int })) by {
        reveal_with_fuel(runnable_count, 5);
    }
    assert(selected_after(tasks, current, 1) == c1) by {
        reveal_with_fuel(selected_after, 2);
    }
    assert(selected_after(tasks, current, 2) == c2) by {
        reveal_with_fuel(selected_after, 3);
    }
    assert(selected_after(tasks, current, 3) == c3) by {
        reveal_with_fuel(selected_after, 4);
    }
    assert(selected_after(tasks, current, 4) == c4) by {
        reveal_with_fuel(selected_after, 5);
    }
    assert(flag_at(r0, r1, r2, r3, slot));
}

impl Scheduler {
    /// The scheduler's invariant: the current index names a slot.
    pub open spec fn wf(&self) -> bool {
        self.current < MAX_TASKS
    }

    /// Whether every slot holds the task whose id is the slot's index.
    pub open spec fn ids_match(&self) -> bool {
        forall|i: int| 0 <= i < MAX_TASKS ==> (#[trigger] self.tasks[i]).pid == i
    }

    /// The table as it is before any task exists: every slot inactive and
    /// exited, numbered by its index, with slot 0 current.
    pub fn new() -> (s: Self)
        ensures
            s.wf(),
            s.ids_match(),
            s.current == 0,
            forall|i: int|
                0 <= i < MAX_TASKS ==> #[trigger] s.tasks[i] == (Task {
                    ctx: TaskContext {
                        regs: s.tasks[i].ctx.regs,
                        pc: 0,
                        sp: 0,
                        sstatus: 0,
                        mode: 0,
                    },
                    active: false,
                    pid: i as usize,
                    ppid: 0,
                    state: TaskState::Exited,
                }),
            forall|i: int, r: int|
                0 <= i < MAX_TASKS && 0 <= r < 32 ==> (#[trigger] s.tasks[i].ctx.regs[r]) == 0,
    {
        let ctx = TaskContext { regs: [0; 32], pc: 0, sp: 0, sstatus: 0, mode: 0 };
        Scheduler {
            tasks: [
                Task { ctx, active: false, pid: 0, ppid: 0, state: TaskState::Exited },
                Task { ctx, active: false, pid: 1, ppid: 0, state: TaskState::Exited },
                Task { ctx, active: false, pid: 2, ppid: 0, state: TaskState::Exited },
                Task { ctx, active: false, pid: 3, ppid: 0, state: TaskState::Exited },
            ],
            current: 0,
        }
    }
}

/// Sets up the two boot tasks: the kernel task in slot 0 and the first user
/// task in slot 1, both ready, with zeroed registers. The other slots and the
/// current index stay as they are.
pub fn init_scheduler(sched: &mut Scheduler) -> (ok: bool)
    ensures
        ok,
        old(sched).ids_match() ==> final(sched).ids_match(),
        final(sched).current == old(sched).current,
        final(sched).tasks[2] == old(sched).tasks[2],
        final(sched).tasks[3] == old(sched).tasks[3],
        final(sched).tasks[0] == (Task {
            ctx: TaskContext {
                regs: final(sched).tasks[0].ctx.regs,
                pc: 0,
                sp: 0,
                sstatus: 0,
                mode: 0,
            },
            active: true,
            pid: 0,
            ppid: 0,
            state: TaskState::Ready,
        }),
        final(sched).tasks[1] == (Task {
            ctx: TaskContext {
                regs: final(sched).tasks[1].ctx.regs,
                pc: USER_PROG_BASE,
                sp: (USER_STACK_BASE + USER_STACK_SIZE) as u64,
                sstatus: 0,
                mode: 1,
            },
            active: true,
            pid: 1,
            ppid: 0,
            state: TaskState::Ready,
        }),
        forall|r: int| 0 <= r < 32 ==> (#[trigger] final(sched).tasks[0].ctx.regs[r]) == 0,
        forall|r: int| 0 <= r < 32 ==> (#[trigger] final(sched).tasks[1].ctx.regs[r]) == 0,
{
    sched.tasks[0] = Task {
        ctx: TaskContext { regs: [0; 32], pc: 0, sp: 0, sstatus: 0, mode: 0 },
        active: true,
        pid: 0,
        ppid: 0,
        state: TaskState::Ready,
    };
    sched.tasks[1] = Task {
        ctx: TaskContext {
            regs: [0; 32],
            pc: USER_PROG_BASE,
            sp: USER_STACK_BASE + USER_STACK_SIZE,
            sstatus: 0,
            mode: 1,
        },
        active: true,
        pid: 1,
        ppid: 0,
        state: TaskState::Ready,
    };
    true
}

/// Stores a captured register file, resuming program counter, stack pointer
/// and status word into `dst`. The privilege tag stays.
pub fn save_context(dst: &mut TaskContext, regs: &[u64; 32], pc: u64, sp: u64, sstatus: u64)
    ensures
        *final(dst) == (TaskContext { regs: *regs, pc, sp, sstatus, mode: old(dst).mode }),
{
    dst.regs = *regs;
    dst.pc = pc;
    dst.sp = sp;
    dst.sstatus = sstatus;
}

/// Chooses the task that runs next: the first active and ready slot in
/// circular order from just after the current one, the current one last;
/// slot 0 if no slot qualifies.
pub fn next_task(sched: &Scheduler) -> (next: usize)
    requires
        sched.wf(),
    ensures
        next == next_of(sched.tasks@, sched.current as int),
        next < MAX_TASKS,
{
    proof {
        reveal_with_fuel(scan_from, 6);
        lemma_next_of(sched.tasks@, sched.current as int);
    }
    let mut next: usize = (sched.current + 1) % MAX_TASKS;
    let mut steps: usize = 1;
    while steps <= MAX_TASKS
        invariant
            1 <= steps <= MAX_TASKS + 1,
            sched.wf(),
            next == slot_after(sched.current as int, steps as int),
            scan_from(sched.tasks@, sched.current as int, steps as int) == next_of(
                sched.tasks@,
                sched.current as int,
            ),
        decreases MAX_TASKS + 1 - steps,
    {
        let task = sched.tasks[next];
        if task.active && task.state == TaskState::Ready {
            return next;
        }
        next = (next + 1) % MAX_TASKS;
        steps = steps + 1;
    }
    0
}

/// Makes task `next_id` the running one and installs its saved context into
/// the hart: every general register but x0, which is hard-wired, and the
/// scratch register that addresses the context; the resuming program counter;
/// and the status word. The privilege return itself is left to the caller.
pub fn switch_to_task(sched: &mut Scheduler, hart: &mut Hart, next_id: usize)
    requires
        next_id < MAX_TASKS,
    ensures
        final(sched).current == next_id,
        final(sched).tasks == old(sched).tasks,
        installs(*old(hart), old(sched).tasks[next_id as int].ctx, *final(hart)),
{
    sched.current = next_id;
    let ctx = sched.tasks[next_id].ctx;
    let mut r: usize = 1;
    while r < 32
        invariant
            1 <= r <= 32,
            forall|k: int|
                0 <= k < 32 ==> (#[trigger] hart.regs[k]) == (if k == 0 || k == SCRATCH_REG || k
                    >= r {
                    old(hart).regs[k]
                } else {
                    ctx.regs[k]
                }),
            *hart == (Hart { regs: hart.regs, ..*old(hart) }),
        decreases 32 - r,
    {
        if r != SCRATCH_REG {
            hart.regs[r] = ctx.regs[r];
        }
        r = r + 1;
    }
    hart.sepc = ctx.pc;
    hart.sstatus = ctx.sstatus;
}

} // verus!
