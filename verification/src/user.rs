//! User-mode processes and the calls they make on the kernel.
use vstd::prelude::*;
use crate::memory::PageAllocator;
use crate::vm::{VMManager, init_vm};

verus! {

/// Top of a user process's stack.
pub const USER_STACK_TOP: u64 = 0x7ff_ffff_f000;

/// Start of a user process's heap, and lowest address that a user pointer
/// may have.
pub const USER_HEAP_BASE: u64 = 0x1000_0000;

/// Highest address that a user pointer may have.
pub const USER_PTR_MAX: u64 = 0x7fff_ffff;

/// What a user call returns when it fails.
pub const USER_CALL_FAILED: u64 = 0xffff_ffff_ffff_ffff;

/// A user process.
pub struct UserProcess {
    pub pid: usize,
    pub page_table_id: usize,
    pub user_stack: u64,
    pub user_heap: u64,
    pub entry_point: u64,
    pub context: UserContext,
}

/// The registers of a user process.
pub struct UserContext {
    pub regs: [u64; 32],
    pub pc: u64,
    pub sp: u64,
}

impl UserContext {
    /// A context with every register zero.
    pub fn new() -> (c: Self)
        ensures
            c.regs@ == Seq::new(32, |i: int| 0u64),
            c.pc == 0,
            c.sp == 0,
    {
        let c = Self { regs: [0; 32], pc: 0, sp: 0 };
        assert(c.regs@ =~= Seq::new(32, |i: int| 0u64));
        c
    }
}

impl UserProcess {
    /// A process with the usual stack and heap and a zeroed context.
    pub fn new(pid: usize, page_table_id: usize, entry_point: u64) -> (p: Self)
        ensures
            p.pid == pid,
            p.page_table_id == page_table_id,
            p.user_stack == USER_STACK_TOP,
            p.user_heap == USER_HEAP_BASE,
            p.entry_point == entry_point,
            p.context.regs@ == Seq::new(32, |i: int| 0u64),
            p.context.pc == 0,
            p.context.sp == 0,
    {
        Self {
            pid,
            page_table_id,
            user_stack: 0x7ff_ffff_f000,
            user_heap: 0x1000_0000,
            entry_point,
            context: UserContext::new(),
        }
    }

    /// Points the context at the process's start: the program counter at the
    /// entry point, the stack pointer and the stack-pointer register at the
    /// stack, and the first argument register cleared.
    pub fn setup_user_context(&mut self)
        ensures
            final(self).context.pc == old(self).entry_point,
            final(self).context.sp == old(self).user_stack,
            final(self).context.regs@ == old(self).context.regs@.update(
                2,
                old(self).user_stack,
            ).update(10, 0),
            final(self).pid == old(self).pid,
            final(self).page_table_id == old(self).page_table_id,
            final(self).user_stack == old(self).user_stack,
            final(self).user_heap == old(self).user_heap,
            final(self).entry_point == old(self).entry_point,
    {
        self.context.pc = self.entry_point;
        self.context.sp = self.user_stack;
        self.context.regs[2] = self.user_stack;
        self.context.regs[10] = 0;
        assert(self.context.regs@ =~= old(self).context.regs@.update(
            2,
            old(self).user_stack,
        ).update(10, 0));
    }
}

/// Reads for a user process: nothing is read from the standard input, and
/// any other descriptor fails.
pub fn sys_read_user(fd: u64, _buf: u64, _count: u64) -> (r: u64)
    ensures
        r == (if fd == 0 {
            0
        } else {
            USER_CALL_FAILED
        }),
{
    if fd == 0 {
        0
    } else {
        0xffff_ffff_ffff_ffff
    }
}

/// Writes for a user process. The bytes would be fetched from the null user
/// pointer, which is not a user address, so the call fails for every
/// descriptor.
pub fn sys_write_user(fd: u64, _buf: u64, count: u64) -> (r: u64)
    ensures
        r == USER_CALL_FAILED,
{
    if fd == 1 || fd == 2 {
        match copy_from_user(0, count) {
            Ok(_data) => count,
            Err(_) => 0xffff_ffff_ffff_ffff,
        }
    } else {
        0xffff_ffff_ffff_ffff
    }
}

/// Moves the program break for a user process: the break is always the
/// start of the heap.
pub fn sys_brk_user(_addr: u64) -> (r: u64)
    ensures
        r == USER_HEAP_BASE,
{
    0x1000_0000
}

/// Fetches bytes from a user pointer. A pointer outside the user addresses
/// fails; one inside them yields no bytes.
pub fn copy_from_user(user_ptr: u64, _size: u64) -> (r: Result<Vec<u8>, ()>)
    ensures
        r is Ok <==> USER_HEAP_BASE <= user_ptr <= USER_PTR_MAX,
        r matches Ok(bytes) ==> bytes@.len() == 0,
{
    if user_ptr < 0x1000_0000 || user_ptr > 0x7fff_ffff {
        return Err(());
    }
    Ok(Vec::new())
}

/// Brings up user-mode support by making the virtual memory manager in
/// `slot`. Fails, changing nothing, when no frame is left.
pub fn init_user_mode(slot: &mut Option<VMManager>, pages: &mut PageAllocator) -> (ok: bool)
    requires
        old(pages).wf(),
    ensures
        final(pages).wf(),
        final(pages).total() == old(pages).total(),
        ok <==> !old(pages).is_full(),
        !ok ==> *final(pages) == *old(pages) && *final(slot) == *old(slot),
        ok ==> {
            &&& *final(slot) matches Some(vm)
            &&& vm.user_page_tables@.len() == 0
            &&& 0 <= vm.kernel_page_table.root_ppn < old(pages).capacity()
            &&& !old(pages).allocated().contains(vm.kernel_page_table.root_ppn as int)
            &&& forall|q: int|
                0 <= q < vm.kernel_page_table.root_ppn ==> old(pages).allocated().contains(q)
            &&& final(pages).allocated() == old(pages).allocated().insert(
                vm.kernel_page_table.root_ppn as int,
            )
            &&& final(pages).free() == old(pages).free() - 1
        },
{
    if !init_vm(slot, pages) {
        return false;
    }
    true
}

} // verus!
