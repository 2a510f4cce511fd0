//! The kernel's state as one owned value, and its bring-up.
use vstd::prelude::*;
use vstd::string::StringSliceAdditionalSpecFns;
use crate::hart::Hart;
use crate::interrupts::{InterruptManager, init_interrupts, SIE_STIE, SSTATUS_SIE};
use crate::memory::{BumpAllocator, PageAllocator, init_memory, PAGE_SIZE};
use crate::ramfs::{RamFs, init_ramfs, file_type_of};
use crate::scheduler::{Scheduler, Task, TaskContext, TaskState, MAX_TASKS, init_scheduler};
use crate::user::init_user_mode;
use crate::user_loader::{USER_PROG_BASE, USER_STACK_BASE, USER_STACK_SIZE};
use crate::vm::VMManager;

verus! {

/// Everything the kernel core owns. There is one of these, and only trap
/// handling and boot touch it.
pub struct Kernel {
    pub pages: PageAllocator,
    pub heap: BumpAllocator,
    pub interrupts: InterruptManager,
    pub scheduler: Scheduler,
    pub vm: Option<VMManager>,
    pub ramfs: Option<RamFs>,
}

/// The subsystem whose bring-up failed.
#[derive(Clone, Copy, PartialEq, Eq, Structural, Debug)]
pub enum BootError {
    Memory,
    Interrupts,
    Scheduler,
    UserMode,
    Ramfs,
}

impl BootError {
    /// What to say of the failure before halting.
    pub fn message(&self) -> (text: &'static str)
        ensures
            text@ == (match *self {
                BootError::Memory => "Memory management initialization failed"@,
                BootError::Interrupts => "Interrupt system initialization failed"@,
                BootError::Scheduler => "Scheduler initialization failed"@,
                BootError::UserMode => "User mode initialization failed"@,
                BootError::Ramfs => "RAMFS initialization failed"@,
            }),
    {
        match self {
            BootError::Memory => "Memory management initialization failed",
            BootError::Interrupts => "Interrupt system initialization failed",
            BootError::Scheduler => "Scheduler initialization failed",
            BootError::UserMode => "User mode initialization failed",
            BootError::Ramfs => "RAMFS initialization failed",
        }
    }
}

impl Kernel {
    /// The state before bring-up: empty allocators, no timer, an empty task
    /// table, no address spaces and no file store.
    pub fn new() -> (k: Self)
        ensures
            k.pages.wf(),
            k.pages.total() == 0,
            k.pages.free() == 0,
            k.pages.allocated() == Set::<int>::empty(),
            k.heap.wf(),
            k.heap.start() == 0,
            k.heap.end() == 0,
            k.heap.cursor() == 0,
            !k.interrupts.enabled(),
            k.interrupts.interval() == 0,
            k.scheduler.wf(),
            k.scheduler.ids_match(),
            k.scheduler.current == 0,
            forall|i: int|
                0 <= i < MAX_TASKS ==> #[trigger] k.scheduler.tasks[i] == (Task {
                    ctx: TaskContext {
                        regs: k.scheduler.tasks[i].ctx.regs,
                        pc: 0,
                        sp: 0,
                        sstatus: 0,
                        mode: 0,
                    },
                    active: false,
                    pid: i as usize,
                    ppid: 0,
                    state: TaskState::Exited,
                }),
            forall|i: int, r: int|
                0 <= i < MAX_TASKS && 0 <= r < 32 ==> (#[trigger] k.scheduler.tasks[i].ctx.regs[r])
                    == 0,
            k.vm is None,
            k.ramfs is None,
    {
        Kernel {
            pages: PageAllocator::new(),
            heap: BumpAllocator::new(),
            interrupts: InterruptManager::new(),
            scheduler: Scheduler::new(),
            vm: None,
            ramfs: None,
        }
    }
}

/// Installs the trap vector: the handler's address with its lowest bit
/// cleared, which selects direct mode.
pub fn init_trap_handler(hart: &mut Hart, handler_addr: u64)
    ensures
        *final(hart) == (Hart { stvec: handler_addr & !1u64, ..*old(hart) }),
        final(hart).stvec % 2 == 0,
        handler_addr % 2 == 0 ==> final(hart).stvec == handler_addr,
{
    let trap_addr: u64 = handler_addr & !1u64;
    assert(trap_addr % 2 == 0 && (handler_addr % 2 == 0 ==> trap_addr == handler_addr))
        by (bit_vector)
        requires
            trap_addr == handler_addr & !1u64,
    ;
    hart.stvec = trap_addr;
}

/// Brings up the subsystems in order: memory over the region from
/// `heap_start` up to `heap_end`, interrupts, the scheduler, user-mode
/// support and the file store. The first failure ends the bring-up and is
/// reported; the caller is to halt on it. Only memory can fail, when the
/// region holds less than one frame, and then nothing has changed.
pub fn init_kernel_systems(
    kernel: &mut Kernel,
    hart: &mut Hart,
    heap_start: usize,
    heap_end: usize,
) -> (r: Result<(), BootError>)
    requires
        heap_start <= heap_end,
    ensures
        r is Ok <==> heap_end - heap_start >= PAGE_SIZE,
        r matches Err(e) ==> {
            &&& e == BootError::Memory
            &&& *final(kernel) == *old(kernel)
            &&& *final(hart) == *old(hart)
        },
        r is Ok ==> {
            let k = *final(kernel);
            &&& k.pages.wf()
            &&& k.pages.total() == (heap_end - heap_start) / PAGE_SIZE as int
            &&& k.pages.allocated() == Set::<int>::empty().insert(0)
            &&& k.pages.free() == k.pages.total() - 1
            &&& k.heap.wf()
            &&& k.heap.start() == heap_start
            &&& k.heap.end() == heap_end
            &&& k.heap.cursor() == heap_start
            &&& k.interrupts == old(kernel).interrupts
            &&& *final(hart) == (Hart {
                sstatus: old(hart).sstatus | SSTATUS_SIE,
                sie: old(hart).sie | SIE_STIE,
                ..*old(hart)
            })
            &&& k.scheduler.current == old(kernel).scheduler.current
            &&& old(kernel).scheduler.ids_match() ==> k.scheduler.ids_match()
            &&& k.scheduler.tasks[0].runnable()
            &&& k.scheduler.tasks[0].pid == 0
            &&& k.scheduler.tasks[0].ctx.pc == 0
            &&& k.scheduler.tasks[0].ctx.mode == 0
            &&& k.scheduler.tasks[1].runnable()
            &&& k.scheduler.tasks[1].pid == 1
            &&& k.scheduler.tasks[1].ppid == 0
            &&& k.scheduler.tasks[1].ctx.pc == USER_PROG_BASE
            &&& k.scheduler.tasks[1].ctx.sp == USER_STACK_BASE + USER_STACK_SIZE
            &&& k.scheduler.tasks[1].ctx.mode == 1
            &&& k.scheduler.tasks[2] == old(kernel).scheduler.tasks[2]
            &&& k.scheduler.tasks[3] == old(kernel).scheduler.tasks[3]
            &&& k.vm matches Some(vm)
            &&& vm.kernel_page_table.root_ppn == 0
            &&& vm.user_page_tables@.len() == 0
            &&& k.ramfs matches Some(fs)
            &&& fs.files@.len() == 0
            &&& fs.clock == 0
        },
{
    if !init_memory(&mut kernel.pages, &mut kernel.heap, heap_start, heap_end) {
        return Err(BootError::Memory);
    }
    assert(!kernel.pages.allocated().contains(0));
    if !init_interrupts(&mut kernel.interrupts, hart) {
        return Err(BootError::Interrupts);
    }
    if !init_scheduler(&mut kernel.scheduler) {
        return Err(BootError::Scheduler);
    }
    if !init_user_mode(&mut kernel.vm, &mut kernel.pages) {
        return Err(BootError::UserMode);
    }
    if !init_ramfs(&mut kernel.ramfs) {
        return Err(BootError::Ramfs);
    }
    Ok(())
}

/// Puts the four sample files into the store: two texts, a file of binary
/// settings and a program image, in that order.
pub fn setup_sample_files(fs: &mut RamFs)
    requires
        old(fs).clock <= u64::MAX - 4,
    ensures
        final(fs).clock == old(fs).clock + 4,
        final(fs).files@.len() == old(fs).files@.len() + 4,
        final(fs).files@.subrange(0, old(fs).files@.len() as int) == old(fs).files@,
        ({
            let n = old(fs).files@.len() as int;
            let files = final(fs).files@;
            &&& files[n].name@ == "hello.txt"@
            &&& files[n].data@ == "Hello, World!\nThis is a text file.\n".spec_bytes()
            &&& files[n + 1].name@ == "readme.md"@
            &&& files[n + 1].data@
                == "# S.T.A.R. Kernel\n\nA simple RISC-V kernel implementation.\n".spec_bytes()
            &&& files[n + 2].name@ == "config.bin"@
            &&& files[n + 2].data@ == seq![0u8, 1, 2, 3, 0xff, 0xfe, 0xfd, 0xfc]
            &&& files[n + 3].name@ == "kernel.elf"@
            &&& files[n + 3].data@ == seq![
                0x45u8,
                0x4c,
                0x46,
                0x7f,
                0x45,
                0x4c,
                0x46,
                0x02,
                0x01,
                0x01,
                0x00,
            ]
            &&& forall|i: int|
                n <= i < n + 4 ==> {
                    &&& (#[trigger] files[i]).size == files[i].data@.len()
                    &&& files[i].created_at == old(fs).clock + 1 + (i - n)
                    &&& files[i].file_type == file_type_of(
                        vstd::utf8::encode_utf8(files[i].name@),
                        files[i].data@,
                    )
                }
        }),
{
    fs.create_file("hello.txt", "Hello, World!\nThis is a text file.\n".as_bytes());
    fs.create_file(
        "readme.md",
        "# S.T.A.R. Kernel\n\nA simple RISC-V kernel implementation.\n".as_bytes(),
    );
    let config: [u8; 8] = [0, 1, 2, 3, 0xff, 0xfe, 0xfd, 0xfc];
    fs.create_file("config.bin", config.as_slice());
    let image: [u8; 11] = [0x45, 0x4c, 0x46, 0x7f, 0x45, 0x4c, 0x46, 0x02, 0x01, 0x01, 0x00];
    fs.create_file("kernel.elf", image.as_slice());
    assert(config@ =~= seq![0u8, 1, 2, 3, 0xff, 0xfe, 0xfd, 0xfc]);
    assert(image@ =~= seq![
        0x45u8,
        0x4c,
        0x46,
        0x7f,
        0x45,
        0x4c,
        0x46,
        0x02,
        0x01,
        0x01,
        0x00,
    ]);
    assert(final(fs).files@.subrange(0, old(fs).files@.len() as int) =~= old(fs).files@);
}

} // verus!
