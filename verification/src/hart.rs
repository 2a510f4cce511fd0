//! The hardware thread as a value: the general registers, the control and
//! status registers and the timer device that the kernel core reads and
//! writes. Boundary code captures one from the machine on trap entry and
//! installs it back before the privilege return.
use vstd::prelude::*;

verus! {

/// Register state of the one hardware thread.
pub struct Hart {
    /// General registers x0 to x31.
    pub regs: [u64; 32],
    /// Supervisor status word.
    pub sstatus: u64,
    /// Supervisor interrupt-enable register.
    pub sie: u64,
    /// Machine status word.
    pub mstatus: u64,
    /// Machine interrupt-enable register.
    pub mie: u64,
    /// Translation-root register.
    pub satp: u64,
    /// Program counter at which the privilege return resumes.
    pub sepc: u64,
    /// Cause of the last trap.
    pub scause: u64,
    /// Fault value of the last trap.
    pub stval: u64,
    /// Address of the trap vector.
    pub stvec: u64,
    /// The timer device's running counter.
    pub time: u64,
    /// The timer device's comparator: the timer fires once the counter
    /// reaches it.
    pub time_compare: u64,
    /// Whether the translation cache has to be invalidated before the
    /// translation root is next used.
    pub fence_pending: bool,
}

impl Hart {
    /// A hardware thread with every register zero.
    pub fn new() -> (h: Self)
        ensures
            h.regs@ == Seq::new(32, |i: int| 0u64),
            h.sstatus == 0,
            h.sie == 0,
            h.mstatus == 0,
            h.mie == 0,
            h.satp == 0,
            h.sepc == 0,
            h.scause == 0,
            h.stval == 0,
            h.stvec == 0,
            h.time == 0,
            h.time_compare == 0,
            !h.fence_pending,
    {
        let h = Hart {
            regs: [0; 32],
            sstatus: 0,
            sie: 0,
            mstatus: 0,
            mie: 0,
            satp: 0,
            sepc: 0,
            scause: 0,
            stval: 0,
            stvec: 0,
            time: 0,
            time_compare: 0,
            fence_pending: false,
        };
        assert(h.regs@ =~= Seq::new(32, |i: int| 0u64));
        h
    }
}

} // verus!
