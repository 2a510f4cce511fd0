//! Interrupt control: the interrupt-enable bits, the timer comparator and
//! the decoding of a trap cause.
use vstd::prelude::*;
use crate::hart::Hart;
use crate::scheduler::TaskContext;

verus! {

pub const INTERRUPT_USER_SOFTWARE: u64 = 0;

pub const INTERRUPT_SUPERVISOR_SOFTWARE: u64 = 1;

pub const INTERRUPT_MACHINE_SOFTWARE: u64 = 3;

pub const INTERRUPT_USER_TIMER: u64 = 4;

pub const INTERRUPT_SUPERVISOR_TIMER: u64 = 5;

pub const INTERRUPT_MACHINE_TIMER: u64 = 7;

pub const INTERRUPT_USER_EXTERNAL: u64 = 8;

pub const INTERRUPT_SUPERVISOR_EXTERNAL: u64 = 9;

pub const INTERRUPT_MACHINE_EXTERNAL: u64 = 11;

pub const EXCEPTION_INSTRUCTION_MISALIGNED: u64 = 0;

pub const EXCEPTION_INSTRUCTION_ACCESS_FAULT: u64 = 1;

pub const EXCEPTION_ILLEGAL_INSTRUCTION: u64 = 2;

pub const EXCEPTION_BREAKPOINT: u64 = 3;

pub const EXCEPTION_LOAD_MISALIGNED: u64 = 4;

pub const EXCEPTION_LOAD_ACCESS_FAULT: u64 = 5;

pub const EXCEPTION_STORE_MISALIGNED: u64 = 6;

pub const EXCEPTION_STORE_ACCESS_FAULT: u64 = 7;

pub const EXCEPTION_ECALL_U: u64 = 8;

pub const EXCEPTION_ECALL_S: u64 = 9;

pub const EXCEPTION_ECALL_M: u64 = 11;

pub const EXCEPTION_INSTRUCTION_PAGE_FAULT: u64 = 12;

pub const EXCEPTION_LOAD_PAGE_FAULT: u64 = 13;

pub const EXCEPTION_STORE_PAGE_FAULT: u64 = 15;

/// The bit of a trap cause that tells an interrupt from an exception.
pub const CAUSE_INTERRUPT_FLAG: u64 = 0x8000_0000_0000_0000;

/// The bits of a trap cause that hold the numeric code.
pub const CAUSE_CODE_MASK: u64 = 0x7fff_ffff_ffff_ffff;

/// Global interrupt enable in the machine status word.
pub const MSTATUS_MIE: u64 = 0x8;

/// Timer interrupt enable in the machine interrupt-enable register.
pub const MIE_MTIE: u64 = 0x80;

/// Global interrupt enable in the supervisor status word.
pub const SSTATUS_SIE: u64 = 0x2;

/// Timer interrupt enable in the supervisor interrupt-enable register.
pub const SIE_STIE: u64 = 0x20;

/// The sum of a counter value and an interval as a 64-bit counter holds it.
pub open spec fn wrapped_sum(counter: u64, interval: u64) -> u64 {
    ((counter + interval) % 0x1_0000_0000_0000_0000) as u64
}

/// Whether a trap cause is an interrupt rather than an exception.
pub open spec fn cause_is_interrupt(scause: u64) -> bool {
    scause & CAUSE_INTERRUPT_FLAG != 0
}

/// The numeric code of a trap cause: the cause without the interrupt flag.
pub open spec fn cause_code(scause: u64) -> u64 {
    scause & CAUSE_CODE_MASK
}

/// The interrupt flag is the top bit, and the code is what is left of the
/// cause once the flag is taken away.
pub proof fn lemma_cause_decoding(scause: u64)
    ensures
        cause_is_interrupt(scause) <==> scause >= 0x8000_0000_0000_0000,
        cause_is_interrupt(scause) ==> cause_code(scause) == scause - 0x8000_0000_0000_0000,
        !cause_is_interrupt(scause) ==> cause_code(scause) == scause,
{
    assert((scause & 0x8000_0000_0000_0000 != 0) == (scause >= 0x8000_0000_0000_0000) && (scause
        >= 0x8000_0000_0000_0000 ==> scause & 0x7fff_ffff_ffff_ffff == scause
        - 0x8000_0000_0000_0000) && (scause < 0x8000_0000_0000_0000 ==> scause
        & 0x7fff_ffff_ffff_ffff == scause)) by (bit_vector);
}

/// What `handle_interrupt` made of a trap cause.
#[derive(Clone, Copy, PartialEq, Eq, Structural, Debug)]
pub enum InterruptEvent {
    /// The supervisor timer fired and was rearmed.
    Timer,
    /// A device raised the supervisor external interrupt.
    External,
    /// An interrupt with a code that is not handled.
    Unhandled(u64),
    /// The cause is an exception, not an interrupt.
    Exception,
}

/// The event that a trap cause stands for.
pub open spec fn event_of(scause: u64) -> InterruptEvent {
    if !cause_is_interrupt(scause) {
        InterruptEvent::Exception
    } else if cause_code(scause) == INTERRUPT_SUPERVISOR_TIMER {
        InterruptEvent::Timer
    } else if cause_code(scause) == INTERRUPT_SUPERVISOR_EXTERNAL {
        InterruptEvent::External
    } else {
        InterruptEvent::Unhandled(cause_code(scause))
    }
}

/// Owner of the interrupt-enable state and of the timer's rearming interval.
pub struct InterruptManager {
    timer_enabled: bool,
    timer_interval: u64,
}

/// A saved context with its liveness flag.
pub struct Task {
    pub ctx: TaskContext,
    pub active: bool,
}

impl InterruptManager {
    /// Whether the timer has been programmed.
    pub closed spec fn enabled(&self) -> bool {
        self.timer_enabled
    }

    /// The interval with which the timer is rearmed.
    pub closed spec fn interval(&self) -> u64 {
        self.timer_interval
    }

    /// What the timer comparator holds once the timer has fired and been
    /// handled with the counter at `hart.time`.
    pub open spec fn rearmed(&self, hart: Hart) -> Hart {
        if self.enabled() {
            Hart { time_compare: wrapped_sum(hart.time, self.interval()), ..hart }
        } else {
            hart
        }
    }

    /// A manager whose timer has not been programmed.
    pub fn new() -> (m: Self)
        ensures
            !m.enabled(),
            m.interval() == 0,
    {
        Self { timer_enabled: false, timer_interval: 0 }
    }

    /// Brings up interrupt handling by enabling supervisor interrupts.
    pub fn init(&mut self, hart: &mut Hart) -> (ok: bool)
        ensures
            ok,
            *final(self) == *old(self),
            *final(hart) == (Hart {
                sstatus: old(hart).sstatus | SSTATUS_SIE,
                sie: old(hart).sie | SIE_STIE,
                ..*old(hart)
            }),
    {
        if !self.enable_supervisor_interrupts(hart) {
            return false;
        }
        true
    }

    /// Sets the global and the timer interrupt-enable bits of machine mode.
    pub fn enable_machine_interrupts(&mut self, hart: &mut Hart) -> (ok: bool)
        ensures
            ok,
            *final(self) == *old(self),
            *final(hart) == (Hart {
                mstatus: old(hart).mstatus | MSTATUS_MIE,
                mie: old(hart).mie | MIE_MTIE,
                ..*old(hart)
            }),
            final(hart).mstatus & MSTATUS_MIE != 0,
            final(hart).mie & MIE_MTIE != 0,
    {
        let old_mstatus: u64 = hart.mstatus;
        let old_mie: u64 = hart.mie;
        let mstatus: u64 = old_mstatus | 0x8;
        let mie: u64 = old_mie | 0x80;
        assert((mstatus & 0x8) != 0 && (mie & 0x80) != 0) by (bit_vector)
            requires
                mstatus == old_mstatus | 0x8,
                mie == old_mie | 0x80,
        ;
        hart.mstatus = mstatus;
        hart.mie = mie;
        true
    }

    /// Sets the global and the timer interrupt-enable bits of supervisor
    /// mode.
    pub fn enable_supervisor_interrupts(&mut self, hart: &mut Hart) -> (ok: bool)
        ensures
            ok,
            *final(self) == *old(self),
            *final(hart) == (Hart {
                sstatus: old(hart).sstatus | SSTATUS_SIE,
                sie: old(hart).sie | SIE_STIE,
                ..*old(hart)
            }),
            final(hart).sstatus & SSTATUS_SIE != 0,
            final(hart).sie & SIE_STIE != 0,
    {
        let old_sstatus: u64 = hart.sstatus;
        let old_sie: u64 = hart.sie;
        let sstatus: u64 = old_sstatus | 0x2;
        let sie: u64 = old_sie | 0x20;
        assert((sstatus & 0x2) != 0 && (sie & 0x20) != 0) by (bit_vector)
            requires
                sstatus == old_sstatus | 0x2,
                sie == old_sie | 0x20,
        ;
        hart.sstatus = sstatus;
        hart.sie = sie;
        true
    }

    /// Programs the timer: the comparator becomes the current counter plus
    /// `interval_us`, and the interval is kept for rearming.
    pub fn setup_timer(&mut self, hart: &mut Hart, interval_us: u64) -> (ok: bool)
        requires
            old(hart).time + interval_us <= u64::MAX,
        ensures
            ok,
            final(self).enabled(),
            final(self).interval() == interval_us,
            *final(hart) == (Hart {
                time_compare: (old(hart).time + interval_us) as u64,
                ..*old(hart)
            }),
    {
        self.timer_interval = interval_us;
        self.timer_enabled = true;
        hart.time_compare = hart.time + interval_us;
        true
    }

    /// Rearms the timer after it has fired: if the timer has been programmed,
    /// the comparator becomes the counter's present value plus the interval,
    /// wrapping round; otherwise nothing changes.
    pub fn handle_timer_interrupt(&mut self, hart: &mut Hart)
        ensures
            *final(self) == *old(self),
            *final(hart) == old(self).rearmed(*old(hart)),
    {
        if !self.timer_enabled {
            return ;
        }
        hart.time_compare = hart.time.wrapping_add(self.timer_interval);
    }

    /// Takes note of an external interrupt. No device is handled here, so
    /// nothing changes.
    pub fn handle_external_interrupt(&mut self)
        ensures
            *final(self) == *old(self),
    {
    }
}

/// Decodes a trap cause and handles it if it is an interrupt: the supervisor
/// timer is rearmed, anything else leaves the state as it is. Returns what
/// the cause stood for.
pub fn handle_interrupt(
    manager: &mut InterruptManager,
    hart: &mut Hart,
    scause: u64,
    sepc: u64,
    stval: u64,
) -> (event: InterruptEvent)
    ensures
        event == event_of(scause),
        *final(manager) == *old(manager),
        event == InterruptEvent::Timer ==> *final(hart) == old(manager).rearmed(*old(hart)),
        event != InterruptEvent::Timer ==> *final(hart) == *old(hart),
{
    let interrupt_type: u64 = scause & 0x8000_0000_0000_0000;
    if interrupt_type != 0 {
        let interrupt_code: u64 = scause & 0x7fff_ffff_ffff_ffff;
        if interrupt_code == INTERRUPT_SUPERVISOR_TIMER {
            manager.handle_timer_interrupt(hart);
            InterruptEvent::Timer
        } else if interrupt_code == INTERRUPT_SUPERVISOR_EXTERNAL {
            manager.handle_external_interrupt();
            InterruptEvent::External
        } else {
            InterruptEvent::Unhandled(interrupt_code)
        }
    } else {
        InterruptEvent::Exception
    }
}

/// Brings up interrupt handling on `manager`.
pub fn init_interrupts(manager: &mut InterruptManager, hart: &mut Hart) -> (ok: bool)
    ensures
        ok,
        *final(manager) == *old(manager),
        *final(hart) == (Hart {
            sstatus: old(hart).sstatus | SSTATUS_SIE,
            sie: old(hart).sie | SIE_STIE,
            ..*old(hart)
        }),
{
    manager.init(hart)
}

/// Rearms the timer of `manager` after it has fired.
pub fn handle_timer_interrupt(manager: &mut InterruptManager, hart: &mut Hart)
    ensures
        *final(manager) == *old(manager),
        *final(hart) == old(manager).rearmed(*old(hart)),
{
    manager.handle_timer_interrupt(hart)
}

} // verus!
