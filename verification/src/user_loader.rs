//! The fixed user programs: where they and their stack live, and how the
//! first of them is entered.
use vstd::prelude::*;
use crate::hart::Hart;

verus! {

/// Address at which the first user program is placed.
pub const USER_PROG_BASE: u64 = 0x8040_0000;

/// Address at which the second user program is placed.
pub const USER_PROG2_BASE: u64 = 0x8040_1000;

/// Lowest address of the user stack.
pub const USER_STACK_BASE: u64 = 0x8050_0000;

/// Size of the user stack in bytes.
pub const USER_STACK_SIZE: u64 = 0x1000;

/// The first user program: a no-op followed by a jump to itself.
pub const USER_PROG: [u32; 2] = [0x0000_0013, 0x0000_006f];

/// The second user program: a no-op followed by a jump to itself.
pub const USER_PROG2: [u32; 2] = [0x0000_0013, 0x0000_006f];

/// Number of the register that `run_user_program` clears on its way.
pub const REG_T0: usize = 5;

/// Prepares the hart for entering the first user program: the stack pointer
/// at the top of the user stack, the resuming program counter at the
/// program's base, the status word and the scratch register cleared. The
/// privilege return itself is left to the caller.
pub fn run_user_program(hart: &mut Hart)
    ensures
        final(hart).regs@ == old(hart).regs@.update(
            2,
            (USER_STACK_BASE + USER_STACK_SIZE) as u64,
        ).update(REG_T0 as int, 0),
        *final(hart) == (Hart {
            regs: final(hart).regs,
            sepc: USER_PROG_BASE,
            sstatus: 0,
            ..*old(hart)
        }),
{
    let entry: u64 = USER_PROG_BASE;
    let stack: u64 = USER_STACK_BASE + USER_STACK_SIZE;
    hart.regs[2] = stack;
    hart.sepc = entry;
    hart.regs[5] = 0;
    hart.sstatus = 0;
    assert(hart.regs@ =~= old(hart).regs@.update(2, stack).update(REG_T0 as int, 0));
}

/// What one poll of the console yields: the character, if the console had
/// one. A negative answer means that it had none and has to be polled again.
pub fn getchar(polled: i32) -> (ch: Option<u8>)
    ensures
        polled < 0 ==> ch is None,
        polled >= 0 ==> ch == Some((polled % 256) as u8),
{
    if polled >= 0 {
        Some((polled % 256) as u8)
    } else {
        None
    }
}

} // verus!
