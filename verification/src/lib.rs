//! Privileged execution core of a small supervisor-mode kernel for a 64-bit
//! RISC-V-class machine: frame and heap allocation, page-table entries,
//! interrupt control, the task scheduler and the trap dispatcher.
//!
//! Everything here computes on plain values. The hardware itself (control
//! registers, the timer device, the console) is represented by values that the
//! boundary code captures before a call and installs after it.
pub mod fileio;
pub mod hart;
pub mod interrupts;
pub mod kernel;
pub mod memory;
pub mod ramfs;
pub mod scheduler;
pub mod shell;
pub mod syscall;
pub mod trap;
pub mod user;
pub mod user_loader;
pub mod vm;

