use star_kernel::hart::Hart;
use star_kernel::interrupts::{
    handle_interrupt, handle_timer_interrupt, init_interrupts, InterruptEvent, InterruptManager,
    EXCEPTION_ECALL_U, INTERRUPT_SUPERVISOR_EXTERNAL, INTERRUPT_SUPERVISOR_TIMER,
};

const INTERRUPT: u64 = 1 << 63;

#[test]
fn cause_codes_have_their_values() {
    assert_eq!(INTERRUPT_SUPERVISOR_TIMER, 5);
    assert_eq!(INTERRUPT_SUPERVISOR_EXTERNAL, 9);
    assert_eq!(EXCEPTION_ECALL_U, 8);
}

#[test]
fn supervisor_interrupts_set_two_bits() {
    let mut manager = InterruptManager::new();
    let mut hart = Hart::new();
    hart.sstatus = 0x100;
    hart.sie = 0x200;
    assert!(manager.enable_supervisor_interrupts(&mut hart));
    assert_eq!(hart.sstatus, 0x102);
    assert_eq!(hart.sie, 0x220);
    assert_eq!(hart.mstatus, 0);
    assert_eq!(hart.mie, 0);
    assert!(manager.enable_supervisor_interrupts(&mut hart));
    assert_eq!(hart.sstatus, 0x102);
    assert_eq!(hart.sie, 0x220);
}

#[test]
fn machine_interrupts_set_two_bits() {
    let mut manager = InterruptManager::new();
    let mut hart = Hart::new();
    hart.mstatus = 0x1;
    assert!(manager.enable_machine_interrupts(&mut hart));
    assert_eq!(hart.mstatus, 0x9);
    assert_eq!(hart.mie, 0x80);
    assert_eq!(hart.sstatus, 0);
    assert_eq!(hart.sie, 0);
}

#[test]
fn init_enables_supervisor_interrupts() {
    let mut manager = InterruptManager::new();
    let mut hart = Hart::new();
    assert!(manager.init(&mut hart));
    assert_eq!(hart.sstatus, 0x2);
    assert_eq!(hart.sie, 0x20);
    let mut other = Hart::new();
    assert!(init_interrupts(&mut manager, &mut other));
    assert_eq!(other.sstatus, 0x2);
    assert_eq!(other.sie, 0x20);
}

#[test]
fn timer_is_rearmed_from_the_present_counter() {
    let mut manager = InterruptManager::new();
    let mut hart = Hart::new();
    hart.time = 1_000;
    assert!(manager.setup_timer(&mut hart, 250));
    assert_eq!(hart.time_compare, 1_250);
    manager.handle_timer_interrupt(&mut hart);
    assert_eq!(hart.time_compare, 1_250);
    hart.time = 1_400;
    manager.handle_timer_interrupt(&mut hart);
    assert_eq!(hart.time_compare, 1_650);
    assert_ne!(hart.time_compare, 1_000 + 2 * 250);
}

#[test]
fn programming_the_timer_twice_gives_the_same_state() {
    let mut manager = InterruptManager::new();
    let mut hart = Hart::new();
    hart.time = 42;
    assert!(manager.setup_timer(&mut hart, 10));
    let first = hart.time_compare;
    assert!(manager.setup_timer(&mut hart, 10));
    assert_eq!(hart.time_compare, first);
    assert_eq!(first, 52);
}

#[test]
fn timer_that_was_never_programmed_is_not_rearmed() {
    let mut manager = InterruptManager::new();
    let mut hart = Hart::new();
    hart.time = 500;
    hart.time_compare = 7;
    manager.handle_timer_interrupt(&mut hart);
    assert_eq!(hart.time_compare, 7);
    handle_timer_interrupt(&mut manager, &mut hart);
    assert_eq!(hart.time_compare, 7);
}

#[test]
fn rearming_wraps_round() {
    let mut manager = InterruptManager::new();
    let mut hart = Hart::new();
    assert!(manager.setup_timer(&mut hart, 16));
    hart.time = u64::MAX - 5;
    manager.handle_timer_interrupt(&mut hart);
    assert_eq!(hart.time_compare, 10);
}

#[test]
fn external_interrupt_changes_nothing() {
    let mut manager = InterruptManager::new();
    let mut hart = Hart::new();
    hart.time = 9;
    assert!(manager.setup_timer(&mut hart, 1));
    manager.handle_external_interrupt();
    manager.handle_timer_interrupt(&mut hart);
    assert_eq!(hart.time_compare, 10);
}

#[test]
fn causes_are_told_apart() {
    let mut manager = InterruptManager::new();
    let mut hart = Hart::new();
    hart.time = 100;
    assert!(manager.setup_timer(&mut hart, 50));
    hart.time = 130;
    assert_eq!(
        handle_interrupt(&mut manager, &mut hart, INTERRUPT | 9, 0, 0),
        InterruptEvent::External
    );
    assert_eq!(hart.time_compare, 150);
    assert_eq!(
        handle_interrupt(&mut manager, &mut hart, INTERRUPT | 1, 0, 0),
        InterruptEvent::Unhandled(1)
    );
    assert_eq!(
        handle_interrupt(&mut manager, &mut hart, INTERRUPT | 0x105, 0, 0),
        InterruptEvent::Unhandled(0x105)
    );
    assert_eq!(handle_interrupt(&mut manager, &mut hart, 5, 0x80, 0x90), InterruptEvent::Exception);
    assert_eq!(hart.time_compare, 150);
    assert_eq!(
        handle_interrupt(&mut manager, &mut hart, INTERRUPT | 5, 0, 0),
        InterruptEvent::Timer
    );
    assert_eq!(hart.time_compare, 180);
}
