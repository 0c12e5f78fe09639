use toy_os::interrupts::InterruptIndex;
use toy_os::interrupts::PIC_1_OFFSET;
use toy_os::interrupts::PIC_2_OFFSET;

#[test]
fn controller_offsets() {
    assert_eq!(PIC_1_OFFSET, 32);
    assert_eq!(PIC_2_OFFSET, 40);
}

#[test]
fn timer_is_the_first_line() {
    assert_eq!(InterruptIndex::Timer.as_u8(), 32);
    assert_eq!(InterruptIndex::Timer.as_usize(), 32);
}

#[test]
fn keyboard_follows_the_timer() {
    assert_eq!(InterruptIndex::Keyboard.as_u8(), 33);
    assert_eq!(InterruptIndex::Keyboard.as_usize(), 33);
}
