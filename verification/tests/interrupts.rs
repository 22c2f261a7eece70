use abest_os::interrupts::{InterruptIndex, PIC_1_OFFSET, PIC_2_OFFSET};
use abest_os::vga_buffer::{Writer, BUFFER_HEIGHT};

#[test]
fn test_sanity() {
    let mut writer = Writer::new();
    writer.write_str("test_println output\n");
    assert_eq!(writer.buffer().read(BUFFER_HEIGHT - 2, 0).ascii_character, b't');
}

#[test]
fn timer_uses_the_first_pic_vector() {
    assert_eq!(PIC_1_OFFSET, 32);
    assert_eq!(PIC_2_OFFSET, 40);
    assert_eq!(u8::from(InterruptIndex::Timer), 32);
    assert_eq!(usize::from(InterruptIndex::Timer), 32usize);
    let v: u8 = InterruptIndex::Timer.into();
    assert_eq!(v, PIC_1_OFFSET);
}
