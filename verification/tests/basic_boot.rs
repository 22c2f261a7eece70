use abest_os::vga_buffer::{Writer, BUFFER_HEIGHT};

fn println(writer: &mut Writer, s: &str) {
    writer.write_str(s);
    writer.write_str("\n");
}

#[test]
fn test_println() {
    let mut writer = Writer::new();
    println(&mut writer, "test_println output");
    let text: String = (0..19)
        .map(|c| writer.buffer().read(BUFFER_HEIGHT - 2, c).ascii_character as char)
        .collect();
    assert_eq!(text, "test_println output");
}
