use abest_os::vga_buffer::{
    clear, reset_color, set_color_code, Buffer, Color, ColorCode, ScreenChar, Writer,
    BUFFER_HEIGHT, BUFFER_WIDTH,
};

fn blank() -> ScreenChar {
    ScreenChar { ascii_character: b' ', color_code: ColorCode(0x0f) }
}

fn row_text(writer: &Writer, row: usize) -> String {
    let buffer = writer.buffer();
    (0..buffer.width()).map(|c| buffer.read(row, c).ascii_character as char).collect()
}

#[test]
fn trivial_assertion() {
    assert_eq!(1, 1);
}

#[test]
fn test_println_many() {
    let mut writer = Writer::new();
    clear(&mut writer);
    for _ in 0..200 {
        writer.write_str("test_println_many output\n");
    }
    let h = writer.buffer().height();
    assert!(row_text(&writer, h - 2).starts_with("test_println_many output"));
    assert_eq!(row_text(&writer, h - 1), " ".repeat(BUFFER_WIDTH));
}

#[test]
fn test_println_output() {
    let s = "Some test string that fits on a single line";
    let mut writer = Writer::new();
    writer.clear();
    writer.write_str("\n");
    writer.write_str(s);
    writer.write_str("\n");
    let height = writer.buffer().height();
    for (i, c) in s.chars().enumerate() {
        let screen_char = writer.buffer().read(height - 2, i);
        assert_eq!(char::from(screen_char.ascii_character), c);
    }
}

#[test]
fn color_code_packs_background_high_and_foreground_low() {
    assert_eq!(ColorCode::new(Color::White, Color::Black), ColorCode(0x0f));
    assert_eq!(ColorCode::new(Color::Cyan, Color::DarkGray), ColorCode(0x83));
    assert_eq!(ColorCode::new(Color::Yellow, Color::DarkGray), ColorCode(0x8e));
    assert_eq!(ColorCode::new(Color::White, Color::Red), ColorCode(0x4f));
    assert_eq!(ColorCode::new(Color::Black, Color::White), ColorCode(0xf0));
    assert_eq!(ColorCode::default(), ColorCode(0x0f));
}

#[test]
fn color_indices_follow_the_palette() {
    assert_eq!(Color::Black.index(), 0);
    assert_eq!(Color::LightGray.index(), 7);
    assert_eq!(Color::DarkGray.index(), 8);
    assert_eq!(Color::Pink.index(), 13);
    assert_eq!(Color::White.index(), 15);
}

#[test]
fn default_cell_is_white_space_on_black() {
    assert_eq!(ScreenChar::default(), blank());
}

#[test]
fn new_writer_shows_a_blank_screen() {
    let writer = Writer::new();
    let buffer = writer.buffer();
    assert_eq!(buffer.width(), BUFFER_WIDTH);
    assert_eq!(buffer.height(), BUFFER_HEIGHT);
    for r in 0..BUFFER_HEIGHT {
        for c in 0..BUFFER_WIDTH {
            assert_eq!(buffer.read(r, c), blank());
        }
    }
    let fresh = Buffer::new();
    assert_eq!(fresh.read(0, 0), blank());
}

#[test]
fn bytes_go_to_the_bottom_row_in_the_current_color() {
    let mut writer = Writer::default();
    set_color_code(&mut writer, Color::Yellow, Color::Blue);
    writer.write_byte(b'A');
    writer.write_byte(b'b');
    let bottom = BUFFER_HEIGHT - 1;
    let code = ColorCode(0x1e);
    assert_eq!(writer.buffer().read(bottom, 0), ScreenChar { ascii_character: b'A', color_code: code });
    assert_eq!(writer.buffer().read(bottom, 1), ScreenChar { ascii_character: b'b', color_code: code });
    assert_eq!(writer.buffer().read(bottom, 2), blank());
    assert_eq!(writer.buffer().read(bottom - 1, 0), blank());
}

#[test]
fn new_line_moves_rows_up() {
    let mut writer = Writer::new();
    writer.write_str("first");
    writer.new_line();
    writer.write_str("second");
    writer.new_line();
    let h = BUFFER_HEIGHT;
    assert!(row_text(&writer, h - 3).starts_with("first "));
    assert!(row_text(&writer, h - 2).starts_with("second "));
    assert_eq!(row_text(&writer, h - 1), " ".repeat(BUFFER_WIDTH));
    writer.write_byte(b'x');
    assert_eq!(writer.buffer().read(h - 1, 0).ascii_character, b'x');
}

#[test]
fn full_row_wraps_before_the_next_byte() {
    let mut writer = Writer::new();
    let line = "0123456789".repeat(8);
    writer.write_str(&line);
    let h = BUFFER_HEIGHT;
    assert_eq!(row_text(&writer, h - 1), line);
    writer.write_byte(b'Z');
    assert_eq!(row_text(&writer, h - 2), line);
    assert_eq!(writer.buffer().read(h - 1, 0).ascii_character, b'Z');
    assert_eq!(writer.buffer().read(h - 1, 1), blank());
}

#[test]
fn top_row_is_lost_when_the_screen_scrolls() {
    let mut writer = Writer::new();
    for i in 0..BUFFER_HEIGHT {
        writer.write_byte(b'a' + (i % 26) as u8);
        writer.write_byte(b'\n');
    }
    // The first line written has scrolled off; the rows above the bottom hold the rest.
    assert_eq!(writer.buffer().read(0, 0).ascii_character, b'b');
    assert_eq!(writer.buffer().read(BUFFER_HEIGHT - 2, 0).ascii_character, b'y');
    assert_eq!(writer.buffer().read(BUFFER_HEIGHT - 1, 0), blank());
}

#[test]
fn clear_blanks_everything_and_keeps_the_color() {
    let mut writer = Writer::new();
    writer.set_color_code(Color::Green, Color::Black);
    writer.write_str("hello\nworld");
    clear(&mut writer);
    for r in 0..BUFFER_HEIGHT {
        for c in 0..BUFFER_WIDTH {
            assert_eq!(writer.buffer().read(r, c), blank());
        }
    }
    writer.write_byte(b'q');
    assert_eq!(
        writer.buffer().read(BUFFER_HEIGHT - 1, 0),
        ScreenChar { ascii_character: b'q', color_code: ColorCode(0x02) }
    );
}

#[test]
fn reset_color_returns_to_white_on_black() {
    let mut writer = Writer::new();
    set_color_code(&mut writer, Color::White, Color::Red);
    writer.write_byte(b'!');
    reset_color(&mut writer);
    writer.write_byte(b'?');
    let bottom = BUFFER_HEIGHT - 1;
    assert_eq!(writer.buffer().read(bottom, 0).color_code, ColorCode(0x4f));
    assert_eq!(writer.buffer().read(bottom, 1).color_code, ColorCode(0x0f));
    writer.set_color_code(Color::Pink, Color::Brown);
    writer.reset_color();
    writer.write_byte(b'.');
    assert_eq!(writer.buffer().read(bottom, 2).color_code, ColorCode(0x0f));
}

#[test]
fn printed_line_lands_above_the_bottom_row() {
    let mut writer = Writer::new();
    writer.write_str("left over");
    writer.write_str("\nabc\n");
    let h = BUFFER_HEIGHT;
    let mut expected = String::from("abc");
    expected.push_str(&" ".repeat(BUFFER_WIDTH - 3));
    assert_eq!(row_text(&writer, h - 2), expected);
    assert!(row_text(&writer, h - 3).starts_with("left over"));
    assert_eq!(row_text(&writer, h - 1), " ".repeat(BUFFER_WIDTH));
}

#[test]
fn writing_in_parts_equals_writing_at_once() {
    let mut whole = Writer::new();
    whole.write_str("ab\ncd efg\nh");
    let mut parts = Writer::new();
    parts.write_str("ab");
    parts.write_str("\ncd ");
    parts.write_str("efg\nh");
    for r in 0..BUFFER_HEIGHT {
        for c in 0..BUFFER_WIDTH {
            assert_eq!(whole.buffer().read(r, c), parts.buffer().read(r, c));
        }
    }
    whole.write_byte(b'!');
    parts.write_byte(b'!');
    assert_eq!(whole.buffer().read(BUFFER_HEIGHT - 1, 1), parts.buffer().read(BUFFER_HEIGHT - 1, 1));
    assert_eq!(whole.buffer().read(BUFFER_HEIGHT - 1, 1).ascii_character, b'!');
}
