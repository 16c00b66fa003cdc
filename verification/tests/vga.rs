use vga_console::vga::{Color, Direction, Vga, MAX_LINE_OFFSET, NEWLINE, VGA_HEIGHT, VGA_WIDTH};

#[test]
fn test_new_vga() {
    let v = Vga::new();

    assert_eq!(v.x, 0, "Vga::x should be initialized to 0");
    assert_eq!(v.y, 0, "Vga::x should be initialized to 0");

    let expected_color = Color::Black.to_background() | Color::White.to_foreground();
    assert_eq!(
        v.color, expected_color,
        "Vga::color should be initialized to Color::Black.to_background() | Color::White.to_foreground()"
    );
}

#[test]
fn test_line_wrap() {
    let mut v = Vga::new();

    for _ in 0..VGA_WIDTH {
        v.inc_cursor();
    }

    assert_eq!(v.x, 0, "Vga::x should wrap around when reaching 64");

    v.clear_screen();
}

#[test]
fn test_backspace_line_start_empty_previous_line() {
    let mut v = Vga::new();

    v.new_line();
    v.delete_char();

    assert_eq!(v.y, 0, "Vga::y should decrease by 1 when deleting a character at the beginning of a line");
    assert_eq!(v.x, 0, "Vga::x should return to the beginning of the previous line when it is empty");

    v.clear_screen();
}

#[test]
fn test_backspace_line_start_previous_line_with_content() {
    let mut v = Vga::new();

    v.write_u8_arr(b"Hello, World");
    v.new_line();
    v.delete_char();

    assert_eq!(v.y, 0, "Vga::y should decrease by 1 when deleting a character at the beginning of a line");
    assert_eq!(
        v.x, 12,
        "Vga::x should return to the last written non-null character of the previous line when deleting a line"
    );

    v.clear_screen();
}

#[test]
fn test_hello_world() {
    let mut v = Vga::new();

    v.write_u8_arr(b"Hello, World");

    let mut written_content: [u8; 12] = [0u8; 12];
    for idx in 0..12 {
        written_content[idx] = (v.device[idx] & 0x00FF) as u8;
    }

    assert_eq!(&written_content, b"Hello, World", "Content has not been written to VGA_BUFFER_ADDR");

    v.clear_screen();
}

#[test]
fn test_cursor_wrap_advances_row() {
    let mut v = Vga::new();

    for _ in 0..VGA_WIDTH {
        v.inc_cursor();
    }

    assert_eq!(v.x, 0);
    assert_eq!(v.y, 1);
}

#[test]
fn test_insertion_shifts_not_overwrites() {
    let mut v = Vga::new();

    v.write_u8_arr(b"AC");
    v.move_cursor(Direction::Left);
    v.write_char(b'B');

    let row: Vec<u8> = (0..3).map(|i| (v.device[i] & 0x00FF) as u8).collect();
    assert_eq!(&row, b"ABC", "inserting in the middle must shift, not overwrite");
    assert_eq!(v.device[3] & 0x00FF, 0);
}

#[test]
fn test_scroll_saturates_at_max_offset() {
    let mut v = Vga::new();

    // The first VGA_HEIGHT - 1 breaks only move the cursor down; each
    // break after that scrolls once.
    for _ in 0..(VGA_HEIGHT as u16 + MAX_LINE_OFFSET as u16 + 5) {
        v.new_line();
    }
    assert_eq!(v.line_offset, MAX_LINE_OFFSET);

    v.new_line();
    assert_eq!(v.line_offset, MAX_LINE_OFFSET, "window offset must stay clamped at its maximum");
}

#[test]
fn test_write_char_at_out_of_bounds() {
    let mut v = Vga::new();

    assert!(v.write_char_at(VGA_HEIGHT, 0, b'a').is_err());
    assert!(v.write_char_at(0, VGA_WIDTH, b'a').is_err());
    assert!(v.write_char_at(VGA_HEIGHT - 1, VGA_WIDTH - 1, b'a').is_ok());
}

#[test]
fn test_move_cursor_saturates() {
    let mut v = Vga::new();

    v.move_cursor(Direction::Left);
    v.move_cursor(Direction::Up);
    assert_eq!((v.x, v.y), (0, 0));

    for _ in 0..100 {
        v.move_cursor(Direction::Right);
    }
    assert_eq!(v.x, VGA_WIDTH - 1);

    for _ in 0..100 {
        v.move_cursor(Direction::Down);
    }
    assert_eq!(v.y, VGA_HEIGHT - 1);
}

#[test]
fn test_color_nibbles() {
    let mut v = Vga::new();

    v.set_foreground_color(Color::Green);
    assert_eq!(v.color, 0x02);
    v.set_background_color(Color::Red);
    assert_eq!(v.color, 0x42);
    v.set_foreground_color(Color::White);
    assert_eq!(v.color, 0x4F);

    assert_eq!(Color::LightCyan.to_foreground(), 11);
    assert_eq!(Color::LightCyan.to_background(), 11 << 4);
}

#[test]
fn test_written_cell_carries_attribute() {
    let mut v = Vga::new();

    v.set_background_color(Color::Blue);
    v.write_char(b'X');

    assert_eq!(v.device[0], (b'X' as u16) | 0x1F00);
}

#[test]
fn test_block_length_stops_at_empty_cell() {
    let mut v = Vga::new();

    v.write_u8_arr(b"AB");
    assert_eq!(v.buffer.block_length(0, 0), 2);
    assert_eq!(v.buffer.block_length(1, 0), 1);
}

#[test]
fn test_block_length_prefers_bare_sentinel() {
    let mut v = Vga::new();

    v.write_u8_arr(b"AB");
    // An attribute of zero makes the terminator cell the bare sentinel value.
    v.set_foreground_color(Color::Black);
    v.write_char(NEWLINE);

    assert_eq!(v.buffer.block_length(0, 0), 2);
}

#[test]
fn test_backspace_erases_cell() {
    let mut v = Vga::new();

    v.write_u8_arr(b"AB");
    v.delete_char();

    assert_eq!(v.x, 1);
    assert_eq!(v.device[1] & 0x00FF, 0, "backspace must clear the cell it lands on");
    assert_eq!(v.device[0] & 0x00FF, b'A' as u16);
}

#[test]
fn test_default_matches_new() {
    let v: Vga = Default::default();

    assert_eq!((v.x, v.y, v.line_offset), (0, 0, 0));
    assert_eq!(v.color, 0x0F);
    assert_eq!(v.device[0], 0);
}
