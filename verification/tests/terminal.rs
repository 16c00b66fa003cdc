use vga_console::screen::{Key, Screen};
use vga_console::terminal::{Terminal, NBR_OF_SCREENS_PER_TERMINAL};
use vga_console::vga::{Buffer, Cursor, VGA_BUFFER_SIZE};

#[test]
fn test_switch_wraps_around() {
    let mut t = Terminal::default();

    for _ in 0..NBR_OF_SCREENS_PER_TERMINAL {
        t.handle_key(Key::Tab);
    }
    assert_eq!(t.active_screen_index, 0);

    t.handle_key(Key::Tab);
    t.handle_key(Key::Tab);
    assert_eq!(t.active_screen_index, 2);
    for _ in 0..NBR_OF_SCREENS_PER_TERMINAL {
        t.handle_key(Key::Tab);
    }
    assert_eq!(t.active_screen_index, 2);
}

#[test]
fn test_screen_isolation() {
    let mut t = Terminal::default();

    t.write_str("first");
    t.handle_key(Key::Tab);
    t.write_str("second!");

    // Back to the first screen: its content and cursor are untouched.
    for _ in 0..(NBR_OF_SCREENS_PER_TERMINAL - 1) {
        t.handle_key(Key::Tab);
    }
    assert_eq!(t.active_screen_index, 0);
    let s0 = t.active_screen();
    assert_eq!(s0.vga.x, 5);
    let row0: Vec<u8> = (0..5).map(|i| (s0.vga.device[i] & 0x00FF) as u8).collect();
    assert_eq!(&row0, b"first");

    // And the second screen resumes exactly where it was left.
    t.handle_key(Key::Tab);
    let s1 = t.active_screen();
    assert_eq!(s1.vga.x, 7);
    let row1: Vec<u8> = (0..7).map(|i| (s1.vga.device[i] & 0x00FF) as u8).collect();
    assert_eq!(&row1, b"second!");
}

#[test]
fn test_handle_key_routes_to_engine() {
    let mut t = Terminal::default();

    t.handle_key(Key::Character(b'h'));
    t.handle_key(Key::Character(b'i'));
    t.handle_key(Key::Enter);
    t.handle_key(Key::Character(b'o'));
    t.handle_key(Key::Backspace);
    t.handle_key(Key::Escape);

    let s = t.active_screen();
    assert_eq!((s.vga.x, s.vga.y), (0, 1));
    assert_eq!(s.vga.device[0] & 0x00FF, b'h' as u16);
    assert_eq!(s.vga.device[1] & 0x00FF, b'i' as u16);
    assert_eq!(s.vga.device[80] & 0x00FF, 0);
}

#[test]
fn test_write_color_str_sets_attribute() {
    let mut t = Terminal::default();

    t.write_color_str("ok", 0x4F);

    let s = t.active_screen();
    assert_eq!(s.vga.device[0], (b'o' as u16) | 0x4F00);
    assert_eq!(s.vga.device[1], (b'k' as u16) | 0x4F00);
}

#[test]
fn test_write_str_stops_at_null() {
    let mut s = Screen::default();

    s.write_str("AB\0CD");

    assert_eq!(s.vga.x, 2);
    assert_eq!(s.vga.device[2] & 0x00FF, 0);
}

#[test]
fn test_buffer_wraps_modulo_capacity() {
    let mut b = Buffer::new();

    b.write(0, 5, 0x1234);
    assert_eq!(b.at(5), Some(0x1234));
    assert_eq!(b.at(8000), None);

    // 99 * 80 + 85 wraps past the capacity onto cell 5.
    b.write(99, 85, 7);
    assert_eq!(b.at(5), Some(7));

    let window = b.slice(1);
    assert_eq!(window.len(), VGA_BUFFER_SIZE as usize);
    assert_eq!(window[0], b.at(80).unwrap_or(0));
}

#[test]
fn test_cursor_location_bytes() {
    let c = Cursor {};

    assert_eq!(c.location_bytes(0, 0), Some((0, 0)));
    // Row 3, column 5: offset 245 splits into a low and a high byte.
    assert_eq!(c.location_bytes(5, 3), Some((245, 0)));
    assert_eq!(c.location_bytes(79, 24), Some(((1999u16 % 256) as u8, (1999u16 / 256) as u8)));
    assert_eq!(c.location_bytes(80, 0), None);
    assert_eq!(c.location_bytes(0, 25), None);
}
