use rust_os::vga_buffer::{displayable_byte, Color, ColorCode};

#[test]
fn trivial_assertion() {
    rust_os::trivial_assertion();
}

#[test]
fn color_code_packs_background_and_foreground() {
    assert_eq!(ColorCode::new(Color::White, Color::Black), ColorCode(0x0f));
    assert_eq!(ColorCode::new(Color::Yellow, Color::Blue), ColorCode(0x1e));
    assert_eq!(ColorCode::new(Color::Black, Color::White), ColorCode(0xf0));
    assert_eq!(ColorCode::new(Color::LightCyan, Color::Black), ColorCode(0x0b));
}

#[test]
fn printable_bytes_pass_through() {
    assert_eq!(displayable_byte(b' '), b' ');
    assert_eq!(displayable_byte(b'~'), b'~');
    assert_eq!(displayable_byte(b'A'), b'A');
    assert_eq!(displayable_byte(b'\n'), b'\n');
}

#[test]
fn unprintable_bytes_are_replaced() {
    assert_eq!(displayable_byte(0x00), 0xfe);
    assert_eq!(displayable_byte(0x1f), 0xfe);
    assert_eq!(displayable_byte(0x7f), 0xfe);
    assert_eq!(displayable_byte(0xff), 0xfe);
}
