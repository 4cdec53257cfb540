use drag_monitor::color::{hex_digit, Color};

#[test]
fn colors_render_as_uppercase_hex() {
    let c = Color { r: 10, g: 11, b: 255, a: 255 };
    assert_eq!(c.to_hex_string(), "#0A0BFF");
    let black = Color { r: 0, g: 0, b: 0, a: 0 };
    assert_eq!(black.to_hex_string(), "#000000");
    let c = Color { r: 0x12, g: 0xA0, b: 0x0F, a: 7 };
    assert_eq!(c.to_hex_string(), "#12A00F");
}

#[test]
fn from_rgba_reads_the_channels_in_order() {
    let c = Color::from_rgba([1, 2, 3, 4]);
    assert_eq!((c.r, c.g, c.b, c.a), (1, 2, 3, 4));
}

#[test]
fn hex_digits_cover_both_ranges() {
    assert_eq!(hex_digit(0), '0');
    assert_eq!(hex_digit(9), '9');
    assert_eq!(hex_digit(10), 'A');
    assert_eq!(hex_digit(15), 'F');
}
