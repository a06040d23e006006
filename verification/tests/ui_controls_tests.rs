use chords::ui::controls::{save_tooltip, transpose_label};
use chords::ui::preferences::hex_color;

#[test]
fn transpose_label_shows_sign() {
    assert_eq!(transpose_label(3), "+3");
    assert_eq!(transpose_label(11), "+11");
    assert_eq!(transpose_label(-2), "-2");
    assert_eq!(transpose_label(-11), "-11");
    assert_eq!(transpose_label(0), "0");
}

#[test]
fn transpose_label_extremes() {
    assert_eq!(transpose_label(i32::MAX), "+2147483647");
    assert_eq!(transpose_label(i32::MIN), "-2147483648");
}

#[test]
fn save_tooltip_says_what_pressing_does() {
    assert_eq!(save_tooltip(true), "Remove from library");
    assert_eq!(save_tooltip(false), "Save to library");
}

#[test]
fn hex_color_two_lowercase_digits_per_channel() {
    assert_eq!(hex_color(0x35, 0x84, 0xe4), "#3584e4");
    assert_eq!(hex_color(0xe6, 0x61, 0x00), "#e66100");
    assert_eq!(hex_color(0, 0, 0), "#000000");
    assert_eq!(hex_color(255, 255, 255), "#ffffff");
    assert_eq!(hex_color(10, 11, 16), "#0a0b10");
}
