use kernel::sound::{divisor_bytes, pit_divisor, speaker_off, speaker_on};
use kernel::vga_buffer::{Color, ScreenChar, Writer, BUFFER_HEIGHT, BUFFER_WIDTH};

const WHITE_ON_BLACK: u8 = 0x0F;

fn row_text(w: &Writer, row: usize) -> String {
    (0..BUFFER_WIDTH).map(|c| w.screen_char(row, c).ascii_character as char).collect()
}

#[test]
fn new_screen_is_blank() {
    let w = Writer::new();
    assert_eq!(w.get_column(), 0);
    for row in 0..BUFFER_HEIGHT {
        for col in 0..BUFFER_WIDTH {
            assert_eq!(w.screen_char(row, col), ScreenChar { ascii_character: b' ', color_code: WHITE_ON_BLACK });
        }
    }
}

#[test]
fn bytes_go_to_the_bottom_row() {
    let mut w = Writer::new();
    w.write_byte(b'a');
    assert_eq!(w.screen_char(24, 0), ScreenChar { ascii_character: b'a', color_code: WHITE_ON_BLACK });
    assert_eq!(w.get_column(), 1);
    assert_eq!(w.cursor_position(), 24 * 80 + 1);
}

#[test]
fn newline_scrolls_the_screen_up() {
    let mut w = Writer::new();
    w.write_string("hi\nyo");
    assert!(row_text(&w, 23).starts_with("hi "));
    assert!(row_text(&w, 24).starts_with("yo "));
    assert_eq!(w.get_column(), 2);
}

#[test]
fn non_ascii_shows_as_blocks() {
    let mut w = Writer::new();
    w.write_string("\u{e9}");
    assert_eq!(w.screen_char(24, 0).ascii_character, 0xfe);
    assert_eq!(w.screen_char(24, 1).ascii_character, 0xfe);
    assert_eq!(w.get_column(), 2);
}

#[test]
fn full_row_wraps() {
    let mut w = Writer::new();
    w.set_column(BUFFER_WIDTH);
    w.write_byte(b'x');
    assert_eq!(w.screen_char(24, 0).ascii_character, b'x');
    assert_eq!(w.get_column(), 1);
}

#[test]
fn backspace_blanks_the_previous_cell() {
    let mut w = Writer::new();
    w.write_string("> ab");
    w.remove_previous_symbol();
    assert_eq!(w.get_column(), 3);
    assert!(row_text(&w, 24).starts_with("> a "));
}

#[test]
fn backspace_stops_at_the_prompt() {
    let mut w = Writer::new();
    w.write_string("> ");
    w.remove_previous_symbol();
    assert_eq!(w.get_column(), 2);
    assert!(row_text(&w, 24).starts_with("> "));
}

#[test]
fn backspace_after_two_characters_without_prompt() {
    let mut w = Writer::new();
    w.write_string("xy");
    w.remove_previous_symbol();
    assert_eq!(w.get_column(), 1);
    assert!(row_text(&w, 24).starts_with("x "));
}

#[test]
fn backspace_at_row_start_moves_text_down() {
    let mut w = Writer::new();
    w.write_string("top\nq");
    w.remove_previous_symbol();
    assert_eq!(w.get_column(), BUFFER_WIDTH);
    assert!(row_text(&w, 24).starts_with("top "));
    assert_eq!(row_text(&w, 23), " ".repeat(BUFFER_WIDTH));
}

#[test]
fn screen_color_blanks_everything() {
    let mut w = Writer::new();
    w.write_string("text");
    w.set_screen_color(Color::Blue);
    assert_eq!(w.get_column(), 0);
    assert_eq!(w.screen_char(0, 0), ScreenChar { ascii_character: b' ', color_code: 0x1F });
    assert_eq!(w.screen_char(24, 1), ScreenChar { ascii_character: b' ', color_code: 0x1F });
    w.write_byte(b'k');
    assert_eq!(w.screen_char(24, 0).color_code, WHITE_ON_BLACK);
}

#[test]
fn fault_screen_texts_are_placed() {
    let mut w = Writer::new();
    w.set_screen_color(Color::Blue);
    w.bsod_panic_message("boom");
    w.bsod_title();
    let title: String = (31..49).map(|c| w.screen_char(8, c).ascii_character as char).collect();
    assert_eq!(title, "VertexDOS panicked");
    assert_eq!(w.screen_char(8, 31).color_code, 0xF1);
    let message: String = (25..29).map(|c| w.screen_char(12, c).ascii_character as char).collect();
    assert_eq!(message, "boom");
    assert_eq!(w.screen_char(12, 25).color_code, 0x1F);
    w.reset_color();
    w.write_byte(b'z');
    assert_eq!(w.screen_char(24, 0).color_code, WHITE_ON_BLACK);
}

#[test]
fn long_fault_message_starts_at_the_left_and_wraps() {
    let mut w = Writer::new();
    let long = "x".repeat(90);
    w.bsod_panic_message(&long);
    assert_eq!(w.screen_char(12, 0).ascii_character, b'x');
    assert_eq!(w.screen_char(12, 79).ascii_character, b'x');
    assert_eq!(w.screen_char(13, 9).ascii_character, b'x');
    assert_eq!(w.screen_char(13, 10).ascii_character, b' ');
}

#[test]
fn write_string_at_scrolls_below_the_screen() {
    let mut w = Writer::new();
    w.write_string_at("a\nb", 5, 24);
    assert_eq!(w.screen_char(23, 5).ascii_character, b'a');
    assert_eq!(w.screen_char(24, 0).ascii_character, b'b');
    assert_eq!(w.get_column(), 0);
}

#[test]
fn write_byte_at_keeps_the_cursor() {
    let mut w = Writer::new();
    w.set_column(7);
    w.write_byte_at(b'#', 3, 4);
    assert_eq!(w.screen_char(4, 3).ascii_character, b'#');
    assert_eq!(w.get_column(), 7);
}

#[test]
fn timer_divisor_and_bytes() {
    assert_eq!(pit_divisor(440), 2711);
    assert_eq!(pit_divisor(1), 1193180);
    assert_eq!(divisor_bytes(2711), (151, 10));
    assert_eq!(divisor_bytes(0x12345), (0x45, 0x23));
}

#[test]
fn speaker_bits() {
    assert_eq!(speaker_on(0b1010_0000), 0b1010_0011);
    assert_eq!(speaker_off(0xFF), 0xFC);
}
