use lib::vga::{
    clear_screen, format_decimal, print_args, print_err, print_err_fmt, print_highlighted,
    println_args, set_background, set_foreground, Color, ScreenCharacter, ScreenWriter,
};

fn text_at(w: &ScreenWriter, pos: usize, len: usize) -> Vec<u8> {
    (pos..pos + len).map(|i| w.screen_char_at(i).character).collect()
}

#[test]
fn color_byte_puts_background_high() {
    let c = ScreenCharacter::new(b'A', Color::White, Color::Red);
    assert_eq!(c.character, b'A');
    assert_eq!(c.color, 0x4f);
    assert_eq!(ScreenCharacter::new(b' ', Color::Green, Color::Black).color, 0x02);
    assert_eq!(Color::Yellow.number(), 14);
}

#[test]
fn printing_writes_at_the_cursor() {
    let mut w = ScreenWriter::new();
    print_args(&mut w, "hi");
    assert_eq!(text_at(&w, 0, 2), b"hi".to_vec());
    assert_eq!(w.screen_char_at(0).color, 0x02);
    assert_eq!((w.row(), w.col()), (0, 2));
    assert_eq!(w.cursor(), 2);
}

#[test]
fn newline_moves_to_next_row_and_blanks_the_rest() {
    let mut w = ScreenWriter::new();
    print_args(&mut w, "a\nb");
    assert_eq!(w.screen_char_at(0).character, b'a');
    assert_eq!(w.screen_char_at(1).character, b' ');
    assert_eq!(w.screen_char_at(79).character, b' ');
    assert_eq!(w.screen_char_at(80).character, b'b');
    assert_eq!((w.row(), w.col()), (1, 1));
    assert_eq!(w.cursor(), 81);
}

#[test]
fn carriage_return_goes_to_row_start() {
    let mut w = ScreenWriter::new();
    print_args(&mut w, "abc\rX");
    assert_eq!(text_at(&w, 0, 3), b"Xbc".to_vec());
    assert_eq!(w.col(), 1);
}

#[test]
fn backspace_steps_back_and_wraps_to_previous_row() {
    let mut w = ScreenWriter::new();
    print_args(&mut w, "ab\x08");
    assert_eq!(w.col(), 1);
    print_args(&mut w, "\n\x08");
    assert_eq!((w.row(), w.col()), (0, 79));
    let mut v = ScreenWriter::new();
    print_args(&mut v, "\x08");
    assert_eq!((v.row(), v.col()), (0, 0));
}

#[test]
fn full_row_wraps_to_the_next() {
    let mut w = ScreenWriter::new();
    let row: String = std::iter::repeat('x').take(80).collect();
    print_args(&mut w, &row);
    assert_eq!((w.row(), w.col()), (1, 0));
    assert_eq!(w.screen_char_at(79).character, b'x');
}

#[test]
fn writing_past_the_last_row_scrolls() {
    let mut w = ScreenWriter::new();
    print_args(&mut w, "top\n");
    for _ in 0..24 {
        print_args(&mut w, "\n");
    }
    assert_eq!(w.row(), 24);
    assert_eq!(w.screen_char_at(0).character, b' ');
    print_args(&mut w, "end");
    assert_eq!(text_at(&w, 24 * 80, 3), b"end".to_vec());
}

#[test]
fn scrolling_moves_rows_up() {
    let mut w = ScreenWriter::new();
    print_args(&mut w, "first\nsecond");
    w.shift_rows_up();
    assert_eq!(text_at(&w, 0, 6), b"second".to_vec());
    assert_eq!(w.screen_char_at(24 * 80).character, b' ');
}

#[test]
fn clear_screen_blanks_everything() {
    let mut w = ScreenWriter::new();
    print_args(&mut w, "some text\nmore");
    set_background(&mut w, Color::Blue);
    clear_screen(&mut w);
    assert_eq!((w.row(), w.col(), w.cursor()), (0, 0, 0));
    for i in [0usize, 5, 80, 1999] {
        assert_eq!(w.screen_char_at(i).character, b' ');
        assert_eq!(w.screen_char_at(i).color, 0x12);
    }
}

#[test]
fn clear_line_leaves_cursor() {
    let mut w = ScreenWriter::new();
    print_args(&mut w, "abc\ndef");
    w.clear_line(0);
    assert_eq!(w.screen_char_at(0).character, b' ');
    assert_eq!(w.screen_char_at(80).character, b'd');
    assert_eq!((w.row(), w.col()), (1, 3));
}

#[test]
fn colors_can_be_changed() {
    let mut w = ScreenWriter::new();
    set_foreground(&mut w, Color::Yellow);
    set_background(&mut w, Color::Blue);
    assert_eq!(w.foreground(), Color::Yellow);
    assert_eq!(w.background(), Color::Blue);
    print_args(&mut w, "y");
    assert_eq!(w.screen_char_at(0).color, 0x1e);
}

#[test]
fn println_ends_with_a_newline() {
    let mut w = ScreenWriter::new();
    println_args(&mut w, "ok");
    assert_eq!((w.row(), w.col(), w.cursor()), (1, 0, 80));
}

#[test]
fn error_report_is_white_on_red_and_colors_return() {
    let mut w = ScreenWriter::new();
    print_err(&mut w, "bad", "main.rs", 42);
    let expected = b"Error: bad in main.rs at line 42";
    assert_eq!(text_at(&w, 0, expected.len()), expected.to_vec());
    assert_eq!(w.screen_char_at(0).color, 0x4f);
    assert_eq!(w.foreground(), Color::Green);
    assert_eq!(w.background(), Color::Black);
    assert_eq!(w.cursor(), expected.len());
}

#[test]
fn formatted_error_report_has_the_same_shape() {
    let mut w = ScreenWriter::new();
    print_err_fmt(&mut w, "code 7", "lib.rs", 0);
    let expected = b"Error: code 7 in lib.rs at line 0";
    assert_eq!(text_at(&w, 0, expected.len()), expected.to_vec());
}

#[test]
fn highlighted_text_restores_colors() {
    let mut w = ScreenWriter::new();
    print_highlighted(&mut w, b"!");
    assert_eq!(w.screen_char_at(0).color, 0x4f);
    assert_eq!(w.foreground(), Color::Green);
}

#[test]
fn decimal_digits() {
    assert_eq!(format_decimal(0), b"0".to_vec());
    assert_eq!(format_decimal(42), b"42".to_vec());
    assert_eq!(format_decimal(u64::MAX), u64::MAX.to_string().into_bytes());
}

#[test]
fn writing_in_pieces_equals_writing_at_once() {
    let mut a = ScreenWriter::new();
    let mut b = ScreenWriter::new();
    print_args(&mut a, "ab\ncd");
    print_args(&mut b, "ab");
    print_args(&mut b, "\ncd");
    assert_eq!((a.row(), a.col(), a.cursor()), (b.row(), b.col(), b.cursor()));
    for i in 0..2000 {
        assert_eq!(a.screen_char_at(i), b.screen_char_at(i));
    }
}
