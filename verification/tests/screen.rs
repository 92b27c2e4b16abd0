use vga_buf::{Alignment, AsciiChar, Color, Screen, BUF_HEIGHT, BUF_WIDTH};

fn glyph(screen: &Screen, row: u32, col: u32) -> u8 {
    screen.read_char(row * BUF_WIDTH + col).char_byte
}

fn attr(screen: &Screen, row: u32, col: u32) -> u8 {
    screen.read_char(row * BUF_WIDTH + col).color_byte
}

#[test]
fn left_alignment_places_from_column_zero() {
    let mut screen = Screen::new(Color::White, Color::Black, Alignment::Left);
    screen.print("AB");
    assert_eq!(glyph(&screen, 0, 0), b'A');
    assert_eq!(glyph(&screen, 0, 1), b'B');
    assert_eq!(glyph(&screen, 0, 2), 0);
    assert_eq!(attr(&screen, 0, 0), 0x0f);
    assert_eq!(screen.chars_on_current_row(), 2);
}

#[test]
fn right_alignment_keeps_last_bytes_at_edge() {
    let mut screen = Screen::new(Color::White, Color::Black, Alignment::Right);
    screen.print("AB");
    assert_eq!(glyph(&screen, 0, BUF_WIDTH - 1), b'B');
    assert_eq!(glyph(&screen, 0, BUF_WIDTH - 2), b'A');
    assert_eq!(glyph(&screen, 0, BUF_WIDTH - 3), 0);
}

#[test]
fn right_alignment_overflow_drops_first_byte() {
    let mut screen = Screen::new(Color::White, Color::Black, Alignment::Right);
    let bytes: Vec<u8> = (33..33 + BUF_WIDTH as u8 + 1).collect();
    let text = String::from_utf8(bytes.clone()).unwrap();
    screen.print(&text);
    for col in 0..BUF_WIDTH {
        assert_eq!(glyph(&screen, 0, col), bytes[col as usize + 1]);
    }
    assert_eq!(screen.chars_on_current_row(), BUF_WIDTH + 1);
}

#[test]
fn center_alignment_even_count() {
    let mut screen = Screen::new(Color::White, Color::Black, Alignment::Center);
    screen.print("AB");
    assert_eq!(glyph(&screen, 0, BUF_WIDTH / 2 - 2), b'A');
    assert_eq!(glyph(&screen, 0, BUF_WIDTH / 2 - 1), b'B');
    assert_eq!(glyph(&screen, 0, BUF_WIDTH / 2), 0);
}

#[test]
fn center_alignment_grows_alternately() {
    let mut screen = Screen::new(Color::White, Color::Black, Alignment::Center);
    screen.print("ABC");
    assert_eq!(glyph(&screen, 0, BUF_WIDTH / 2 - 2), b'A');
    assert_eq!(glyph(&screen, 0, BUF_WIDTH / 2 - 1), b'B');
    assert_eq!(glyph(&screen, 0, BUF_WIDTH / 2), b'C');
}

#[test]
fn line_feeds_advance_without_scroll() {
    let mut screen = Screen::new(Color::White, Color::Black, Alignment::Left);
    screen.print("X");
    assert_eq!(screen.current_row(), 0);
    assert_eq!(screen.chars_on_current_row(), 1);
    for k in 1..BUF_HEIGHT {
        screen.print("\n");
        assert_eq!(screen.current_row(), k);
        assert_eq!(screen.chars_on_current_row(), 0);
    }
    assert_eq!(screen.current_row(), BUF_HEIGHT - 1);
    assert_eq!(glyph(&screen, 0, 0), b'X');
}

#[test]
fn scroll_moves_each_row_up_and_blanks_the_last() {
    let mut screen = Screen::new(Color::White, Color::Black, Alignment::Left);
    for row in 0..BUF_HEIGHT {
        for col in 0..BUF_WIDTH {
            screen.write_char(
                row * BUF_WIDTH + col,
                AsciiChar { char_byte: b'A' + row as u8, color_byte: 0x0f },
            );
        }
    }
    for _ in 1..BUF_HEIGHT {
        screen.print("\n");
    }
    assert_eq!(screen.current_row(), BUF_HEIGHT - 1);
    screen.print("\n");
    assert_eq!(screen.current_row(), BUF_HEIGHT - 1);
    assert_eq!(screen.chars_on_current_row(), 0);
    for row in 0..BUF_HEIGHT - 1 {
        for col in 0..BUF_WIDTH {
            assert_eq!(glyph(&screen, row, col), b'A' + row as u8 + 1);
        }
    }
    for col in 0..BUF_WIDTH {
        assert_eq!(glyph(&screen, BUF_HEIGHT - 1, col), 0);
        assert_eq!(attr(&screen, BUF_HEIGHT - 1, col), 0x0f);
    }
}

#[test]
fn total_write_left_spills_across_rows() {
    let mut screen = Screen::new(Color::White, Color::Black, Alignment::Left);
    let text = "a".repeat(1000);
    screen.print(&text);
    assert_eq!(screen.current_row(), 0);
    assert_eq!(screen.chars_on_current_row(), 1000);
    assert_eq!(glyph(&screen, 0, 0), b'a');
    assert_eq!(glyph(&screen, 12, 39), b'a');
    assert_eq!(glyph(&screen, 12, 40), 0);
}

#[test]
fn total_write_right_keeps_counting() {
    let mut screen = Screen::new(Color::White, Color::Black, Alignment::Right);
    let text = "b".repeat(1000);
    screen.print(&text);
    assert_eq!(screen.current_row(), 0);
    assert_eq!(screen.chars_on_current_row(), 1000);
    for col in 0..BUF_WIDTH {
        assert_eq!(glyph(&screen, 0, col), b'b');
    }
}

#[test]
fn hello_world_writes_greeting() {
    let mut screen = Screen::new(Color::White, Color::Black, Alignment::Left);
    screen.print_hello_world();
    let expected = b"Hello world!";
    for (k, want) in expected.iter().enumerate() {
        assert_eq!(glyph(&screen, 0, k as u32), *want);
        assert_eq!(attr(&screen, 0, k as u32), 0x0f);
    }
    assert_eq!(glyph(&screen, 0, expected.len() as u32), 0);
    assert_eq!(screen.chars_on_current_row(), 0);
}

#[test]
fn write_and_read_cell_roundtrip() {
    let mut screen = Screen::new(Color::White, Color::Black, Alignment::Left);
    screen.write_char(123, AsciiChar { char_byte: 7, color_byte: 0x42 });
    let cell = screen.read_char(123);
    assert_eq!(cell.char_byte, 7);
    assert_eq!(cell.color_byte, 0x42);
}

#[test]
fn new_screen_is_blank_with_chosen_colors() {
    let screen = Screen::new(Color::LightGreen, Color::Black, Alignment::Right);
    assert_eq!(screen.current_row(), 0);
    assert_eq!(screen.chars_on_current_row(), 0);
    assert_eq!(screen.read_char(0).char_byte, 0);
    assert_eq!(screen.read_char(0).color_byte, 0x0a);
    assert_eq!(screen.read_char(BUF_WIDTH * BUF_HEIGHT - 1).char_byte, 0);
    assert_eq!(screen.read_char(BUF_WIDTH * BUF_HEIGHT - 1).color_byte, 0x0a);
}

#[test]
fn colors_pack_background_high_and_foreground_low() {
    let mut screen = Screen::new(Color::Blue, Color::Red, Alignment::Left);
    screen.print("x");
    assert_eq!(attr(&screen, 0, 0), 0x43);
    let mut screen = Screen::new(Color::Yellow, Color::DarkGrey, Alignment::Left);
    screen.print("x");
    assert_eq!(attr(&screen, 0, 0), 0x8e);
}

#[test]
fn left_line_break_resets_the_column() {
    let mut screen = Screen::new(Color::White, Color::Black, Alignment::Left);
    screen.print("AB\nC");
    assert_eq!(glyph(&screen, 0, 0), b'A');
    assert_eq!(glyph(&screen, 0, 1), b'B');
    assert_eq!(glyph(&screen, 1, 0), b'C');
    assert_eq!(screen.current_row(), 1);
    assert_eq!(screen.chars_on_current_row(), 1);
}

#[test]
fn center_alignment_works_on_lower_rows() {
    let mut screen = Screen::new(Color::White, Color::Black, Alignment::Center);
    screen.print("\nAB");
    assert_eq!(glyph(&screen, 1, BUF_WIDTH / 2 - 2), b'A');
    assert_eq!(glyph(&screen, 1, BUF_WIDTH / 2 - 1), b'B');
    assert_eq!(glyph(&screen, 0, BUF_WIDTH / 2 - 2), 0);
    assert_eq!(screen.current_row(), 1);
}

#[test]
fn multi_byte_text_is_written_byte_by_byte() {
    let mut screen = Screen::new(Color::White, Color::Black, Alignment::Left);
    screen.print("é");
    assert_eq!(glyph(&screen, 0, 0), 0xc3);
    assert_eq!(glyph(&screen, 0, 1), 0xa9);
    assert_eq!(screen.chars_on_current_row(), 2);
}

#[test]
fn right_aligned_lines_like_the_boot_banner() {
    let mut screen = Screen::new(Color::LightGreen, Color::Black, Alignment::Right);
    screen.print("Number 0\nNumber 1\n");
    let row0: Vec<u8> = (72..80).map(|col| glyph(&screen, 0, col)).collect();
    assert_eq!(&row0, b"Number 0");
    let row1: Vec<u8> = (72..80).map(|col| glyph(&screen, 1, col)).collect();
    assert_eq!(&row1, b"Number 1");
    assert_eq!(screen.current_row(), 2);
    assert_eq!(screen.chars_on_current_row(), 0);
}
