use oatmeal::ui::{new_buffer, Cell, Color};

fn text(chars: Vec<char>) -> String {
    chars.into_iter().collect()
}

#[test]
fn new_buffer_is_blank() {
    let b = new_buffer(3, 2);
    assert_eq!(b.width(), 3);
    assert_eq!(b.height(), 2);
    for row in 0..2 {
        for col in 0..3 {
            assert_eq!(b.cell(row, col), Cell { symbol: ' ', fg: Color::Black, bg: Color::Black });
        }
    }
}

#[test]
fn print_symbol_sets_one_cell() {
    let mut b = new_buffer(3, 2);
    b.print_symbol(1, 2, 'x', Color::Red, Color::Yellow);
    assert_eq!(b.cell(1, 2), Cell { symbol: 'x', fg: Color::Red, bg: Color::Yellow });
    assert_eq!(b.cell(0, 2).symbol, ' ');
    assert_eq!(b.cell(1, 1).symbol, ' ');
}

#[test]
fn print_centered_places_text_around_the_middle() {
    let mut b = new_buffer(10, 5);
    b.print_centered("abcd", -1);
    // Row 5 / 2 - 1 = 1, starting at column 10 / 2 - 4 / 2 = 3.
    let row: String = (0..10).map(|c| b.cell(1, c).symbol).collect();
    assert_eq!(row, "   abcd   ");
    assert_eq!(b.cell(1, 3), Cell { symbol: 'a', fg: Color::White, bg: Color::Black });
    let other: String = (0..10).map(|c| b.cell(2, c).symbol).collect();
    assert_eq!(other, "          ");
}

#[test]
fn print_centered_odd_length() {
    let mut b = new_buffer(9, 3);
    b.print_centered("abc", 1);
    // Row 3 / 2 + 1 = 2, starting at column 9 / 2 - 3 / 2 = 3.
    let row: String = (0..9).map(|c| b.cell(2, c).symbol).collect();
    assert_eq!(row, "   abc   ");
}

#[test]
fn print_lower_left_writes_banner_with_trailing_blank() {
    let mut b = new_buffer(8, 3);
    b.print_lower_left("Wall");
    for col in 0..4 {
        assert_eq!(b.cell(2, col).bg, Color::Yellow);
        assert_eq!(b.cell(2, col).fg, Color::Black);
    }
    let row: String = (0..8).map(|c| b.cell(2, c).symbol).collect();
    assert_eq!(row, "Wall    ");
    assert_eq!(b.cell(2, 4), Cell { symbol: ' ', fg: Color::Black, bg: Color::Yellow });
    assert_eq!(b.cell(2, 5), Cell { symbol: ' ', fg: Color::Black, bg: Color::Black });
    assert_eq!(b.cell(1, 0).bg, Color::Black);
}

#[test]
fn color_escape_codes() {
    assert_eq!(Color::Red.fg(), "\x1b[31m");
    assert_eq!(Color::White.fg(), "\x1b[37m");
    assert_eq!(Color::Black.fg(), "\x1b[30m");
    assert_eq!(Color::Green.fg(), "\x1b[30m");
    assert_eq!(Color::Yellow.bg(), "\x1b[43m");
    assert_eq!(Color::Black.bg(), "\x1b[40m");
    assert_eq!(Color::Red.bg(), "\x1b[40m");
}

#[test]
fn render_text_emits_colors_only_on_change() {
    let mut b = new_buffer(3, 1);
    b.print_symbol(0, 1, '@', Color::Red, Color::Black);
    b.print_symbol(0, 2, '#', Color::Red, Color::Yellow);
    assert_eq!(
        text(b.render_text()),
        "\x1b[30m\x1b[40m \x1b[31m@\x1b[43m#\x1b[0m"
    );
}

#[test]
fn render_text_of_empty_buffer_is_reset_only() {
    let b = new_buffer(0, 0);
    assert_eq!(text(b.render_text()), "\x1b[0m");
}

#[test]
fn render_text_of_blank_buffer() {
    let b = new_buffer(2, 2);
    assert_eq!(text(b.render_text()), "\x1b[30m\x1b[40m    \x1b[0m");
}
