use oatmeal::game::{new_game, Level, Outcome, LEVEL_COUNT};
use oatmeal::level::CommandResult;
use oatmeal::ui::{Color, Key};

fn row_text(b: &oatmeal::ui::Buffer, row: usize) -> String {
    (0..b.width()).map(|c| b.cell(row, c).symbol).collect()
}

#[test]
fn welcome_q_ends_the_run() {
    let mut g = new_game(80, 24);
    assert_eq!(g.handle_key(Key::Char('q')), Outcome::Finished);
    assert_eq!(g.level_index, 0);
    assert!(matches!(g.level, Level::Welcome));
}

#[test]
fn welcome_ignores_other_keys() {
    let mut g = new_game(80, 24);
    assert_eq!(g.handle_key(Key::Char('x')), Outcome::Wait);
    assert_eq!(g.handle_key(Key::Esc), Outcome::Wait);
    assert!(matches!(g.level, Level::Welcome));
}

#[test]
fn welcome_n_enters_the_dungeon() {
    let mut g = new_game(80, 24);
    assert_eq!(g.handle_key(Key::Char('n')), Outcome::Redraw);
    assert_eq!(g.level_index, 1);
    match &g.level {
        Level::Dungeon(d) => {
            assert_eq!((d.player_row, d.player_col), (1, 1));
            assert_eq!(d.level_index, 1);
            assert_eq!((d.buffer_width, d.buffer_height), (80, 24));
            assert!(!d.lookup_entity(1, 1).blocks);
        }
        _ => panic!("expected the dungeon"),
    }
}

#[test]
fn escape_in_dungeon_leads_to_farewell_then_quit() {
    let mut g = new_game(80, 24);
    g.handle_key(Key::Char('n'));
    assert_eq!(g.handle_key(Key::Right), Outcome::Redraw);
    assert_eq!(g.handle_key(Key::Char('z')), Outcome::Wait);
    assert_eq!(g.handle_key(Key::Esc), Outcome::Redraw);
    assert_eq!(g.level_index, 2);
    assert!(matches!(g.level, Level::Farewell));
    assert_eq!(g.handle_key(Key::Char('x')), Outcome::Finished);
}

#[test]
fn farewell_quits_on_any_key() {
    let mut level = Level::Farewell;
    assert_eq!(level.execute(Key::Left), CommandResult::Quit);
    assert_eq!(level.execute(Key::Char('n')), CommandResult::Quit);
}

#[test]
fn next_level_by_index() {
    let g = new_game(80, 24);
    assert!(matches!(g.next_level(0), Some(Level::Welcome)));
    assert!(matches!(g.next_level(1), Some(Level::Dungeon(_))));
    assert!(matches!(g.next_level(2), Some(Level::Farewell)));
    assert!(g.next_level(LEVEL_COUNT).is_none());
    assert!(g.next_level(1000).is_none());
}

#[test]
fn apply_result_transitions() {
    let mut g = new_game(80, 24);
    assert_eq!(g.apply_result(CommandResult::Handled), Outcome::Redraw);
    assert_eq!(g.apply_result(CommandResult::Ignored), Outcome::Wait);
    assert_eq!(g.apply_result(CommandResult::Next(2)), Outcome::Redraw);
    assert!(matches!(g.level, Level::Farewell));
    assert_eq!(g.apply_result(CommandResult::Next(0)), Outcome::Redraw);
    assert!(matches!(g.level, Level::Welcome));
    assert_eq!(g.level_index, 0);
    assert_eq!(g.apply_result(CommandResult::Next(3)), Outcome::Finished);
    assert_eq!(g.level_index, 0);
    assert_eq!(g.apply_result(CommandResult::Quit), Outcome::Finished);
}

#[test]
fn welcome_screen_text() {
    let g = new_game(80, 24);
    let b = g.get_buffer();
    assert_eq!(b.width(), 80);
    assert_eq!(b.height(), 24);
    let top = row_text(&b, 11);
    assert_eq!(top.trim_end(), format!("{}10K Types of Oatmeal", " ".repeat(30)));
    let bottom = row_text(&b, 13);
    assert_eq!(bottom.trim_end(), format!("{}('n' for next, 'q' to quit)", " ".repeat(27)));
    assert_eq!(b.cell(11, 30).fg, Color::White);
    assert_eq!(row_text(&b, 12).trim(), "");
}

#[test]
fn farewell_screen_text() {
    let level = Level::Farewell;
    let b = level.get_buffer(40, 10);
    assert_eq!(row_text(&b, 4).trim_end(), format!("{}Goodbye!", " ".repeat(16)));
    assert_eq!(row_text(&b, 6).trim_end(), format!("{}(Press any key to quit)", " ".repeat(9)));
}

#[test]
fn text_that_does_not_fit_is_left_out() {
    let level = Level::Welcome;
    let b = level.get_buffer(10, 1);
    assert_eq!(row_text(&b, 0), "          ");
}
