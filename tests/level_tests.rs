use oatmeal::level::{make_entities, CommandResult, DungeonLevel, DUNGEON_SIZE};
use oatmeal::map::{EMPTY, HERO, WALL};
use oatmeal::ui::{Cell, Color, Key};

fn row_text(b: &oatmeal::ui::Buffer, row: usize) -> String {
    (0..b.width()).map(|c| b.cell(row, c).symbol).collect()
}

#[test]
fn catalog_has_the_three_entries() {
    let e = make_entities();
    assert_eq!(e.len(), 3);
    assert_eq!(e[EMPTY].name, "An Empty Space");
    assert_eq!(e[EMPTY].symbol, ' ');
    assert_eq!(e[EMPTY].color, Color::Black);
    assert!(!e[EMPTY].blocks);
    assert_eq!(e[HERO].name, "Our Hero");
    assert_eq!(e[HERO].symbol, '@');
    assert_eq!(e[HERO].color, Color::Red);
    assert!(!e[HERO].blocks);
    assert_eq!(e[WALL].name, "A Wall");
    assert_eq!(e[WALL].symbol, '#');
    assert_eq!(e[WALL].color, Color::White);
    assert!(e[WALL].blocks);
}

#[test]
fn new_dungeon_layout() {
    let d = DungeonLevel::new(1, 80, 24);
    assert_eq!(d.current_map.width, DUNGEON_SIZE);
    assert_eq!(d.current_map.height, DUNGEON_SIZE);
    assert_eq!((d.player_row, d.player_col), (1, 1));
    assert_eq!((d.frame_top, d.frame_left), (0, 0));
    assert!(!d.looking);
    assert_eq!(d.current_map.get(1, 1), HERO);
    assert_eq!(d.current_map.get(0, 0), WALL);
    assert_eq!(d.current_map.get(1, 2), EMPTY);
    assert_eq!(d.current_map.get(8, 8), EMPTY);
    assert_eq!(d.current_map.get(9, 9), WALL);
    assert_eq!(d.current_map.get(5, 9), EMPTY);
    assert_eq!(d.current_map.get(9, 5), EMPTY);
    assert_eq!(d.current_map.get(5, 899), EMPTY);
    assert_eq!(d.current_map.get(5, 909), WALL);
    assert_eq!(d.current_map.get(899, 5), EMPTY);
    assert_eq!(d.current_map.get(909, 5), WALL);
    assert_eq!(d.current_map.get(5, 1), EMPTY);
    assert_eq!(d.current_map.get(995, 995), EMPTY);
    assert_eq!(d.current_map.get(999, 500), WALL);
    assert_eq!(d.current_map.cells.iter().filter(|&&t| t == HERO).count(), 1);
}

#[test]
fn spawn_tile_does_not_block() {
    let d = DungeonLevel::new(1, 80, 24);
    let e = d.lookup_entity(d.player_row, d.player_col);
    assert!(!e.blocks);
    assert_eq!(e.name, "Our Hero");
}

#[test]
fn moving_right_stops_at_the_wall() {
    let mut d = DungeonLevel::new(1, 80, 24);
    let mut last_col = d.player_col;
    for _ in 0..20 {
        assert_eq!(d.execute(Key::Right), CommandResult::Handled);
        assert!(d.player_col >= last_col);
        last_col = d.player_col;
    }
    assert_eq!(d.player_col, 8);
    assert_eq!(d.current_map.get(1, 9), WALL);
    assert_eq!(d.current_map.get(1, 8), HERO);
    assert_eq!(d.current_map.get(1, 1), EMPTY);
}

#[test]
fn blocked_move_changes_nothing_but_is_handled() {
    let mut d = DungeonLevel::new(1, 80, 24);
    let before = d.current_map.cells.clone();
    assert_eq!(d.execute(Key::Up), CommandResult::Handled);
    assert_eq!((d.player_row, d.player_col), (1, 1));
    assert_eq!(d.execute(Key::Left), CommandResult::Handled);
    assert_eq!((d.player_row, d.player_col), (1, 1));
    assert_eq!(d.current_map.cells, before);
    assert_eq!((d.frame_top, d.frame_left), (0, 0));
}

#[test]
fn move_updates_grid_and_position() {
    let mut d = DungeonLevel::new(1, 80, 24);
    assert_eq!(d.execute(Key::Down), CommandResult::Handled);
    assert_eq!((d.player_row, d.player_col), (2, 1));
    assert_eq!(d.current_map.get(2, 1), HERO);
    assert_eq!(d.current_map.get(1, 1), EMPTY);
}

#[test]
fn camera_follows_the_player() {
    let mut d = DungeonLevel::new(1, 5, 5);
    let expected_top = [0, 0, 1, 2];
    for top in expected_top {
        d.execute(Key::Down);
        assert_eq!(d.frame_top, top);
    }
    assert_eq!(d.player_row, 5);
    let expected_left = [0, 0, 1, 2];
    for left in expected_left {
        d.execute(Key::Right);
        assert_eq!(d.frame_left, left);
    }
    assert_eq!(d.player_col, 5);
    let expected_back = [2, 2, 1, 0];
    for left in expected_back {
        d.execute(Key::Left);
        assert_eq!(d.frame_left, left);
    }
    assert_eq!(d.player_col, 1);
}

#[test]
fn camera_keeps_player_inside_margins() {
    let mut d = DungeonLevel::new(1, 6, 4);
    for _ in 0..4 {
        d.execute(Key::Down);
    }
    for step in 0..40 {
        let key = if step % 10 < 7 { Key::Right } else { Key::Left };
        d.execute(key);
        let screen_col = d.player_col - d.frame_left;
        let screen_row = d.player_row - d.frame_top;
        assert!(screen_col <= 6 - 2);
        assert!(screen_row <= 4 - 2);
        if d.frame_left > 0 {
            assert!(screen_col >= 1);
        }
        if d.frame_top > 0 {
            assert!(screen_row >= 1);
        }
    }
}

#[test]
fn escape_and_q_go_to_next_level() {
    let mut d = DungeonLevel::new(1, 80, 24);
    assert_eq!(d.execute(Key::Esc), CommandResult::Next(2));
    assert_eq!(d.execute(Key::Char('q')), CommandResult::Next(2));
    let mut d7 = DungeonLevel::new(7, 80, 24);
    assert_eq!(d7.execute(Key::Esc), CommandResult::Next(8));
}

#[test]
fn unknown_keys_are_ignored() {
    let mut d = DungeonLevel::new(1, 80, 24);
    assert_eq!(d.execute(Key::Char('x')), CommandResult::Ignored);
    assert_eq!(d.execute(Key::Ctrl('c')), CommandResult::Ignored);
    assert_eq!(d.execute(Key::Alt('l')), CommandResult::Ignored);
    assert_eq!((d.player_row, d.player_col), (1, 1));
}

#[test]
fn look_mode_moves_the_cursor_not_the_player() {
    let mut d = DungeonLevel::new(1, 80, 24);
    assert_eq!(d.execute(Key::Char('l')), CommandResult::Handled);
    assert!(d.looking);
    assert_eq!((d.look_row, d.look_col), (1, 1));
    assert_eq!(d.execute(Key::Up), CommandResult::Handled);
    assert_eq!((d.look_row, d.look_col), (0, 1));
    assert_eq!(d.execute(Key::Up), CommandResult::Handled);
    assert_eq!((d.look_row, d.look_col), (0, 1));
    assert_eq!(d.execute(Key::Left), CommandResult::Handled);
    assert_eq!(d.execute(Key::Left), CommandResult::Handled);
    assert_eq!((d.look_row, d.look_col), (0, 0));
    assert_eq!(d.execute(Key::Down), CommandResult::Handled);
    assert_eq!(d.execute(Key::Right), CommandResult::Handled);
    assert_eq!((d.look_row, d.look_col), (1, 1));
    assert_eq!(d.execute(Key::Char('q')), CommandResult::Ignored);
    assert_eq!((d.player_row, d.player_col), (1, 1));
    assert_eq!(d.execute(Key::Esc), CommandResult::Handled);
    assert!(!d.looking);
}

#[test]
fn look_toggles_with_l() {
    let mut d = DungeonLevel::new(1, 80, 24);
    d.execute(Key::Char('l'));
    assert!(d.looking);
    d.execute(Key::Char('l'));
    assert!(!d.looking);
}

#[test]
fn dungeon_buffer_shows_the_map() {
    let d = DungeonLevel::new(1, 10, 5);
    let b = d.get_buffer(10, 5);
    assert_eq!(row_text(&b, 0), "##########");
    assert_eq!(row_text(&b, 1), "#@       #");
    assert_eq!(row_text(&b, 4), "#        #");
    assert_eq!(b.cell(1, 1), Cell { symbol: '@', fg: Color::Red, bg: Color::Black });
    assert_eq!(b.cell(0, 0), Cell { symbol: '#', fg: Color::White, bg: Color::Black });
}

#[test]
fn dungeon_buffer_beyond_the_grid_is_blank() {
    let d = DungeonLevel::new(1, 1002, 2);
    let b = d.get_buffer(1002, 2);
    assert_eq!(b.cell(0, 999).symbol, '#');
    assert_eq!(b.cell(0, 1000), Cell { symbol: ' ', fg: Color::Black, bg: Color::Black });
    assert_eq!(b.cell(1, 1001), Cell { symbol: ' ', fg: Color::Black, bg: Color::Black });
}

#[test]
fn look_shows_cursor_and_name_banner() {
    let mut d = DungeonLevel::new(1, 20, 6);
    d.execute(Key::Char('l'));
    let b = d.get_buffer(20, 6);
    assert_eq!(b.cell(1, 1), Cell { symbol: '@', fg: Color::Red, bg: Color::Yellow });
    assert_eq!(row_text(&b, 5), "Our Hero            ");
    for col in 0..9 {
        assert_eq!(b.cell(5, col).bg, Color::Yellow);
        assert_eq!(b.cell(5, col).fg, Color::Black);
    }
    assert_eq!(b.cell(5, 9).bg, Color::Black);
    d.execute(Key::Up);
    let b = d.get_buffer(20, 6);
    assert_eq!(b.cell(0, 1), Cell { symbol: '#', fg: Color::White, bg: Color::Yellow });
    assert_eq!(b.cell(1, 1).bg, Color::Black);
    assert_eq!(row_text(&b, 5), "A Wall              ");
}

#[test]
fn look_banner_is_left_out_where_it_does_not_fit() {
    let mut d = DungeonLevel::new(1, 5, 3);
    d.execute(Key::Char('l'));
    let b = d.get_buffer(5, 3);
    assert_eq!(b.cell(1, 1).bg, Color::Yellow);
    assert_eq!(row_text(&b, 2), "#    ");
}
