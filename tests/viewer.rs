use hexview::viewer::{command_for_key, visible_range, Command, CursorPosition, Flow, Key, Viewer};

fn at(col: u16, row: u16, start_row: usize) -> Viewer {
    Viewer { cursor: CursorPosition(col, row), start_row }
}

#[test]
fn new_viewer_starts_at_origin() {
    assert_eq!(Viewer::new(), at(0, 0, 0));
}

#[test]
fn keys_map_to_commands() {
    assert_eq!(command_for_key(Key::Char('c'), true), Command::Quit);
    assert_eq!(command_for_key(Key::Char('d'), true), Command::Quit);
    assert_eq!(command_for_key(Key::Char('c'), false), Command::Nothing);
    assert_eq!(command_for_key(Key::Char('h'), false), Command::Left);
    assert_eq!(command_for_key(Key::Char('l'), false), Command::Right);
    assert_eq!(command_for_key(Key::Char('k'), false), Command::Up);
    assert_eq!(command_for_key(Key::Char('j'), false), Command::Down);
    assert_eq!(command_for_key(Key::Char('x'), false), Command::Nothing);
    assert_eq!(command_for_key(Key::Home, false), Command::Home);
    assert_eq!(command_for_key(Key::End, false), Command::End);
    assert_eq!(command_for_key(Key::Other, true), Command::Nothing);
}

#[test]
fn quit_key_ends_loop_from_any_state() {
    for s in [at(0, 0, 0), at(7, 3, 12), at(79, 23, 400)] {
        let mut v = s;
        assert_eq!(v.handle_key(Key::Char('c'), true, 1000, 80, 24), Flow::Quit);
        assert_eq!(v, s);
        assert_eq!(v.handle_key(Key::Char('d'), true, 0, 80, 24), Flow::Quit);
        assert_eq!(v, s);
    }
}

#[test]
fn other_keys_continue() {
    let mut v = at(5, 5, 5);
    assert_eq!(v.handle_key(Key::Char('c'), false, 100, 80, 24), Flow::Continue);
    assert_eq!(v.handle_key(Key::Other, false, 100, 80, 24), Flow::Continue);
    assert_eq!(v, at(5, 5, 5));
}

#[test]
fn left_then_right_returns_to_column() {
    for c in 0..40u16 {
        for k in 0..=c {
            let mut v = at(c, 2, 3);
            for _ in 0..k {
                v.apply(Command::Left, 80, 24, 100);
            }
            assert_eq!(v.cursor.0, c - k);
            for _ in 0..k {
                v.apply(Command::Right, 80, 24, 100);
            }
            assert_eq!(v, at(c, 2, 3));
        }
    }
}

#[test]
fn left_stops_at_column_zero() {
    let mut v = at(1, 0, 0);
    v.apply(Command::Left, 80, 24, 10);
    v.apply(Command::Left, 80, 24, 10);
    assert_eq!(v.cursor.0, 0);
    v.apply(Command::Right, 80, 24, 10);
    assert_eq!(v.cursor.0, 1);
}

#[test]
fn right_stops_at_last_column() {
    let mut v = at(78, 0, 0);
    v.apply(Command::Right, 80, 24, 10);
    assert_eq!(v.cursor.0, 79);
    v.apply(Command::Right, 80, 24, 10);
    assert_eq!(v.cursor.0, 79);
    let mut v = at(100, 0, 0);
    v.apply(Command::Right, 80, 24, 10);
    assert_eq!(v.cursor.0, 79);
}

#[test]
fn down_moves_cursor_then_scrolls_to_last_screenful() {
    let mut v = Viewer::new();
    let (h, r) = (3u16, 5usize);
    v.apply(Command::Down, 80, h, r);
    assert_eq!(v, at(0, 1, 0));
    v.apply(Command::Down, 80, h, r);
    assert_eq!(v, at(0, 2, 0));
    v.apply(Command::Down, 80, h, r);
    assert_eq!(v, at(0, 2, 1));
    v.apply(Command::Down, 80, h, r);
    assert_eq!(v, at(0, 2, 2));
    for _ in 0..10 {
        v.apply(Command::Down, 80, h, r);
        assert_eq!(v, at(0, 2, 2));
    }
}

#[test]
fn up_moves_cursor_then_scrolls_to_first_row() {
    let mut v = at(4, 2, 3);
    v.apply(Command::Up, 80, 3, 10);
    assert_eq!(v, at(4, 1, 3));
    v.apply(Command::Up, 80, 3, 10);
    assert_eq!(v, at(4, 0, 3));
    for s in (0..3).rev() {
        v.apply(Command::Up, 80, 3, 10);
        assert_eq!(v, at(4, 0, s));
    }
    v.apply(Command::Up, 80, 3, 10);
    assert_eq!(v, at(4, 0, 0));
}

#[test]
fn down_in_short_buffer_never_scrolls() {
    let mut v = at(0, 23, 0);
    v.apply(Command::Down, 80, 24, 5);
    assert_eq!(v, at(0, 23, 0));
}

#[test]
fn end_and_home_jump() {
    let mut v = at(3, 4, 7);
    v.apply(Command::End, 80, 24, 100);
    assert_eq!(v, at(3, 4, 76));
    v.apply(Command::End, 80, 24, 100);
    assert_eq!(v, at(3, 4, 76));
    v.apply(Command::Home, 80, 24, 100);
    assert_eq!(v, at(3, 4, 0));
    v.apply(Command::Home, 80, 24, 100);
    assert_eq!(v, at(3, 4, 0));
}

#[test]
fn end_with_fewer_rows_than_viewport() {
    let mut v = at(0, 0, 2);
    v.apply(Command::End, 80, 24, 5);
    assert_eq!(v.start_row, 0);
    v.apply(Command::End, 80, 24, 24);
    assert_eq!(v.start_row, 0);
    v.apply(Command::End, 80, 24, 0);
    assert_eq!(v.start_row, 0);
}

#[test]
fn handle_key_uses_grid_of_buffer() {
    // 80 columns give 19 bytes per row: 190 bytes are 10 rows.
    let mut v = Viewer::new();
    assert_eq!(v.handle_key(Key::End, false, 190, 80, 4), Flow::Continue);
    assert_eq!(v.start_row, 6);
    v.handle_key(Key::Home, false, 190, 80, 4);
    assert_eq!(v.start_row, 0);
    v.handle_key(Key::Char('l'), false, 190, 80, 4);
    v.handle_key(Key::Char('j'), false, 190, 80, 4);
    assert_eq!(v, at(1, 1, 0));
}

#[test]
fn visible_range_stays_in_grid() {
    assert_eq!(visible_range(10, 0, 4), (0, 4));
    assert_eq!(visible_range(10, 6, 4), (6, 10));
    assert_eq!(visible_range(10, 8, 4), (8, 10));
    assert_eq!(visible_range(10, 12, 4), (10, 10));
    assert_eq!(visible_range(0, 0, 24), (0, 0));
    assert_eq!(visible_range(usize::MAX, usize::MAX - 1, 4), (usize::MAX - 1, usize::MAX));
}

#[test]
fn cursor_to_moveto() {
    let m = CursorPosition(7, 3).to_moveto();
    assert_eq!(m.0, 7);
    assert_eq!(m.1, 3);
}
