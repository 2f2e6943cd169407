use vstd::prelude::*;
use vstd::slice::slice_subrange;
use crate::grid::{chunks, row_count, spec_row, spec_row_count};
use crate::layout::{spec_layout, spec_row_width, Layout};
use crate::render::{render_frame, spec_row_cells, Cell};

verus! {

/// crossterm's `cursor::MoveTo`, a command holding a column and a row as its
/// two public `u16` fields.
#[verifier::external_type_specification]
pub struct ExMoveTo(crossterm::cursor::MoveTo);

/// Cursor cell in terminal coordinates: column, then row counted from the top
/// visible row.
#[derive(Clone, Copy, Debug, PartialEq, Eq, Structural)]
pub struct CursorPosition(pub u16, pub u16);

impl CursorPosition {
    /// The terminal command that puts the terminal cursor on this cell.
    pub fn to_moveto(&self) -> (r: crossterm::cursor::MoveTo)
        ensures
            r.0 == self.0,
            r.1 == self.1,
    {
        crossterm::cursor::MoveTo(self.0, self.1)
    }
}

/// A navigation command, one per key press.
#[derive(Clone, Copy, Debug, PartialEq, Eq, Structural)]
pub enum Command {
    Left,
    Right,
    Up,
    Down,
    Home,
    End,
    Quit,
    Nothing,
}

/// The keys that the viewer tells apart.
#[derive(Clone, Copy, Debug, PartialEq, Eq, Structural)]
pub enum Key {
    Char(char),
    Home,
    End,
    Other,
}

/// Whether the frame loop goes on after a command.
#[derive(Clone, Copy, Debug, PartialEq, Eq, Structural)]
pub enum Flow {
    Continue,
    Quit,
}

/// Command bound to `key`, pressed with Control held down or not: Ctrl+C and
/// Ctrl+D quit, `h` `l` `k` `j` move left, right, up and down, Home and End jump
/// to the first and last screenful; any other key does nothing.
pub open spec fn spec_command_for_key(key: Key, ctrl: bool) -> Command {
    match key {
        Key::Char(c) => {
            if c == 'c' || c == 'd' {
                if ctrl {
                    Command::Quit
                } else {
                    Command::Nothing
                }
            } else if c == 'h' {
                Command::Left
            } else if c == 'l' {
                Command::Right
            } else if c == 'k' {
                Command::Up
            } else if c == 'j' {
                Command::Down
            } else {
                Command::Nothing
            }
        },
        Key::Home => Command::Home,
        Key::End => Command::End,
        Key::Other => Command::Nothing,
    }
}

/// Maps a key press to its command.
pub fn command_for_key(key: Key, ctrl: bool) -> (r: Command)
    ensures
        r == spec_command_for_key(key, ctrl),
{
    match key {
        Key::Char(c) => {
            if c == 'c' || c == 'd' {
                if ctrl {
                    Command::Quit
                } else {
                    Command::Nothing
                }
            } else if c == 'h' {
                Command::Left
            } else if c == 'l' {
                Command::Right
            } else if c == 'k' {
                Command::Up
            } else if c == 'j' {
                Command::Down
            } else {
                Command::Nothing
            }
        },
        Key::Home => Command::Home,
        Key::End => Command::End,
        Key::Other => Command::Nothing,
    }
}

/// Cursor cell and first visible row.
#[derive(Clone, Copy, Debug, PartialEq, Eq, Structural)]
pub struct Viewer {
    pub cursor: CursorPosition,
    pub start_row: usize,
}

/// Largest `start_row` that still fills a viewport of `height` rows, or zero
/// when all `rows` fit.
pub open spec fn spec_last_start(rows: int, height: int) -> int {
    if rows > height {
        rows - height
    } else {
        0
    }
}

/// State after `cmd` on a terminal of `width` by `height` cells showing a grid
/// of `rows` rows.
pub open spec fn spec_step(s: Viewer, cmd: Command, width: int, height: int, rows: int) -> Viewer {
    let col = s.cursor.0 as int;
    let row = s.cursor.1 as int;
    let last_col = if width > 0 { width - 1 } else { 0 };
    let last_row = if height > 0 { height - 1 } else { 0 };
    match cmd {
        Command::Right => Viewer {
            cursor: CursorPosition(if col + 1 <= last_col { (col + 1) as u16 } else { last_col as u16 }, s.cursor.1),
            ..s
        },
        Command::Left => Viewer {
            cursor: CursorPosition(if col > 0 { (col - 1) as u16 } else { 0 }, s.cursor.1),
            ..s
        },
        Command::Down => {
            if row >= last_row {
                if s.start_row + height < rows {
                    Viewer { start_row: (s.start_row + 1) as usize, ..s }
                } else {
                    s
                }
            } else {
                Viewer { cursor: CursorPosition(s.cursor.0, (row + 1) as u16), ..s }
            }
        },
        Command::Up => {
            if row == 0 {
                Viewer { start_row: if s.start_row > 0 { (s.start_row - 1) as usize } else { 0 }, ..s }
            } else {
                Viewer { cursor: CursorPosition(s.cursor.0, (row - 1) as u16), ..s }
            }
        },
        Command::Home => Viewer { start_row: 0, ..s },
        Command::End => Viewer { start_row: spec_last_start(rows, height) as usize, ..s },
        Command::Quit => s,
        Command::Nothing => s,
    }
}

/// Number of rows of the grid of `n` bytes on a terminal `width` columns wide.
pub open spec fn spec_grid_rows(n: int, width: int) -> int {
    spec_row_count(n, spec_row_width(width))
}

/// Index into the grid of the top visible row.
pub open spec fn spec_first_visible(s: Viewer, n: int, width: int) -> int {
    spec_min(s.start_row as int, spec_grid_rows(n, width))
}

/// Number of grid rows that a viewport of `height` rows shows.
pub open spec fn spec_visible_count(s: Viewer, n: int, width: int, height: int) -> int {
    spec_min(s.start_row + height, spec_grid_rows(n, width)) - spec_first_visible(s, n, width)
}

/// State after `k` times `cmd`.
pub open spec fn spec_repeat(s: Viewer, cmd: Command, width: int, height: int, rows: int, k: nat) -> Viewer
    decreases k,
{
    if k == 0 {
        s
    } else {
        spec_step(spec_repeat(s, cmd, width, height, rows, (k - 1) as nat), cmd, width, height, rows)
    }
}

impl Viewer {
    /// Cursor on the top left cell, first row of the grid at the top.
    pub fn new() -> (r: Viewer)
        ensures
            r.cursor == CursorPosition(0, 0),
            r.start_row == 0,
    {
        Viewer { cursor: CursorPosition(0, 0), start_row: 0 }
    }

    /// Carries out `cmd` on a terminal of `width` by `height` cells showing a
    /// grid of `rows` rows; only the quit command ends the loop.
    pub fn apply(&mut self, cmd: Command, width: u16, height: u16, rows: usize) -> (r: Flow)
        ensures
            *final(self) == spec_step(*old(self), cmd, width as int, height as int, rows as int),
            r == Flow::Quit <==> cmd == Command::Quit,
            cmd == Command::Quit ==> *final(self) == *old(self),
    {
        let last_col: u16 = if width > 0 { width - 1 } else { 0 };
        let last_row: u16 = if height > 0 { height - 1 } else { 0 };
        match cmd {
            Command::Right => {
                self.cursor.0 = if self.cursor.0 < last_col { self.cursor.0 + 1 } else { last_col };
            },
            Command::Left => {
                self.cursor.0 = if self.cursor.0 > 0 { self.cursor.0 - 1 } else { 0 };
            },
            Command::Down => {
                if self.cursor.1 >= last_row {
                    if self.start_row < rows && rows - self.start_row > height as usize {
                        self.start_row = self.start_row + 1;
                    }
                } else {
                    self.cursor.1 = self.cursor.1 + 1;
                }
            },
            Command::Up => {
                if self.cursor.1 == 0 {
                    self.start_row = if self.start_row > 0 { self.start_row - 1 } else { 0 };
                } else {
                    self.cursor.1 = self.cursor.1 - 1;
                }
            },
            Command::Home => {
                self.start_row = 0;
            },
            Command::End => {
                self.start_row = if rows > height as usize { rows - height as usize } else { 0 };
            },
            Command::Quit => {
                return Flow::Quit;
            },
            Command::Nothing => {},
        }
        Flow::Continue
    }

    /// Reacts to one key press while a buffer of `n` bytes is shown on a
    /// terminal of `width` by `height` cells.
    pub fn handle_key(&mut self, key: Key, ctrl: bool, n: usize, width: u16, height: u16) -> (r: Flow)
        ensures
            *final(self) == spec_step(
                *old(self),
                spec_command_for_key(key, ctrl),
                width as int,
                height as int,
                spec_grid_rows(n as int, width as int),
            ),
            r == Flow::Quit <==> spec_command_for_key(key, ctrl) == Command::Quit,
            r == Flow::Quit ==> *final(self) == *old(self),
    {
        let cmd = command_for_key(key, ctrl);
        let layout = Layout::new(width);
        let rows = row_count(n, layout.row_width);
        self.apply(cmd, width, height, rows)
    }

    /// The cells of the frame that shows `bytes` on a terminal of `width` by
    /// `height` cells: visible row `v` is row `first + v` of the grid, where
    /// `first` is the scroll offset, kept within the grid.
    pub fn frame(&self, bytes: &[u8], width: u16, height: u16) -> (r: Vec<Vec<Cell>>)
        ensures
            r@.len() == spec_visible_count(*self, bytes@.len() as int, width as int, height as int),
            forall|v: int|
                0 <= v < r@.len() ==> spec_row_cells(
                    #[trigger] r@[v]@,
                    spec_row(
                        bytes@,
                        spec_row_width(width as int),
                        spec_first_visible(*self, bytes@.len() as int, width as int) + v,
                    ),
                    v,
                    spec_layout(width as int),
                    self.cursor,
                ),
    {
        let layout = Layout::new(width);
        let rows = chunks(bytes, layout.row_width);
        let (first, last) = visible_range(rows.len(), self.start_row, height);
        let visible = slice_subrange(rows.as_slice(), first, last);
        assert forall|v: int| 0 <= v < visible@.len() implies (#[trigger] visible@[v])@ == spec_row(
            bytes@,
            layout.row_width as int,
            first + v,
        ) by {
            assert(visible@[v] == rows@[first + v]);
        }
        render_frame(visible, &layout, &self.cursor)
    }
}

/// The smaller of two integers.
pub open spec fn spec_min(a: int, b: int) -> int {
    if a <= b {
        a
    } else {
        b
    }
}

/// The larger of two integers.
pub open spec fn spec_max(a: int, b: int) -> int {
    if a >= b {
        a
    } else {
        b
    }
}

/// `s` with the cursor moved to column `col`.
pub open spec fn spec_at_col(s: Viewer, col: int) -> Viewer {
    Viewer { cursor: CursorPosition(col as u16, s.cursor.1), ..s }
}

/// `s` scrolled so that row `start` of the grid is at the top.
pub open spec fn spec_at_start(s: Viewer, start: int) -> Viewer {
    Viewer { start_row: start as usize, ..s }
}

/// Rows `[first, last)` of a grid of `rows` rows that a viewport of `height`
/// rows starting at `start_row` shows: never past the end of the grid.
pub fn visible_range(rows: usize, start_row: usize, height: u16) -> (r: (usize, usize))
    ensures
        r.0 == spec_min(start_row as int, rows as int),
        r.1 == spec_min(start_row + height, rows as int),
        r.0 <= r.1 <= rows,
{
    let first: usize = if start_row <= rows { start_row } else { rows };
    let last: usize = if start_row <= rows && rows - start_row >= height as usize {
        start_row + height as usize
    } else {
        rows
    };
    (first, last)
}

/// Moving left `k` times goes `k` columns left and stops at column zero;
/// moving right `k` times goes `k` columns right and stops at the last column;
/// neither touches the row or the scroll offset.
pub proof fn lemma_horizontal_moves(s: Viewer, width: int, height: int, rows: int, k: nat)
    requires
        0 < width <= 65535,
        s.cursor.0 < width,
    ensures
        spec_repeat(s, Command::Left, width, height, rows, k) == spec_at_col(
            s,
            spec_max(s.cursor.0 - k, 0),
        ),
        spec_repeat(s, Command::Right, width, height, rows, k) == spec_at_col(
            s,
            spec_min(s.cursor.0 + k, width - 1),
        ),
    decreases k,
{
    if k > 0 {
        lemma_horizontal_moves(s, width, height, rows, (k - 1) as nat);
    }
}

/// From any column on screen, `k` moves left and then `k` moves right come back
/// to the same column, unless the moves left stopped at column zero.
pub proof fn lemma_left_then_right(s: Viewer, width: int, height: int, rows: int, k: nat)
    requires
        0 < width <= 65535,
        s.cursor.0 < width,
        k <= s.cursor.0,
    ensures
        spec_repeat(
            spec_repeat(s, Command::Left, width, height, rows, k),
            Command::Right,
            width,
            height,
            rows,
            k,
        ) == s,
{
    lemma_horizontal_moves(s, width, height, rows, k);
    let t = spec_repeat(s, Command::Left, width, height, rows, k);
    lemma_horizontal_moves(t, width, height, rows, k);
}

/// With the cursor on the bottom row of a viewport of `height` rows over a
/// grid of `rows > height` rows, `k` moves down scroll by one row each until the
/// last screenful, `rows - height`, is reached, and never further; the cursor
/// stays where it is.
pub proof fn lemma_scroll_down(s: Viewer, width: int, height: int, rows: int, k: nat)
    requires
        0 < height <= 65535,
        height < rows <= usize::MAX,
        s.cursor.1 == height - 1,
        s.start_row <= rows - height,
    ensures
        spec_repeat(s, Command::Down, width, height, rows, k) == spec_at_start(
            s,
            spec_min(s.start_row + k, rows - height),
        ),
    decreases k,
{
    if k > 0 {
        lemma_scroll_down(s, width, height, rows, (k - 1) as nat);
    }
}

/// With the cursor on the top row, `k` moves up scroll back by one row each
/// until the first row of the grid is at the top, and never further; the
/// cursor stays where it is.
pub proof fn lemma_scroll_up(s: Viewer, width: int, height: int, rows: int, k: nat)
    requires
        s.cursor.1 == 0,
    ensures
        spec_repeat(s, Command::Up, width, height, rows, k) == spec_at_start(
            s,
            spec_max(s.start_row - k, 0),
        ),
    decreases k,
{
    if k > 0 {
        lemma_scroll_up(s, width, height, rows, (k - 1) as nat);
    }
}

/// End scrolls to `max(rows - height, 0)`, Home to zero, neither moves the
/// cursor, and doing either twice is the same as doing it once.
pub proof fn lemma_jumps(s: Viewer, width: int, height: int, rows: int)
    requires
        0 <= height,
        0 <= rows <= usize::MAX,
    ensures
        spec_step(s, Command::End, width, height, rows) == spec_at_start(
            s,
            spec_max(rows - height, 0),
        ),
        spec_step(s, Command::Home, width, height, rows) == spec_at_start(s, 0),
        spec_step(spec_step(s, Command::End, width, height, rows), Command::End, width, height, rows)
            == spec_step(s, Command::End, width, height, rows),
        spec_step(spec_step(s, Command::Home, width, height, rows), Command::Home, width, height, rows)
            == spec_step(s, Command::Home, width, height, rows),
{
}

} // verus!
