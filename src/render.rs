use vstd::prelude::*;
use crate::layout::Layout;
use crate::viewer::CursorPosition;

verus! {

/// The sixteen lowercase hexadecimal digits, in order of value.
pub open spec fn spec_hex_digits() -> Seq<char> {
    seq!['0', '1', '2', '3', '4', '5', '6', '7', '8', '9', 'a', 'b', 'c', 'd', 'e', 'f']
}

/// Two lowercase hexadecimal digits of `b`, the high one first.
pub open spec fn spec_hex_text(b: u8) -> Seq<char> {
    seq![spec_hex_digits()[b as int / 16], spec_hex_digits()[b as int % 16]]
}

/// The character that stands for byte `b` in the literal panel: the byte's
/// value taken as a code point.
pub open spec fn spec_literal_char(b: u8) -> char {
    b as char
}

/// Lowercase hexadecimal digit of value `d`.
fn hex_digit(d: u8) -> (r: char)
    requires
        d < 16,
    ensures
        r == spec_hex_digits()[d as int],
{
    if d < 10 {
        (d + 48) as char
    } else {
        (d + 87) as char
    }
}

/// The text of the hex cell for byte `b`.
pub fn hex_text(b: u8) -> (r: Vec<char>)
    ensures
        r@ == spec_hex_text(b),
{
    let mut r: Vec<char> = Vec::new();
    r.push(hex_digit(b / 16));
    r.push(hex_digit(b % 16));
    r
}

/// The character shown for `b` in the literal panel.
pub fn literal_char(b: u8) -> (r: char)
    ensures
        r == spec_literal_char(b),
{
    b as char
}

/// One piece of text to draw at a terminal cell, highlighted or plain.
#[derive(Debug)]
pub struct Cell {
    pub col: u16,
    pub row: u16,
    pub text: Vec<char>,
    pub highlighted: bool,
}

/// What a cell draws: where, which characters, in which style.
pub struct CellView {
    pub col: int,
    pub row: int,
    pub text: Seq<char>,
    pub highlighted: bool,
}

impl View for Cell {
    type V = CellView;

    open spec fn view(&self) -> CellView {
        CellView { col: self.col as int, row: self.row as int, text: self.text@, highlighted: self.highlighted }
    }
}

/// Column `col` of the cursor points at byte `col / 3` of its row.
pub open spec fn spec_byte_index(col: int) -> int {
    col / 3
}

/// Whether byte `i` of visible row `row` is drawn highlighted: it is the byte
/// under the cursor, and the cursor is not on the gap between two bytes.
pub open spec fn spec_highlighted(cursor: CursorPosition, row: int, i: int) -> bool {
    &&& cursor.0 % 3 != 2
    &&& cursor.1 == row
    &&& spec_byte_index(cursor.0 as int) == i
}

/// Cell `k` of visible row `row`, which shows the bytes `bytes`: first one hex
/// cell per column of the row, then the separator, then one literal cell per
/// column. Columns past the end of a short row are blank.
pub open spec fn spec_row_cell(
    bytes: Seq<u8>,
    row: int,
    layout: Layout,
    cursor: CursorPosition,
    k: int,
) -> CellView {
    let w = layout.row_width as int;
    let off = layout.literal_offset as int;
    if k < w {
        CellView {
            col: 3 * k,
            row,
            text: if k < bytes.len() { spec_hex_text(bytes[k]) } else { seq![' ', ' '] },
            highlighted: k < bytes.len() && spec_highlighted(cursor, row, k),
        }
    } else if k == w {
        CellView { col: off - 3, row, text: seq![' ', '|', ' '], highlighted: false }
    } else {
        let i = k - w - 1;
        CellView {
            col: off + i,
            row,
            text: if i < bytes.len() { seq![spec_literal_char(bytes[i])] } else { seq![' '] },
            highlighted: i < bytes.len() && spec_highlighted(cursor, row, i),
        }
    }
}

/// `cells` are exactly the cells of visible row `row` showing `bytes`.
pub open spec fn spec_row_cells(
    cells: Seq<Cell>,
    bytes: Seq<u8>,
    row: int,
    layout: Layout,
    cursor: CursorPosition,
) -> bool {
    &&& cells.len() == 2 * layout.row_width + 1
    &&& forall|k: int|
        0 <= k < cells.len() ==> (#[trigger] cells[k])@ == spec_row_cell(bytes, row, layout, cursor, k)
}

/// Whether byte `i` of visible row `row` is under the cursor.
fn is_highlighted(cursor: &CursorPosition, row: u16, i: usize) -> (r: bool)
    ensures
        r == spec_highlighted(*cursor, row as int, i as int),
{
    cursor.0 % 3 != 2 && cursor.1 == row && (cursor.0 / 3) as usize == i
}

/// The cells of visible row `row`, which shows `bytes`.
pub fn render_row(bytes: &[u8], row: u16, layout: &Layout, cursor: &CursorPosition) -> (r: Vec<Cell>)
    requires
        layout.wf(),
    ensures
        spec_row_cells(r@, bytes@, row as int, *layout, *cursor),
{
    let w = layout.row_width;
    let mut cells: Vec<Cell> = Vec::new();
    let mut i: usize = 0;
    while i < w
        invariant
            layout.wf(),
            w == layout.row_width,
            i <= w,
            cells@.len() == i,
            forall|k: int|
                0 <= k < i ==> (#[trigger] cells@[k])@ == spec_row_cell(bytes@, row as int, *layout, *cursor, k),
        decreases w - i,
    {
        let cell = if i < bytes.len() {
            Cell { col: 3 * i as u16, row, text: hex_text(bytes[i]), highlighted: is_highlighted(cursor, row, i) }
        } else {
            Cell { col: 3 * i as u16, row, text: vec![' ', ' '], highlighted: false }
        };
        cells.push(cell);
        i += 1;
    }
    let off = layout.literal_offset;
    cells.push(Cell { col: (off - 3) as u16, row, text: vec![' ', '|', ' '], highlighted: false });
    let mut i: usize = 0;
    while i < w
        invariant
            layout.wf(),
            w == layout.row_width,
            off == layout.literal_offset,
            i <= w,
            cells@.len() == w + 1 + i,
            forall|k: int|
                0 <= k < w + 1 + i ==> (#[trigger] cells@[k])@ == spec_row_cell(bytes@, row as int, *layout, *cursor, k),
        decreases w - i,
    {
        let cell = if i < bytes.len() {
            let text = vec![literal_char(bytes[i])];
            assert(text@ =~= seq![spec_literal_char(bytes@[i as int])]);
            Cell { col: (off + i) as u16, row, text, highlighted: is_highlighted(cursor, row, i) }
        } else {
            let text = vec![' '];
            assert(text@ =~= seq![' ']);
            Cell { col: (off + i) as u16, row, text, highlighted: false }
        };
        cells.push(cell);
        i += 1;
    }
    cells
}

/// The cells of a frame: one list per visible row, row `v` showing `visible[v]`.
pub fn render_frame(visible: &[&[u8]], layout: &Layout, cursor: &CursorPosition) -> (r: Vec<Vec<Cell>>)
    requires
        layout.wf(),
        visible@.len() <= 65536,
    ensures
        r@.len() == visible@.len(),
        forall|v: int|
            0 <= v < r@.len() ==> spec_row_cells(#[trigger] r@[v]@, visible@[v]@, v, *layout, *cursor),
{
    let mut frame: Vec<Vec<Cell>> = Vec::new();
    let mut v: usize = 0;
    while v < visible.len()
        invariant
            layout.wf(),
            visible@.len() <= 65536,
            v <= visible@.len(),
            frame@.len() == v,
            forall|u: int|
                0 <= u < v ==> spec_row_cells(#[trigger] frame@[u]@, visible@[u]@, u, *layout, *cursor),
        decreases visible@.len() - v,
    {
        let cells = render_row(visible[v], v as u16, layout, cursor);
        frame.push(cells);
        v += 1;
    }
    frame
}

} // verus!
