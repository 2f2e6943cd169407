use hexview::layout::Layout;
use hexview::render::{hex_text, literal_char, render_row, Cell};
use hexview::viewer::{CursorPosition, Viewer};

fn text(c: &Cell) -> String {
    c.text.iter().collect()
}

#[test]
fn hex_text_is_two_lowercase_digits() {
    assert_eq!(hex_text(0x00), vec!['0', '0']);
    assert_eq!(hex_text(0x0f), vec!['0', 'f']);
    assert_eq!(hex_text(0xab), vec!['a', 'b']);
    assert_eq!(hex_text(0xff), vec!['f', 'f']);
    for b in 0..=255u8 {
        assert_eq!(hex_text(b).iter().collect::<String>(), format!("{:02x}", b));
    }
}

#[test]
fn literal_char_is_the_code_point() {
    assert_eq!(literal_char(0x41), 'A');
    assert_eq!(literal_char(0x20), ' ');
    assert_eq!(literal_char(0xe9), 'é');
    for b in 0..=255u8 {
        assert_eq!(literal_char(b) as u32, b as u32);
    }
}

#[test]
fn abc_frame_with_padded_last_row() {
    let bytes = vec![0x41u8, 0x42, 0x43];
    let v = Viewer { cursor: CursorPosition(0, 5), start_row: 0 };
    let frame = v.frame(&bytes, 10, 5);
    assert_eq!(frame.len(), 2);
    // hex cells, separator, literal cells
    let r0: Vec<String> = frame[0].iter().map(text).collect();
    let r1: Vec<String> = frame[1].iter().map(text).collect();
    assert_eq!(r0, vec!["41", "42", " | ", "A", "B"]);
    assert_eq!(r1, vec!["43", "  ", " | ", "C", " "]);
    let cols: Vec<u16> = frame[1].iter().map(|c| c.col).collect();
    assert_eq!(cols, vec![0, 3, 5, 8, 9]);
    assert!(frame[1].iter().all(|c| c.row == 1 && !c.highlighted));
    assert!(frame[0].iter().all(|c| c.row == 0));
}

#[test]
fn empty_buffer_draws_nothing() {
    let bytes: Vec<u8> = Vec::new();
    let v = Viewer::new();
    assert_eq!(v.frame(&bytes, 80, 24).len(), 0);
}

#[test]
fn cursor_highlights_byte_in_both_panels() {
    let layout = Layout::new(14);
    assert_eq!(layout.row_width, 3);
    let bytes = [0x10u8, 0x20, 0x30];
    // column 4 is the second digit of byte 1
    let cells = render_row(&bytes, 2, &layout, &CursorPosition(4, 2));
    let lit: Vec<bool> = cells.iter().map(|c| c.highlighted).collect();
    assert_eq!(lit, vec![false, true, false, false, false, true, false]);
    // column 5 is the gap after byte 1: nothing is highlighted
    let cells = render_row(&bytes, 2, &layout, &CursorPosition(5, 2));
    assert!(cells.iter().all(|c| !c.highlighted));
    // another row: nothing is highlighted
    let cells = render_row(&bytes, 1, &layout, &CursorPosition(4, 2));
    assert!(cells.iter().all(|c| !c.highlighted));
}

#[test]
fn pad_cells_are_never_highlighted() {
    let layout = Layout::new(14);
    let bytes = [0x10u8];
    let cells = render_row(&bytes, 0, &layout, &CursorPosition(6, 0));
    assert!(cells.iter().all(|c| !c.highlighted));
    assert_eq!(text(&cells[2]), "  ");
    assert_eq!(text(&cells[6]), " ");
}

#[test]
fn frame_follows_scroll_offset() {
    let bytes: Vec<u8> = (0..10).collect();
    // width 10: two bytes per row, five rows
    let v = Viewer { cursor: CursorPosition(0, 0), start_row: 3 };
    let frame = v.frame(&bytes, 10, 4);
    assert_eq!(frame.len(), 2);
    assert_eq!(text(&frame[0][0]), "06");
    assert_eq!(text(&frame[1][1]), "09");
    assert_eq!(frame[1][0].row, 1);
    assert!(frame[0][0].highlighted);
    let v = Viewer { cursor: CursorPosition(0, 0), start_row: 9 };
    assert_eq!(v.frame(&bytes, 10, 4).len(), 0);
}
