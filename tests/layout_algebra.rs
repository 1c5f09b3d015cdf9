use hex_patch::layout::{get_cursor_position, get_expected_cursor_position, CursorPosition};

#[test]
fn layout_example_block_starts() {
    let p = get_cursor_position(8, 2, 0, 0, 0);
    assert_eq!(p.global_byte_index, 0);
    assert!(p.high_byte);
    let q = get_cursor_position(8, 2, 25, 0, 0);
    assert_eq!(q.global_byte_index, 8);
    assert_eq!(q.block_index, 1);
    assert_eq!(q.local_block_index, 1);
    assert_eq!(q.line_index, 0);
    assert!(q.high_byte);
}

#[test]
fn cursor_position_parts() {
    let p = get_cursor_position(8, 3, 29, 1, 2);
    assert_eq!(p.local_x, 4);
    assert_eq!(p.local_byte_index, 1);
    assert!(!p.high_byte);
    assert_eq!(p.block_index, 1 + 3 * 3);
    assert_eq!(p.local_block_index, 1);
    assert_eq!(p.line_index, 3);
    assert_eq!(p.line_byte_index, 9);
    assert_eq!(p.global_byte_index, 9 + 3 * 24);
    assert_eq!(p.get_high_byte_offset(), 1);
}

#[test]
fn round_trip_over_a_screen() {
    for scroll in 0..3usize {
        for y in 0..4u16 {
            for x in 0..75u16 {
                let p = get_cursor_position(8, 3, x, y, scroll);
                let (col, row) = get_expected_cursor_position(8, 3, p.global_byte_index, p.high_byte);
                let back = get_cursor_position(8, 3, col as u16, 0, row);
                assert_eq!(back.global_byte_index, p.global_byte_index);
                assert_eq!(row, (p.global_byte_index / 24));
            }
        }
    }
}

#[test]
fn expected_position_of_a_byte() {
    assert_eq!(get_expected_cursor_position(8, 2, 0, true), (0, 0));
    assert_eq!(get_expected_cursor_position(8, 2, 8, true), (25, 0));
    assert_eq!(get_expected_cursor_position(8, 2, 9, false), (29, 0));
    assert_eq!(get_expected_cursor_position(8, 2, 16, true), (0, 1));
}

#[test]
fn high_byte_offset() {
    let mut p: CursorPosition = get_cursor_position(8, 2, 0, 0, 0);
    assert_eq!(p.get_high_byte_offset(), 0);
    p.high_byte = false;
    assert_eq!(p.get_high_byte_offset(), 1);
}
