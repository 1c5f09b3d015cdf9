use hex_patch::editor::{calc_blocks_per_row, Editor};
use hex_patch::notification::NotificationLevel;

fn global(e: &Editor) -> usize {
    e.get_cursor_position().global_byte_index
}

#[test]
fn blocks_per_row_from_width() {
    assert_eq!(calc_blocks_per_row(8, 106), 2);
    assert_eq!(calc_blocks_per_row(8, 148), 3);
    assert_eq!(calc_blocks_per_row(8, 10), 0);
    assert_eq!(calc_blocks_per_row(8, 200), 4);
    assert_eq!(calc_blocks_per_row(8, 80), 1);
    assert_eq!(calc_blocks_per_row(8, 60), 0);
    assert_eq!(calc_blocks_per_row(1, 0xFFFF), 9359);
    assert_eq!(calc_blocks_per_row(8, 0xFFFF), 1559);
}

#[test]
fn move_right_steps_over_separators() {
    let mut e = Editor::new(vec![0; 100], 106, 13);
    assert_eq!(e.blocks_per_row, 2);
    e.move_cursor(1, 0);
    assert_eq!(e.cursor, (1, 0));
    assert!(!e.get_cursor_position().high_byte);
    e.move_cursor(1, 0);
    assert_eq!(e.cursor, (3, 0));
    assert_eq!(global(&e), 1);
    for _ in 0..14 {
        e.move_cursor(1, 0);
    }
    assert_eq!(global(&e), 8);
    assert_eq!(e.cursor, (25, 0));
    e.move_cursor(-1, 0);
    assert_eq!(global(&e), 7);
    assert_eq!(e.cursor, (22, 0));
}

#[test]
fn moves_wrap_rows_and_stop_at_the_ends() {
    let mut e = Editor::new(vec![0; 100], 106, 13);
    e.move_cursor(-1, 0);
    assert_eq!(e.cursor, (0, 0));
    e.move_cursor(0, -1);
    assert_eq!(e.cursor, (0, 0));
    e.move_cursor(0, 1);
    assert_eq!(global(&e), 16);
    assert_eq!(e.cursor, (0, 1));
    e.move_cursor(-1, 0);
    assert_eq!(global(&e), 15);
    assert!(!e.get_cursor_position().high_byte);
    assert_eq!(e.cursor.1, 0);
    e.move_cursor(0, 100);
    assert_eq!(global(&e), 99);
    assert!(!e.get_cursor_position().high_byte);
}

#[test]
fn scroll_follows_the_cursor() {
    let mut e = Editor::new(vec![0; 1000], 106, 13);
    for _ in 0..10 {
        e.move_cursor(0, 1);
    }
    assert_eq!(e.scroll, 1);
    assert_eq!(e.cursor.1, 9);
    assert_eq!(global(&e), 160);
    for _ in 0..10 {
        e.move_cursor(0, -1);
    }
    assert_eq!(e.scroll, 0);
    assert_eq!(e.cursor.1, 0);
}

#[test]
fn move_to_end_shows_the_last_row() {
    let mut e = Editor::new(vec![0; 1000], 106, 13);
    assert_eq!(e.row_count(), 63);
    e.move_cursor_to_end();
    assert_eq!(e.scroll, 53);
    assert_eq!(e.scroll + 10, e.row_count());
    assert_eq!(global(&e), 999);
    e.move_cursor_to_start();
    assert_eq!(e.scroll, 0);
    assert_eq!(e.cursor, (0, 0));
    let mut small = Editor::new(vec![0; 100], 106, 13);
    small.move_cursor_to_end();
    assert_eq!(small.scroll, 0);
    assert_eq!(global(&small), 99);
}

#[test]
fn paging_stays_in_range() {
    let mut e = Editor::new(vec![0; 1000], 106, 13);
    e.move_cursor_page_down();
    assert_eq!(e.scroll, 10);
    assert_eq!(e.cursor, (0, 0));
    for _ in 0..10 {
        e.move_cursor_page_down();
        assert!(e.scroll <= 53);
    }
    assert_eq!(e.scroll, 53);
    assert_eq!(e.cursor.1, 9);
    assert!(global(&e) < 1000);
    e.move_cursor_page_up();
    assert_eq!(e.scroll, 43);
    for _ in 0..10 {
        e.move_cursor_page_up();
    }
    assert_eq!(e.scroll, 0);
    assert_eq!(e.cursor.1, 0);
}

#[test]
fn page_down_on_a_short_last_row_stops_at_the_last_byte() {
    let mut e = Editor::new(vec![0; 20], 106, 13);
    e.move_cursor(0, 1);
    e.move_cursor(14, 0);
    assert_eq!(global(&e), 19);
    e.move_cursor_page_down();
    assert_eq!(global(&e), 19);
    assert!(!e.get_cursor_position().high_byte);
}

#[test]
fn resize_keeps_the_byte_under_the_cursor() {
    let mut e = Editor::new(vec![0; 1000], 106, 13);
    e.move_cursor(0, 20);
    e.move_cursor(7, 0);
    let before = e.get_cursor_position();
    e.resize(148, 20);
    assert_eq!(e.blocks_per_row, 3);
    let after = e.get_cursor_position();
    assert_eq!(after.global_byte_index, before.global_byte_index);
    assert_eq!(after.high_byte, before.high_byte);
    assert!(e.scroll <= e.row_count() - 17);
}

#[test]
fn editing_at_the_cursor() {
    let mut e = Editor::new(vec![0x90, 0x90], 106, 13);
    assert!(e.edit_data('E'));
    assert!(e.document.dirty);
    e.move_cursor(1, 0);
    assert!(e.edit_data('b'));
    assert_eq!(e.document.data, vec![0xEB, 0x90]);
    assert_eq!(e.document.index.offsets, vec![0, 0]);
    assert!(!e.edit_data('z'));
    e.save_done();
    assert!(!e.document.dirty);
    let mut empty = Editor::new(Vec::new(), 106, 13);
    assert!(!empty.edit_data('1'));
    empty.move_cursor(1, 1);
    empty.move_cursor_to_end();
    assert_eq!(empty.cursor, (0, 0));
    assert!(empty.get_current_instruction().is_none());
}

#[test]
fn editing_to_the_same_value_keeps_the_file_clean() {
    let mut e = Editor::new(vec![0xAB], 106, 13);
    assert!(e.edit_data('a'));
    assert!(!e.document.dirty);
    e.move_cursor(1, 0);
    assert!(e.edit_data('C'));
    assert!(e.document.dirty);
    e.move_cursor(-1, 0);
    assert!(e.edit_data('a'));
    assert!(e.document.dirty);
}

#[test]
fn assembly_view_centres_the_current_instruction() {
    let mut e = Editor::new(vec![0x90; 100], 106, 13);
    assert_eq!(e.get_assembly_view_scroll(), 0);
    e.move_cursor(0, 3);
    e.move_cursor(4, 0);
    assert_eq!(global(&e), 50);
    assert_eq!(e.current_instruction_ordinal(), 50);
    assert_eq!(e.get_assembly_view_scroll(), 45);
    e.move_cursor_to_end();
    assert_eq!(e.get_assembly_view_scroll(), 90);
    let ins = e.get_current_instruction().expect("an instruction");
    assert_eq!(ins.address, 99);
}

#[test]
fn notification_levels() {
    let mut level = NotificationLevel::Quiet;
    level.bump_notification_level(NotificationLevel::Info);
    assert_eq!(level, NotificationLevel::Info);
    level.bump_notification_level(NotificationLevel::Debug);
    assert_eq!(level, NotificationLevel::Info);
    level.bump_notification_level(NotificationLevel::Error);
    assert_eq!(level.notification_level_as_u8(), 4);
    assert_eq!(level.name(), "Error");
    level.reset();
    assert_eq!(level, NotificationLevel::Quiet);
    assert_eq!(level.name(), "None");
}

#[test]
fn narrow_terminals_keep_a_usable_row() {
    let e = Editor::new(vec![0; 100], 60, 13);
    assert_eq!(e.blocks_per_row, 3);
    let mut f = Editor::new(vec![0; 100], 106, 13);
    f.move_cursor(5, 2);
    let before = f.get_cursor_position();
    f.resize(60, 13);
    assert_eq!(f.blocks_per_row, 2);
    assert_eq!(f.get_cursor_position().global_byte_index, before.global_byte_index);
    f.resize(200, 13);
    assert_eq!(f.blocks_per_row, 4);
}

#[test]
fn one_column_moves_scroll_one_row_at_most() {
    let mut e = Editor::new(vec![0; 1000], 106, 13);
    e.move_cursor(0, 12);
    assert_eq!(e.scroll, 3);
    assert_eq!(e.cursor, (0, 9));
    e.move_cursor(-1, 0);
    assert_eq!(e.scroll, 3);
    assert_eq!(e.cursor.1, 8);
    e.move_cursor_to_start();
    e.move_cursor(0, 12);
    e.move_cursor_page_up();
    assert_eq!(e.scroll, 0);
    e.move_cursor(0, 9);
    let row_start = e.scroll;
    for _ in 0..32 {
        e.move_cursor(1, 0);
    }
    assert_eq!(e.scroll, row_start + 1);
    assert_eq!(e.cursor.1, 9);
    e.move_cursor(0, -10);
    assert_eq!(e.scroll, 9);
    assert_eq!(e.cursor.1, 0);
}
