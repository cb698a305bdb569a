//! Table pagination and display formatting.

use humanboard::data_table::{format_position, format_row_count, DataTableState};

#[test]
fn test_pagination_state() {
    let mut state = DataTableState::new(100);
    assert_eq!(state.total_pages(), 4);
    assert!(!state.can_go_prev());
    assert!(state.can_go_next());

    state.go_next();
    assert_eq!(state.current_page, 1);
    assert!(state.can_go_prev());

    state.go_last();
    assert_eq!(state.current_page, 3);
    assert!(!state.can_go_next());

    state.go_first();
    assert_eq!(state.current_page, 0);
}

#[test]
fn test_visible_range() {
    let state = DataTableState::new(100);
    assert_eq!(state.visible_range(), 0..25);

    let mut state = DataTableState::new(100);
    state.go_last();
    assert_eq!(state.visible_range(), 75..100);

    let mut state = DataTableState::new(30);
    state.go_next();
    assert_eq!(state.visible_range(), 25..30);
}

#[test]
fn test_format_row_count() {
    assert_eq!(format_row_count(0), "0 rows");
    assert_eq!(format_row_count(1), "1 row");
    assert_eq!(format_row_count(50), "50 rows");
    assert_eq!(format_row_count(999), "999 rows");
    assert_eq!(format_row_count(1000), "1.0K rows");
    assert_eq!(format_row_count(1234), "1.2K rows");
    assert_eq!(format_row_count(1500), "1.5K rows");
    assert_eq!(format_row_count(1000000), "1.0M rows");
    assert_eq!(format_row_count(1_500_000), "1.5M rows");
}

#[test]
fn test_format_position() {
    assert_eq!(format_position(0, 50, 1234), "1-50 of 1.2K");
    assert_eq!(format_position(75, 125, 100), "76-100 of 100");
}

#[test]
fn test_page_size_change_resets_page() {
    let mut state = DataTableState::new(100);
    state.go_last();
    state.set_page_size(10);
    assert_eq!(state.current_page, 0);
    assert_eq!(state.total_pages(), 10);
}
