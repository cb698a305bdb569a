//! Board workflows: items, zoom, search, and the undo/redo history.

use humanboard::board::Board;
use humanboard::geom::Point;
use humanboard::types::ItemContent;

fn board_with_texts(texts: &[&str]) -> Board {
    let mut board = Board::new_for_test();
    for (i, text) in texts.iter().enumerate() {
        board.add_item(
            Point::new(i as i64 * 100, 0),
            ItemContent::Text((*text).to_string()),
        );
    }
    board
}

fn board_with_text(text: &str) -> Board {
    board_with_texts(&[text])
}

fn assert_item_count(board: &Board, expected: usize) {
    assert_eq!(
        board.items.len(),
        expected,
        "Expected {} items, found {}",
        expected,
        board.items.len()
    );
}

#[test]
fn test_new_board_workflow() {
    let board = Board::new_for_test();
    assert!(board.items.is_empty());
    assert_eq!(board.zoom, 100);
    assert_eq!(board.next_item_id, 0);
}

#[test]
fn test_board_with_items_workflow() {
    let mut board = Board::new_for_test();
    board.add_item(Point::new(100, 100), ItemContent::Text("Note 1".to_string()));
    board.add_item(Point::new(300, 100), ItemContent::Text("Note 2".to_string()));
    board.add_item(
        Point::new(100, 300),
        ItemContent::Markdown {
            path: "/test/readme.md".to_string(),
            title: "README".to_string(),
            content: "# Test".to_string(),
        },
    );

    assert_item_count(&board, 3);
    assert_eq!(board.next_item_id, 3);
}

#[test]
fn test_undo_redo_add_remove_sequence() {
    let mut board = board_with_texts(&["Item A", "Item B", "Item C"]);
    assert_item_count(&board, 3);

    board.remove_item(1);
    assert_item_count(&board, 2);

    board.undo();
    assert_item_count(&board, 3);

    board.redo();
    assert_item_count(&board, 2);
}

#[test]
fn test_undo_redo_position_changes() {
    let mut board = board_with_text("Movable");
    board.push_history();

    board.items[0].position = (100, 100);
    board.push_history();

    board.items[0].position = (200, 200);
    board.push_history();

    board.undo();
    assert_eq!(board.items[0].position, (100, 100));

    board.undo();
    assert_eq!(board.items[0].position, (0, 0));
}

#[test]
fn test_undo_redo_text_content_changes() {
    let mut board = board_with_text("Version 1");
    board.push_history();

    board.items[0].content = ItemContent::Text("Version 2".to_string());
    board.push_history();

    board.items[0].content = ItemContent::Text("Version 3".to_string());
    board.push_history();

    board.undo();
    if let ItemContent::Text(text) = &board.items[0].content {
        assert_eq!(text, "Version 2");
    }

    board.undo();
    if let ItemContent::Text(text) = &board.items[0].content {
        assert_eq!(text, "Version 1");
    }
}

#[test]
fn test_undo_redo_markdown_content() {
    let mut board = Board::new_for_test();
    board.add_item(
        Point::new(0, 0),
        ItemContent::Markdown {
            path: "/notes.md".to_string(),
            title: "Notes".to_string(),
            content: "# Initial".to_string(),
        },
    );
    board.push_history();

    board.items[0].content = ItemContent::Markdown {
        path: "/notes.md".to_string(),
        title: "Notes".to_string(),
        content: "# Updated\n\nNew content".to_string(),
    };
    board.push_history();

    board.undo();
    if let ItemContent::Markdown { content, .. } = &board.items[0].content {
        assert_eq!(content, "# Initial");
    }
}

#[test]
fn test_branch_pruning_on_new_action() {
    let mut board = board_with_texts(&["A", "B", "C"]);

    board.undo();
    board.undo();
    assert_item_count(&board, 1);

    board.add_item(Point::new(300, 0), ItemContent::Text("D".to_string()));
    assert!(!board.redo());
}

#[test]
fn test_undo_at_boundary_is_idempotent() {
    let mut board = board_with_text("Only item");
    board.undo();

    for _ in 0..10 {
        assert!(!board.undo());
        assert_item_count(&board, 0);
    }
}

#[test]
fn test_history_index_tracking() {
    let mut board = board_with_texts(&["A", "B"]);

    assert_eq!(board.current_history_index(), 2);

    board.undo();
    assert_eq!(board.current_history_index(), 1);
}

#[test]
fn test_history_respects_limit() {
    const MAX_HISTORY: usize = 100;

    let mut board = Board::new_for_test();
    for i in 0..(MAX_HISTORY + 20) {
        board.add_item(Point::new(i as i64 * 10, 0), ItemContent::Text(format!("Item {}", i)));
    }

    assert!(board.history_len() <= MAX_HISTORY + 1);
}

#[test]
fn test_item_modification_workflow() {
    let mut board = Board::new_for_test();

    board.add_item(Point::new(100, 100), ItemContent::Text("Original".to_string()));
    board.push_history();

    board.items[0].content = ItemContent::Text("Modified".to_string());
    board.items[0].position = (200, 200);
    board.push_history();

    if let ItemContent::Text(text) = &board.items[0].content {
        assert_eq!(text, "Modified");
    }

    board.undo();
    if let ItemContent::Text(text) = &board.items[0].content {
        assert_eq!(text, "Original");
    }
}

#[test]
fn test_zoom_workflow() {
    let mut board = Board::new_for_test();
    let center = Point::new(500, 500);

    assert_eq!(board.zoom, 100);
    board.zoom_in(center);
    assert!(board.zoom > 100);

    board.zoom_reset();
    assert_eq!(board.zoom, 100);
}

#[test]
fn test_search_workflow() {
    let mut board = Board::new_for_test();
    board.add_item(Point::new(0, 0), ItemContent::Text("Meeting Notes".to_string()));
    board.add_item(Point::new(100, 0), ItemContent::Text("Project Plan".to_string()));
    board.add_item(
        Point::new(200, 0),
        ItemContent::Markdown {
            path: "/notes.md".to_string(),
            title: "Meeting Summary".to_string(),
            content: "# Meeting Summary\nDiscussed project timeline.".to_string(),
        },
    );

    let results = board.find_items("meeting");
    assert_eq!(results.len(), 2);

    let results = board.find_items("nonexistent");
    assert_eq!(results.len(), 0);
}

#[test]
fn test_history_bounds_and_pruning_example() {
    // Commit three states, undo twice, commit a fourth: the pruned
    // branch cannot be redone.
    let mut board = Board::new_for_test();
    board.add_item(Point::new(0, 0), ItemContent::Text("A".to_string()));
    board.add_item(Point::new(100, 0), ItemContent::Text("B".to_string()));
    board.add_item(Point::new(200, 0), ItemContent::Text("C".to_string()));
    assert_eq!(board.current_history_index(), 3);

    board.undo();
    board.undo();
    assert_eq!(board.current_history_index(), 1);
    assert_eq!(board.items.len(), 1);

    board.add_item(Point::new(300, 0), ItemContent::Text("D".to_string()));
    assert_eq!(board.current_history_index(), 2);
    assert!(!board.redo());
}

#[test]
fn test_remove_items_skips_history() {
    let mut board = board_with_texts(&["A", "B", "C", "D", "E"]);
    let before = board.history_len();
    board.remove_items(&[1, 3]);
    assert_eq!(board.items.len(), 3);
    assert_eq!(board.history_len(), before);
    let ids: Vec<u64> = board.items.iter().map(|it| it.id).collect();
    assert_eq!(ids, vec![0, 2, 4]);
}

#[test]
fn test_pan_by_moves_offset() {
    let mut board = Board::new_for_test();
    board.pan_by(Point::new(30, -40));
    assert_eq!(board.canvas_offset.x, 30);
    assert_eq!(board.canvas_offset.y, -40);
}
