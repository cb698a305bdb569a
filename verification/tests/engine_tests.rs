//! Pointer gestures end to end: transforms, drags, marquees, drawing,
//! and the resource lifecycle policy.

use humanboard::board::Board;
use humanboard::constants::{DOCK_WIDTH, HEADER_HEIGHT, RESOURCE_UNLOAD_DELAY_MS};
use humanboard::geom::{CoordinateContext, CoordinateConverter, Point};
use humanboard::input::{handle_pointer_down, handle_pointer_move, handle_pointer_up, InputState};
use humanboard::lifecycle::{item_distance_to_viewport, item_visible_on_canvas, ResourceTracker};
use humanboard::selection::SelectionManager;
use humanboard::types::{ItemContent, ToolType};

fn text_board(positions: &[(i64, i64)]) -> Board {
    let mut board = Board::new_for_test();
    for (i, pos) in positions.iter().enumerate() {
        board.add_item(Point::new(pos.0, pos.1), ItemContent::Text(format!("Item {}", i)));
    }
    board
}

/// The screen point over a canvas point at unit zoom and origin pan.
fn screen_over(canvas: (i64, i64)) -> Point {
    Point::new(canvas.0 + DOCK_WIDTH, canvas.1 + HEADER_HEIGHT)
}

#[test]
fn test_transform_round_trip_exact_at_unit_zoom() {
    let ctx = CoordinateContext::new(Point::new(13, -7), 100);
    let p = Point::new(321, -456);
    let c = CoordinateConverter::screen_to_canvas(p, &ctx);
    let r = CoordinateConverter::canvas_to_screen(c, &ctx);
    assert_eq!(r, p);
}

#[test]
fn test_transform_round_trip_bounded_at_any_zoom() {
    for &zoom in &[10u32, 30, 100, 250, 500] {
        let ctx = CoordinateContext::new(Point::new(90, 40), zoom);
        for &x in &[-1000i64, -1, 0, 7, 999] {
            let p = Point::new(x, -x);
            let c = CoordinateConverter::screen_to_canvas(p, &ctx);
            let r = CoordinateConverter::canvas_to_screen(c, &ctx);
            // The round trip comes back at most one scaled canvas unit
            // short and never past the original.
            assert!(p.x - r.x >= 0 && (p.x - r.x) * 100 < zoom as i64 + 100);
            assert!(p.y - r.y >= 0 && (p.y - r.y) * 100 < zoom as i64 + 100);
        }
    }
}

#[test]
fn test_delta_transform_ignores_offset() {
    let d = Point::new(50, -30);
    let c = CoordinateConverter::delta_screen_to_canvas(d, 100);
    assert_eq!((c.x, c.y), (50, -30));
    let s = CoordinateConverter::delta_canvas_to_screen(Point::new(40, 20), 200);
    assert_eq!((s.x, s.y), (80, 40));
}

#[test]
fn test_drag_coalesces_into_one_history_entry() {
    let mut board = text_board(&[(10, 10)]);
    let mut selection = SelectionManager::new();
    let mut input = InputState::Idle;
    let before = board.history_len();

    let down_at = screen_over((20, 20));
    handle_pointer_down(&mut input, &board, &mut selection, ToolType::Select, down_at, false, false);
    assert!(input.is_dragging_items());

    for step in 1..=100i64 {
        let pos = screen_over((20 + step, 20 + step));
        handle_pointer_move(&mut input, &mut board, &selection, pos);
        assert_eq!(board.history_len(), before);
    }

    handle_pointer_up(&mut input, &mut board, &mut selection, screen_over((120, 120)), false);
    assert!(input.is_idle());
    assert_eq!(board.history_len(), before + 1);
    assert_eq!(board.items[0].position, (110, 110));
}

#[test]
fn test_group_move_symmetry() {
    let mut board = text_board(&[(0, 0), (1000, 0), (2000, 0)]);
    let mut selection = SelectionManager::new();
    selection.insert(0);
    selection.insert(1);
    selection.insert(2);
    let mut input = InputState::Idle;

    let down_at = screen_over((10, 10));
    handle_pointer_down(&mut input, &board, &mut selection, ToolType::Select, down_at, false, false);
    assert!(input.is_dragging_items());

    handle_pointer_move(&mut input, &mut board, &selection, screen_over((33, 17)));
    handle_pointer_up(&mut input, &mut board, &mut selection, screen_over((33, 17)), false);

    // All three members moved by exactly the same delta.
    assert_eq!(board.items[0].position, (23, 7));
    assert_eq!(board.items[1].position, (1023, 7));
    assert_eq!(board.items[2].position, (2023, 7));
}

#[test]
fn test_dragging_unselected_item_leaves_others() {
    let mut board = text_board(&[(0, 0), (1000, 0), (2000, 0)]);
    let mut selection = SelectionManager::new();
    selection.insert(1);
    selection.insert(2);
    let mut input = InputState::Idle;

    // Pointer lands on item 0, which is not part of the selection.
    handle_pointer_down(&mut input, &board, &mut selection, ToolType::Select, screen_over((10, 10)), false, false);
    handle_pointer_move(&mut input, &mut board, &selection, screen_over((60, 10)));
    handle_pointer_up(&mut input, &mut board, &mut selection, screen_over((60, 10)), false);

    assert_eq!(board.items[0].position, (50, 0));
    assert_eq!(board.items[1].position, (1000, 0));
    assert_eq!(board.items[2].position, (2000, 0));
}

#[test]
fn test_release_reindexes_a_deselected_drag() {
    let mut board = text_board(&[(0, 0)]);
    let mut selection = SelectionManager::new();
    selection.insert(0);
    let mut input = InputState::Idle;

    // A shift-click on the selected item deselects it and still starts
    // dragging exactly that item.
    handle_pointer_down(&mut input, &board, &mut selection, ToolType::Select, screen_over((10, 10)), true, false);
    assert!(!selection.contains(0));
    assert!(input.is_dragging_items());

    handle_pointer_move(&mut input, &mut board, &selection, screen_over((510, 10)));
    handle_pointer_up(&mut input, &mut board, &mut selection, screen_over((510, 10)), true);

    // The moved item's index entry follows it even though it was no
    // longer selected when the gesture ended.
    assert_eq!(board.items[0].position, (500, 0));
    assert!(board.query_items_at_point(10, 10).is_empty());
    assert_eq!(board.query_items_at_point(510, 10), vec![0]);
}

#[test]
fn test_pointer_up_always_returns_to_idle() {
    let mut board = text_board(&[(0, 0)]);
    let mut selection = SelectionManager::new();

    let mut input = InputState::Panning { last_pos: Point::new(5, 5) };
    handle_pointer_up(&mut input, &mut board, &mut selection, Point::new(9, 9), false);
    assert!(input.is_idle());

    let mut input = InputState::MarqueeSelecting { start: Point::new(0, 0), current: Point::new(1, 1) };
    handle_pointer_up(&mut input, &mut board, &mut selection, Point::new(1, 1), false);
    assert!(input.is_idle());
}

#[test]
fn test_pointer_down_is_ignored_mid_gesture() {
    let board = text_board(&[(0, 0)]);
    let mut selection = SelectionManager::new();
    let mut input = InputState::Panning { last_pos: Point::new(5, 5) };

    handle_pointer_down(&mut input, &board, &mut selection, ToolType::Select, screen_over((10, 10)), false, false);
    assert!(input.is_panning());
}

#[test]
fn test_marquee_selects_items_in_rectangle() {
    let mut board = text_board(&[(0, 0), (1000, 1000), (5000, 5000)]);
    let mut selection = SelectionManager::new();
    let mut input = InputState::Idle;

    // Press on empty canvas, drag a rectangle over the first two items.
    handle_pointer_down(&mut input, &board, &mut selection, ToolType::Select, screen_over((3000, 4500)), false, false);
    assert!(input.is_marquee_selecting());
    handle_pointer_move(&mut input, &mut board, &selection, screen_over((-50, -50)));
    handle_pointer_up(&mut input, &mut board, &mut selection, screen_over((-50, -50)), false);

    assert!(selection.contains(0));
    assert!(selection.contains(1));
    assert!(!selection.contains(2));
}

#[test]
fn test_tiny_marquee_is_a_click() {
    let mut board = text_board(&[(1000, 1000)]);
    let mut selection = SelectionManager::new();
    selection.insert(0);
    let mut input = InputState::Idle;

    // Press on empty canvas without the modifier clears the selection,
    // but a marquee below the click threshold selects nothing new.
    handle_pointer_down(&mut input, &board, &mut selection, ToolType::Select, screen_over((0, 0)), false, false);
    assert!(selection.is_empty());
    handle_pointer_move(&mut input, &mut board, &selection, screen_over((3, 3)));
    handle_pointer_up(&mut input, &mut board, &mut selection, screen_over((3, 3)), false);
    assert!(selection.is_empty());
}

#[test]
fn test_drawing_creates_one_shape() {
    let mut board = text_board(&[]);
    let mut selection = SelectionManager::new();
    let mut input = InputState::Idle;
    let before = board.history_len();

    handle_pointer_down(&mut input, &board, &mut selection, ToolType::Shape, screen_over((100, 100)), false, false);
    assert!(input.is_drawing());
    handle_pointer_move(&mut input, &mut board, &selection, screen_over((180, 160)));
    let created = handle_pointer_up(&mut input, &mut board, &mut selection, screen_over((180, 160)), false);

    assert_eq!(created, Some(0));
    assert_eq!(board.items.len(), 1);
    assert_eq!(board.items[0].position, (100, 100));
    assert_eq!(board.items[0].size, (80, 60));
    assert!(matches!(board.items[0].content, ItemContent::Shape { .. }));
    assert!(selection.contains(0));
    assert_eq!(board.history_len(), before + 1);
}

#[test]
fn test_micro_drag_draws_nothing() {
    let mut board = text_board(&[]);
    let mut selection = SelectionManager::new();
    let mut input = InputState::Idle;

    handle_pointer_down(&mut input, &board, &mut selection, ToolType::Arrow, screen_over((100, 100)), false, false);
    let created = handle_pointer_up(&mut input, &mut board, &mut selection, screen_over((104, 104)), false);

    assert_eq!(created, None);
    assert!(board.items.is_empty());
    assert!(input.is_idle());
}

#[test]
fn test_drawing_a_table_creates_a_data_source() {
    let mut board = text_board(&[]);
    let mut selection = SelectionManager::new();
    let mut input = InputState::Idle;

    handle_pointer_down(&mut input, &board, &mut selection, ToolType::Table, screen_over((0, 0)), false, false);
    handle_pointer_move(&mut input, &mut board, &selection, screen_over((400, 300)));
    let created = handle_pointer_up(&mut input, &mut board, &mut selection, screen_over((400, 300)), false);

    assert_eq!(created, Some(0));
    assert_eq!(board.data_sources.len(), 1);
    match &board.items[0].content {
        ItemContent::Table { data_source_id, .. } => assert_eq!(*data_source_id, board.data_sources[0].0),
        other => panic!("Expected a table, found {:?}", other),
    }
}

#[test]
fn test_eviction_hysteresis() {
    let mut tracker = ResourceTracker::new();
    let t0: u64 = 1_000;

    // The item starts near the viewport: its resource is created.
    let actions = tracker.tick(&vec![(1u64, 0i64)], t0);
    assert_eq!(actions.create, vec![1]);
    assert!(actions.destroy.is_empty());

    // It crosses the unload distance: marked, but kept for the delay.
    let actions = tracker.tick(&vec![(1u64, 5_000i64)], t0);
    assert!(actions.destroy.is_empty());

    // Still outside one instant before the delay runs out: kept.
    let actions = tracker.tick(&vec![(1u64, 5_000i64)], t0 + RESOURCE_UNLOAD_DELAY_MS - 1);
    assert!(actions.destroy.is_empty());

    // Still outside at exactly the delay: destroyed.
    let actions = tracker.tick(&vec![(1u64, 5_000i64)], t0 + RESOURCE_UNLOAD_DELAY_MS);
    assert_eq!(actions.destroy, vec![1]);
}

#[test]
fn test_reentering_range_clears_the_marker() {
    let mut tracker = ResourceTracker::new();
    let t0: u64 = 1_000;

    let _ = tracker.tick(&vec![(1u64, 0i64)], t0);
    let _ = tracker.tick(&vec![(1u64, 5_000i64)], t0);

    // Back inside just before the delay elapses: never destroyed.
    let actions = tracker.tick(&vec![(1u64, 100i64)], t0 + RESOURCE_UNLOAD_DELAY_MS - 1);
    assert!(actions.destroy.is_empty());

    // Out again much later: the old marker is gone, so the delay starts
    // over and nothing is destroyed yet.
    let actions = tracker.tick(&vec![(1u64, 5_000i64)], t0 + 2 * RESOURCE_UNLOAD_DELAY_MS);
    assert!(actions.destroy.is_empty());
}

#[test]
fn test_vanished_items_lose_resources_at_once() {
    let mut tracker = ResourceTracker::new();
    let _ = tracker.tick(&vec![(1u64, 0i64), (2u64, 0i64)], 0);
    let actions = tracker.tick(&vec![(2u64, 0i64)], 1);
    assert_eq!(actions.destroy, vec![1]);
}

#[test]
fn test_item_distance_to_viewport() {
    let vp = (0i64, 0i64, 1000i64, 800i64);
    // Overlapping the viewport: distance zero.
    assert_eq!(item_distance_to_viewport((100, 100), (50, 50), vp), 0);
    // To the right of it: the horizontal gap.
    assert_eq!(item_distance_to_viewport((1300, 100), (50, 50), vp), 300);
    // Above and to the left: the larger gap wins.
    assert_eq!(item_distance_to_viewport((-500, -200), (100, 100), vp), 400);
}

#[test]
fn test_item_visibility_on_canvas() {
    let off = Point::new(0, 0);
    // Fully inside a 1000 by 800 canvas under the header and footer.
    assert!(item_visible_on_canvas((100, 100), (200, 200), off, 100, 1000, 800));
    // Poking past the right edge.
    assert!(!item_visible_on_canvas((900, 100), (200, 200), off, 100, 1000, 800));
    // Under the header once panned up.
    assert!(!item_visible_on_canvas((100, 100), (200, 200), Point::new(0, -150), 100, 1000, 800));
}

#[test]
fn test_panning_moves_the_offset_by_the_motion() {
    let mut board = text_board(&[]);
    let mut selection = SelectionManager::new();
    let mut input = InputState::Idle;

    handle_pointer_down(&mut input, &board, &mut selection, ToolType::Select, Point::new(100, 100), false, true);
    assert!(input.is_panning());
    handle_pointer_move(&mut input, &mut board, &selection, Point::new(140, 90));
    assert_eq!(board.canvas_offset.x, 40);
    assert_eq!(board.canvas_offset.y, -10);
    handle_pointer_up(&mut input, &mut board, &mut selection, Point::new(140, 90), false);
    assert!(input.is_idle());
}

#[test]
fn test_resize_respects_minimum_size() {
    let mut board = text_board(&[(0, 0)]);
    let mut selection = SelectionManager::new();
    let mut input = InputState::Idle;

    // Press in the resize corner of the item (size 300 by 100).
    let corner = screen_over((300, 100));
    handle_pointer_down(&mut input, &board, &mut selection, ToolType::Select, corner, false, false);
    assert!(input.is_resizing());

    // Drag far up and left: the size clamps at the minimum.
    handle_pointer_move(&mut input, &mut board, &selection, screen_over((-500, -500)));
    assert_eq!(board.items[0].size, (50, 50));
    handle_pointer_up(&mut input, &mut board, &mut selection, screen_over((-500, -500)), false);
    assert!(input.is_idle());
}
