//! The input state machine's variants and accessors.

use humanboard::geom::Point;
use humanboard::input::{InputState, SplitterDirection};
use humanboard::types::{SplitDirection, ToolType};

#[test]
fn test_default_state_is_idle() {
    let state: InputState = Default::default();
    assert!(state.is_idle());
    assert!(!state.is_dragging());
}

#[test]
fn test_is_dragging_variants() {
    let pos = Point::new(0, 0);

    assert!(!InputState::Idle.is_dragging());
    assert!(InputState::Panning { last_pos: pos }.is_dragging());
    assert!(
        InputState::DraggingItems {
            primary_item: 1,
            drag_offset: pos,
        }
        .is_dragging()
    );
    assert!(
        InputState::ResizingItem {
            item_id: 1,
            start_size: (100, 100),
            start_pos: pos,
            original_font_size: None,
        }
        .is_dragging()
    );
    assert!(
        InputState::SplitterDragging {
            direction: SplitterDirection::CanvasPreview {
                direction: SplitDirection::Vertical,
            },
            drag_start: pos,
        }
        .is_dragging()
    );

    assert!(!InputState::MarqueeSelecting { start: pos, current: pos }.is_dragging());
    assert!(
        !InputState::Drawing {
            tool: ToolType::Arrow,
            start: pos,
            current: pos,
        }
        .is_dragging()
    );
}

#[test]
fn test_state_queries() {
    let pos = Point::new(0, 0);

    assert!(InputState::Panning { last_pos: pos }.is_panning());
    assert!(
        InputState::DraggingItems {
            primary_item: 1,
            drag_offset: pos,
        }
        .is_dragging_items()
    );
    assert!(
        InputState::ResizingItem {
            item_id: 1,
            start_size: (100, 100),
            start_pos: pos,
            original_font_size: None,
        }
        .is_resizing()
    );
    assert!(InputState::MarqueeSelecting { start: pos, current: pos }.is_marquee_selecting());
    assert!(
        InputState::Drawing {
            tool: ToolType::Shape,
            start: pos,
            current: pos,
        }
        .is_drawing()
    );
}

#[test]
fn test_item_id_extraction() {
    let pos = Point::new(0, 0);

    let drag_state = InputState::DraggingItems {
        primary_item: 42,
        drag_offset: pos,
    };
    assert_eq!(drag_state.dragged_item_id(), Some(42));
    assert_eq!(drag_state.resized_item_id(), None);

    let resize_state = InputState::ResizingItem {
        item_id: 99,
        start_size: (100, 100),
        start_pos: pos,
        original_font_size: None,
    };
    assert_eq!(resize_state.resized_item_id(), Some(99));
    assert_eq!(resize_state.dragged_item_id(), None);
}

#[test]
fn test_reset() {
    let pos = Point::new(0, 0);
    let mut state = InputState::Panning { last_pos: pos };

    state.reset();
    assert!(state.is_idle());
}
