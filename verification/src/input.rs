//! The pointer-input state machine and the event handlers built on it.
//!
//! All in-flight pointer interaction lives in one tagged union: at any
//! moment exactly one mode is active, so a drag while a resize is running
//! is unrepresentable rather than merely avoided. Pointer-down starts a
//! gesture only from the idle state, pointer-move advances it without
//! ever touching the history, and pointer-up finalizes it — committing at
//! most one history entry for the whole gesture — and always returns the
//! machine to idle.

use vstd::prelude::*;
use crate::geom::Point;
use crate::types::{SplitDirection, ToolType};

verus! {

/// Which splitter a splitter drag is moving.
#[derive(Clone, Copy, Debug, PartialEq, Eq, Structural)]
pub enum SplitterDirection {
    /// The divider between canvas and preview panel.
    CanvasPreview { direction: SplitDirection },
    /// The divider between two split preview panes.
    PaneSplit { horizontal: bool },
}

/// The single active pointer interaction. Exactly one variant holds at
/// any time, each carrying only what finishing that gesture needs.
#[derive(Clone, Copy, Debug)]
pub enum InputState {
    /// No pointer interaction in flight.
    Idle,
    /// Panning the canvas; remembers the last pointer position so each
    /// move applies the difference.
    Panning { last_pos: Point },
    /// Dragging the item under the cursor (and, when it is part of a
    /// larger selection, the whole selection with it).
    DraggingItems { primary_item: u64, drag_offset: Point },
    /// Resizing one item from its corner.
    ResizingItem { item_id: u64, start_size: (i64, i64), start_pos: Point, original_font_size: Option<i64> },
    /// Dragging out a selection rectangle.
    MarqueeSelecting { start: Point, current: Point },
    /// Dragging out a new item with a drawing tool.
    Drawing { tool: ToolType, start: Point, current: Point },
    /// Dragging a panel divider.
    SplitterDragging { direction: SplitterDirection, drag_start: Point },
}

impl Default for InputState {
    fn default() -> (r: Self)
        ensures
            r is Idle,
    {
        InputState::Idle
    }
}

impl InputState {
    /// Whether any drag-like operation is active: panning, item drag,
    /// resize, or splitter drag.
    pub fn is_dragging(&self) -> (r: bool)
        ensures
            r == (*self is Panning || *self is DraggingItems || *self is ResizingItem || *self is SplitterDragging),
    {
        matches!(self,
            InputState::Panning { .. }
            | InputState::DraggingItems { .. }
            | InputState::ResizingItem { .. }
            | InputState::SplitterDragging { .. })
    }

    /// Whether an item resize is active.
    pub fn is_resizing(&self) -> (r: bool)
        ensures
            r == (*self is ResizingItem),
    {
        matches!(self, InputState::ResizingItem { .. })
    }

    /// Whether items are being dragged.
    pub fn is_dragging_items(&self) -> (r: bool)
        ensures
            r == (*self is DraggingItems),
    {
        matches!(self, InputState::DraggingItems { .. })
    }

    /// Whether a marquee selection is active.
    pub fn is_marquee_selecting(&self) -> (r: bool)
        ensures
            r == (*self is MarqueeSelecting),
    {
        matches!(self, InputState::MarqueeSelecting { .. })
    }

    /// Whether a drawing gesture is active.
    pub fn is_drawing(&self) -> (r: bool)
        ensures
            r == (*self is Drawing),
    {
        matches!(self, InputState::Drawing { .. })
    }

    /// The drawing start position, while drawing.
    pub fn drawing_start(&self) -> (r: Option<Point>)
        ensures
            match *self {
                InputState::Drawing { start, .. } => r == Some(start),
                _ => (r is None),
            },
    {
        match self {
            InputState::Drawing { start, .. } => Some(*start),
            _ => None,
        }
    }

    /// The current drawing position, while drawing.
    pub fn drawing_current(&self) -> (r: Option<Point>)
        ensures
            match *self {
                InputState::Drawing { current, .. } => r == Some(current),
                _ => (r is None),
            },
    {
        match self {
            InputState::Drawing { current, .. } => Some(*current),
            _ => None,
        }
    }

    /// Whether the canvas is being panned.
    pub fn is_panning(&self) -> (r: bool)
        ensures
            r == (*self is Panning),
    {
        matches!(self, InputState::Panning { .. })
    }

    /// Whether any splitter drag is active.
    pub fn is_splitter_dragging(&self) -> (r: bool)
        ensures
            r == (*self is SplitterDragging),
    {
        matches!(self, InputState::SplitterDragging { .. })
    }

    /// The dragged primary item's id, while dragging.
    pub fn dragged_item_id(&self) -> (r: Option<u64>)
        ensures
            match *self {
                InputState::DraggingItems { primary_item, .. } => r == Some(primary_item),
                _ => (r is None),
            },
    {
        match self {
            InputState::DraggingItems { primary_item, .. } => Some(*primary_item),
            _ => None,
        }
    }

    /// The resized item's id, while resizing.
    pub fn resized_item_id(&self) -> (r: Option<u64>)
        ensures
            match *self {
                InputState::ResizingItem { item_id, .. } => r == Some(item_id),
                _ => (r is None),
            },
    {
        match self {
            InputState::ResizingItem { item_id, .. } => Some(*item_id),
            _ => None,
        }
    }

    /// Whether no interaction is in flight.
    pub fn is_idle(&self) -> (r: bool)
        ensures
            r == (*self is Idle),
    {
        matches!(self, InputState::Idle)
    }

    /// Abandon any interaction and return to idle.
    pub fn reset(&mut self)
        ensures
            *final(self) is Idle,
    {
        *self = InputState::Idle;
    }

    /// Start dragging an item.
    pub fn start_dragging(&mut self, item_id: u64, offset: Point)
        ensures
            *final(self) == (InputState::DraggingItems { primary_item: item_id, drag_offset: offset }),
    {
        *self = InputState::DraggingItems { primary_item: item_id, drag_offset: offset };
    }

    /// Start resizing an item.
    pub fn start_resizing(&mut self, item_id: u64, start_size: (i64, i64), start_pos: Point, original_font_size: Option<i64>)
        ensures
            *final(self) == (InputState::ResizingItem { item_id, start_size, start_pos, original_font_size }),
    {
        *self = InputState::ResizingItem { item_id, start_size, start_pos, original_font_size };
    }

    /// Start dragging the canvas/preview splitter.
    pub fn start_splitter_drag(&mut self, drag_start: Point, direction: SplitDirection)
        ensures
            *final(self) == (InputState::SplitterDragging {
                direction: SplitterDirection::CanvasPreview { direction },
                drag_start,
            }),
    {
        *self = InputState::SplitterDragging {
            direction: SplitterDirection::CanvasPreview { direction },
            drag_start,
        };
    }

    /// Start dragging the divider between split preview panes.
    pub fn start_pane_splitter_drag(&mut self, drag_start: Point, horizontal: bool)
        ensures
            *final(self) == (InputState::SplitterDragging {
                direction: SplitterDirection::PaneSplit { horizontal },
                drag_start,
            }),
    {
        *self = InputState::SplitterDragging {
            direction: SplitterDirection::PaneSplit { horizontal },
            drag_start,
        };
    }

    /// Start a marquee selection at a point.
    pub fn start_marquee(&mut self, start: Point)
        ensures
            *final(self) == (InputState::MarqueeSelecting { start, current: start }),
    {
        *self = InputState::MarqueeSelecting { start, current: start };
    }

    /// Move the marquee's current corner; in any other state, a no-op.
    pub fn set_marquee_current(&mut self, current: Point)
        ensures
            match *old(self) {
                InputState::MarqueeSelecting { start, .. } =>
                    *final(self) == (InputState::MarqueeSelecting { start, current }),
                _ => *final(self) == *old(self),
            },
    {
        if let InputState::MarqueeSelecting { current: c, .. } = self {
            *c = current;
        }
    }

    /// The marquee's start corner, while selecting.
    pub fn marquee_start(&self) -> (r: Option<Point>)
        ensures
            match *self {
                InputState::MarqueeSelecting { start, .. } => r == Some(start),
                _ => (r is None),
            },
    {
        match self {
            InputState::MarqueeSelecting { start, .. } => Some(*start),
            _ => None,
        }
    }

    /// The marquee's current corner, while selecting.
    pub fn marquee_current(&self) -> (r: Option<Point>)
        ensures
            match *self {
                InputState::MarqueeSelecting { current, .. } => r == Some(current),
                _ => (r is None),
            },
    {
        match self {
            InputState::MarqueeSelecting { current, .. } => Some(*current),
            _ => None,
        }
    }

    /// The resized item's id, while resizing.
    pub fn resizing_item(&self) -> (r: Option<u64>)
        ensures
            match *self {
                InputState::ResizingItem { item_id, .. } => r == Some(item_id),
                _ => (r is None),
            },
    {
        match self {
            InputState::ResizingItem { item_id, .. } => Some(*item_id),
            _ => None,
        }
    }

    /// The size the resized item had when the resize began.
    pub fn resize_start_size(&self) -> (r: Option<(i64, i64)>)
        ensures
            match *self {
                InputState::ResizingItem { start_size, .. } => r == Some(start_size),
                _ => (r is None),
            },
    {
        match self {
            InputState::ResizingItem { start_size, .. } => Some(*start_size),
            _ => None,
        }
    }

    /// The pointer position where the resize began.
    pub fn resize_start_pos(&self) -> (r: Option<Point>)
        ensures
            match *self {
                InputState::ResizingItem { start_pos, .. } => r == Some(start_pos),
                _ => (r is None),
            },
    {
        match self {
            InputState::ResizingItem { start_pos, .. } => Some(*start_pos),
            _ => None,
        }
    }

    /// The text box's font size when the resize began, if it had one.
    pub fn resize_start_font_size(&self) -> (r: Option<i64>)
        ensures
            match *self {
                InputState::ResizingItem { original_font_size, .. } => r == original_font_size,
                _ => (r is None),
            },
    {
        match self {
            InputState::ResizingItem { original_font_size, .. } => *original_font_size,
            _ => None,
        }
    }

    /// The offset from the dragged item's scaled origin to the cursor.
    pub fn drag_offset(&self) -> (r: Option<Point>)
        ensures
            match *self {
                InputState::DraggingItems { drag_offset, .. } => r == Some(drag_offset),
                _ => (r is None),
            },
    {
        match self {
            InputState::DraggingItems { drag_offset, .. } => Some(*drag_offset),
            _ => None,
        }
    }

    /// The dragged primary item's id, while dragging.
    pub fn dragging_item(&self) -> (r: Option<u64>)
        ensures
            match *self {
                InputState::DraggingItems { primary_item, .. } => r == Some(primary_item),
                _ => (r is None),
            },
    {
        self.dragged_item_id()
    }

    /// Whether the canvas/preview splitter is being dragged.
    pub fn is_canvas_splitter_dragging(&self) -> (r: bool)
        ensures
            r == (*self matches InputState::SplitterDragging { direction: SplitterDirection::CanvasPreview { .. }, .. }),
    {
        match self {
            InputState::SplitterDragging { direction, .. } =>
                matches!(direction, SplitterDirection::CanvasPreview { .. }),
            _ => false,
        }
    }

    /// Whether the pane splitter is being dragged.
    pub fn is_pane_splitter_dragging(&self) -> (r: bool)
        ensures
            r == (*self matches InputState::SplitterDragging { direction: SplitterDirection::PaneSplit { .. }, .. }),
    {
        match self {
            InputState::SplitterDragging { direction, .. } =>
                matches!(direction, SplitterDirection::PaneSplit { .. }),
            _ => false,
        }
    }

    /// Whether the canvas is being panned.
    pub fn is_canvas_panning(&self) -> (r: bool)
        ensures
            r == (*self is Panning),
    {
        matches!(self, InputState::Panning { .. })
    }

    /// The last pointer position, while panning.
    pub fn last_mouse_pos(&self) -> (r: Option<Point>)
        ensures
            match *self {
                InputState::Panning { last_pos } => r == Some(last_pos),
                _ => (r is None),
            },
    {
        match self {
            InputState::Panning { last_pos } => Some(*last_pos),
            _ => None,
        }
    }

    /// Update the last pointer position; in any other state, a no-op.
    pub fn update_last_mouse_pos(&mut self, pos: Point)
        ensures
            match *old(self) {
                InputState::Panning { .. } => *final(self) == (InputState::Panning { last_pos: pos }),
                _ => *final(self) == *old(self),
            },
    {
        if let InputState::Panning { last_pos } = self {
            *last_pos = pos;
        }
    }
}

/// Every item's geometry is small enough for screen-space arithmetic.
pub open spec fn items_in_range(items: Seq<crate::types::CanvasItem>) -> bool {
    forall|i: int| 0 <= i < items.len() ==> item_geom_in_range(#[trigger] items[i])
}

/// An item's position, size, and the content fields that feed resize and
/// hit-test arithmetic are within the engine's coordinate range.
pub open spec fn item_geom_in_range(it: crate::types::CanvasItem) -> bool {
    &&& crate::geom::coord_in_range(it.position.0)
    &&& crate::geom::coord_in_range(it.position.1)
    &&& 0 <= it.size.0 <= crate::constants::COORD_LIMIT
    &&& 0 <= it.size.1 <= crate::constants::COORD_LIMIT
    &&& crate::types::content_in_range(it.content)
    &&& (it.content matches crate::types::ItemContent::Shape { border_width, .. }
        ==> 0 <= border_width <= 1000)
    &&& (it.content matches crate::types::ItemContent::TextBox { font_size, .. }
        ==> 0 <= font_size <= 100_000)
}

/// A pointer lands on a shape only near its border: within the scaled
/// border width (at least a small minimum) of one of the four edges.
pub open spec fn shape_border_hit_spec(pos: (int, int), size: (int, int), bw: int, mouse: (int, int), off: (int, int), zoom: int) -> bool {
    let sx = crate::geom::to_screen_x(pos.0, off.0, zoom);
    let sy = crate::geom::to_screen_y(pos.1, off.1, zoom);
    let sw = (size.0 * zoom) / 100;
    let sh = (size.1 * zoom) / 100;
    let raw = (bw * zoom) / 100;
    let bh = if raw >= crate::constants::MIN_SHAPE_HIT_AREA { raw } else { crate::constants::MIN_SHAPE_HIT_AREA as int };
    ||| mouse.0 - sx < bh
    ||| (sx + sw) - mouse.0 < bh
    ||| mouse.1 - sy < bh
    ||| (sy + sh) - mouse.1 < bh
}

/// Whether a candidate item accepts the pointer: shapes only near their
/// border, everything else anywhere in its box.
pub open spec fn accept_hit(it: crate::types::CanvasItem, mouse: Point, off: (int, int), zoom: int) -> bool {
    match it.content {
        crate::types::ItemContent::Shape { border_width, .. } => shape_border_hit_spec(
            (it.position.0 as int, it.position.1 as int),
            (it.size.0 as int, it.size.1 as int),
            border_width as int,
            (mouse.x as int, mouse.y as int),
            off,
            zoom,
        ),
        _ => true,
    }
}

/// The pointer sits in the resize corner of an item: a square of scaled
/// corner size inside the bottom-right corner, with a small tolerance
/// past it.
pub open spec fn corner_hit_spec(pos: (int, int), size: (int, int), mouse: (int, int), off: (int, int), zoom: int) -> bool {
    let cx = crate::geom::to_screen_x(pos.0, off.0, zoom) + (size.0 * zoom) / 100;
    let cy = crate::geom::to_screen_y(pos.1, off.1, zoom) + (size.1 * zoom) / 100;
    let cs = (crate::constants::RESIZE_CORNER_SIZE * zoom) / 100;
    &&& cx - cs <= mouse.0 <= cx + crate::constants::RESIZE_CORNER_TOLERANCE
    &&& cy - cs <= mouse.1 <= cy + crate::constants::RESIZE_CORNER_TOLERANCE
}

/// Whether the item at index `i` is hit: its indexed box contains the
/// canvas point and it accepts the pointer.
pub open spec fn is_hit(b: &crate::board::Board, mouse: Point, cpt: (int, int), i: int) -> bool {
    let it = b.items@[i];
    &&& b.index_map().contains_key(it.id)
    &&& crate::spatial::box_contains(b.index_map()[it.id], cpt.0, cpt.1)
    &&& accept_hit(it, mouse, (b.canvas_offset.x as int, b.canvas_offset.y as int), b.zoom as int)
}

/// The index of the topmost hit item among the first `n`, front of the
/// z-order first.
pub open spec fn top_hit_from(b: &crate::board::Board, mouse: Point, cpt: (int, int), n: int) -> Option<int>
    decreases n,
{
    if n <= 0 {
        None
    } else if is_hit(b, mouse, cpt, n - 1) {
        Some(n - 1)
    } else {
        top_hit_from(b, mouse, cpt, n - 1)
    }
}

/// The index of the topmost item the pointer hits, if any.
pub open spec fn top_hit(b: &crate::board::Board, mouse: Point, cpt: (int, int)) -> Option<int> {
    top_hit_from(b, mouse, cpt, b.items@.len() as int)
}

/// Scale a canvas length by the zoom percentage, flooring.
fn scale_coord(v: i64, zoom: u32) -> (r: i64)
    requires
        -crate::constants::COORD_LIMIT <= v <= crate::constants::COORD_LIMIT,
        1 <= zoom <= 500,
    ensures
        r == (v as int * zoom as int) / 100,
        -5 * crate::constants::COORD_LIMIT <= r <= 5 * crate::constants::COORD_LIMIT,
{
    let r = crate::geom::mul_div_floor(v, zoom, 100);
    proof {
        assert(-500 * crate::constants::COORD_LIMIT <= v as int * zoom as int <= 500 * crate::constants::COORD_LIMIT)
            by (nonlinear_arith)
            requires
                -crate::constants::COORD_LIMIT <= v as int <= crate::constants::COORD_LIMIT,
                0 <= zoom as int <= 500;
        assert(-5 * crate::constants::COORD_LIMIT * 100 <= v as int * zoom as int <= 5 * crate::constants::COORD_LIMIT * 100);
        crate::geom::lemma_div_bound(v as int * zoom as int, 100, 5 * crate::constants::COORD_LIMIT * 100);
        vstd::arithmetic::div_mod::lemma_fundamental_div_mod(v as int * zoom as int, 100);
        vstd::arithmetic::div_mod::lemma_mod_bound(v as int * zoom as int, 100);
        assert(-5 * crate::constants::COORD_LIMIT <= (v as int * zoom as int) / 100 <= 5 * crate::constants::COORD_LIMIT)
            by (nonlinear_arith)
            requires
                v as int * zoom as int == 100 * ((v as int * zoom as int) / 100) + (v as int * zoom as int) % 100,
                0 <= (v as int * zoom as int) % 100 < 100,
                -500 * crate::constants::COORD_LIMIT <= v as int * zoom as int <= 500 * crate::constants::COORD_LIMIT;
    }
    r
}

/// Whether a vector of ids holds `id`.
fn ids_contain(v: &Vec<u64>, id: u64) -> (r: bool)
    ensures
        r == v@.contains(id),
{
    let mut i: usize = 0;
    while i < v.len()
        invariant
            0 <= i <= v@.len(),
            forall|j: int| 0 <= j < i ==> v@[j] != id,
        decreases v@.len() - i,
    {
        if v[i] == id {
            return true;
        }
        i = i + 1;
    }
    false
}

/// Whether the pointer sits near a shape's border, in screen space.
fn shape_border_hit(pos: (i64, i64), size: (i64, i64), bw: i64, mouse: Point, off: Point, zoom: u32) -> (r: bool)
    requires
        crate::geom::point_in_range(mouse),
        crate::geom::coord_in_range(pos.0) && crate::geom::coord_in_range(pos.1),
        0 <= size.0 <= crate::constants::COORD_LIMIT && 0 <= size.1 <= crate::constants::COORD_LIMIT,
        0 <= bw <= 1000,
        crate::geom::point_in_range(off),
        crate::geom::zoom_in_range(zoom),
    ensures
        r == shape_border_hit_spec(
            (pos.0 as int, pos.1 as int), (size.0 as int, size.1 as int), bw as int,
            (mouse.x as int, mouse.y as int), (off.x as int, off.y as int), zoom as int),
{
    let sx = scale_coord(pos.0, zoom) + off.x + crate::constants::DOCK_WIDTH;
    let sy = scale_coord(pos.1, zoom) + off.y + crate::constants::HEADER_HEIGHT;
    let sw = scale_coord(size.0, zoom);
    let sh = scale_coord(size.1, zoom);
    let raw = scale_coord(bw, zoom);
    let bh = if raw >= crate::constants::MIN_SHAPE_HIT_AREA { raw } else { crate::constants::MIN_SHAPE_HIT_AREA };
    mouse.x - sx < bh || (sx + sw) - mouse.x < bh || mouse.y - sy < bh || (sy + sh) - mouse.y < bh
}

/// Whether the pointer sits in an item's resize corner, in screen space.
fn corner_hit(pos: (i64, i64), size: (i64, i64), mouse: Point, off: Point, zoom: u32) -> (r: bool)
    requires
        crate::geom::point_in_range(mouse),
        crate::geom::coord_in_range(pos.0) && crate::geom::coord_in_range(pos.1),
        0 <= size.0 <= crate::constants::COORD_LIMIT && 0 <= size.1 <= crate::constants::COORD_LIMIT,
        crate::geom::point_in_range(off),
        crate::geom::zoom_in_range(zoom),
    ensures
        r == corner_hit_spec(
            (pos.0 as int, pos.1 as int), (size.0 as int, size.1 as int),
            (mouse.x as int, mouse.y as int), (off.x as int, off.y as int), zoom as int),
{
    let cx = scale_coord(pos.0, zoom) + off.x + crate::constants::DOCK_WIDTH + scale_coord(size.0, zoom);
    let cy = scale_coord(pos.1, zoom) + off.y + crate::constants::HEADER_HEIGHT + scale_coord(size.1, zoom);
    let cs = scale_coord(crate::constants::RESIZE_CORNER_SIZE, zoom);
    cx - cs <= mouse.x && mouse.x <= cx + crate::constants::RESIZE_CORNER_TOLERANCE
        && cy - cs <= mouse.y && mouse.y <= cy + crate::constants::RESIZE_CORNER_TOLERANCE
}

/// The topmost item under the pointer: candidates come from the spatial
/// index, walked from the front of the z-order, shapes counting only near
/// their border.
pub fn topmost_hit(board: &crate::board::Board, mouse: Point, canvas_pt: Point) -> (r: Option<usize>)
    requires
        crate::geom::point_in_range(mouse),
        board.wf(),
        items_in_range(board.items@),
        crate::geom::point_in_range(board.canvas_offset),
        crate::geom::zoom_in_range(board.zoom),
    ensures
        match r {
            Some(i) => i < board.items@.len()
                && Some(i as int) == top_hit(board, mouse, (canvas_pt.x as int, canvas_pt.y as int))
                && is_hit(board, mouse, (canvas_pt.x as int, canvas_pt.y as int), i as int),
            None => (top_hit(board, mouse, (canvas_pt.x as int, canvas_pt.y as int)) is None),
        },
{
    let ghost cpt = (canvas_pt.x as int, canvas_pt.y as int);
    let candidates = board.query_items_at_point(canvas_pt.x, canvas_pt.y);
    let mut i: usize = board.items.len();
    while i > 0
        invariant
            board.wf(),
            items_in_range(board.items@),
            crate::geom::point_in_range(mouse),
            crate::geom::point_in_range(board.canvas_offset),
            crate::geom::zoom_in_range(board.zoom),
            0 <= i <= board.items@.len(),
            cpt == (canvas_pt.x as int, canvas_pt.y as int),
            candidates@.no_duplicates(),
            forall|id: u64| #[trigger] candidates@.contains(id) <==> board.index_map().contains_key(id)
                && crate::spatial::box_contains(board.index_map()[id], cpt.0, cpt.1),
            top_hit(board, mouse, cpt) == top_hit_from(board, mouse, cpt, i as int),
        decreases i,
    {
        i = i - 1;
        let item = &board.items[i];
        let in_candidates = ids_contain(&candidates, item.id);
        let accepted: bool = if in_candidates {
            match &item.content {
                crate::types::ItemContent::Shape { border_width, .. } => shape_border_hit(
                    item.position, item.size, *border_width, mouse, board.canvas_offset, board.zoom),
                _ => true,
            }
        } else {
            false
        };
        if accepted {
            proof {
                assert(is_hit(board, mouse, cpt, i as int));
                assert(top_hit_from(board, mouse, cpt, i + 1) == Some(i as int));
            }
            return Some(i);
        }
        proof {
            assert(!is_hit(board, mouse, cpt, i as int));
            assert(top_hit_from(board, mouse, cpt, i + 1) == top_hit_from(board, mouse, cpt, i as int));
        }
    }
    None
}

/// A tool that draws a new item on drag.
pub open spec fn is_draw_tool(tool: ToolType) -> bool {
    tool is Text || tool is Arrow || tool is Shape
}

/// The screen position of an item's top-left corner.
pub open spec fn item_screen_origin(it: crate::types::CanvasItem, off: (int, int), zoom: int) -> (int, int) {
    (crate::geom::to_screen_x(it.position.0 as int, off.0, zoom),
     crate::geom::to_screen_y(it.position.1 as int, off.1, zoom))
}

/// Start a gesture from a pointer press. Gestures begin only from idle:
/// in any other state the press changes nothing, so two gestures can
/// never overlap. A pan press starts panning; a drawing tool starts a
/// drawing gesture and drops the selection; otherwise the press is hit
/// tested: a hit on a resize corner starts a resize, any other hit
/// updates the selection and starts a drag, and a miss starts a marquee
/// with the select tool (or a drawing gesture with the table and chart
/// tools), clearing the selection unless extended by the modifier.
pub fn handle_pointer_down(
    input: &mut InputState,
    board: &crate::board::Board,
    selection: &mut crate::selection::SelectionManager,
    tool: ToolType,
    pos: Point,
    shift: bool,
    pan_button: bool,
)
    requires
        board.wf(),
        old(selection).wf(),
        items_in_range(board.items@),
        crate::geom::point_in_range(pos),
        crate::geom::point_in_range(board.canvas_offset),
        crate::geom::zoom_in_range(board.zoom),
    ensures
        final(selection).wf(),
        !(*old(input) is Idle) ==> *final(input) == *old(input) && *final(selection) == *old(selection),
        *old(input) is Idle && pan_button
            ==> *final(input) == (InputState::Panning { last_pos: pos }) && *final(selection) == *old(selection),
        *old(input) is Idle && !pan_button && is_draw_tool(tool) ==> ({
            &&& *final(input) == (InputState::Drawing { tool, start: pos, current: pos })
            &&& final(selection).count() == 0
        }),
        *old(input) is Idle && !pan_button && !is_draw_tool(tool) ==> ({
            let off = (board.canvas_offset.x as int, board.canvas_offset.y as int);
            let cpt = (crate::geom::to_canvas_x(pos.x as int, off.0, board.zoom as int),
                       crate::geom::to_canvas_y(pos.y as int, off.1, board.zoom as int));
            match top_hit(board, Point { x: pos.x, y: pos.y }, cpt) {
                Some(i) => {
                    let it = board.items@[i];
                    &&& (shift ==> final(selection).has(it.id) == !old(selection).has(it.id)
                        && (forall|x: u64| x != it.id ==> final(selection).has(x) == old(selection).has(x)))
                    &&& (!shift && old(selection).has(it.id) ==> *final(selection) == *old(selection))
                    &&& (!shift && !old(selection).has(it.id)
                        ==> (forall|x: u64| final(selection).has(x) == (x == it.id)))
                    &&& if corner_hit_spec(
                            (it.position.0 as int, it.position.1 as int),
                            (it.size.0 as int, it.size.1 as int),
                            (pos.x as int, pos.y as int), off, board.zoom as int) {
                        *final(input) == (InputState::ResizingItem {
                            item_id: it.id,
                            start_size: it.size,
                            start_pos: pos,
                            original_font_size: match it.content {
                                crate::types::ItemContent::TextBox { font_size, .. } => Some(font_size),
                                _ => None,
                            },
                        })
                    } else {
                        *final(input) matches InputState::DraggingItems { primary_item, drag_offset }
                            && primary_item == it.id
                            && drag_offset.x == pos.x - item_screen_origin(it, off, board.zoom as int).0
                            && drag_offset.y == pos.y - item_screen_origin(it, off, board.zoom as int).1
                    }
                },
                None => {
                    &&& (tool is Select ==> *final(input) == (InputState::MarqueeSelecting { start: pos, current: pos })
                        && (shift ==> *final(selection) == *old(selection))
                        && (!shift ==> final(selection).count() == 0))
                    &&& ((tool is Table || tool is Chart)
                        ==> *final(input) == (InputState::Drawing { tool, start: pos, current: pos })
                            && *final(selection) == *old(selection))
                },
            }
        }),
{
    if !input.is_idle() {
        return;
    }
    if pan_button {
        *input = InputState::Panning { last_pos: pos };
        return;
    }
    if matches!(tool, ToolType::Text | ToolType::Arrow | ToolType::Shape) {
        selection.clear();
        *input = InputState::Drawing { tool, start: pos, current: pos };
        return;
    }
    let ctx = crate::geom::CoordinateContext::new(board.canvas_offset, board.zoom);
    let canvas_pt = crate::geom::CoordinateConverter::screen_to_canvas(pos, &ctx);
    match topmost_hit(board, pos, canvas_pt) {
        Some(i) => {
            let item = &board.items[i];
            let id = item.id;
            if shift {
                selection.toggle(id);
            } else if !selection.contains(id) {
                selection.clear();
                selection.insert(id);
            }
            if corner_hit(item.position, item.size, pos, board.canvas_offset, board.zoom) {
                let font: Option<i64> = match &item.content {
                    crate::types::ItemContent::TextBox { font_size, .. } => Some(*font_size),
                    _ => None,
                };
                *input = InputState::ResizingItem {
                    item_id: id,
                    start_size: item.size,
                    start_pos: pos,
                    original_font_size: font,
                };
            } else {
                let ox = scale_coord(item.position.0, board.zoom) + board.canvas_offset.x + crate::constants::DOCK_WIDTH;
                let oy = scale_coord(item.position.1, board.zoom) + board.canvas_offset.y + crate::constants::HEADER_HEIGHT;
                *input = InputState::DraggingItems {
                    primary_item: id,
                    drag_offset: Point::new(pos.x - ox, pos.y - oy),
                };
            }
        },
        None => {
            match tool {
                ToolType::Select => {
                    if !shift {
                        selection.clear();
                    }
                    *input = InputState::MarqueeSelecting { start: pos, current: pos };
                },
                ToolType::Table | ToolType::Chart => {
                    *input = InputState::Drawing { tool, start: pos, current: pos };
                },
                _ => {},
            }
        },
    }
}

/// A coordinate clamped into the engine's range.
pub open spec fn clamp_coord_spec(v: int) -> int {
    if v < -crate::constants::COORD_LIMIT {
        -crate::constants::COORD_LIMIT as int
    } else if v > crate::constants::COORD_LIMIT {
        crate::constants::COORD_LIMIT as int
    } else {
        v
    }
}

/// Clamp a coordinate into the engine's range.
pub fn clamp_coord(v: i64) -> (r: i64)
    ensures
        r == clamp_coord_spec(v as int),
        crate::geom::coord_in_range(r),
{
    if v < -crate::constants::COORD_LIMIT {
        -crate::constants::COORD_LIMIT
    } else if v > crate::constants::COORD_LIMIT {
        crate::constants::COORD_LIMIT
    } else {
        v
    }
}

/// A size clamped into `[min, COORD_LIMIT]`.
pub open spec fn clamp_size_spec(v: int, min: int) -> int {
    if v < min {
        min
    } else if v > crate::constants::COORD_LIMIT {
        crate::constants::COORD_LIMIT as int
    } else {
        v
    }
}

fn clamp_size(v: i64, min: i64) -> (r: i64)
    requires
        0 <= min <= crate::constants::COORD_LIMIT,
        -0x1_0000_0000_0000 <= v <= 0x1_0000_0000_0000,
    ensures
        r == clamp_size_spec(v as int, min as int),
        min <= r <= crate::constants::COORD_LIMIT,
{
    if v < min {
        min
    } else if v > crate::constants::COORD_LIMIT {
        crate::constants::COORD_LIMIT
    } else {
        v
    }
}

/// The canvas-space motion a resize has covered: the screen motion since
/// the press, divided by the zoom.
pub open spec fn resize_delta_spec(pos: Point, start_pos: Point, zoom: int) -> (int, int) {
    (crate::geom::delta_to_canvas(pos.x - start_pos.x, zoom),
     crate::geom::delta_to_canvas(pos.y - start_pos.y, zoom))
}

/// The new dimensions a resize produces. Markdown cards keep their fixed
/// aspect ratio, following the dragged width; arrows scale uniformly by
/// the average of the two per-axis scale factors (in thousandths, capped
/// at a thousandfold), never below the arrow minimum; everything else
/// follows the drag with a minimum per side. All results are clamped
/// into the coordinate range.
pub open spec fn resized_dims_spec(content: crate::types::ItemContent, start: (int, int), d: (int, int)) -> (int, int) {
    match content {
        crate::types::ItemContent::Markdown { .. } => {
            let w = clamp_size_spec(start.0 + d.0, 100);
            (w, clamp_size_spec(w * 36 / 200, 0))
        },
        crate::types::ItemContent::Arrow { .. } => {
            if start.0 >= 1 && start.1 >= 1 {
                let sx = ((start.0 + d.0) * 1000) / start.0;
                let sy = ((start.1 + d.1) * 1000) / start.1;
                let avg = (sx + sy) / 2;
                let sc = if avg < 100 { 100int } else if avg > 1_000_000 { 1_000_000int } else { avg };
                (clamp_size_spec(start.0 * sc / 1000, crate::constants::MIN_ARROW_SIZE as int),
                 clamp_size_spec(start.1 * sc / 1000, crate::constants::MIN_ARROW_SIZE as int))
            } else {
                (clamp_size_spec(start.0 + d.0, crate::constants::MIN_ITEM_SIZE as int),
                 clamp_size_spec(start.1 + d.1, crate::constants::MIN_ITEM_SIZE as int))
            }
        },
        _ => {
            (clamp_size_spec(start.0 + d.0, crate::constants::MIN_ITEM_SIZE as int),
             clamp_size_spec(start.1 + d.1, crate::constants::MIN_ITEM_SIZE as int))
        },
    }
}

/// The font size a text box gets after a resize: scaled with the height
/// and clamped into the configured font range.
pub open spec fn resized_font_spec(orig: int, new_h: int, start_h: int) -> int {
    if start_h >= 1 {
        let f = orig * new_h / start_h;
        if f < crate::constants::MIN_FONT_SIZE {
            crate::constants::MIN_FONT_SIZE as int
        } else if f > crate::constants::MAX_FONT_SIZE {
            crate::constants::MAX_FONT_SIZE as int
        } else {
            f
        }
    } else {
        orig
    }
}

/// What a resize leaves in the item's content: an arrow re-derives its
/// end offset from the new dimensions and the quadrant of the old offset,
/// a text box rescales its font, everything else keeps its content.
pub open spec fn resized_content_ok(old_c: crate::types::ItemContent, new_c: crate::types::ItemContent, dims: (int, int), start_h: int) -> bool {
    match old_c {
        crate::types::ItemContent::Arrow { end_offset, color, thickness, head_style } => {
            let signs = crate::types::ArrowDirection::dir_of(end_offset.0 as int, end_offset.1 as int).signs_of();
            new_c matches crate::types::ItemContent::Arrow { end_offset: e2, color: c2, thickness: t2, head_style: h2 }
                && e2.0 == dims.0 * signs.0 && e2.1 == dims.1 * signs.1
                && c2@ == color@ && t2 == thickness && h2 == head_style
        },
        crate::types::ItemContent::TextBox { text, font_size, color } => {
            new_c matches crate::types::ItemContent::TextBox { text: x2, font_size: f2, color: c2 }
                && x2@ == text@ && c2@ == color@
                && f2 == resized_font_spec(font_size as int, dims.1, start_h)
        },
        _ => new_c@ == old_c@,
    }
}

/// Advance the active gesture with a pointer move. The history is never
/// touched: a drag of any length leaves commits to the release. Panning
/// shifts the pan offset by the motion since the last move; dragging
/// moves the hit item — and, when it is part of a larger selection, every
/// selected item — by the same canvas delta; resizing reshapes the one
/// item under the corner; marquee and drawing gestures only track the
/// current corner; the idle and splitter states leave the board alone. A
/// dragged or resized id that has vanished from the scene is a no-op.
pub fn handle_pointer_move(
    input: &mut InputState,
    board: &mut crate::board::Board,
    selection: &crate::selection::SelectionManager,
    pos: Point,
)
    requires
        old(board).wf(),
        selection.wf(),
        items_in_range(old(board).items@),
        crate::geom::point_in_range(pos),
        crate::geom::point_in_range(old(board).canvas_offset),
        crate::geom::zoom_in_range(old(board).zoom),
        (*old(input) matches InputState::Panning { last_pos } ==> crate::geom::point_in_range(last_pos)),
        (*old(input) matches InputState::DraggingItems { drag_offset, .. } ==> crate::geom::point_in_range(drag_offset)),
        (*old(input) matches InputState::ResizingItem { start_pos, start_size, .. }
            ==> crate::geom::point_in_range(start_pos)
                && 0 <= start_size.0 <= crate::constants::COORD_LIMIT
                && 0 <= start_size.1 <= crate::constants::COORD_LIMIT),
    ensures
        final(board).wf(),
        items_in_range(final(board).items@),
        final(board).hist() == old(board).hist(),
        final(board).cursor() == old(board).cursor(),
        final(board).baseline_v() == old(board).baseline_v(),
        final(board).index_map() == old(board).index_map(),
        final(board).next_item_id == old(board).next_item_id,
        final(board).data_sources == old(board).data_sources,
        final(board).next_data_source_id == old(board).next_data_source_id,
        final(board).zoom == old(board).zoom,
        final(board).items@.len() == old(board).items@.len(),
        (old(board).dirty ==> final(board).dirty),
        (*old(input) is Idle || *old(input) is SplitterDragging)
            ==> *final(input) == *old(input)
                && final(board).items == old(board).items
                && final(board).canvas_offset == old(board).canvas_offset
                && final(board).dirty == old(board).dirty,
        (*old(input) matches InputState::MarqueeSelecting { start, .. }
            ==> *final(input) == (InputState::MarqueeSelecting { start, current: pos })
                && final(board).items == old(board).items
                && final(board).canvas_offset == old(board).canvas_offset
                && final(board).dirty == old(board).dirty),
        (*old(input) matches InputState::Drawing { tool, start, .. }
            ==> *final(input) == (InputState::Drawing { tool, start, current: pos })
                && final(board).items == old(board).items
                && final(board).canvas_offset == old(board).canvas_offset
                && final(board).dirty == old(board).dirty),
        (*old(input) matches InputState::Panning { last_pos } ==> ({
            &&& *final(input) == (InputState::Panning { last_pos: pos })
            &&& final(board).dirty
            &&& final(board).items == old(board).items
            &&& final(board).canvas_offset.x == clamp_coord_spec(old(board).canvas_offset.x + pos.x - last_pos.x)
            &&& final(board).canvas_offset.y == clamp_coord_spec(old(board).canvas_offset.y + pos.y - last_pos.y)
        })),
        (*old(input) matches InputState::DraggingItems { primary_item, drag_offset } ==> ({
            &&& *final(input) == *old(input)
            &&& final(board).canvas_offset == old(board).canvas_offset
            &&& ((forall|i: int| 0 <= i < old(board).items@.len()
                    ==> (#[trigger] old(board).items@[i]).id != primary_item)
                ==> final(board).items == old(board).items
                    && final(board).dirty == old(board).dirty)
            &&& (forall|i: int| 0 <= i < old(board).items@.len()
                    && (#[trigger] old(board).items@[i]).id == primary_item
                    && (forall|j: int| 0 <= j < i ==> (#[trigger] old(board).items@[j]).id != primary_item)
                ==> dragged_outcome(old(board).items@, final(board).items@, selection, primary_item, i,
                        drag_delta(old(board).items@[i], pos, drag_offset,
                            (old(board).canvas_offset.x as int, old(board).canvas_offset.y as int),
                            old(board).zoom as int)))
        })),
        (*old(input) matches InputState::ResizingItem { item_id, start_size, start_pos, original_font_size } ==> ({
            &&& *final(input) == *old(input)
            &&& final(board).canvas_offset == old(board).canvas_offset
            &&& ((forall|i: int| 0 <= i < old(board).items@.len()
                    ==> (#[trigger] old(board).items@[i]).id != item_id)
                ==> final(board).items == old(board).items
                    && final(board).dirty == old(board).dirty)
            &&& (forall|i: int| 0 <= i < old(board).items@.len()
                    && (#[trigger] old(board).items@[i]).id == item_id
                    && (forall|j: int| 0 <= j < i ==> (#[trigger] old(board).items@[j]).id != item_id)
                ==> resized_outcome(old(board).items@, final(board).items@, i,
                        (start_size.0 as int, start_size.1 as int),
                        resize_delta_spec(pos, start_pos, old(board).zoom as int)))
        })),
{
    match *input {
        InputState::Idle | InputState::SplitterDragging { .. } => {},
        InputState::MarqueeSelecting { start, .. } => {
            *input = InputState::MarqueeSelecting { start, current: pos };
        },
        InputState::Drawing { tool, start, .. } => {
            *input = InputState::Drawing { tool, start, current: pos };
        },
        InputState::Panning { last_pos } => {
            let nx = clamp_coord(board.canvas_offset.x + (pos.x - last_pos.x));
            let ny = clamp_coord(board.canvas_offset.y + (pos.y - last_pos.y));
            board.canvas_offset = Point::new(nx, ny);
            board.dirty = true;
            *input = InputState::Panning { last_pos: pos };
        },
        InputState::DraggingItems { primary_item, drag_offset } => {
            match board.find_item_index(primary_item) {
                Some(idx) => {
                    let adjusted = Point::new(pos.x - drag_offset.x, pos.y - drag_offset.y);
                    let ctx = crate::geom::CoordinateContext::new(board.canvas_offset, board.zoom);
                    let cpt = crate::geom::CoordinateConverter::screen_to_canvas(adjusted, &ctx);
                    proof {
                        let dd = adjusted.x - crate::constants::DOCK_WIDTH - board.canvas_offset.x;
                        let dy = adjusted.y - crate::constants::HEADER_HEIGHT - board.canvas_offset.y;
                        crate::geom::lemma_div_bound(dd * 100, board.zoom as int, 500 * crate::constants::COORD_LIMIT);
                        crate::geom::lemma_div_bound(dy * 100, board.zoom as int, 500 * crate::constants::COORD_LIMIT);
                    }
                    let dx: i64 = cpt.x - board.items[idx].position.0;
                    let dy: i64 = cpt.y - board.items[idx].position.1;
                    let group = selection.contains(primary_item) && selection.len() > 1;
                    if group {
                        let n = board.items.len();
                        let mut k: usize = 0;
                        while k < n
                            invariant
                                0 <= k <= n,
                                n == board.items@.len(),
                                board.wf(),
                                selection.wf(),
                                items_in_range(board.items@),
                                -600 * crate::constants::COORD_LIMIT <= dx <= 600 * crate::constants::COORD_LIMIT,
                                -600 * crate::constants::COORD_LIMIT <= dy <= 600 * crate::constants::COORD_LIMIT,
                                board.items@.len() == old(board).items@.len(),
                                board.hist() == old(board).hist(),
                                board.cursor() == old(board).cursor(),
                                board.baseline_v() == old(board).baseline_v(),
                                board.index_map() == old(board).index_map(),
                                board.next_item_id == old(board).next_item_id,
                                board.zoom == old(board).zoom,
                                board.canvas_offset == old(board).canvas_offset,
                                board.data_sources == old(board).data_sources,
                                board.next_data_source_id == old(board).next_data_source_id,
                                forall|i: int| 0 <= i < k ==> moved_one(old(board).items@[i], #[trigger] board.items@[i], selection, (dx as int, dy as int)),
                                forall|i: int| k <= i < n ==> #[trigger] board.items@[i] == old(board).items@[i],
                            decreases n - k,
                        {
                            let moved: bool = {
                                let it = &board.items[k];
                                selection.contains(it.id)
                            };
                            if moved {
                                let it = board.items.remove(k);
                                let np = (clamp_coord(it.position.0 + dx), clamp_coord(it.position.1 + dy));
                                let nit = crate::types::CanvasItem { position: np, ..it };
                                board.items.insert(k, nit);
                            }
                            k = k + 1;
                        }
                    } else {
                        let it = board.items.remove(idx);
                        let np = (clamp_coord(it.position.0 + dx), clamp_coord(it.position.1 + dy));
                        let nit = crate::types::CanvasItem { position: np, ..it };
                        board.items.insert(idx, nit);
                    }
                    board.dirty = true;
                },
                None => {},
            }
        },
        InputState::ResizingItem { item_id, start_size, start_pos, original_font_size } => {
            match board.find_item_index(item_id) {
                Some(idx) => {
                    let dxs: i64 = pos.x - start_pos.x;
                    let dys: i64 = pos.y - start_pos.y;
                    let dx = crate::geom::mul_div_floor(dxs, 100, board.zoom);
                    let dy = crate::geom::mul_div_floor(dys, 100, board.zoom);
                    proof {
                        crate::geom::lemma_div_bound(dxs * 100, board.zoom as int, 200 * crate::constants::COORD_LIMIT + 100);
                        crate::geom::lemma_div_bound(dys * 100, board.zoom as int, 200 * crate::constants::COORD_LIMIT + 100);
                    }
                    let it = board.items.remove(idx);
                    let dims = resized_dims(&it.content, start_size, (dx, dy));
                    let new_content = resized_content(it.content, dims, start_size.1);
                    let nit = crate::types::CanvasItem {
                        id: it.id,
                        position: it.position,
                        size: dims,
                        content: new_content,
                    };
                    board.items.insert(idx, nit);
                    board.dirty = true;
                },
                None => {},
            }
        },
    }
}

/// What one item looks like after a group move: selected items shift by
/// the delta (clamped into range), unselected ones stay.
pub open spec fn moved_one(a: crate::types::CanvasItem, b: crate::types::CanvasItem, sel: &crate::selection::SelectionManager, d: (int, int)) -> bool {
    if sel.has(a.id) {
        b == (crate::types::CanvasItem {
            position: (clamp_coord_spec(a.position.0 + d.0) as i64, clamp_coord_spec(a.position.1 + d.1) as i64),
            ..a
        })
    } else {
        b == a
    }
}

/// The canvas delta a drag move applies to the primary item at index `i`.
pub open spec fn drag_delta(it: crate::types::CanvasItem, pos: Point, drag_offset: Point, off: (int, int), zoom: int) -> (int, int) {
    let cx = crate::geom::to_canvas_x(pos.x - drag_offset.x, off.0, zoom);
    let cy = crate::geom::to_canvas_y(pos.y - drag_offset.y, off.1, zoom);
    (cx - it.position.0, cy - it.position.1)
}

/// The scene after a drag move of the primary item at index `i` by `d`:
/// with the primary in a larger selection, every selected item shifts by
/// `d` and the rest stay; otherwise only the primary shifts.
pub open spec fn dragged_outcome(items_old: Seq<crate::types::CanvasItem>, items_new: Seq<crate::types::CanvasItem>, sel: &crate::selection::SelectionManager, primary: u64, i: int, d: (int, int)) -> bool {
    &&& items_new.len() == items_old.len()
    &&& if sel.has(primary) && sel.count() > 1 {
        forall|k: int| 0 <= k < items_old.len()
            ==> moved_one(items_old[k], #[trigger] items_new[k], sel, d)
    } else {
        &&& items_new[i] == (crate::types::CanvasItem {
            position: (clamp_coord_spec(items_old[i].position.0 + d.0) as i64,
                       clamp_coord_spec(items_old[i].position.1 + d.1) as i64),
            ..items_old[i]
        })
        &&& forall|k: int| 0 <= k < items_old.len() && k != i
            ==> #[trigger] items_new[k] == items_old[k]
    }
}

/// The scene after a resize of the item at index `i`: that item gets the
/// computed dimensions and content, everything else stays.
pub open spec fn resized_outcome(items_old: Seq<crate::types::CanvasItem>, items_new: Seq<crate::types::CanvasItem>, i: int, start: (int, int), d: (int, int)) -> bool {
    let a = items_old[i];
    let dims = resized_dims_spec(a.content, start, d);
    &&& items_new.len() == items_old.len()
    &&& items_new[i].id == a.id
    &&& items_new[i].position == a.position
    &&& (items_new[i].size.0 as int, items_new[i].size.1 as int) == dims
    &&& resized_content_ok(a.content, items_new[i].content, dims, start.1)
    &&& forall|k: int| 0 <= k < items_old.len() && k != i
        ==> #[trigger] items_new[k] == items_old[k]
}

/// The new dimensions for a resize, per content kind.
fn resized_dims(content: &crate::types::ItemContent, start: (i64, i64), d: (i64, i64)) -> (r: (i64, i64))
    requires
        0 <= start.0 <= crate::constants::COORD_LIMIT,
        0 <= start.1 <= crate::constants::COORD_LIMIT,
        -600 * crate::constants::COORD_LIMIT <= d.0 <= 600 * crate::constants::COORD_LIMIT,
        -600 * crate::constants::COORD_LIMIT <= d.1 <= 600 * crate::constants::COORD_LIMIT,
    ensures
        (r.0 as int, r.1 as int) == resized_dims_spec(*content, (start.0 as int, start.1 as int), (d.0 as int, d.1 as int)),
        crate::constants::MIN_ARROW_SIZE <= 50 ==> 0 <= r.0 <= crate::constants::COORD_LIMIT && 0 <= r.1 <= crate::constants::COORD_LIMIT,
{
    match content {
        crate::types::ItemContent::Markdown { .. } => {
            let w = clamp_size(start.0 + d.0, 100);
            let h64: i64 = w * 36 / 200;
            proof {
                assert(w * 36 / 200 == (w as int) * 36 / 200) by (nonlinear_arith)
                    requires 0 <= w <= crate::constants::COORD_LIMIT;
            }
            (w, clamp_size(h64, 0))
        },
        crate::types::ItemContent::Arrow { .. } => {
            if start.0 >= 1 && start.1 >= 1 {
                let sx: i64 = crate::geom::div_floor_i64((start.0 + d.0) * 1000, start.0);
                let sy: i64 = crate::geom::div_floor_i64((start.1 + d.1) * 1000, start.1);
                proof {
                    crate::geom::lemma_div_bound((start.0 + d.0) * 1000, start.0 as int, 0x20_0000_0000_0000);
                    crate::geom::lemma_div_bound((start.1 + d.1) * 1000, start.1 as int, 0x20_0000_0000_0000);
                }
                let avg: i64 = crate::geom::div_floor_i64(sx + sy, 2);
                let sc: i64 = if avg < 100 { 100 } else if avg > 1_000_000 { 1_000_000 } else { avg };
                proof {
                    assert(0 <= (start.0 as int) * (sc as int) <= 1_000_000 * crate::constants::COORD_LIMIT) by (nonlinear_arith)
                        requires 1 <= start.0 as int <= crate::constants::COORD_LIMIT, 100 <= sc as int <= 1_000_000;
                    assert(0 <= (start.1 as int) * (sc as int) <= 1_000_000 * crate::constants::COORD_LIMIT) by (nonlinear_arith)
                        requires 1 <= start.1 as int <= crate::constants::COORD_LIMIT, 100 <= sc as int <= 1_000_000;
                    crate::geom::lemma_div_bound((start.0 as int) * (sc as int), 1000, 1_000_000 * crate::constants::COORD_LIMIT);
                    crate::geom::lemma_div_bound((start.1 as int) * (sc as int), 1000, 1_000_000 * crate::constants::COORD_LIMIT);
                }
                let w: i64 = ((start.0 as u64) * (sc as u64) / 1000) as i64;
                let h: i64 = ((start.1 as u64) * (sc as u64) / 1000) as i64;
                (clamp_size(w, crate::constants::MIN_ARROW_SIZE),
                 clamp_size(h, crate::constants::MIN_ARROW_SIZE))
            } else {
                (clamp_size(start.0 + d.0, crate::constants::MIN_ITEM_SIZE),
                 clamp_size(start.1 + d.1, crate::constants::MIN_ITEM_SIZE))
            }
        },
        _ => {
            (clamp_size(start.0 + d.0, crate::constants::MIN_ITEM_SIZE),
             clamp_size(start.1 + d.1, crate::constants::MIN_ITEM_SIZE))
        },
    }
}

/// The content after a resize: arrows re-derive their end offset, text
/// boxes rescale their font, everything else passes through.
fn resized_content(content: crate::types::ItemContent, dims: (i64, i64), start_h: i64) -> (r: crate::types::ItemContent)
    requires
        crate::types::content_in_range(content),
        0 <= dims.0 <= crate::constants::COORD_LIMIT,
        0 <= dims.1 <= crate::constants::COORD_LIMIT,
        0 <= start_h <= crate::constants::COORD_LIMIT,
        (content matches crate::types::ItemContent::TextBox { font_size, .. } ==> 0 <= font_size <= 100_000),
    ensures
        resized_content_ok(content, r, (dims.0 as int, dims.1 as int), start_h as int),
        crate::types::content_in_range(r),
        (r matches crate::types::ItemContent::Shape { border_width, .. }
            ==> content matches crate::types::ItemContent::Shape { border_width: b0, .. } && border_width == b0),
        (r matches crate::types::ItemContent::TextBox { font_size, .. } ==> 0 <= font_size <= 100_000),
        (content matches crate::types::ItemContent::Shape { .. } ==> r == content),
    {
    match content {
        crate::types::ItemContent::Arrow { end_offset, color, thickness, head_style } => {
            let dir = crate::types::ArrowDirection::from_offset(end_offset);
            let (sgx, sgy) = dir.to_signs();
            let ex: i64 = if sgx >= 0 { dims.0 } else { -dims.0 };
            let ey: i64 = if sgy >= 0 { dims.1 } else { -dims.1 };
            proof {
                assert(sgx as int == 1 || sgx as int == -1);
                assert(sgy as int == 1 || sgy as int == -1);
            }
            crate::types::ItemContent::Arrow {
                end_offset: (ex, ey),
                color,
                thickness,
                head_style,
            }
        },
        crate::types::ItemContent::TextBox { text, font_size, color } => {
            let nf: i64 = if start_h >= 1 {
                proof {
                    assert(0 <= (font_size as int) * (dims.1 as int) <= 100_000 * crate::constants::COORD_LIMIT) by (nonlinear_arith)
                        requires 0 <= font_size as int <= 100_000, 0 <= dims.1 as int <= crate::constants::COORD_LIMIT;
                    crate::geom::lemma_div_bound((font_size as int) * (dims.1 as int), start_h as int, 100_000 * crate::constants::COORD_LIMIT);
                }
                let scaled: i64 = ((font_size as u64) * (dims.1 as u64) / (start_h as u64)) as i64;
                if scaled < crate::constants::MIN_FONT_SIZE {
                    crate::constants::MIN_FONT_SIZE
                } else if scaled > crate::constants::MAX_FONT_SIZE {
                    crate::constants::MAX_FONT_SIZE
                } else {
                    scaled
                }
            } else {
                font_size
            };
            crate::types::ItemContent::TextBox { text, font_size: nf, color }
        },
        other => other,
    }
}

/// The canvas rectangle a marquee spans: the screen corners sorted, sent
/// through the transform, and sorted again.
pub open spec fn marquee_rect(start: Point, end: Point, off: (int, int), zoom: int) -> (int, int, int, int) {
    let sminx = if start.x <= end.x { start.x as int } else { end.x as int };
    let smaxx = if start.x <= end.x { end.x as int } else { start.x as int };
    let sminy = if start.y <= end.y { start.y as int } else { end.y as int };
    let smaxy = if start.y <= end.y { end.y as int } else { start.y as int };
    let ax = crate::geom::to_canvas_x(sminx, off.0, zoom);
    let bx = crate::geom::to_canvas_x(smaxx, off.0, zoom);
    let ay = crate::geom::to_canvas_y(sminy, off.1, zoom);
    let by = crate::geom::to_canvas_y(smaxy, off.1, zoom);
    (if ax <= bx { ax } else { bx }, if ay <= by { ay } else { by },
     if ax <= bx { bx } else { ax }, if ay <= by { by } else { ay })
}

/// A marquee too small to count as a selection (an accidental click).
pub open spec fn marquee_too_small(start: Point, end: Point) -> bool {
    let w = if start.x <= end.x { end.x - start.x } else { start.x - end.x };
    let h = if start.y <= end.y { end.y - start.y } else { start.y - end.y };
    w <= crate::constants::MIN_MARQUEE_SIZE && h <= crate::constants::MIN_MARQUEE_SIZE
}

/// What finishing a marquee does to the selection: every indexed item
/// whose box overlaps the marquee rectangle is selected — toggled when
/// the modifier extends the selection — and everything else is left
/// alone; a marquee below the click threshold changes nothing.
pub open spec fn marquee_outcome(
    b: &crate::board::Board,
    old_sel: crate::selection::SelectionManager,
    new_sel: crate::selection::SelectionManager,
    start: Point,
    end: Point,
    shift: bool,
) -> bool {
    if marquee_too_small(start, end) {
        new_sel == old_sel
    } else {
        let rect = marquee_rect(start, end, (b.canvas_offset.x as int, b.canvas_offset.y as int), b.zoom as int);
        forall|id: u64| {
            let hit = b.index_map().contains_key(id)
                && crate::spatial::box_intersects(#[trigger] b.index_map()[id], rect.0, rect.1, rect.2, rect.3);
            if hit {
                if shift {
                    new_sel.has(id) == !old_sel.has(id)
                } else {
                    new_sel.has(id)
                }
            } else {
                new_sel.has(id) == old_sel.has(id)
            }
        }
    }
}

/// Finish a marquee selection against the spatial index.
fn finalize_marquee(
    board: &crate::board::Board,
    selection: &mut crate::selection::SelectionManager,
    start: Point,
    end: Point,
    shift: bool,
)
    requires
        board.wf(),
        old(selection).wf(),
        crate::geom::point_in_range(start),
        crate::geom::point_in_range(end),
        crate::geom::point_in_range(board.canvas_offset),
        crate::geom::zoom_in_range(board.zoom),
    ensures
        final(selection).wf(),
        marquee_outcome(board, *old(selection), *final(selection), start, end, shift),
{
    let wpx: i64 = if start.x <= end.x { end.x - start.x } else { start.x - end.x };
    let hpx: i64 = if start.y <= end.y { end.y - start.y } else { start.y - end.y };
    if wpx <= crate::constants::MIN_MARQUEE_SIZE && hpx <= crate::constants::MIN_MARQUEE_SIZE {
        return;
    }
    let sminx: i64 = if start.x <= end.x { start.x } else { end.x };
    let smaxx: i64 = if start.x <= end.x { end.x } else { start.x };
    let sminy: i64 = if start.y <= end.y { start.y } else { end.y };
    let smaxy: i64 = if start.y <= end.y { end.y } else { start.y };
    let ctx = crate::geom::CoordinateContext::new(board.canvas_offset, board.zoom);
    let lo = crate::geom::CoordinateConverter::screen_to_canvas(Point::new(sminx, sminy), &ctx);
    let hi = crate::geom::CoordinateConverter::screen_to_canvas(Point::new(smaxx, smaxy), &ctx);
    let minx: i64 = if lo.x <= hi.x { lo.x } else { hi.x };
    let maxx: i64 = if lo.x <= hi.x { hi.x } else { lo.x };
    let miny: i64 = if lo.y <= hi.y { lo.y } else { hi.y };
    let maxy: i64 = if lo.y <= hi.y { hi.y } else { lo.y };
    let hits = board.query_items_in_rect(minx, miny, maxx, maxy);
    let ghost rect = marquee_rect(start, end, (board.canvas_offset.x as int, board.canvas_offset.y as int), board.zoom as int);
    proof {
        assert(rect == (minx as int, miny as int, maxx as int, maxy as int));
    }
    let mut k: usize = 0;
    while k < hits.len()
        invariant
            0 <= k <= hits@.len(),
            selection.wf(),
            hits@.no_duplicates(),
            forall|id: u64| #[trigger] hits@.contains(id) <==> board.index_map().contains_key(id)
                && crate::spatial::box_intersects(board.index_map()[id], rect.0, rect.1, rect.2, rect.3),
            forall|id: u64| !hits@.contains(id) ==> selection.has(id) == old(selection).has(id),
            forall|j: int| 0 <= j < k ==> {
                let id = #[trigger] hits@[j];
                if shift { selection.has(id) == !old(selection).has(id) } else { selection.has(id) }
            },
            forall|j: int| k <= j < hits@.len() ==> selection.has(#[trigger] hits@[j]) == old(selection).has(hits@[j]),
        decreases hits@.len() - k,
    {
        let id = hits[k];
        if shift {
            selection.toggle(id);
        } else {
            selection.insert(id);
        }
        proof {
            assert forall|j: int| k + 1 <= j < hits@.len()
                implies selection.has(#[trigger] hits@[j]) == old(selection).has(hits@[j]) by {
                assert(hits@[j] != id);
            }
            assert forall|j: int| 0 <= j < k + 1
                implies ({
                    let x = #[trigger] hits@[j];
                    if shift { selection.has(x) == !old(selection).has(x) } else { selection.has(x) }
                }) by {
                if j < k {
                    assert(hits@[j] != id);
                }
            }
        }
        k = k + 1;
    }
    proof {
        assert forall|id: u64| #[trigger] hits@.contains(id)
            implies (if shift { selection.has(id) == !old(selection).has(id) } else { selection.has(id) }) by {
            let j = choose|j: int| 0 <= j < hits@.len() && hits@[j] == id;
        }
    }
}

/// The geometry a drawing gesture produces, in canvas space: the box of
/// the two converted corners with a minimum span, all clamped into range.
pub open spec fn draw_box(start: Point, end: Point, off: (int, int), zoom: int) -> (int, int, int, int) {
    let sx = crate::geom::to_canvas_x(start.x as int, off.0, zoom);
    let sy = crate::geom::to_canvas_y(start.y as int, off.1, zoom);
    let ex = crate::geom::to_canvas_x(end.x as int, off.0, zoom);
    let ey = crate::geom::to_canvas_y(end.y as int, off.1, zoom);
    let px = if sx <= ex { sx } else { ex };
    let py = if sy <= ey { sy } else { ey };
    let w = if sx <= ex { ex - sx } else { sx - ex };
    let h = if sy <= ey { ey - sy } else { sy - ey };
    (clamp_coord_spec(px), clamp_coord_spec(py),
     clamp_size_spec(if w >= crate::constants::MIN_ARROW_SIZE { w } else { crate::constants::MIN_ARROW_SIZE as int }, 0),
     clamp_size_spec(if h >= crate::constants::MIN_ARROW_SIZE { h } else { crate::constants::MIN_ARROW_SIZE as int }, 0))
}

/// A drawing release below the click threshold: an accidental micro-drag
/// that creates nothing.
pub open spec fn draw_too_small(start: Point, end: Point) -> bool {
    let w = if start.x <= end.x { end.x - start.x } else { start.x - end.x };
    let h = if start.y <= end.y { end.y - start.y } else { start.y - end.y };
    w < crate::constants::MIN_DRAW_DISTANCE && h < crate::constants::MIN_DRAW_DISTANCE
}

/// What finishing a drawing gesture does: below the click threshold, or
/// with a tool that draws nothing, the board and selection are untouched.
/// Otherwise exactly one item is created — an arrow spanning the gesture,
/// a rectangle shape, an empty text box, or a table backed by a fresh
/// empty data source — sized from the drawn box with a per-kind minimum,
/// committed as one history entry, and left as the only selection.
pub open spec fn drawing_outcome(
    old_b: &crate::board::Board,
    new_b: &crate::board::Board,
    old_sel: crate::selection::SelectionManager,
    new_sel: crate::selection::SelectionManager,
    tool: ToolType,
    start: Point,
    end: Point,
    r: Option<u64>,
) -> bool {
    if draw_too_small(start, end) || tool is Select || tool is Chart {
        *new_b == *old_b && new_sel == old_sel && r is None
    } else {
        let off = (old_b.canvas_offset.x as int, old_b.canvas_offset.y as int);
        let zoom = old_b.zoom as int;
        let bx = draw_box(start, end, off, zoom);
        let sx = crate::geom::to_canvas_x(start.x as int, off.0, zoom);
        let sy = crate::geom::to_canvas_y(start.y as int, off.1, zoom);
        let ex = crate::geom::to_canvas_x(end.x as int, off.0, zoom);
        let ey = crate::geom::to_canvas_y(end.y as int, off.1, zoom);
        let n = old_b.items@.len() as int;
        let it = crate::types::items_view(new_b.items@)[n];
        &&& r == Some(old_b.next_item_id)
        &&& new_b.items@.len() == n + 1
        &&& crate::types::items_view(new_b.items@).take(n) == crate::types::items_view(old_b.items@)
        &&& it.id == old_b.next_item_id
        &&& new_b.next_item_id == old_b.next_item_id + 1
        &&& it.position == (bx.0, bx.1)
        &&& new_b.hist() == crate::board::committed_history(old_b.hist(), old_b.cursor(), new_b.scene())
        &&& new_b.cursor() == new_b.hist().len()
        &&& (forall|x: u64| new_sel.has(x) == (x == old_b.next_item_id))
        &&& new_b.canvas_offset == old_b.canvas_offset
        &&& new_b.zoom == old_b.zoom
        &&& match tool {
            ToolType::Arrow => {
                &&& it.size == (bx.2, bx.3)
                &&& it.content matches crate::types::ContentV::Arrow { end_offset, color, thickness, head_style }
                    && end_offset == (clamp_coord_spec(ex - sx), clamp_coord_spec(ey - sy))
                    && color.len() == 0 && thickness == 2
                    && head_style == crate::types::ArrowHead::Arrow
            },
            ToolType::Shape => {
                &&& it.size == (bx.2, bx.3)
                &&& it.content matches crate::types::ContentV::Shape { shape_type, fill_color, border_color, border_width }
                    && shape_type == crate::types::ShapeType::Rectangle
                    && fill_color is None && border_color.len() == 0 && border_width == 2
            },
            ToolType::Text => {
                &&& it.size == (if bx.2 >= 100 { bx.2 } else { 100int }, if bx.3 >= 40 { bx.3 } else { 40int })
                &&& it.content matches crate::types::ContentV::TextBox { text, font_size, color }
                    && text.len() == 0 && font_size == crate::constants::DEFAULT_FONT_SIZE
                    && color.len() == 0
            },
            ToolType::Table => {
                &&& it.size == (if bx.2 >= 300 { bx.2 } else { 300int }, if bx.3 >= 200 { bx.3 } else { 200int })
                &&& it.content matches crate::types::ContentV::Table { data_source_id, show_headers, stripe }
                    && data_source_id == old_b.next_data_source_id && show_headers && stripe
                &&& new_b.data_sources@.len() == old_b.data_sources@.len() + 1
                &&& new_b.data_sources@.last().0 == old_b.next_data_source_id
                &&& new_b.next_data_source_id == old_b.next_data_source_id + 1
            },
            _ => false,
        }
    }
}

/// Finish a drawing gesture, creating the drawn item.
fn finalize_drawing(
    board: &mut crate::board::Board,
    selection: &mut crate::selection::SelectionManager,
    tool: ToolType,
    start: Point,
    end: Point,
) -> (r: Option<u64>)
    requires
        old(board).wf(),
        old(selection).wf(),
        old(board).next_item_id < u64::MAX,
        old(board).next_data_source_id < u64::MAX,
        crate::geom::point_in_range(start),
        crate::geom::point_in_range(end),
        crate::geom::point_in_range(old(board).canvas_offset),
        crate::geom::zoom_in_range(old(board).zoom),
    ensures
        final(board).wf(),
        final(selection).wf(),
        drawing_outcome(old(board), final(board), *old(selection), *final(selection), tool, start, end, r),
    {
    let wpx: i64 = if start.x <= end.x { end.x - start.x } else { start.x - end.x };
    let hpx: i64 = if start.y <= end.y { end.y - start.y } else { start.y - end.y };
    if wpx < crate::constants::MIN_DRAW_DISTANCE && hpx < crate::constants::MIN_DRAW_DISTANCE {
        return None;
    }
    if matches!(tool, ToolType::Select | ToolType::Chart) {
        return None;
    }
    let ctx = crate::geom::CoordinateContext::new(board.canvas_offset, board.zoom);
    let s = crate::geom::CoordinateConverter::screen_to_canvas(start, &ctx);
    let e = crate::geom::CoordinateConverter::screen_to_canvas(end, &ctx);
    proof {
        let ddx = start.x - crate::constants::DOCK_WIDTH - board.canvas_offset.x;
        let ddy = start.y - crate::constants::HEADER_HEIGHT - board.canvas_offset.y;
        let eex = end.x - crate::constants::DOCK_WIDTH - board.canvas_offset.x;
        let eey = end.y - crate::constants::HEADER_HEIGHT - board.canvas_offset.y;
        crate::geom::lemma_div_bound(ddx * 100, board.zoom as int, 300 * crate::constants::COORD_LIMIT);
        crate::geom::lemma_div_bound(ddy * 100, board.zoom as int, 300 * crate::constants::COORD_LIMIT);
        crate::geom::lemma_div_bound(eex * 100, board.zoom as int, 300 * crate::constants::COORD_LIMIT);
        crate::geom::lemma_div_bound(eey * 100, board.zoom as int, 300 * crate::constants::COORD_LIMIT);
    }
    let px = clamp_coord(if s.x <= e.x { s.x } else { e.x });
    let py = clamp_coord(if s.y <= e.y { s.y } else { e.y });
    let rw: i64 = if s.x <= e.x { e.x - s.x } else { s.x - e.x };
    let rh: i64 = if s.y <= e.y { e.y - s.y } else { s.y - e.y };
    let w = clamp_size(if rw >= crate::constants::MIN_ARROW_SIZE { rw } else { crate::constants::MIN_ARROW_SIZE }, 0);
    let h = clamp_size(if rh >= crate::constants::MIN_ARROW_SIZE { rh } else { crate::constants::MIN_ARROW_SIZE }, 0);
    let pos = Point::new(px, py);
    match tool {
        ToolType::Arrow => {
            let content = crate::types::ItemContent::Arrow {
                end_offset: (clamp_coord(e.x - s.x), clamp_coord(e.y - s.y)),
                color: String::new(),
                thickness: 2,
                head_style: crate::types::ArrowHead::Arrow,
            };
            let id = board.add_item_with_size(pos, (w, h), content);
            selection.clear();
            selection.insert(id);
            proof {
                lemma_take_of_grown(board.items@, old(board).items@);
            }
            Some(id)
        },
        ToolType::Shape => {
            let content = crate::types::ItemContent::Shape {
                shape_type: crate::types::ShapeType::Rectangle,
                fill_color: None,
                border_color: String::new(),
                border_width: 2,
            };
            let id = board.add_item_with_size(pos, (w, h), content);
            selection.clear();
            selection.insert(id);
            proof {
                lemma_take_of_grown(board.items@, old(board).items@);
            }
            Some(id)
        },
        ToolType::Text => {
            let content = crate::types::ItemContent::TextBox {
                text: String::new(),
                font_size: crate::constants::DEFAULT_FONT_SIZE,
                color: String::new(),
            };
            let tw: i64 = if w >= 100 { w } else { 100 };
            let th: i64 = if h >= 40 { h } else { 40 };
            let id = board.add_item_with_size(pos, (tw, th), content);
            selection.clear();
            selection.insert(id);
            proof {
                lemma_take_of_grown(board.items@, old(board).items@);
            }
            Some(id)
        },
        ToolType::Table => {
            let ds = crate::types::DataSource::new_empty(0, "New Table".to_owned());
            let ds_id = board.add_data_source(ds);
            let content = crate::types::ItemContent::Table {
                data_source_id: ds_id,
                show_headers: true,
                stripe: true,
            };
            let tw: i64 = if w >= 300 { w } else { 300 };
            let th: i64 = if h >= 200 { h } else { 200 };
            let id = board.add_item_with_size(pos, (tw, th), content);
            selection.clear();
            selection.insert(id);
            proof {
                lemma_take_of_grown(board.items@, old(board).items@);
            }
            Some(id)
        },
        _ => None,
    }
}

/// After placing the new last item, the items before it are untouched.
proof fn lemma_take_of_grown(now: Seq<crate::types::CanvasItem>, before: Seq<crate::types::CanvasItem>)
    requires
        now.len() == before.len() + 1,
        crate::types::items_view(now).drop_last() == crate::types::items_view(before),
    ensures
        crate::types::items_view(now).take(before.len() as int) == crate::types::items_view(before),
{
    assert(crate::types::items_view(now).take(before.len() as int) =~= crate::types::items_view(now).drop_last());
}

/// Finish the active gesture on pointer release and return to idle. A
/// pan, drag, resize, or splitter gesture reindexes what it moved — for a
/// drag, every selected id and the dragged primary (which a modifier
/// click may have deselected at the press), so each moved item's index
/// entry again equals its final box (`crate::board::lemma_reindexed_covers`
/// spells that out per id) — and commits exactly one history entry for
/// the whole gesture; a marquee updates the selection from a single
/// rectangle query and commits nothing; a drawing gesture creates at most
/// one item (whose placement commits one entry) and returns its id; a
/// release while idle does nothing.
pub fn handle_pointer_up(
    input: &mut InputState,
    board: &mut crate::board::Board,
    selection: &mut crate::selection::SelectionManager,
    pos: Point,
    shift: bool,
) -> (r: Option<u64>)
    requires
        old(board).wf(),
        old(selection).wf(),
        old(board).next_item_id < u64::MAX,
        old(board).next_data_source_id < u64::MAX,
        crate::geom::point_in_range(pos),
        crate::geom::point_in_range(old(board).canvas_offset),
        crate::geom::zoom_in_range(old(board).zoom),
        (*old(input) matches InputState::MarqueeSelecting { start, current }
            ==> crate::geom::point_in_range(start) && crate::geom::point_in_range(current)),
        (*old(input) matches InputState::Drawing { start, .. } ==> crate::geom::point_in_range(start)),
    ensures
        (*final(input) is Idle),
        final(board).wf(),
        final(selection).wf(),
        (*old(input) is Idle ==> *final(board) == *old(board) && *final(selection) == *old(selection) && (r is None)),
        (*old(input) is Panning || *old(input) is SplitterDragging
            || *old(input) is DraggingItems || *old(input) is ResizingItem) ==> ({
            &&& final(board).hist() == crate::board::committed_history(old(board).hist(), old(board).cursor(), final(board).scene())
            &&& final(board).cursor() == final(board).hist().len()
            &&& final(board).items == old(board).items
            &&& final(board).canvas_offset == old(board).canvas_offset
            &&& final(board).zoom == old(board).zoom
            &&& final(board).next_item_id == old(board).next_item_id
            &&& final(board).data_sources == old(board).data_sources
            &&& final(board).next_data_source_id == old(board).next_data_source_id
            &&& *final(selection) == *old(selection)
            &&& (r is None)
        }),
        ((*old(input) is Panning || *old(input) is SplitterDragging)
            ==> final(board).index_map() == old(board).index_map()),
        (*old(input) matches InputState::DraggingItems { primary_item, .. }
            ==> final(board).index_map() == crate::board::reindexed_map(
                old(board).items@,
                old(board).index_map(),
                old(selection).ids@.push(primary_item),
                old(selection).ids@.len() as int + 1)),
        (*old(input) matches InputState::ResizingItem { item_id, .. }
            ==> final(board).index_map() == (match crate::board::spatial_box_of(old(board).items@, item_id) {
                Some(b) => old(board).index_map().insert(item_id, b),
                None => old(board).index_map(),
            })),
        (*old(input) matches InputState::MarqueeSelecting { start, current } ==> ({
            &&& *final(board) == *old(board)
            &&& marquee_outcome(old(board), *old(selection), *final(selection), start, current, shift)
            &&& (r is None)
        })),
        (*old(input) matches InputState::Drawing { tool, start, .. }
            ==> drawing_outcome(old(board), final(board), *old(selection), *final(selection), tool, start, pos, r)),
{
    let state = *input;
    input.reset();
    match state {
        InputState::Idle => None,
        InputState::Panning { .. } | InputState::SplitterDragging { .. } => {
            board.push_history();
            None
        },
        InputState::DraggingItems { primary_item, .. } => {
            let ids = selection.ids();
            let mut k: usize = 0;
            while k < ids.len()
                invariant
                    0 <= k <= ids@.len(),
                    ids@ == old(selection).ids@,
                    board.wf(),
                    board.items == old(board).items,
                    board.canvas_offset == old(board).canvas_offset,
                    board.zoom == old(board).zoom,
                    board.next_item_id == old(board).next_item_id,
                    board.next_data_source_id == old(board).next_data_source_id,
                    board.data_sources == old(board).data_sources,
                    board.hist() == old(board).hist(),
                    board.cursor() == old(board).cursor(),
                    board.baseline_v() == old(board).baseline_v(),
                    board.index_map() == crate::board::reindexed_map(
                        old(board).items@, old(board).index_map(), ids@, k as int),
                decreases ids@.len() - k,
            {
                board.update_spatial_index(ids[k]);
                k = k + 1;
            }
            // The primary may have been deselected by the press that
            // started the drag, yet it moved: refresh it as well.
            board.update_spatial_index(primary_item);
            proof {
                let all = old(selection).ids@.push(primary_item);
                crate::board::lemma_reindexed_prefix(
                    old(board).items@, old(board).index_map(), old(selection).ids@, primary_item,
                    old(selection).ids@.len() as int);
                assert(all[all.len() - 1] == primary_item);
                assert(board.index_map() == crate::board::reindexed_map(
                    old(board).items@, old(board).index_map(), all, all.len() as int));
            }
            board.push_history();
            None
        },
        InputState::ResizingItem { item_id, .. } => {
            board.update_spatial_index(item_id);
            board.push_history();
            None
        },
        InputState::MarqueeSelecting { start, current } => {
            finalize_marquee(board, selection, start, current, shift);
            None
        },
        InputState::Drawing { tool, start, .. } => {
            finalize_drawing(board, selection, tool, start, pos)
        },
    }
}

/// Pointer moves leave the history log and its cursor exactly as they
/// were; this is what `handle_pointer_move` ensures of the board.
pub open spec fn move_preserves_history(a: crate::board::Board, b: crate::board::Board) -> bool {
    b.hist() == a.hist() && b.cursor() == a.cursor() && b.baseline_v() == a.baseline_v()
}

/// Drag coalescing: a gesture spanning any number of pointer moves leaves
/// the history log untouched from press to release — each move preserves
/// it, so by induction the whole chain does. The single commit on release
/// (`handle_pointer_up`) then appends exactly one entry, whatever the
/// number of moves; `lemma_commit_appends_one` counts that entry.
pub proof fn lemma_drag_coalescing(trace: Seq<crate::board::Board>)
    requires
        trace.len() >= 1,
        forall|i: int| 0 <= i < trace.len() - 1
            ==> move_preserves_history(#[trigger] trace[i], trace[i + 1]),
    ensures
        trace.last().hist() == trace.first().hist(),
        trace.last().cursor() == trace.first().cursor(),
        trace.last().baseline_v() == trace.first().baseline_v(),
    decreases trace.len(),
{
    if trace.len() > 1 {
        let tail = trace.drop_first();
        assert forall|i: int| 0 <= i < tail.len() - 1
            implies move_preserves_history(#[trigger] tail[i], tail[i + 1]) by {
            assert(tail[i] == trace[i + 1]);
            assert(tail[i + 1] == trace[i + 2]);
        }
        assert(move_preserves_history(trace[0], trace[1]));
        lemma_drag_coalescing(tail);
        assert(tail.first() == trace[1]);
        assert(tail.last() == trace.last());
    }
}

/// A commit appends exactly one entry to the history as pruned at the
/// cursor: the log grows to the cursor plus one (capped at the bound),
/// and its last entry is the committed scene.
pub proof fn lemma_commit_appends_one(h: Seq<crate::board::SnapV>, cursor: int, scene: crate::board::SnapV)
    requires
        0 <= cursor <= h.len(),
    ensures
        crate::board::committed_history(h, cursor, scene).len()
            == if cursor < crate::constants::MAX_HISTORY_STATES { cursor + 1 } else { cursor as int },
        crate::board::committed_history(h, cursor, scene).last() == scene,
{
}

/// Group-move symmetry: when the positions stay inside the coordinate
/// range, a drag move of an item inside a selection of several items
/// shifts every selected item by exactly the drag delta and no other
/// item at all; a drag of an unselected item moves only that item.
pub proof fn lemma_group_move_symmetry(
    items_old: Seq<crate::types::CanvasItem>,
    items_new: Seq<crate::types::CanvasItem>,
    sel: &crate::selection::SelectionManager,
    primary: u64,
    i: int,
    d: (int, int),
)
    requires
        0 <= i < items_old.len(),
        dragged_outcome(items_old, items_new, sel, primary, i, d),
        forall|k: int| 0 <= k < items_old.len() ==> {
            let p = (#[trigger] items_old[k]).position;
            crate::geom::coord_in_range((p.0 + d.0) as i64) && crate::geom::coord_in_range((p.1 + d.1) as i64)
                && -crate::constants::COORD_LIMIT <= p.0 + d.0 <= crate::constants::COORD_LIMIT
                && -crate::constants::COORD_LIMIT <= p.1 + d.1 <= crate::constants::COORD_LIMIT
        },
    ensures
        sel.has(primary) && sel.count() > 1 ==> ({
            &&& forall|k: int| 0 <= k < items_old.len() && sel.has((#[trigger] items_old[k]).id)
                ==> items_new[k].position.0 == items_old[k].position.0 + d.0
                    && items_new[k].position.1 == items_old[k].position.1 + d.1
            &&& forall|k: int| 0 <= k < items_old.len() && !sel.has((#[trigger] items_old[k]).id)
                ==> items_new[k] == items_old[k]
        }),
        !(sel.has(primary) && sel.count() > 1) ==> ({
            forall|k: int| 0 <= k < items_old.len() && k != i
                ==> #[trigger] items_new[k] == items_old[k]
        }),
{
    if sel.has(primary) && sel.count() > 1 {
        assert forall|k: int| 0 <= k < items_old.len() && sel.has((#[trigger] items_old[k]).id)
            implies items_new[k].position.0 == items_old[k].position.0 + d.0
                && items_new[k].position.1 == items_old[k].position.1 + d.1 by {
            assert(moved_one(items_old[k], items_new[k], sel, d));
            assert(clamp_coord_spec(items_old[k].position.0 + d.0) == items_old[k].position.0 + d.0);
            assert(clamp_coord_spec(items_old[k].position.1 + d.1) == items_old[k].position.1 + d.1);
        }
        assert forall|k: int| 0 <= k < items_old.len() && !sel.has((#[trigger] items_old[k]).id)
            implies items_new[k] == items_old[k] by {
            assert(moved_one(items_old[k], items_new[k], sel, d));
        }
    }
}

/// One pointer state is always exactly one variant: the modes of
/// interaction are mutually exclusive and jointly exhaustive, by the shape
/// of the type rather than by discipline over flags; any sequence of
/// pointer events moves between these variants and no others, pointer-down
/// starts a gesture only from the idle state, and pointer-up always ends
/// in it.
pub proof fn lemma_state_exclusive(s: InputState)
    ensures
        ({
            let idle: int = if s is Idle { 1 } else { 0 };
            let pan: int = if s is Panning { 1 } else { 0 };
            let drag: int = if s is DraggingItems { 1 } else { 0 };
            let resize: int = if s is ResizingItem { 1 } else { 0 };
            let marquee: int = if s is MarqueeSelecting { 1 } else { 0 };
            let draw: int = if s is Drawing { 1 } else { 0 };
            let split: int = if s is SplitterDragging { 1 } else { 0 };
            idle + pan + drag + resize + marquee + draw + split == 1
        }),
{
}

} // verus!
