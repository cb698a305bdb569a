//! Shared configuration constants for the canvas engine.
//!
//! Lengths are whole pixels (at unit zoom they equal canvas units); zoom
//! levels are percentages, so `100` is unit zoom; durations are milliseconds.

use vstd::prelude::*;

verus! {

/// Height of the header bar in pixels.
pub const HEADER_HEIGHT: i64 = 40;

/// Width of the tool dock (left sidebar) in pixels.
pub const DOCK_WIDTH: i64 = 44;

/// Height of the footer bar in pixels.
pub const FOOTER_HEIGHT: i64 = 28;

/// Minimum zoom level, in percent.
pub const MIN_ZOOM: u32 = 10;

/// Maximum zoom level, in percent.
pub const MAX_ZOOM: u32 = 500;

/// Default zoom level, in percent.
pub const DEFAULT_ZOOM: u32 = 100;

/// Zoom change per scroll-wheel step, in percent.
pub const ZOOM_STEP: u32 = 10;

/// Largest coordinate magnitude the engine accepts, so that every transform
/// and bounding-box computation stays well inside `i64`.
pub const COORD_LIMIT: i64 = 0x200_0000;

/// Maximum undo history entries kept by a board.
pub const MAX_HISTORY_STATES: usize = 100;

/// Default font size for text boxes, in points.
pub const DEFAULT_FONT_SIZE: i64 = 16;

/// Minimum font size for text boxes, in points.
pub const MIN_FONT_SIZE: i64 = 8;

/// Maximum font size for text boxes, in points.
pub const MAX_FONT_SIZE: i64 = 200;

/// Maximum dimension for images; larger images are scaled down to this.
pub const MAX_IMAGE_DIMENSION: i64 = 800;

/// Minimum size for marquee selection to trigger, in pixels.
pub const MIN_MARQUEE_SIZE: i64 = 5;

/// Minimum drag distance to create a drawn item, in pixels.
pub const MIN_DRAW_DISTANCE: i64 = 10;

/// Size of the resize corner area in pixels, at unit zoom.
pub const RESIZE_CORNER_SIZE: i64 = 30;

/// Extra tolerance past the resize corner, in pixels.
pub const RESIZE_CORNER_TOLERANCE: i64 = 5;

/// Minimum hit area for shape borders in pixels, at unit zoom.
pub const MIN_SHAPE_HIT_AREA: i64 = 8;

/// Minimum item size for resize operations, in canvas units.
pub const MIN_ITEM_SIZE: i64 = 50;

/// Minimum arrow size when drawing or resizing, in canvas units.
pub const MIN_ARROW_SIZE: i64 = 20;

/// Distance from the viewport edge, in canvas units, past which embedded
/// resources become candidates for unloading.
pub const RESOURCE_UNLOAD_DISTANCE: i64 = 2000;

/// Distance from the viewport edge, in canvas units, within which embedded
/// resources are created ahead of time.
pub const RESOURCE_PRELOAD_DISTANCE: i64 = 500;

/// How long a resource must sit continuously outside the unload distance
/// before it is destroyed, in milliseconds.
pub const RESOURCE_UNLOAD_DELAY_MS: u64 = 300_000;

/// Maximum number of CSV rows accepted by the eager parser.
pub const MAX_CSV_ROWS: usize = 100_000;

/// Maximum CSV file size in megabytes accepted by the eager parser.
pub const MAX_CSV_SIZE_MB: usize = 100;

} // verus!
