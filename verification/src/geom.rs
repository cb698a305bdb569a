//! Points, rectangles, and the screen/canvas coordinate transform.
//!
//! Screen space is window-relative pixels; canvas space is the zoom- and
//! pan-independent system in which items store position and size. Positions
//! convert through the pan offset, the dock and header insets, and the zoom
//! percentage; deltas convert through zoom alone, so drag motion is
//! translation-invariant.

use vstd::prelude::*;
use vstd::arithmetic::div_mod::{lemma_fundamental_div_mod, lemma_fundamental_div_mod_converse};
use crate::constants::{COORD_LIMIT, DOCK_WIDTH, HEADER_HEIGHT, MAX_ZOOM, MIN_ZOOM};

verus! {

/// A point in screen or canvas space, in whole pixel units.
#[derive(Clone, Copy, PartialEq, Eq, Structural, Debug)]
pub struct Point {
    pub x: i64,
    pub y: i64,
}

impl Point {
    pub fn new(x: i64, y: i64) -> (p: Point)
        ensures
            p.x == x,
            p.y == y,
    {
        Point { x, y }
    }
}

/// A zoom level is valid when it lies in the configured percentage range.
pub open spec fn zoom_in_range(zoom: u32) -> bool {
    MIN_ZOOM <= zoom <= MAX_ZOOM
}

/// A coordinate the engine accepts: far below the range where any transform
/// or bounding-box arithmetic could overflow.
pub open spec fn coord_in_range(v: i64) -> bool {
    -COORD_LIMIT <= v <= COORD_LIMIT
}

pub open spec fn point_in_range(p: Point) -> bool {
    coord_in_range(p.x) && coord_in_range(p.y)
}

/// A looser bound for intermediate screen-space values (adjusted pointer
/// positions and the like), still far from overflow.
pub open spec fn coord_wide(v: i64) -> bool {
    -16 * COORD_LIMIT <= v <= 16 * COORD_LIMIT
}

pub open spec fn point_wide(p: Point) -> bool {
    coord_wide(p.x) && coord_wide(p.y)
}

/// Floor of `a * m / d` over the mathematical integers. Spec division on
/// `int` is Euclidean, which equals the floor for a positive divisor.
pub open spec fn mul_div_floor_spec(a: int, m: int, d: int) -> int {
    (a * m) / d
}

/// Computes `floor(a * m / d)` exactly, also for negative `a`.
pub fn mul_div_floor(a: i64, m: u32, d: u32) -> (r: i64)
    requires
        1 <= d <= 0x10_0000,
        m <= 0x10_0000,
        -0x100_0000_0000 <= a <= 0x100_0000_0000,
    ensures
        r == mul_div_floor_spec(a as int, m as int, d as int),
        -0x1000_0000_0000_0000 <= r <= 0x1000_0000_0000_0000,
{
    proof {
        lemma_div_floor_bounds(a as int, m as int, d as int);
    }
    if a >= 0 {
        proof {
            assert(0 <= (a as int) * (m as int) <= 0x1000_0000_0000_0000) by (nonlinear_arith)
                requires 0 <= a as int <= 0x100_0000_0000, 0 <= m as int <= 0x10_0000;
        }
        let num: u64 = (a as u64) * (m as u64);
        let q: u64 = num / (d as u64);
        q as i64
    } else {
        let neg: u64 = (-a) as u64;
        proof {
            assert(0 <= (neg as int) * (m as int) <= 0x1000_0000_0000_0000) by (nonlinear_arith)
                requires 0 <= neg as int <= 0x100_0000_0000, 0 <= m as int <= 0x10_0000;
        }
        let num: u64 = neg * (m as u64);
        let q: u64 = (num + (d as u64) - 1) / (d as u64);
        proof {
            lemma_neg_ceil_is_floor(neg as int * m as int, d as int);
            assert(neg as int * m as int == -(a as int * m as int)) by (nonlinear_arith)
                requires neg as int == -(a as int);
            assert(q as int == -((a as int * m as int) / (d as int)));
        }
        -(q as i64)
    }
}

/// For `n >= 0` and `d > 0`: negating the ceiling of `n / d` gives the floor
/// of `-n / d`, i.e. `-((n + d - 1) / d) == (-n) / d`.
proof fn lemma_neg_ceil_is_floor(n: int, d: int)
    requires
        n >= 0,
        d >= 1,
    ensures
        -((n + d - 1) / d) == (-n) / d,
{
    let q = n / d;
    let r = n % d;
    lemma_fundamental_div_mod(n, d);
    if r == 0 {
        assert(n + d - 1 == q * d + (d - 1));
        lemma_fundamental_div_mod_converse(n + d - 1, d, q, d - 1);
        assert(-n == (-q) * d + 0) by (nonlinear_arith)
            requires n == d * q + 0int;
        lemma_fundamental_div_mod_converse(-n, d, -q, 0);
    } else {
        assert(n + d - 1 == (q + 1) * d + (r - 1)) by (nonlinear_arith)
            requires n == d * q + r;
        lemma_fundamental_div_mod_converse(n + d - 1, d, q + 1, r - 1);
        assert(-n == (-q - 1) * d + (d - r)) by (nonlinear_arith)
            requires n == d * q + r;
        lemma_fundamental_div_mod_converse(-n, d, -q - 1, d - r);
    }
}

/// Where a screen x coordinate lands on the canvas, under pan offset `off_x`
/// and zoom percentage `zoom`: strip the dock inset and the pan, then divide
/// out the zoom (flooring).
pub open spec fn to_canvas_x(sx: int, off_x: int, zoom: int) -> int {
    ((sx - DOCK_WIDTH - off_x) * 100) / zoom
}

/// Where a screen y coordinate lands on the canvas; the vertical inset is the
/// header rather than the dock.
pub open spec fn to_canvas_y(sy: int, off_y: int, zoom: int) -> int {
    ((sy - HEADER_HEIGHT - off_y) * 100) / zoom
}

/// Where a canvas x coordinate lands on screen: scale by the zoom percentage
/// (flooring), then add the pan and the dock inset back.
pub open spec fn to_screen_x(cx: int, off_x: int, zoom: int) -> int {
    (cx * zoom) / 100 + off_x + DOCK_WIDTH
}

pub open spec fn to_screen_y(cy: int, off_y: int, zoom: int) -> int {
    (cy * zoom) / 100 + off_y + HEADER_HEIGHT
}

/// A motion converts without the offset or insets: deltas are
/// translation-invariant, only the zoom scales them.
pub open spec fn delta_to_canvas(d: int, zoom: int) -> int {
    (d * 100) / zoom
}

pub open spec fn delta_to_screen(d: int, zoom: int) -> int {
    (d * zoom) / 100
}

/// The pan offset and zoom a conversion happens under.
#[derive(Clone, Copy, PartialEq, Eq, Structural, Debug)]
pub struct CoordinateContext {
    pub canvas_offset: Point,
    pub zoom: u32,
}

impl CoordinateContext {
    pub fn new(canvas_offset: Point, zoom: u32) -> (ctx: CoordinateContext)
        ensures
            ctx.canvas_offset == canvas_offset,
            ctx.zoom == zoom,
    {
        CoordinateContext { canvas_offset, zoom }
    }
}

/// Pure conversions between screen space and canvas space.
pub struct CoordinateConverter;

impl CoordinateConverter {
    /// Convert a screen position to a canvas position.
    pub fn screen_to_canvas(screen_pos: Point, ctx: &CoordinateContext) -> (r: Point)
        requires
            point_wide(screen_pos),
            point_in_range(ctx.canvas_offset),
            zoom_in_range(ctx.zoom),
        ensures
            r.x == to_canvas_x(screen_pos.x as int, ctx.canvas_offset.x as int, ctx.zoom as int),
            r.y == to_canvas_y(screen_pos.y as int, ctx.canvas_offset.y as int, ctx.zoom as int),
    {
        Point {
            x: mul_div_floor(screen_pos.x - DOCK_WIDTH - ctx.canvas_offset.x, 100, ctx.zoom),
            y: mul_div_floor(screen_pos.y - HEADER_HEIGHT - ctx.canvas_offset.y, 100, ctx.zoom),
        }
    }

    /// Convert a canvas position to a screen position.
    pub fn canvas_to_screen(canvas_pos: Point, ctx: &CoordinateContext) -> (r: Point)
        requires
            point_in_range(canvas_pos),
            point_in_range(ctx.canvas_offset),
            zoom_in_range(ctx.zoom),
        ensures
            r.x == to_screen_x(canvas_pos.x as int, ctx.canvas_offset.x as int, ctx.zoom as int),
            r.y == to_screen_y(canvas_pos.y as int, ctx.canvas_offset.y as int, ctx.zoom as int),
    {
        Point {
            x: mul_div_floor(canvas_pos.x, ctx.zoom, 100) + ctx.canvas_offset.x + DOCK_WIDTH,
            y: mul_div_floor(canvas_pos.y, ctx.zoom, 100) + ctx.canvas_offset.y + HEADER_HEIGHT,
        }
    }

    /// Convert a motion from screen space to canvas space.
    pub fn delta_screen_to_canvas(delta: Point, zoom: u32) -> (r: Point)
        requires
            point_in_range(delta),
            zoom_in_range(zoom),
        ensures
            r.x == delta_to_canvas(delta.x as int, zoom as int),
            r.y == delta_to_canvas(delta.y as int, zoom as int),
    {
        Point {
            x: mul_div_floor(delta.x, 100, zoom),
            y: mul_div_floor(delta.y, 100, zoom),
        }
    }

    /// Convert a motion from canvas space to screen space.
    pub fn delta_canvas_to_screen(delta: Point, zoom: u32) -> (r: Point)
        requires
            point_in_range(delta),
            zoom_in_range(zoom),
        ensures
            r.x == delta_to_screen(delta.x as int, zoom as int),
            r.y == delta_to_screen(delta.y as int, zoom as int),
    {
        Point {
            x: mul_div_floor(delta.x, zoom, 100),
            y: mul_div_floor(delta.y, zoom, 100),
        }
    }
}

/// One axis of the transform round trip: sending a screen coordinate to the
/// canvas and back returns a coordinate at most `zoom / 100` pixels below the
/// original (the loss is the flooring of the division by zoom), never above
/// it; whenever the zoomed distance divides evenly — in particular at unit
/// zoom — the round trip is exact.
proof fn lemma_round_trip_axis(s: int, off: int, inset: int, zoom: int)
    requires
        1 <= zoom <= 500,
    ensures
        ({
            let c = ((s - inset - off) * 100) / zoom;
            let r = (c * zoom) / 100 + off + inset;
            &&& 0 <= s - r
            &&& (s - r) * 100 < zoom + 100
            &&& ((s - inset - off) * 100) % zoom == 0 ==> r == s
        }),
{
    let d = s - inset - off;
    let q = (d * 100) / zoom;
    let r1 = (d * 100) % zoom;
    lemma_fundamental_div_mod(d * 100, zoom);
    vstd::arithmetic::div_mod::lemma_mod_bound(d * 100, zoom);
    // Let c be the ceiling of r1 / 100; then q * zoom floors to d - c.
    let cc = (r1 + 99) / 100;
    let rr = (r1 + 99) % 100;
    lemma_fundamental_div_mod(r1 + 99, 100);
    vstd::arithmetic::div_mod::lemma_mod_bound(r1 + 99, 100);
    assert(100 * cc == r1 + 99 - rr);
    assert(q * zoom == d * 100 - r1) by (nonlinear_arith)
        requires d * 100 == zoom * q + r1;
    assert(d * 100 - r1 == (d - cc) * 100 + (100 * cc - r1)) by (nonlinear_arith);
    lemma_fundamental_div_mod_converse(d * 100 - r1, 100, d - cc, 100 * cc - r1);
    assert((q * zoom) / 100 == d - cc);
    if r1 == 0 {
        assert(cc == 0) by {
            lemma_fundamental_div_mod_converse(99, 100, 0, 99);
        }
    }
}

/// Transform round trip: for every screen point, offset, and zoom in range,
/// `canvas_to_screen(screen_to_canvas(p))` differs from `p` by less than one
/// canvas unit scaled to the screen — each axis comes back at most
/// `zoom / 100` pixels short and never past the original — and is exactly
/// `p` at unit zoom.
pub proof fn lemma_transform_round_trip(p: Point, offset: Point, zoom: u32)
    requires
        zoom_in_range(zoom),
    ensures
        ({
            let cx = to_canvas_x(p.x as int, offset.x as int, zoom as int);
            let cy = to_canvas_y(p.y as int, offset.y as int, zoom as int);
            let rx = to_screen_x(cx, offset.x as int, zoom as int);
            let ry = to_screen_y(cy, offset.y as int, zoom as int);
            &&& 0 <= p.x - rx
            &&& (p.x - rx) * 100 < zoom + 100
            &&& 0 <= p.y - ry
            &&& (p.y - ry) * 100 < zoom + 100
            &&& zoom == 100 ==> rx == p.x && ry == p.y
        }),
{
    lemma_round_trip_axis(p.x as int, offset.x as int, DOCK_WIDTH as int, zoom as int);
    lemma_round_trip_axis(p.y as int, offset.y as int, HEADER_HEIGHT as int, zoom as int);
    if zoom == 100 {
        let dx = p.x - DOCK_WIDTH - offset.x;
        let dy = p.y - HEADER_HEIGHT - offset.y;
        lemma_fundamental_div_mod_converse(dx * 100, 100, dx, 0);
        lemma_fundamental_div_mod_converse(dy * 100, 100, dy, 0);
    }
}

/// Computes `floor(n / d)` exactly, also for negative `n`.
pub fn div_floor_i64(n: i64, d: i64) -> (r: i64)
    requires
        1 <= d <= 0x1_0000_0000,
        -0x40_0000_0000_0000 <= n <= 0x40_0000_0000_0000,
    ensures
        r == n as int / d as int,
        -0x40_0000_0000_0000 <= r <= 0x40_0000_0000_0000,
{
    proof {
        lemma_div_bound(n as int, d as int, 0x40_0000_0000_0000);
    }
    if n >= 0 {
        ((n as u64) / (d as u64)) as i64
    } else {
        let neg: u64 = (-n) as u64;
        let q: u64 = (neg + (d as u64) - 1) / (d as u64);
        proof {
            lemma_neg_ceil_is_floor(neg as int, d as int);
        }
        -(q as i64)
    }
}

/// For a positive divisor, a floored quotient stays within the bound of
/// its dividend.
pub proof fn lemma_div_bound(n: int, d: int, b: int)
    requires
        d >= 1,
        b >= 0,
        -b <= n <= b,
    ensures
        -b <= n / d <= b,
{
    let q = n / d;
    let r = n % d;
    lemma_fundamental_div_mod(n, d);
    vstd::arithmetic::div_mod::lemma_mod_bound(n, d);
    assert(-b <= q <= b) by (nonlinear_arith)
        requires n == d * q + r, 0 <= r < d, d >= 1, -b <= n <= b, b >= 0;
}

/// Bounds of the floored quotient: for `d > 0`, `a * m / d` lies between
/// `-|a * m|` and `|a * m|`.
proof fn lemma_div_floor_bounds(a: int, m: int, d: int)
    requires
        1 <= d,
        0 <= m,
        -0x100_0000_0000 <= a <= 0x100_0000_0000,
        m <= 0x10_0000,
    ensures
        -0x1000_0000_0000_0000 <= (a * m) / d <= 0x1000_0000_0000_0000,
{
    let n = a * m;
    assert(-0x1000_0000_0000_0000 <= a * m <= 0x1000_0000_0000_0000) by (nonlinear_arith)
        requires -0x100_0000_0000 <= a <= 0x100_0000_0000, 0 <= m <= 0x10_0000;
    lemma_fundamental_div_mod(n, d);
    let q = n / d;
    let r = n % d;
    assert(q * d <= n && n < (q + 1) * d ==> -0x1000_0000_0000_0000 <= q <= 0x1000_0000_0000_0000)
        by (nonlinear_arith)
        requires
            d >= 1,
            -0x1000_0000_0000_0000 <= n <= 0x1000_0000_0000_0000;
    assert(q * d <= n && n < (q + 1) * d) by (nonlinear_arith)
        requires n == d * q + r, 0 <= r < d;
}

} // verus!
