//! Viewport-driven lifecycle policy for expensive embedded resources.
//!
//! Each frame the policy looks at every resource-bearing item's distance
//! from the viewport. Items close to it get their resource created; items
//! far beyond it are only destroyed after sitting outside continuously
//! for a grace delay — the first instant an item crosses the threshold is
//! recorded, coming back inside clears the record, and only a record at
//! least the delay old triggers destruction. Items gone from the scene
//! lose their resource immediately. The policy only decides: performing
//! the creations and destructions is its caller's work.

use vstd::prelude::*;
use crate::constants::{COORD_LIMIT, RESOURCE_PRELOAD_DISTANCE, RESOURCE_UNLOAD_DELAY_MS, RESOURCE_UNLOAD_DISTANCE};

verus! {

/// How far an item's box sits from a viewport rectangle, in canvas
/// units; zero when they overlap.
pub open spec fn distance_spec(pos: (int, int), size: (int, int), vp: (int, int, int, int)) -> int {
    let dl = vp.0 - (pos.0 + size.0);
    let dr = pos.0 - vp.2;
    let dt = vp.1 - (pos.1 + size.1);
    let db = pos.1 - vp.3;
    let m1 = if dl >= 0 { dl } else { 0int };
    let m2 = if dr >= m1 { dr } else { m1 };
    let m3 = if dt >= m2 { dt } else { m2 };
    if db >= m3 { db } else { m3 }
}

/// Distance from an item to the viewport edge; zero when it overlaps.
pub fn item_distance_to_viewport(pos: (i64, i64), size: (i64, i64), vp: (i64, i64, i64, i64)) -> (r: i64)
    requires
        crate::geom::coord_in_range(pos.0) && crate::geom::coord_in_range(pos.1),
        0 <= size.0 <= COORD_LIMIT && 0 <= size.1 <= COORD_LIMIT,
        -600 * COORD_LIMIT <= vp.0 <= 600 * COORD_LIMIT,
        -600 * COORD_LIMIT <= vp.1 <= 600 * COORD_LIMIT,
        -600 * COORD_LIMIT <= vp.2 <= 600 * COORD_LIMIT,
        -600 * COORD_LIMIT <= vp.3 <= 600 * COORD_LIMIT,
    ensures
        r == distance_spec((pos.0 as int, pos.1 as int), (size.0 as int, size.1 as int),
            (vp.0 as int, vp.1 as int, vp.2 as int, vp.3 as int)),
        r >= 0,
{
    let dl: i64 = vp.0 - (pos.0 + size.0);
    let dr: i64 = pos.0 - vp.2;
    let dt: i64 = vp.1 - (pos.1 + size.1);
    let db: i64 = pos.1 - vp.3;
    let m1: i64 = if dl >= 0 { dl } else { 0 };
    let m2: i64 = if dr >= m1 { dr } else { m1 };
    let m3: i64 = if dt >= m2 { dt } else { m2 };
    if db >= m3 { db } else { m3 }
}

/// The viewport rectangle in canvas coordinates, from the pan offset,
/// the zoom, and the canvas area's pixel size.
pub fn viewport_bounds(offset: crate::geom::Point, zoom: u32, canvas_w: i64, canvas_h: i64) -> (r: (i64, i64, i64, i64))
    requires
        crate::geom::point_in_range(offset),
        crate::geom::zoom_in_range(zoom),
        0 <= canvas_w <= COORD_LIMIT,
        0 <= canvas_h <= COORD_LIMIT,
    ensures
        r.0 == crate::geom::delta_to_canvas(-offset.x as int, zoom as int),
        r.1 == crate::geom::delta_to_canvas(-offset.y as int, zoom as int),
        r.2 == crate::geom::delta_to_canvas(canvas_w - offset.x, zoom as int),
        r.3 == crate::geom::delta_to_canvas(canvas_h - offset.y, zoom as int),
        -600 * COORD_LIMIT <= r.0 <= 600 * COORD_LIMIT,
        -600 * COORD_LIMIT <= r.1 <= 600 * COORD_LIMIT,
        -600 * COORD_LIMIT <= r.2 <= 600 * COORD_LIMIT,
        -600 * COORD_LIMIT <= r.3 <= 600 * COORD_LIMIT,
    {
    let l = crate::geom::mul_div_floor(-offset.x, 100, zoom);
    let t = crate::geom::mul_div_floor(-offset.y, 100, zoom);
    let rr = crate::geom::mul_div_floor(canvas_w - offset.x, 100, zoom);
    let b = crate::geom::mul_div_floor(canvas_h - offset.y, 100, zoom);
    proof {
        crate::geom::lemma_div_bound(-offset.x * 100, zoom as int, 600 * COORD_LIMIT);
        crate::geom::lemma_div_bound(-offset.y * 100, zoom as int, 600 * COORD_LIMIT);
        crate::geom::lemma_div_bound((canvas_w - offset.x) * 100, zoom as int, 600 * COORD_LIMIT);
        crate::geom::lemma_div_bound((canvas_h - offset.y) * 100, zoom as int, 600 * COORD_LIMIT);
    }
    (l, t, rr, b)
}

/// Whether an item's scaled box stays fully inside the canvas area —
/// embedded views do not clip, so one poking past any edge (the header
/// above, the footer below, or either side) must be hidden.
pub open spec fn item_visible_spec(pos: (int, int), size: (int, int), off: (int, int), zoom: int, canvas_w: int, canvas_h: int) -> bool {
    let x = (pos.0 * zoom) / 100 + off.0;
    let y = (pos.1 * zoom) / 100 + off.1 + crate::constants::HEADER_HEIGHT;
    let w = (size.0 * zoom) / 100;
    let h = (size.1 * zoom) / 100;
    &&& y >= crate::constants::HEADER_HEIGHT
    &&& y + h <= canvas_h - crate::constants::FOOTER_HEIGHT
    &&& x >= 0
    &&& x + w <= canvas_w
}

/// Whether an item may show its embedded view: its scaled box must stay
/// clear of the header, footer, and both canvas edges.
pub fn item_visible_on_canvas(pos: (i64, i64), size: (i64, i64), off: crate::geom::Point, zoom: u32, canvas_w: i64, canvas_h: i64) -> (r: bool)
    requires
        crate::geom::coord_in_range(pos.0) && crate::geom::coord_in_range(pos.1),
        0 <= size.0 <= COORD_LIMIT && 0 <= size.1 <= COORD_LIMIT,
        crate::geom::point_in_range(off),
        crate::geom::zoom_in_range(zoom),
        0 <= canvas_w <= COORD_LIMIT,
        0 <= canvas_h <= COORD_LIMIT,
    ensures
        r == item_visible_spec((pos.0 as int, pos.1 as int), (size.0 as int, size.1 as int),
            (off.x as int, off.y as int), zoom as int, canvas_w as int, canvas_h as int),
{
    let x = scale_to_screen(pos.0, zoom) + off.x;
    let y = scale_to_screen(pos.1, zoom) + off.y + crate::constants::HEADER_HEIGHT;
    let w = scale_to_screen(size.0, zoom);
    let h = scale_to_screen(size.1, zoom);
    y >= crate::constants::HEADER_HEIGHT
        && y + h <= canvas_h - crate::constants::FOOTER_HEIGHT
        && x >= 0
        && x + w <= canvas_w
}

/// Scale a canvas length by the zoom percentage, flooring.
fn scale_to_screen(v: i64, zoom: u32) -> (r: i64)
    requires
        -COORD_LIMIT <= v <= COORD_LIMIT,
        1 <= zoom <= 500,
    ensures
        r == (v as int * zoom as int) / 100,
        -5 * COORD_LIMIT <= r <= 5 * COORD_LIMIT,
{
    let r = crate::geom::mul_div_floor(v, zoom, 100);
    proof {
        assert(-500 * COORD_LIMIT <= v as int * zoom as int <= 500 * COORD_LIMIT)
            by (nonlinear_arith)
            requires -COORD_LIMIT <= v as int <= COORD_LIMIT, 0 <= zoom as int <= 500;
        crate::geom::lemma_div_bound(v as int * zoom as int, 100, 500 * COORD_LIMIT);
        vstd::arithmetic::div_mod::lemma_fundamental_div_mod(v as int * zoom as int, 100);
        vstd::arithmetic::div_mod::lemma_mod_bound(v as int * zoom as int, 100);
        assert(-5 * COORD_LIMIT <= (v as int * zoom as int) / 100 <= 5 * COORD_LIMIT)
            by (nonlinear_arith)
            requires
                v as int * zoom as int == 100 * ((v as int * zoom as int) / 100) + (v as int * zoom as int) % 100,
                0 <= (v as int * zoom as int) % 100 < 100,
                -500 * COORD_LIMIT <= v as int * zoom as int <= 500 * COORD_LIMIT;
    }
    r
}

/// Tracks which items hold a live resource and when each first crossed
/// the unload threshold.
pub struct ResourceTracker {
    /// Ids holding a live resource, each once.
    pub live: Vec<u64>,
    /// For live ids continuously outside the unload distance: the instant
    /// (milliseconds) they first crossed it.
    pub out_since: Vec<(u64, u64)>,
}

/// What one policy tick decides: which resources to create and which to
/// destroy.
pub struct PolicyActions {
    pub create: Vec<u64>,
    pub destroy: Vec<u64>,
}

impl ResourceTracker {
    /// Whether the item holds a live resource.
    pub open spec fn has(&self, id: u64) -> bool {
        exists|i: int| 0 <= i < self.live@.len() && self.live@[i] == id
    }

    /// The recorded out-of-range instant for the item, if one stands.
    pub open spec fn marker(&self, id: u64) -> Option<u64> {
        if exists|i: int| 0 <= i < self.out_since@.len() && (#[trigger] self.out_since@[i]).0 == id {
            let i = choose|i: int| 0 <= i < self.out_since@.len() && (#[trigger] self.out_since@[i]).0 == id;
            Some(self.out_since@[i].1)
        } else {
            None
        }
    }

    /// Ids are unique in both lists, and markers only stand for live ids.
    pub open spec fn wf(&self) -> bool {
        &&& self.live@.no_duplicates()
        &&& forall|i: int, j: int| 0 <= i < j < self.out_since@.len()
            ==> (#[trigger] self.out_since@[i]).0 != (#[trigger] self.out_since@[j]).0
        &&& forall|i: int| 0 <= i < self.out_since@.len()
            ==> self.has((#[trigger] self.out_since@[i]).0)
    }

    /// A tracker with no live resources and no markers.
    pub fn new() -> (r: ResourceTracker)
        ensures
            r.wf(),
            forall|id: u64| !r.has(id),
            forall|id: u64| (#[trigger] r.marker(id)) is None,
    {
        ResourceTracker { live: Vec::new(), out_since: Vec::new() }
    }
}

/// What one tick decides for one item at distance `d`, relating the old
/// tracker state for its id to the new one. Within the preload distance
/// the resource exists afterwards and any marker is gone; in the band
/// between preload and unload distance the resource stays as it was and
/// any marker is cleared; beyond the unload distance a live resource
/// first gets a marker at the current instant, and is destroyed exactly
/// when its marker is at least the grace delay old.
pub open spec fn tick_one(
    old_has: bool,
    old_marker: Option<u64>,
    new_has: bool,
    new_marker: Option<u64>,
    d: int,
    now: u64,
) -> bool {
    if d <= RESOURCE_PRELOAD_DISTANCE {
        new_has && (new_marker is None)
    } else if d <= RESOURCE_UNLOAD_DISTANCE {
        new_has == old_has && (new_marker is None)
    } else {
        if !old_has {
            !new_has && (new_marker is None)
        } else {
            let since = match old_marker {
                Some(t) => t as int,
                None => now as int,
            };
            if now - since >= RESOURCE_UNLOAD_DELAY_MS {
                !new_has && (new_marker is None)
            } else {
                new_has && new_marker == Some(since as u64)
            }
        }
    }
}

impl ResourceTracker {
    /// One policy tick over the resource-bearing items, given each item's
    /// current distance to the viewport and the current instant. Returns
    /// which resources to create and which to destroy; the tracker is
    /// updated to match. Items absent from the list lose their resource
    /// at once.
    pub fn tick(&mut self, items: &Vec<(u64, i64)>, now_ms: u64) -> (r: PolicyActions)
        requires
            old(self).wf(),
            forall|i: int, j: int| 0 <= i < j < items@.len()
                ==> (#[trigger] items@[i]).0 != (#[trigger] items@[j]).0,
            forall|i: int| 0 <= i < items@.len() ==> (#[trigger] items@[i]).1 >= 0,
            forall|i: int| 0 <= i < items@.len()
                ==> ((#[trigger] old(self).marker(items@[i].0)) matches Some(t) ==> t <= now_ms),
        ensures
            final(self).wf(),
            r.create@.no_duplicates(),
            r.destroy@.no_duplicates(),
            forall|i: int| 0 <= i < items@.len() ==> ({
                let id = (#[trigger] items@[i]).0;
                let d = items@[i].1 as int;
                tick_one(old(self).has(id), old(self).marker(id), final(self).has(id), final(self).marker(id), d, now_ms)
            }),
            forall|id: u64| (forall|i: int| 0 <= i < items@.len() ==> (#[trigger] items@[i]).0 != id)
                ==> !final(self).has(id) && ((#[trigger] final(self).marker(id)) is None),
            forall|i: int| 0 <= i < items@.len() ==> ({
                let id = (#[trigger] items@[i]).0;
                let d = items@[i].1 as int;
                r.create@.contains(id) == (d <= RESOURCE_PRELOAD_DISTANCE && !old(self).has(id))
            }),
            forall|id: u64| #[trigger] r.destroy@.contains(id)
                == (old(self).has(id) && !final(self).has(id)),
    {
        let mut new_live: Vec<u64> = Vec::new();
        let mut new_markers: Vec<(u64, u64)> = Vec::new();
        let mut create: Vec<u64> = Vec::new();
        let mut destroy: Vec<u64> = Vec::new();
        let mut k: usize = 0;
        while k < items.len()
            invariant
                old(self).wf(),
                *self == *old(self),
                0 <= k <= items@.len(),
                forall|i: int, j: int| 0 <= i < j < items@.len()
                    ==> (#[trigger] items@[i]).0 != (#[trigger] items@[j]).0,
                forall|i: int| 0 <= i < items@.len() ==> (#[trigger] items@[i]).1 >= 0,
                forall|i: int| 0 <= i < items@.len()
                    ==> ((#[trigger] old(self).marker(items@[i].0)) matches Some(t) ==> t <= now_ms),
                // Everything in the new lists comes from the processed prefix.
                forall|p: int| 0 <= p < new_live@.len()
                    ==> exists|i: int| 0 <= i < k && (#[trigger] new_live@[p]) == items@[i].0,
                forall|p: int| 0 <= p < new_markers@.len()
                    ==> exists|i: int| 0 <= i < k && (#[trigger] new_markers@[p]).0 == items@[i].0,
                forall|p: int| 0 <= p < create@.len()
                    ==> exists|i: int| 0 <= i < k && (#[trigger] create@[p]) == items@[i].0,
                forall|p: int| 0 <= p < destroy@.len()
                    ==> exists|i: int| 0 <= i < k && (#[trigger] destroy@[p]) == items@[i].0,
                new_live@.no_duplicates(),
                create@.no_duplicates(),
                destroy@.no_duplicates(),
                forall|p: int, q: int| 0 <= p < q < new_markers@.len()
                    ==> (#[trigger] new_markers@[p]).0 != (#[trigger] new_markers@[q]).0,
                forall|p: int| 0 <= p < new_markers@.len()
                    ==> new_live@.contains((#[trigger] new_markers@[p]).0),
                // The processed prefix already satisfies the per-item relation.
                forall|i: int| 0 <= i < k ==> ({
                    let id = (#[trigger] items@[i]).0;
                    let d = items@[i].1 as int;
                    tick_one(old(self).has(id), old(self).marker(id),
                        new_live@.contains(id), marker_in(new_markers@, id), d, now_ms)
                }),
                forall|i: int| 0 <= i < k ==> ({
                    let id = (#[trigger] items@[i]).0;
                    let d = items@[i].1 as int;
                    create@.contains(id) == (d <= RESOURCE_PRELOAD_DISTANCE && !old(self).has(id))
                }),
                forall|i: int| 0 <= i < k ==> ({
                    let id = (#[trigger] items@[i]).0;
                    destroy@.contains(id) == (old(self).has(id) && !new_live@.contains(id))
                }),
                // Unprocessed ids have not been touched yet.
                forall|i: int| k <= i < items@.len() ==> ({
                    let id = (#[trigger] items@[i]).0;
                    !new_live@.contains(id) && (marker_in(new_markers@, id) is None)
                        && !create@.contains(id) && !destroy@.contains(id)
                }),
            decreases items@.len() - k,
        {
            let (id, d) = items[k];
            let was_live = tracker_has(&self.live, id);
            let old_mark = lookup_marker(&self.out_since, id);
            let ghost pre_live = new_live@;
            let ghost pre_markers = new_markers@;
            let ghost pre_create = create@;
            let ghost pre_destroy = destroy@;
            if d <= RESOURCE_PRELOAD_DISTANCE {
                new_live.push(id);
                if !was_live {
                    create.push(id);
                }
            } else if d <= RESOURCE_UNLOAD_DISTANCE {
                if was_live {
                    new_live.push(id);
                }
            } else {
                if was_live {
                    let since: u64 = match old_mark {
                        Some(t) => t,
                        None => now_ms,
                    };
                    if now_ms - since >= RESOURCE_UNLOAD_DELAY_MS {
                        destroy.push(id);
                    } else {
                        new_live.push(id);
                        new_markers.push((id, since));
                    }
                }
            }
            proof {
                assert forall|x: u64| x != id implies
                    (new_live@.contains(x) == pre_live.contains(x))
                    && (create@.contains(x) == pre_create.contains(x))
                    && (destroy@.contains(x) == pre_destroy.contains(x)) by {
                    lemma_push_frame_u64(pre_live, new_live@, id, x);
                    lemma_push_frame_u64(pre_create, create@, id, x);
                    lemma_push_frame_u64(pre_destroy, destroy@, id, x);
                }
                assert forall|x: u64| x != id implies
                    marker_in(new_markers@, x) == marker_in(pre_markers, x) by {
                    lemma_push_frame_marker(pre_markers, new_markers@, id, x);
                }
                // What happened for this item's own id, per branch.
                assert(!pre_live.contains(id) && !pre_create.contains(id)
                    && !pre_destroy.contains(id) && (marker_in(pre_markers, id) is None));
                assert(forall|i: int| 0 <= i < pre_markers.len() ==> (#[trigger] pre_markers[i]).0 != id) by {
                    if exists|i: int| 0 <= i < pre_markers.len() && (#[trigger] pre_markers[i]).0 == id {
                        let w = choose|w: int| 0 <= w < pre_markers.len() && (#[trigger] pre_markers[w]).0 == id;
                        assert(marker_in(pre_markers, id) is Some);
                    }
                }
                if new_live@.len() > pre_live.len() {
                    assert(new_live@.last() == id);
                    assert(new_live@.contains(id));
                } else {
                    assert(new_live@ == pre_live);
                    assert(!new_live@.contains(id));
                }
                if create@.len() > pre_create.len() {
                    assert(create@.last() == id);
                    assert(create@.contains(id));
                    lemma_push_nodup(pre_create, create@, id);
                } else {
                    assert(!create@.contains(id));
                }
                if destroy@.len() > pre_destroy.len() {
                    assert(destroy@.last() == id);
                    assert(destroy@.contains(id));
                    lemma_push_nodup(pre_destroy, destroy@, id);
                } else {
                    assert(!destroy@.contains(id));
                }
                if new_live@.len() > pre_live.len() {
                    lemma_push_nodup(pre_live, new_live@, id);
                }
                if new_markers@.len() > pre_markers.len() {
                    assert(new_markers@.last().0 == id);
                    assert(marker_in(new_markers@, id) == Some(new_markers@.last().1)) by {
                        lemma_marker_of_pushed(pre_markers, new_markers@, id);
                    }
                } else {
                    assert(new_markers@ == pre_markers);
                    assert(marker_in(new_markers@, id) is None);
                }
                assert forall|pp: int| 0 <= pp < new_markers@.len()
                    implies new_live@.contains((#[trigger] new_markers@[pp]).0) by {
                    if pp < pre_markers.len() {
                        assert(pre_live.contains(pre_markers[pp].0));
                        let w = choose|w: int| 0 <= w < pre_live.len() && pre_live[w] == pre_markers[pp].0;
                        assert(new_live@[w] == pre_markers[pp].0);
                        assert(new_markers@[pp] == pre_markers[pp]);
                    } else {
                        assert(new_markers@[pp].0 == id);
                        assert(new_live@.last() == id);
                    }
                }
            }
            k = k + 1;
        }
        // Anything live before but not listed is gone from the scene:
        // destroy it at once.
        let mut p: usize = 0;
        while p < self.live.len()
            invariant
                old(self).wf(),
                *self == *old(self),
                0 <= p <= self.live@.len(),
                forall|j: int| 0 <= j < p ==> ({
                    let id = #[trigger] self.live@[j];
                    (forall|i: int| 0 <= i < items@.len() ==> (#[trigger] items@[i]).0 != id)
                        ==> destroy@.contains(id)
                }),
                destroy@.no_duplicates(),
                forall|id: u64| destroy@.contains(id) ==> old(self).has(id) || contains_item_id(items@, id),
                forall|i: int| 0 <= i < items@.len() ==> ({
                    let id = (#[trigger] items@[i]).0;
                    destroy@.contains(id) == (old(self).has(id) && !new_live@.contains(id))
                }),
                forall|id: u64| !contains_item_id(items@, id)
                    ==> !new_live@.contains(id) && (marker_in(new_markers@, id) is None),
                forall|i: int| 0 <= i < items@.len() ==> ({
                    let id = (#[trigger] items@[i]).0;
                    let d = items@[i].1 as int;
                    tick_one(old(self).has(id), old(self).marker(id),
                        new_live@.contains(id), marker_in(new_markers@, id), d, now_ms)
                }),
                forall|i: int| 0 <= i < items@.len() ==> ({
                    let id = (#[trigger] items@[i]).0;
                    let d = items@[i].1 as int;
                    create@.contains(id) == (d <= RESOURCE_PRELOAD_DISTANCE && !old(self).has(id))
                }),
                new_live@.no_duplicates(),
                forall|pp: int, qq: int| 0 <= pp < qq < new_markers@.len()
                    ==> (#[trigger] new_markers@[pp]).0 != (#[trigger] new_markers@[qq]).0,
                forall|pp: int| 0 <= pp < new_markers@.len()
                    ==> new_live@.contains((#[trigger] new_markers@[pp]).0),
            decreases self.live@.len() - p,
        {
            let id = self.live[p];
            let listed = item_listed(items, id);
            let ghost pre_destroy = destroy@;
            if !listed && !ids_contain_lc(&destroy, id) {
                proof {
                    assert(!contains_item_id(items@, id));
                }
                destroy.push(id);
                proof {
                    lemma_push_nodup(pre_destroy, destroy@, id);
                    assert(destroy@.last() == id);
                    assert(destroy@.contains(id));
                    assert forall|x: u64| x != id implies destroy@.contains(x) == pre_destroy.contains(x) by {
                        lemma_push_frame_u64(pre_destroy, destroy@, id, x);
                    }
                    assert forall|i: int| 0 <= i < items@.len() implies ({
                        let y = (#[trigger] items@[i]).0;
                        destroy@.contains(y) == (old(self).has(y) && !new_live@.contains(y))
                    }) by {
                        assert(items@[i].0 != id);
                    }
                }
            }
            proof {
                assert forall|j: int| 0 <= j < p + 1 implies ({
                    let y = #[trigger] self.live@[j];
                    (forall|i: int| 0 <= i < items@.len() ==> (#[trigger] items@[i]).0 != y)
                        ==> destroy@.contains(y)
                }) by {
                    if j < p {
                        if pre_destroy.contains(self.live@[j]) {
                            let w = choose|w: int| 0 <= w < pre_destroy.len() && pre_destroy[w] == self.live@[j];
                            assert(destroy@[w] == self.live@[j]);
                        }
                    }
                }
            }
            p = p + 1;
        }
        let ghost nl = new_live@;
        let ghost nm = new_markers@;
        self.live = new_live;
        self.out_since = new_markers;
        proof {
            assert(self.live@ == nl);
            assert(self.out_since@ == nm);
            assert forall|id: u64| #[trigger] self.has(id) == nl.contains(id) by {
                if self.has(id) {
                    let w = choose|w: int| 0 <= w < self.live@.len() && self.live@[w] == id;
                    assert(nl[w] == id);
                }
                if nl.contains(id) {
                    let w = choose|w: int| 0 <= w < nl.len() && nl[w] == id;
                    assert(self.live@[w] == id);
                }
            }
            assert forall|id: u64| #[trigger] self.marker(id) == marker_in(nm, id) by {
                assert(self.out_since@ == nm);
            }
            assert forall|id: u64| (forall|i: int| 0 <= i < items@.len() ==> (#[trigger] items@[i]).0 != id)
                implies !final(self).has(id) && ((#[trigger] final(self).marker(id)) is None) by {
                assert(!contains_item_id(items@, id));
            }
            assert forall|id: u64| #[trigger] destroy@.contains(id)
                implies (old(self).has(id) && !final(self).has(id)) by {
                if contains_item_id(items@, id) {
                    let i = choose|i: int| 0 <= i < items@.len() && (#[trigger] items@[i]).0 == id;
                } else {
                }
            }
            assert forall|id: u64| (old(self).has(id) && !final(self).has(id))
                implies #[trigger] destroy@.contains(id) by {
                let j = choose|j: int| 0 <= j < old(self).live@.len() && old(self).live@[j] == id;
                if contains_item_id(items@, id) {
                    let i = choose|i: int| 0 <= i < items@.len() && (#[trigger] items@[i]).0 == id;
                }
            }
        }
        PolicyActions { create, destroy }
    }
}

/// Whether an item list holds an id.
pub open spec fn contains_item_id(items: Seq<(u64, i64)>, id: u64) -> bool {
    exists|i: int| 0 <= i < items.len() && (#[trigger] items[i]).0 == id
}

/// The marker a pair list records for an id.
pub open spec fn marker_in(markers: Seq<(u64, u64)>, id: u64) -> Option<u64> {
    if exists|i: int| 0 <= i < markers.len() && (#[trigger] markers[i]).0 == id {
        let i = choose|i: int| 0 <= i < markers.len() && (#[trigger] markers[i]).0 == id;
        Some(markers[i].1)
    } else {
        None
    }
}

/// Pushing one id changes membership only for that id.
proof fn lemma_push_frame_u64(pre: Seq<u64>, post: Seq<u64>, id: u64, x: u64)
    requires
        post == pre || post == pre.push(id),
        x != id,
    ensures
        post.contains(x) == pre.contains(x),
{
    if post == pre.push(id) {
        if pre.contains(x) {
            let w = choose|w: int| 0 <= w < pre.len() && pre[w] == x;
            assert(post[w] == x);
        }
        if post.contains(x) {
            let w = choose|w: int| 0 <= w < post.len() && post[w] == x;
            assert(w < pre.len());
            assert(pre[w] == x);
        }
    }
}

/// Eviction hysteresis: a resource whose item has sat outside the unload
/// distance continuously since `t0` is destroyed by the first tick at or
/// after `t0` plus the grace delay; and an item back inside the unload
/// distance is never destroyed by that tick and its out-of-range marker
/// is cleared.
pub proof fn lemma_eviction_hysteresis(
    old_has: bool,
    old_marker: Option<u64>,
    new_has: bool,
    new_marker: Option<u64>,
    d: int,
    now: u64,
    t0: u64,
)
    requires
        tick_one(old_has, old_marker, new_has, new_marker, d, now),
    ensures
        old_has && old_marker == Some(t0) && d > RESOURCE_UNLOAD_DISTANCE
            && now >= t0 + RESOURCE_UNLOAD_DELAY_MS
            ==> !new_has && (new_marker is None),
        old_has && d <= RESOURCE_UNLOAD_DISTANCE
            ==> new_has && (new_marker is None),
{
}

/// Appending a fresh id keeps an id list free of duplicates.
proof fn lemma_push_nodup(pre: Seq<u64>, post: Seq<u64>, id: u64)
    requires
        pre.no_duplicates(),
        !pre.contains(id),
        post == pre.push(id),
    ensures
        post.no_duplicates(),
{
    assert forall|p: int, q: int| 0 <= p < q < post.len()
        implies post[p] != post[q] by {
        if q == post.len() - 1 {
            assert(post[p] == pre[p]);
            if post[p] == id {
                assert(pre.contains(id));
            }
        } else {
            assert(post[p] == pre[p]);
            assert(post[q] == pre[q]);
        }
    }
}

/// Marker lists in this module keep one entry per id.
pub open spec fn unique_firsts(s: Seq<(u64, u64)>) -> bool {
    forall|i: int, j: int| 0 <= i < j < s.len() ==> (#[trigger] s[i]).0 != (#[trigger] s[j]).0
}

/// Pushing one marker changes the lookup only for its id.
proof fn lemma_push_frame_marker(pre: Seq<(u64, u64)>, post: Seq<(u64, u64)>, id: u64, x: u64)
    requires
        unique_firsts(pre),
        post == pre || (post.len() == pre.len() + 1
            && (forall|i: int| 0 <= i < pre.len() ==> #[trigger] post[i] == pre[i])
            && post.last().0 == id),
        x != id,
    ensures
        marker_in(post, x) == marker_in(pre, x),
{
    if post != pre {
        if exists|i: int| 0 <= i < pre.len() && (#[trigger] pre[i]).0 == x {
            let w = choose|w: int| 0 <= w < pre.len() && (#[trigger] pre[w]).0 == x;
            assert(post[w].0 == x);
            let a = choose|a: int| 0 <= a < post.len() && (#[trigger] post[a]).0 == x;
            assert(a != post.len() - 1);
            assert(post[a] == pre[a]);
            let b = choose|b: int| 0 <= b < pre.len() && (#[trigger] pre[b]).0 == x;
            assert(a == b) by {
                if a < b {
                    assert(pre[a].0 != pre[b].0);
                } else if b < a {
                    assert(pre[b].0 != pre[a].0);
                }
            }
        } else {
            if exists|i: int| 0 <= i < post.len() && (#[trigger] post[i]).0 == x {
                let a = choose|a: int| 0 <= a < post.len() && (#[trigger] post[a]).0 == x;
                if a < pre.len() {
                    assert(pre[a].0 == x);
                    assert(false);
                } else {
                    assert(post[a].0 == id);
                    assert(false);
                }
            }
        }
    }
}

/// The lookup after pushing a fresh marker finds it.
proof fn lemma_marker_of_pushed(pre: Seq<(u64, u64)>, post: Seq<(u64, u64)>, id: u64)
    requires
        post.len() == pre.len() + 1,
        forall|i: int| 0 <= i < pre.len() ==> #[trigger] post[i] == pre[i],
        post.last().0 == id,
        forall|i: int| 0 <= i < pre.len() ==> (#[trigger] pre[i]).0 != id,
    ensures
        marker_in(post, id) == Some(post.last().1),
{
    assert(post[post.len() - 1].0 == id);
    let a = choose|a: int| 0 <= a < post.len() && (#[trigger] post[a]).0 == id;
    if a < pre.len() {
        assert(post[a] == pre[a]);
        assert(false);
    }
}

/// Whether a live list holds an id.
fn tracker_has(live: &Vec<u64>, id: u64) -> (r: bool)
    ensures
        r == (exists|i: int| 0 <= i < live@.len() && live@[i] == id),
{
    let mut i: usize = 0;
    while i < live.len()
        invariant
            0 <= i <= live@.len(),
            forall|j: int| 0 <= j < i ==> live@[j] != id,
        decreases live@.len() - i,
    {
        if live[i] == id {
            return true;
        }
        i = i + 1;
    }
    false
}

/// The recorded marker for an id, if any.
fn lookup_marker(markers: &Vec<(u64, u64)>, id: u64) -> (r: Option<u64>)
    requires
        forall|i: int, j: int| 0 <= i < j < markers@.len()
            ==> (#[trigger] markers@[i]).0 != (#[trigger] markers@[j]).0,
    ensures
        r == marker_in(markers@, id),
{
    let mut i: usize = 0;
    while i < markers.len()
        invariant
            0 <= i <= markers@.len(),
            forall|p: int, q: int| 0 <= p < q < markers@.len()
                ==> (#[trigger] markers@[p]).0 != (#[trigger] markers@[q]).0,
            forall|j: int| 0 <= j < i ==> (#[trigger] markers@[j]).0 != id,
        decreases markers@.len() - i,
    {
        if markers[i].0 == id {
            proof {
                let w = choose|w: int| 0 <= w < markers@.len() && (#[trigger] markers@[w]).0 == id;
                assert(w == i);
            }
            return Some(markers[i].1);
        }
        i = i + 1;
    }
    proof {
        if exists|w: int| 0 <= w < markers@.len() && (#[trigger] markers@[w]).0 == id {
            let w = choose|w: int| 0 <= w < markers@.len() && (#[trigger] markers@[w]).0 == id;
        }
    }
    None
}

/// Whether the item list names an id.
fn item_listed(items: &Vec<(u64, i64)>, id: u64) -> (r: bool)
    ensures
        r == contains_item_id(items@, id),
{
    let mut i: usize = 0;
    while i < items.len()
        invariant
            0 <= i <= items@.len(),
            forall|j: int| 0 <= j < i ==> (#[trigger] items@[j]).0 != id,
        decreases items@.len() - i,
    {
        if items[i].0 == id {
            return true;
        }
        i = i + 1;
    }
    false
}

/// Whether a plain id list holds an id.
fn ids_contain_lc(v: &Vec<u64>, id: u64) -> (r: bool)
    ensures
        r == v@.contains(id),
{
    let mut i: usize = 0;
    while i < v.len()
        invariant
            0 <= i <= v@.len(),
            forall|j: int| 0 <= j < i ==> v@[j] != id,
        decreases v@.len() - i,
    {
        if v[i] == id {
            return true;
        }
        i = i + 1;
    }
    false
}

} // verus!
