//! The scene model: items with z-order, the view transform, shared data
//! sources, the spatial index, and a bounded undo/redo history.
//!
//! History entries are full snapshots of the scene (items, pan offset,
//! zoom, next id), cloned on commit so that later edits can never reach
//! into a stored entry. The log is linear with a cursor: committing after
//! an undo discards everything past the cursor, and once the log is full
//! the oldest entry drops off and becomes the new baseline that the last
//! undo restores.

use vstd::prelude::*;
use crate::constants::{COORD_LIMIT, DEFAULT_ZOOM, MAX_HISTORY_STATES, MAX_ZOOM, MIN_ZOOM, ZOOM_STEP};
use crate::geom::{coord_in_range, point_in_range, zoom_in_range, Point};
use crate::spatial::SpatialIndex;
use crate::text::{ascii_lower, chars_vec, contains_seq, find_seq, to_lower_vec};
use crate::types::{CanvasItem, DataSource, ItemContent, ItemV, content_in_range,
    default_size_spec, display_name_spec, items_view};

verus! {

/// One committed state of the scene.
pub struct Snapshot {
    pub items: Vec<CanvasItem>,
    pub canvas_offset: Point,
    pub zoom: u32,
    pub next_item_id: u64,
}

/// Mathematical view of a snapshot, and of the live scene.
pub struct SnapV {
    pub items: Seq<ItemV>,
    pub canvas_offset: (int, int),
    pub zoom: int,
    pub next_item_id: u64,
}

impl View for Snapshot {
    type V = SnapV;

    open spec fn view(&self) -> SnapV {
        SnapV {
            items: items_view(self.items@),
            canvas_offset: (self.canvas_offset.x as int, self.canvas_offset.y as int),
            zoom: self.zoom as int,
            next_item_id: self.next_item_id,
        }
    }
}

/// A board: the items on the canvas in draw order, the view transform,
/// the data sources shared by tables and charts, the spatial index over
/// item boxes, and the undo history.
pub struct Board {
    /// Items in draw order: later items paint over earlier ones.
    pub items: Vec<CanvasItem>,
    /// Zoom percentage of the view.
    pub zoom: u32,
    /// Pan offset of the view, in screen pixels.
    pub canvas_offset: Point,
    /// The id the next added item receives.
    pub next_item_id: u64,
    /// Data sources by id, shared between table and chart items.
    pub data_sources: Vec<(u64, DataSource)>,
    /// The id the next data source receives.
    pub next_data_source_id: u64,
    /// Whether the scene changed since the last save.
    pub dirty: bool,
    /// Committed snapshots, oldest first; mutated only by commits and
    /// reads by undo/redo.
    pub history: Vec<Snapshot>,
    /// How many committed entries lie at or before the current scene.
    pub history_index: usize,
    /// The scene before the oldest surviving history entry.
    pub baseline: Snapshot,
    /// Bounding boxes of settled items, for hit testing.
    pub spatial: SpatialIndex,
}

/// What one commit does to the history: entries past the cursor are
/// discarded, the scene is appended, and once the log is full the oldest
/// entry drops off into the baseline.
pub open spec fn committed_history(h: Seq<SnapV>, cursor: int, scene: SnapV) -> Seq<SnapV> {
    let pruned = h.take(cursor);
    if pruned.len() < MAX_HISTORY_STATES {
        pruned.push(scene)
    } else {
        pruned.drop_first().push(scene)
    }
}

/// What one commit does to the baseline.
pub open spec fn committed_baseline(h: Seq<SnapV>, cursor: int, base: SnapV) -> SnapV {
    let pruned = h.take(cursor);
    if pruned.len() < MAX_HISTORY_STATES {
        base
    } else {
        pruned.first()
    }
}

impl Board {
    /// The committed history, oldest first.
    pub open spec fn hist(&self) -> Seq<SnapV> {
        self.history@.map_values(|s: Snapshot| s@)
    }

    /// The cursor: how many committed entries lie at or before the
    /// current scene. Zero means every commit has been undone.
    pub open spec fn cursor(&self) -> int {
        self.history_index as int
    }

    /// The state the final undo restores: the scene from before the
    /// oldest surviving history entry.
    pub open spec fn baseline_v(&self) -> SnapV {
        self.baseline@
    }

    /// The spatial index model: item id to bounding box.
    pub open spec fn index_map(&self) -> Map<u64, (int, int, int, int)> {
        self.spatial.view_map()
    }

    /// The live scene as a snapshot view.
    pub open spec fn scene(&self) -> SnapV {
        SnapV {
            items: items_view(self.items@),
            canvas_offset: (self.canvas_offset.x as int, self.canvas_offset.y as int),
            zoom: self.zoom as int,
            next_item_id: self.next_item_id,
        }
    }

    /// Structural well-formedness: the cursor stays inside the bounded
    /// log and the spatial index is consistent.
    pub open spec fn wf(&self) -> bool {
        &&& self.cursor() <= self.hist().len()
        &&& self.hist().len() <= MAX_HISTORY_STATES
        &&& self.spatial.wf()
    }

    /// A fresh empty board at unit zoom, origin pan, empty history.
    pub fn new_for_test() -> (r: Board)
        ensures
            r.wf(),
            r.scene().items.len() == 0,
            r.zoom == DEFAULT_ZOOM,
            r.canvas_offset.x == 0 && r.canvas_offset.y == 0,
            r.next_item_id == 0,
            r.next_data_source_id == 0,
            r.hist().len() == 0,
            r.cursor() == 0,
            r.baseline_v().items.len() == 0,
            (r.index_map() == Map::<u64, (int, int, int, int)>::empty()),
            !r.dirty,
            r.data_sources@.len() == 0,
    {
        let baseline = Snapshot {
            items: Vec::new(),
            canvas_offset: Point::new(0, 0),
            zoom: DEFAULT_ZOOM,
            next_item_id: 0,
        };
        proof {
            assert(items_view(Seq::<CanvasItem>::empty()) =~= Seq::<ItemV>::empty());
        }
        Board {
            items: Vec::new(),
            zoom: DEFAULT_ZOOM,
            canvas_offset: Point::new(0, 0),
            next_item_id: 0,
            data_sources: Vec::new(),
            next_data_source_id: 0,
            dirty: false,
            history: Vec::new(),
            history_index: 0,
            baseline,
            spatial: SpatialIndex::new(),
        }
    }

    /// Clone the live items for a snapshot.
    fn clone_items(&self) -> (r: Vec<CanvasItem>)
        ensures
            items_view(r@) == items_view(self.items@),
    {
        let r = self.items.clone();
        proof {
            assert forall|i: int| 0 <= i < r@.len()
                implies #[trigger] r@[i]@ == self.items@[i]@ by {
                assert(vstd::pervasive::cloned::<CanvasItem>(self.items@[i], r@[i]));
            }
            assert(items_view(r@) =~= items_view(self.items@));
        }
        r
    }

    /// Commit the current scene: prune entries past the cursor, append a
    /// snapshot, drop the oldest into the baseline once the log is full,
    /// and leave the cursor at the end. The live scene is untouched.
    pub fn push_history(&mut self)
        requires
            old(self).wf(),
        ensures
            final(self).wf(),
            final(self).hist() == committed_history(old(self).hist(), old(self).cursor(), old(self).scene()),
            final(self).baseline_v() == committed_baseline(old(self).hist(), old(self).cursor(), old(self).baseline_v()),
            final(self).cursor() == final(self).hist().len(),
            final(self).items == old(self).items,
            final(self).zoom == old(self).zoom,
            final(self).canvas_offset == old(self).canvas_offset,
            final(self).next_item_id == old(self).next_item_id,
            final(self).data_sources == old(self).data_sources,
            final(self).next_data_source_id == old(self).next_data_source_id,
            final(self).index_map() == old(self).index_map(),
            final(self).scene() == old(self).scene(),
    {
        let snap = Snapshot {
            items: self.clone_items(),
            canvas_offset: self.canvas_offset,
            zoom: self.zoom,
            next_item_id: self.next_item_id,
        };
        proof {
            assert(snap@ == old(self).scene());
        }
        self.history.truncate(self.history_index);
        proof {
            assert(self.history@ =~= old(self).history@.subrange(0, old(self).history_index as int));
            assert(self.hist() =~= old(self).hist().take(old(self).cursor()));
        }
        let ghost pruned = self.hist();
        self.history.push(snap);
        proof {
            assert(self.hist() =~= pruned.push(snap@));
        }
        if self.history.len() > MAX_HISTORY_STATES {
            let dropped = self.history.remove(0);
            self.baseline = dropped;
            proof {
                assert(self.hist() =~= pruned.push(snap@).drop_first());
                assert(pruned.push(snap@).drop_first() =~= pruned.drop_first().push(snap@));
            }
        }
        self.history_index = self.history.len();
    }

    /// Step the scene back to the previous committed entry, or to the
    /// baseline when the cursor reaches the front. At the front already,
    /// nothing changes and the call reports `false`.
    pub fn undo(&mut self) -> (r: bool)
        requires
            old(self).wf(),
        ensures
            final(self).wf(),
            final(self).hist() == old(self).hist(),
            final(self).baseline_v() == old(self).baseline_v(),
            final(self).data_sources == old(self).data_sources,
            r == (old(self).cursor() > 0),
            !r ==> final(self).cursor() == old(self).cursor() && final(self).scene() == old(self).scene(),
            r ==> final(self).cursor() == old(self).cursor() - 1,
            r ==> final(self).scene() == (if old(self).cursor() > 1 {
                old(self).hist()[old(self).cursor() - 2]
            } else {
                old(self).baseline_v()
            }),
    {
        if self.history_index == 0 {
            return false;
        }
        self.history_index = self.history_index - 1;
        if self.history_index == 0 {
            let items = clone_snapshot_items(&self.baseline);
            self.items = items;
            self.canvas_offset = self.baseline.canvas_offset;
            self.zoom = self.baseline.zoom;
            self.next_item_id = self.baseline.next_item_id;
        } else {
            let i = self.history_index - 1;
            let items = clone_snapshot_items(&self.history[i]);
            self.items = items;
            self.canvas_offset = self.history[i].canvas_offset;
            self.zoom = self.history[i].zoom;
            self.next_item_id = self.history[i].next_item_id;
            proof {
                assert(old(self).hist()[i as int] == old(self).history@[i as int]@);
            }
        }
        true
    }

    /// Step the scene forward to the next committed entry. At the end
    /// already, nothing changes and the call reports `false`.
    pub fn redo(&mut self) -> (r: bool)
        requires
            old(self).wf(),
        ensures
            final(self).wf(),
            final(self).hist() == old(self).hist(),
            final(self).baseline_v() == old(self).baseline_v(),
            final(self).data_sources == old(self).data_sources,
            r == (old(self).cursor() < old(self).hist().len()),
            !r ==> final(self).cursor() == old(self).cursor() && final(self).scene() == old(self).scene(),
            r ==> final(self).cursor() == old(self).cursor() + 1,
            r ==> final(self).scene() == old(self).hist()[old(self).cursor()],
    {
        if self.history_index >= self.history.len() {
            return false;
        }
        let i = self.history_index;
        let items = clone_snapshot_items(&self.history[i]);
        self.items = items;
        self.canvas_offset = self.history[i].canvas_offset;
        self.zoom = self.history[i].zoom;
        self.next_item_id = self.history[i].next_item_id;
        self.history_index = self.history_index + 1;
        proof {
            assert(old(self).hist()[i as int] == old(self).history@[i as int]@);
        }
        true
    }

    /// The history cursor.
    pub fn current_history_index(&self) -> (r: usize)
        ensures
            r == self.cursor(),
    {
        self.history_index
    }

    /// How many committed entries the log holds.
    pub fn history_len(&self) -> (r: usize)
        ensures
            r == self.hist().len(),
    {
        self.history.len()
    }

    /// Mark the scene as changed since the last save.
    pub fn mark_dirty(&mut self)
        ensures
            final(self).dirty,
            final(self).items == old(self).items,
            final(self).hist() == old(self).hist(),
            final(self).cursor() == old(self).cursor(),
            final(self).scene() == old(self).scene(),
            final(self).wf() == old(self).wf(),
    {
        self.dirty = true;
    }
}

impl Board {
    /// Place a new item of the given content at `position`, sized by the
    /// content's default, commit one history entry, and return its id.
    /// Ids are assigned monotonically and never reused.
    pub fn add_item(&mut self, position: Point, content: ItemContent) -> (r: u64)
        requires
            old(self).wf(),
            old(self).next_item_id < u64::MAX,
            point_in_range(position),
            content_in_range(content),
        ensures
            final(self).wf(),
            r == old(self).next_item_id,
            final(self).next_item_id == old(self).next_item_id + 1,
            final(self).items@.len() == old(self).items@.len() + 1,
            items_view(final(self).items@).drop_last() == items_view(old(self).items@),
            ({
                let it = items_view(final(self).items@).last();
                it.id == r && it.position == (position.x as int, position.y as int)
                    && it.size == default_size_spec(content) && it.content == content@
            }),
            final(self).zoom == old(self).zoom,
            final(self).canvas_offset == old(self).canvas_offset,
            final(self).data_sources == old(self).data_sources,
            final(self).next_data_source_id == old(self).next_data_source_id,
            final(self).hist() == committed_history(old(self).hist(), old(self).cursor(), final(self).scene()),
            final(self).cursor() == final(self).hist().len(),
            final(self).index_map() == old(self).index_map().insert(
                r,
                (position.x as int, position.y as int,
                 position.x + default_size_spec(content).0,
                 position.y + default_size_spec(content).1),
            ),
    {
        let size = content.default_size();
        self.add_item_with_size(position, size, content)
    }

    /// Place a new item with an explicit size, as finishing a drawing
    /// gesture does, commit one history entry, and return its id.
    pub fn add_item_with_size(&mut self, position: Point, size: (i64, i64), content: ItemContent) -> (r: u64)
        requires
            old(self).wf(),
            old(self).next_item_id < u64::MAX,
            point_in_range(position),
            content_in_range(content),
            0 <= size.0 <= COORD_LIMIT,
            0 <= size.1 <= COORD_LIMIT,
        ensures
            final(self).wf(),
            r == old(self).next_item_id,
            final(self).next_item_id == old(self).next_item_id + 1,
            final(self).items@.len() == old(self).items@.len() + 1,
            items_view(final(self).items@).drop_last() == items_view(old(self).items@),
            ({
                let it = items_view(final(self).items@).last();
                it.id == r && it.position == (position.x as int, position.y as int)
                    && it.size == (size.0 as int, size.1 as int) && it.content == content@
            }),
            final(self).zoom == old(self).zoom,
            final(self).canvas_offset == old(self).canvas_offset,
            final(self).data_sources == old(self).data_sources,
            final(self).next_data_source_id == old(self).next_data_source_id,
            final(self).hist() == committed_history(old(self).hist(), old(self).cursor(), final(self).scene()),
            final(self).cursor() == final(self).hist().len(),
            final(self).index_map() == old(self).index_map().insert(
                r,
                (position.x as int, position.y as int,
                 position.x + size.0 as int, position.y + size.1 as int),
            ),
    {
        let id = self.next_item_id;
        let item = CanvasItem {
            id,
            position: (position.x, position.y),
            size,
            content,
        };
        self.spatial.insert(id, (position.x, position.y), size);
        self.items.push(item);
        self.next_item_id = id + 1;
        proof {
            assert(items_view(self.items@).drop_last() =~= items_view(old(self).items@));
        }
        self.push_history();
        id
    }

    /// The item with this id, if it is on the board.
    pub fn get_item(&self, item_id: u64) -> (r: Option<&CanvasItem>)
        ensures
            match r {
                Some(it) => exists|i: int| 0 <= i < self.items@.len()
                    && (#[trigger] self.items@[i]).id == item_id && self.items@[i]@ == it@,
                None => forall|i: int| 0 <= i < self.items@.len()
                    ==> (#[trigger] self.items@[i]).id != item_id,
            },
    {
        let mut i: usize = 0;
        while i < self.items.len()
            invariant
                0 <= i <= self.items@.len(),
                forall|j: int| 0 <= j < i ==> (#[trigger] self.items@[j]).id != item_id,
            decreases self.items@.len() - i,
        {
            if self.items[i].id == item_id {
                return Some(&self.items[i]);
            }
            i = i + 1;
        }
        None
    }

    /// Where the item with this id sits in draw order.
    pub fn find_item_index(&self, item_id: u64) -> (r: Option<usize>)
        ensures
            match r {
                Some(i) => i < self.items@.len() && self.items@[i as int].id == item_id
                    && (forall|j: int| 0 <= j < i ==> (#[trigger] self.items@[j]).id != item_id),
                None => forall|i: int| 0 <= i < self.items@.len()
                    ==> (#[trigger] self.items@[i]).id != item_id,
            },
    {
        let mut i: usize = 0;
        while i < self.items.len()
            invariant
                0 <= i <= self.items@.len(),
                forall|j: int| 0 <= j < i ==> (#[trigger] self.items@[j]).id != item_id,
            decreases self.items@.len() - i,
        {
            if self.items[i].id == item_id {
                return Some(i);
            }
            i = i + 1;
        }
        None
    }

    /// Remove the item with this id (first occurrence in draw order),
    /// drop it from the spatial index, and commit one history entry.
    /// With no such item the board is left as it is.
    pub fn remove_item(&mut self, item_id: u64) -> (r: bool)
        requires
            old(self).wf(),
        ensures
            final(self).wf(),
            r == (exists|i: int| 0 <= i < old(self).items@.len()
                && (#[trigger] old(self).items@[i]).id == item_id),
            !r ==> *final(self) == *old(self),
            r ==> exists|i: int| 0 <= i < old(self).items@.len()
                && (#[trigger] old(self).items@[i]).id == item_id
                && items_view(final(self).items@) == items_view(old(self).items@).remove(i),
            r ==> final(self).index_map() == old(self).index_map().remove(item_id),
            r ==> final(self).hist() == committed_history(old(self).hist(), old(self).cursor(), final(self).scene()),
            r ==> final(self).cursor() == final(self).hist().len(),
            final(self).zoom == old(self).zoom,
            final(self).canvas_offset == old(self).canvas_offset,
            final(self).next_item_id == old(self).next_item_id,
    {
        match self.find_item_index(item_id) {
            Some(i) => {
                let _ = self.items.remove(i);
                let _ = self.spatial.remove(item_id);
                proof {
                    assert(items_view(self.items@) =~= items_view(old(self).items@).remove(i as int));
                }
                self.push_history();
                true
            },
            None => false,
        }
    }

    /// Remove every item whose id is listed, keeping draw order, without
    /// recording history. Every listed id also leaves the spatial index,
    /// in list order.
    pub fn remove_items(&mut self, ids: &[u64])
        requires
            old(self).wf(),
        ensures
            final(self).wf(),
            final(self).items@ == drop_ids(old(self).items@, ids@),
            final(self).index_map() == map_minus_ids(old(self).index_map(), ids@, ids@.len() as int),
            final(self).hist() == old(self).hist(),
            final(self).cursor() == old(self).cursor(),
            final(self).baseline_v() == old(self).baseline_v(),
            final(self).zoom == old(self).zoom,
            final(self).canvas_offset == old(self).canvas_offset,
            final(self).next_item_id == old(self).next_item_id,
    {
        let mut kept: Vec<CanvasItem> = Vec::new();
        loop
            invariant
                self.wf(),
                drop_ids(old(self).items@, ids@) == kept@ + drop_ids(self.items@, ids@),
                self.index_map() == old(self).index_map(),
                self.hist() == old(self).hist(),
                self.cursor() == old(self).cursor(),
                self.baseline_v() == old(self).baseline_v(),
                self.zoom == old(self).zoom,
                self.canvas_offset == old(self).canvas_offset,
                self.next_item_id == old(self).next_item_id,
                self.data_sources == old(self).data_sources,
                self.next_data_source_id == old(self).next_data_source_id,
                self.dirty == old(self).dirty,
            ensures
                self.items@.len() == 0,
            decreases self.items@.len(),
        {
            if self.items.len() == 0 {
                break;
            }
            let ghost cur = self.items@;
            let item = self.items.remove(0);
            proof {
                assert(item == cur.first());
                assert(self.items@ =~= cur.drop_first());
            }
            if contains_id(ids, item.id) {
                proof {
                    assert(drop_ids(cur, ids@) == drop_ids(cur.drop_first(), ids@));
                }
            } else {
                proof {
                    assert(drop_ids(cur, ids@) == seq![cur.first()] + drop_ids(cur.drop_first(), ids@));
                    assert(kept@.push(item) + drop_ids(self.items@, ids@)
                        =~= kept@ + (seq![item] + drop_ids(self.items@, ids@)));
                }
                kept.push(item);
            }
        }
        proof {
            assert(drop_ids(self.items@, ids@) =~= Seq::<CanvasItem>::empty());
            assert(kept@ + Seq::<CanvasItem>::empty() =~= kept@);
        }
        self.items = kept;
        let mut k: usize = 0;
        while k < ids.len()
            invariant
                0 <= k <= ids@.len(),
                self.wf(),
                self.items@ == drop_ids(old(self).items@, ids@),
                self.index_map() == map_minus_ids(old(self).index_map(), ids@, k as int),
                self.hist() == old(self).hist(),
                self.cursor() == old(self).cursor(),
                self.baseline_v() == old(self).baseline_v(),
                self.zoom == old(self).zoom,
                self.canvas_offset == old(self).canvas_offset,
                self.next_item_id == old(self).next_item_id,
                self.data_sources == old(self).data_sources,
                self.next_data_source_id == old(self).next_data_source_id,
                self.dirty == old(self).dirty,
            decreases ids@.len() - k,
        {
            let _ = self.spatial.remove(ids[k]);
            k = k + 1;
        }
    }

    /// Refresh the spatial index entry for one item from its current
    /// position and size. A vanished id, or geometry outside the accepted
    /// coordinate range, leaves the index untouched.
    pub fn update_spatial_index(&mut self, item_id: u64)
        requires
            old(self).wf(),
        ensures
            final(self).wf(),
            final(self).items == old(self).items,
            final(self).hist() == old(self).hist(),
            final(self).cursor() == old(self).cursor(),
            final(self).scene() == old(self).scene(),
            final(self).baseline_v() == old(self).baseline_v(),
            final(self).data_sources == old(self).data_sources,
            final(self).next_data_source_id == old(self).next_data_source_id,
            final(self).zoom == old(self).zoom,
            final(self).canvas_offset == old(self).canvas_offset,
            final(self).next_item_id == old(self).next_item_id,
            final(self).dirty == old(self).dirty,
            match spatial_box_of(old(self).items@, item_id) {
                Some(b) => final(self).index_map() == old(self).index_map().insert(item_id, b),
                None => final(self).index_map() == old(self).index_map(),
            },
    {
        match self.find_item_index(item_id) {
            Some(i) => {
                proof {
                    lemma_spatial_box_at(self.items@, item_id, i as int);
                }
                let item = &self.items[i];
                let (px_, py_) = item.position;
                let (sx, sy) = item.size;
                if -COORD_LIMIT <= px_ && px_ <= COORD_LIMIT && -COORD_LIMIT <= py_ && py_ <= COORD_LIMIT
                    && 0 <= sx && sx <= COORD_LIMIT && 0 <= sy && sy <= COORD_LIMIT {
                    self.spatial.update(item_id, (px_, py_), (sx, sy));
                }
            },
            None => {
                proof {
                    lemma_spatial_box_absent(self.items@, item_id);
                }
            },
        }
    }

    /// Ids of the items whose box in the spatial index contains the
    /// canvas point — exactly those, each once.
    pub fn query_items_at_point(&self, x: i64, y: i64) -> (r: Vec<u64>)
        requires
            self.wf(),
        ensures
            r@.no_duplicates(),
            forall|id: u64| #[trigger] r@.contains(id) <==> self.index_map().contains_key(id)
                && crate::spatial::box_contains(self.index_map()[id], x as int, y as int),
    {
        self.spatial.query_point(x, y)
    }

    /// Ids of the items whose box in the spatial index overlaps the
    /// canvas rectangle — exactly those, each once.
    pub fn query_items_in_rect(&self, min_x: i64, min_y: i64, max_x: i64, max_y: i64) -> (r: Vec<u64>)
        requires
            self.wf(),
            min_x <= max_x,
            min_y <= max_y,
        ensures
            r@.no_duplicates(),
            forall|id: u64| #[trigger] r@.contains(id) <==> self.index_map().contains_key(id)
                && crate::spatial::box_intersects(self.index_map()[id], min_x as int, min_y as int, max_x as int, max_y as int),
    {
        self.spatial.query_rect(min_x, min_y, max_x, max_y)
    }
}

impl Board {
    /// Set the zoom to a new level clamped into the configured range,
    /// keeping the canvas point under `center` under it on screen: the
    /// offset is recomputed so that mapping that canvas point back to the
    /// screen lands exactly where the old zoom put it.
    pub fn set_zoom_around(&mut self, new_zoom: u32, center: Point)
        requires
            old(self).wf(),
            zoom_in_range(old(self).zoom),
            point_in_range(center),
            point_in_range(old(self).canvas_offset),
        ensures
            final(self).wf(),
            final(self).zoom == clamp_zoom_spec(new_zoom as int),
            ({
                let cx = crate::geom::to_canvas_x(center.x as int, old(self).canvas_offset.x as int, old(self).zoom as int);
                let cy = crate::geom::to_canvas_y(center.y as int, old(self).canvas_offset.y as int, old(self).zoom as int);
                crate::geom::to_screen_x(cx, final(self).canvas_offset.x as int, final(self).zoom as int) == center.x
                    && crate::geom::to_screen_y(cy, final(self).canvas_offset.y as int, final(self).zoom as int) == center.y
            }),
            final(self).items == old(self).items,
            final(self).hist() == old(self).hist(),
            final(self).cursor() == old(self).cursor(),
            final(self).next_item_id == old(self).next_item_id,
            final(self).index_map() == old(self).index_map(),
    {
        let z: u32 = clamp_zoom(new_zoom);
        let ctx = crate::geom::CoordinateContext::new(self.canvas_offset, self.zoom);
        let c = crate::geom::CoordinateConverter::screen_to_canvas(center, &ctx);
        proof {
            let dx = center.x - crate::constants::DOCK_WIDTH - old(self).canvas_offset.x;
            let dy = center.y - crate::constants::HEADER_HEIGHT - old(self).canvas_offset.y;
            crate::geom::lemma_div_bound(dx * 100, old(self).zoom as int, (2 * COORD_LIMIT + 44) * 100);
            crate::geom::lemma_div_bound(dy * 100, old(self).zoom as int, (2 * COORD_LIMIT + 44) * 100);
        }
        // Solve to_screen(c, offset', z) == center for the new offset.
        let sx = crate::geom::mul_div_floor(c.x, z, 100);
        let sy = crate::geom::mul_div_floor(c.y, z, 100);
        proof {
            assert(-(2 * COORD_LIMIT + 44) * 100 * 500 <= c.x * z <= (2 * COORD_LIMIT + 44) * 100 * 500) by (nonlinear_arith)
                requires -(2 * COORD_LIMIT + 44) * 100 <= c.x <= (2 * COORD_LIMIT + 44) * 100, 0 <= z <= 500;
            assert(-(2 * COORD_LIMIT + 44) * 100 * 500 <= c.y * z <= (2 * COORD_LIMIT + 44) * 100 * 500) by (nonlinear_arith)
                requires -(2 * COORD_LIMIT + 44) * 100 <= c.y <= (2 * COORD_LIMIT + 44) * 100, 0 <= z <= 500;
            crate::geom::lemma_div_bound(c.x * z, 100, (2 * COORD_LIMIT + 44) * 100 * 500);
            crate::geom::lemma_div_bound(c.y * z, 100, (2 * COORD_LIMIT + 44) * 100 * 500);
        }
        self.canvas_offset = Point::new(
            center.x - crate::constants::DOCK_WIDTH - sx,
            center.y - crate::constants::HEADER_HEIGHT - sy,
        );
        self.zoom = z;
    }

    /// Zoom one step in, keeping the canvas point under `center` fixed.
    pub fn zoom_in(&mut self, center: Point)
        requires
            old(self).wf(),
            zoom_in_range(old(self).zoom),
            point_in_range(center),
            point_in_range(old(self).canvas_offset),
        ensures
            final(self).wf(),
            final(self).zoom == clamp_zoom_spec(old(self).zoom + ZOOM_STEP),
            final(self).items == old(self).items,
            final(self).hist() == old(self).hist(),
            final(self).cursor() == old(self).cursor(),
    {
        let target: u32 = if self.zoom <= MAX_ZOOM - ZOOM_STEP { self.zoom + ZOOM_STEP } else { MAX_ZOOM };
        self.set_zoom_around(target, center);
    }

    /// Zoom one step out, keeping the canvas point under `center` fixed.
    pub fn zoom_out(&mut self, center: Point)
        requires
            old(self).wf(),
            zoom_in_range(old(self).zoom),
            point_in_range(center),
            point_in_range(old(self).canvas_offset),
        ensures
            final(self).wf(),
            final(self).zoom == clamp_zoom_spec(old(self).zoom - ZOOM_STEP),
            final(self).items == old(self).items,
            final(self).hist() == old(self).hist(),
            final(self).cursor() == old(self).cursor(),
    {
        let target: u32 = if self.zoom >= MIN_ZOOM + ZOOM_STEP { self.zoom - ZOOM_STEP } else { MIN_ZOOM };
        proof {
            assert(target == clamp_zoom_spec(old(self).zoom - ZOOM_STEP));
        }
        self.set_zoom_around(target, center);
    }

    /// Reset the zoom to its default level.
    pub fn zoom_reset(&mut self)
        requires
            old(self).wf(),
        ensures
            final(self).wf(),
            final(self).zoom == DEFAULT_ZOOM,
            final(self).items == old(self).items,
            final(self).canvas_offset == old(self).canvas_offset,
            final(self).hist() == old(self).hist(),
            final(self).cursor() == old(self).cursor(),
    {
        self.zoom = DEFAULT_ZOOM;
    }

    /// Pan the view by a screen-space delta.
    pub fn pan_by(&mut self, delta: Point)
        requires
            old(self).wf(),
            point_in_range(delta),
            point_in_range(old(self).canvas_offset),
        ensures
            final(self).wf(),
            final(self).canvas_offset.x == old(self).canvas_offset.x + delta.x,
            final(self).canvas_offset.y == old(self).canvas_offset.y + delta.y,
            final(self).items == old(self).items,
            final(self).zoom == old(self).zoom,
            final(self).hist() == old(self).hist(),
            final(self).cursor() == old(self).cursor(),
            final(self).index_map() == old(self).index_map(),
    {
        self.canvas_offset = Point::new(self.canvas_offset.x + delta.x, self.canvas_offset.y + delta.y);
        self.dirty = true;
    }

    /// Ids of the searchable items whose display name holds the query,
    /// compared without regard to ASCII case, in draw order.
    pub fn find_items(&self, query: &str) -> (r: Vec<u64>)
        ensures
            r@ == search_ids(self.items@, ascii_lower(query@)),
    {
        let qchars = chars_vec(query);
        let q = to_lower_vec(&qchars);
        let mut r: Vec<u64> = Vec::new();
        let mut i: usize = 0;
        while i < self.items.len()
            invariant
                0 <= i <= self.items@.len(),
                q@ == ascii_lower(query@),
                r@ == search_ids(self.items@.take(i as int), q@),
            decreases self.items@.len() - i,
        {
            proof {
                assert(self.items@.take(i + 1).drop_last() =~= self.items@.take(i as int));
                assert(self.items@.take(i + 1).last() == self.items@[i as int]);
            }
            let item = &self.items[i];
            if item.content.is_searchable() {
                let name = item.content.display_name();
                let nchars = chars_vec(name.as_str());
                let lname = to_lower_vec(&nchars);
                match find_seq(&lname, &q) {
                    Some(_) => {
                        r.push(item.id);
                    },
                    None => {},
                }
            }
            i = i + 1;
        }
        proof {
            assert(self.items@.take(self.items@.len() as int) =~= self.items@);
        }
        r
    }

    /// Register a data source under a fresh id and return that id.
    pub fn add_data_source(&mut self, ds: DataSource) -> (r: u64)
        requires
            old(self).next_data_source_id < u64::MAX,
        ensures
            r == old(self).next_data_source_id,
            final(self).next_data_source_id == old(self).next_data_source_id + 1,
            final(self).data_sources@.len() == old(self).data_sources@.len() + 1,
            final(self).data_sources@.last().0 == r,
            final(self).data_sources@.drop_last() == old(self).data_sources@,
            final(self).items == old(self).items,
            final(self).hist() == old(self).hist(),
            final(self).cursor() == old(self).cursor(),
            final(self).wf() == old(self).wf(),
            final(self).scene() == old(self).scene(),
            final(self).index_map() == old(self).index_map(),
            final(self).zoom == old(self).zoom,
            final(self).canvas_offset == old(self).canvas_offset,
            final(self).baseline_v() == old(self).baseline_v(),
    {
        let id = self.next_data_source_id;
        let mut entry = ds;
        entry.id = id;
        self.data_sources.push((id, entry));
        self.next_data_source_id = id + 1;
        proof {
            assert(final(self).data_sources@.drop_last() =~= old(self).data_sources@);
        }
        id
    }

    /// The data source with this id, if one is registered.
    pub fn get_data_source(&self, id: u64) -> (r: Option<&DataSource>)
        ensures
            match r {
                Some(ds) => exists|i: int| 0 <= i < self.data_sources@.len()
                    && (#[trigger] self.data_sources@[i]).0 == id
                    && *ds == self.data_sources@[i].1,
                None => forall|i: int| 0 <= i < self.data_sources@.len()
                    ==> (#[trigger] self.data_sources@[i]).0 != id,
            },
    {
        let mut i: usize = 0;
        while i < self.data_sources.len()
            invariant
                0 <= i <= self.data_sources@.len(),
                forall|j: int| 0 <= j < i ==> (#[trigger] self.data_sources@[j]).0 != id,
            decreases self.data_sources@.len() - i,
        {
            if self.data_sources[i].0 == id {
                return Some(&self.data_sources[i].1);
            }
            i = i + 1;
        }
        None
    }
}

/// What the zoom clamp produces for a requested level.
pub open spec fn clamp_zoom_spec(z: int) -> int {
    if z < MIN_ZOOM {
        MIN_ZOOM as int
    } else if z > MAX_ZOOM {
        MAX_ZOOM as int
    } else {
        z
    }
}

/// Clamp a zoom level into the configured range.
pub fn clamp_zoom(z: u32) -> (r: u32)
    ensures
        r == clamp_zoom_spec(z as int),
        zoom_in_range(r),
{
    if z < MIN_ZOOM {
        MIN_ZOOM
    } else if z > MAX_ZOOM {
        MAX_ZOOM
    } else {
        z
    }
}

/// Ids of the searchable items whose lowercased display name holds the
/// (lowercased) query, in draw order.
pub open spec fn search_ids(items: Seq<CanvasItem>, q: Seq<char>) -> Seq<u64>
    decreases items.len(),
{
    if items.len() == 0 {
        Seq::empty()
    } else {
        let rest = search_ids(items.drop_last(), q);
        let it = items.last();
        if item_matches(it, q) {
            rest.push(it.id)
        } else {
            rest
        }
    }
}

/// A searchable item whose lowercased display name holds `q`.
pub open spec fn item_matches(it: CanvasItem, q: Seq<char>) -> bool {
    &&& !(it.content is TextBox || it.content is Arrow || it.content is Shape || it.content is Chart)
    &&& contains_seq(ascii_lower(display_name_spec(it.content)), q)
}

/// A map after removing the first `k` listed ids, one by one.
pub open spec fn map_minus_ids(m: Map<u64, (int, int, int, int)>, ids: Seq<u64>, k: int) -> Map<u64, (int, int, int, int)>
    decreases k,
{
    if k <= 0 {
        m
    } else {
        map_minus_ids(m, ids, k - 1).remove(ids[k - 1])
    }
}

/// The items that survive a bulk removal: those whose id is not listed,
/// in their original order.
pub open spec fn drop_ids(items: Seq<CanvasItem>, ids: Seq<u64>) -> Seq<CanvasItem>
    decreases items.len(),
{
    if items.len() == 0 {
        Seq::empty()
    } else if ids.contains(items.first().id) {
        drop_ids(items.drop_first(), ids)
    } else {
        seq![items.first()] + drop_ids(items.drop_first(), ids)
    }
}

/// The spatial box an item's current geometry produces, when the item
/// exists (first occurrence in draw order) and its geometry is in range.
pub open spec fn spatial_box_of(items: Seq<CanvasItem>, item_id: u64) -> Option<(int, int, int, int)>
    decreases items.len(),
{
    if items.len() == 0 {
        None
    } else if items.first().id == item_id {
        let it = items.first();
        if -COORD_LIMIT <= it.position.0 <= COORD_LIMIT && -COORD_LIMIT <= it.position.1 <= COORD_LIMIT
            && 0 <= it.size.0 <= COORD_LIMIT && 0 <= it.size.1 <= COORD_LIMIT {
            Some((it.position.0 as int, it.position.1 as int,
                it.position.0 + it.size.0 as int, it.position.1 + it.size.1 as int))
        } else {
            None
        }
    } else {
        spatial_box_of(items.drop_first(), item_id)
    }
}

/// Where the first occurrence of an id decides the box: at index `i` with
/// no earlier occurrence, `spatial_box_of` reads exactly that item.
pub proof fn lemma_spatial_box_at(items: Seq<CanvasItem>, item_id: u64, i: int)
    requires
        0 <= i < items.len(),
        items[i].id == item_id,
        forall|j: int| 0 <= j < i ==> (#[trigger] items[j]).id != item_id,
    ensures
        spatial_box_of(items, item_id) == ({
            let it = items[i];
            if -COORD_LIMIT <= it.position.0 <= COORD_LIMIT && -COORD_LIMIT <= it.position.1 <= COORD_LIMIT
                && 0 <= it.size.0 <= COORD_LIMIT && 0 <= it.size.1 <= COORD_LIMIT {
                Some((it.position.0 as int, it.position.1 as int,
                    it.position.0 + it.size.0 as int, it.position.1 + it.size.1 as int))
            } else {
                None
            }
        }),
    decreases i,
{
    if i > 0 {
        let tail = items.drop_first();
        assert(tail[i - 1] == items[i]);
        assert forall|j: int| 0 <= j < i - 1 implies (#[trigger] tail[j]).id != item_id by {
            assert(tail[j] == items[j + 1]);
        }
        lemma_spatial_box_at(tail, item_id, i - 1);
    }
}

/// An id that no item carries has no box.
pub proof fn lemma_spatial_box_absent(items: Seq<CanvasItem>, item_id: u64)
    requires
        forall|i: int| 0 <= i < items.len() ==> (#[trigger] items[i]).id != item_id,
    ensures
        (spatial_box_of(items, item_id) is None),
    decreases items.len(),
{
    if items.len() > 0 {
        let tail = items.drop_first();
        assert forall|j: int| 0 <= j < tail.len() implies (#[trigger] tail[j]).id != item_id by {
            assert(tail[j] == items[j + 1]);
        }
        lemma_spatial_box_absent(tail, item_id);
    }
}

/// The index map after refreshing the entries of the first `k` listed
/// ids, one by one, from the items' current geometry: each id that names
/// an existing, in-range item gets its box written; the rest leave the
/// map alone. This is what a chain of `update_spatial_index` calls does.
pub open spec fn reindexed_map(items: Seq<CanvasItem>, m: Map<u64, (int, int, int, int)>, ids: Seq<u64>, k: int) -> Map<u64, (int, int, int, int)>
    decreases k,
{
    if k <= 0 {
        m
    } else {
        let m2 = reindexed_map(items, m, ids, k - 1);
        match spatial_box_of(items, ids[k - 1]) {
            Some(b) => m2.insert(ids[k - 1], b),
            None => m2,
        }
    }
}

/// Refreshing the listed ids leaves every moved item's index entry equal
/// to its current box: each listed id that names an existing, in-range
/// item is present in the result with exactly that box, and unlisted ids
/// keep their old entries.
#[verifier::rlimit(60)]
pub proof fn lemma_reindexed_covers(items: Seq<CanvasItem>, m: Map<u64, (int, int, int, int)>, ids: Seq<u64>, k: int)
    requires
        0 <= k <= ids.len(),
    ensures
        forall|j: int| 0 <= j < k && spatial_box_of(items, #[trigger] ids[j]) is Some
            ==> reindexed_map(items, m, ids, k).contains_key(ids[j])
                && reindexed_map(items, m, ids, k)[ids[j]] == spatial_box_of(items, ids[j]).unwrap(),
        forall|id: u64| !(#[trigger] ids.take(k).contains(id))
            ==> reindexed_map(items, m, ids, k).contains_key(id) == m.contains_key(id)
                && (m.contains_key(id) ==> reindexed_map(items, m, ids, k)[id] == m[id]),
    decreases k,
{
    if k > 0 {
        lemma_reindexed_covers(items, m, ids, k - 1);
        let prev = reindexed_map(items, m, ids, k - 1);
        let cur = reindexed_map(items, m, ids, k);
        let idk = ids[k - 1];
        let boxk = spatial_box_of(items, idk);
        assert(cur == (match boxk {
            Some(b) => prev.insert(idk, b),
            None => prev,
        }));
        assert forall|id: u64| !(#[trigger] ids.take(k).contains(id))
            implies cur.contains_key(id) == m.contains_key(id)
                && (m.contains_key(id) ==> cur[id] == m[id]) by {
            assert(!ids.take(k - 1).contains(id)) by {
                if ids.take(k - 1).contains(id) {
                    let w = choose|w: int| 0 <= w < k - 1 && #[trigger] ids.take(k - 1)[w] == id;
                    assert(ids.take(k)[w] == id);
                }
            }
            assert(ids.take(k)[k - 1] == idk);
            assert(id != idk);
            assert(prev.contains_key(id) == m.contains_key(id));
            assert(m.contains_key(id) ==> prev[id] == m[id]);
            assert(cur.contains_key(id) == prev.contains_key(id));
            assert(prev.contains_key(id) ==> cur[id] == prev[id]);
        }
        assert forall|j: int| 0 <= j < k && spatial_box_of(items, #[trigger] ids[j]) is Some
            implies cur.contains_key(ids[j])
                && cur[ids[j]] == spatial_box_of(items, ids[j]).unwrap() by {
            if ids[j] == idk {
                assert(boxk is Some);
                assert(cur == prev.insert(idk, boxk.unwrap()));
            } else {
                assert(j < k - 1);
                assert(prev.contains_key(ids[j])
                    && prev[ids[j]] == spatial_box_of(items, ids[j]).unwrap());
                assert(cur.contains_key(ids[j]) && cur[ids[j]] == prev[ids[j]]);
            }
        }
    }
}

/// The listed prefix decides the refresh: appending ids past `k` changes
/// nothing.
pub proof fn lemma_reindexed_prefix(items: Seq<CanvasItem>, m: Map<u64, (int, int, int, int)>, ids: Seq<u64>, x: u64, k: int)
    requires
        0 <= k <= ids.len(),
    ensures
        reindexed_map(items, m, ids.push(x), k) == reindexed_map(items, m, ids, k),
    decreases k,
{
    if k > 0 {
        lemma_reindexed_prefix(items, m, ids, x, k - 1);
        assert(ids.push(x)[k - 1] == ids[k - 1]);
    }
}

/// Whether a slice of ids holds `id`.
fn contains_id(ids: &[u64], id: u64) -> (r: bool)
    ensures
        r == ids@.contains(id),
{
    let mut i: usize = 0;
    while i < ids.len()
        invariant
            0 <= i <= ids@.len(),
            forall|j: int| 0 <= j < i ==> ids@[j] != id,
        decreases ids@.len() - i,
    {
        if ids[i] == id {
            return true;
        }
        i = i + 1;
    }
    false
}

/// Clone the items of a snapshot for restoring.
fn clone_snapshot_items(s: &Snapshot) -> (r: Vec<CanvasItem>)
    ensures
        items_view(r@) == s@.items,
{
    let r = s.items.clone();
    proof {
        assert forall|i: int| 0 <= i < r@.len()
            implies #[trigger] r@[i]@ == s.items@[i]@ by {
            assert(vstd::pervasive::cloned::<CanvasItem>(s.items@[i], r@[i]));
        }
        assert(items_view(r@) =~= items_view(s.items@));
    }
    r
}

} // verus!
