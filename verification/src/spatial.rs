//! Spatial index for hit testing: item bounding boxes keyed by item id.
//!
//! The index pairs an R-tree, queried in logarithmic time, with a flat list
//! of the same entries that carries the verified model: a map from item id
//! to bounding box. Inserting an id that is already present replaces its
//! entry, so a drag that reindexes an item every frame can never grow the
//! index.

use vstd::prelude::*;
use rstar::RTree;
use rstar::AABB;
use rstar::primitives::GeomWithData;
use rstar::primitives::Rectangle;
use crate::constants::COORD_LIMIT;

verus! {

/// A bounding box entry of the index.
#[derive(Clone, Copy, Debug)]
pub struct SpatialEntry {
    pub item_id: u64,
    pub min_x: i64,
    pub min_y: i64,
    pub max_x: i64,
    pub max_y: i64,
}

/// The model of one entry: its corners as mathematical integers.
pub open spec fn entry_box(e: SpatialEntry) -> (int, int, int, int) {
    (e.min_x as int, e.min_y as int, e.max_x as int, e.max_y as int)
}

/// A box `(min_x, min_y, max_x, max_y)` contains a point, borders included.
pub open spec fn box_contains(b: (int, int, int, int), x: int, y: int) -> bool {
    b.0 <= x <= b.2 && b.1 <= y <= b.3
}

/// Two boxes overlap, borders included.
pub open spec fn box_intersects(b: (int, int, int, int), min_x: int, min_y: int, max_x: int, max_y: int) -> bool {
    b.0 <= max_x && min_x <= b.2 && b.1 <= max_y && min_y <= b.3
}

impl SpatialEntry {
    /// Entry for an item at `position` with `size` (both corners included).
    pub fn new(item_id: u64, position: (i64, i64), size: (i64, i64)) -> (r: SpatialEntry)
        requires
            crate::geom::coord_in_range(position.0),
            crate::geom::coord_in_range(position.1),
            0 <= size.0 <= COORD_LIMIT,
            0 <= size.1 <= COORD_LIMIT,
        ensures
            r.item_id == item_id,
            r.min_x == position.0,
            r.min_y == position.1,
            r.max_x == position.0 + size.0,
            r.max_y == position.1 + size.1,
    {
        SpatialEntry {
            item_id,
            min_x: position.0,
            min_y: position.1,
            max_x: position.0 + size.0,
            max_y: position.1 + size.1,
        }
    }

    /// Whether this entry's box contains the point, borders included.
    pub fn contains_point(&self, x: i64, y: i64) -> (r: bool)
        ensures
            r == box_contains(entry_box(*self), x as int, y as int),
    {
        x >= self.min_x && x <= self.max_x && y >= self.min_y && y <= self.max_y
    }
}

/// The R-tree element pairing a rectangle with an item id.
type TreeElem = GeomWithData<Rectangle<[i64; 2]>, u64>;

/// The R-tree behind the index, hidden from verification; its contents are
/// spoken of only through `store_entries`.
#[verifier::external_body]
pub struct RTreeStore {
    tree: RTree<TreeElem>,
}

/// What the R-tree holds: a map from item id to bounding box corners.
pub uninterp spec fn store_entries(t: RTreeStore) -> Map<u64, (int, int, int, int)>;

/// `r` lists exactly the ids of `m` whose box contains `(x, y)`.
pub open spec fn point_query_result(m: Map<u64, (int, int, int, int)>, x: int, y: int, r: Seq<u64>) -> bool {
    forall|id: u64| #[trigger] r.contains(id) <==> m.contains_key(id) && box_contains(m[id], x, y)
}

/// `r` lists exactly the ids of `m` whose box overlaps the given box.
pub open spec fn rect_query_result(m: Map<u64, (int, int, int, int)>, min_x: int, min_y: int, max_x: int, max_y: int, r: Seq<u64>) -> bool {
    forall|id: u64| #[trigger] r.contains(id) <==> m.contains_key(id) && box_intersects(m[id], min_x, min_y, max_x, max_y)
}

impl RTreeStore {
    /// Relies on `rstar::RTree::new`: a freshly built tree holds nothing.
    #[verifier::external_body]
    fn new() -> (r: RTreeStore)
        ensures
            (store_entries(r) == Map::<u64, (int, int, int, int)>::empty()),
    {
        RTreeStore { tree: RTree::new() }
    }

    /// Relies on `rstar::RTree::insert`: the element is added to the tree.
    /// The id must be fresh, so that the map model (one box per id) holds,
    /// and the box must be well-formed and in range: rstar's
    /// `Rectangle::from_corners` sorts the corners componentwise, so a
    /// degenerate box would be stored normalized, and its node arithmetic
    /// multiplies coordinate spans, which extreme values would overflow.
    #[verifier::external_body]
    fn insert(&mut self, e: SpatialEntry)
        requires
            !store_entries(*old(self)).contains_key(e.item_id),
            -COORD_LIMIT <= e.min_x <= e.max_x <= 2 * COORD_LIMIT,
            -COORD_LIMIT <= e.min_y <= e.max_y <= 2 * COORD_LIMIT,
        ensures
            store_entries(*final(self)) == store_entries(*old(self)).insert(e.item_id, entry_box(e)),
    {
        let rect = Rectangle::from_corners([e.min_x, e.min_y], [e.max_x, e.max_y]);
        self.tree.insert(GeomWithData::new(rect, e.item_id));
    }

    /// Relies on `rstar::RTree::remove`: one element equal to the probe is
    /// removed. The entry must be present exactly as stored (so its box is
    /// well-formed and in range, like everything `insert` admits), and
    /// removal then drops precisely that id from the map.
    #[verifier::external_body]
    fn remove(&mut self, e: SpatialEntry)
        requires
            store_entries(*old(self)).contains_key(e.item_id),
            store_entries(*old(self))[e.item_id] == entry_box(e),
            -COORD_LIMIT <= e.min_x <= e.max_x <= 2 * COORD_LIMIT,
            -COORD_LIMIT <= e.min_y <= e.max_y <= 2 * COORD_LIMIT,
        ensures
            store_entries(*final(self)) == store_entries(*old(self)).remove(e.item_id),
    {
        let rect = Rectangle::from_corners([e.min_x, e.min_y], [e.max_x, e.max_y]);
        let _ = self.tree.remove(&GeomWithData::new(rect, e.item_id));
    }

    /// Relies on `rstar::RTree::locate_in_envelope_intersecting` with a
    /// point envelope: it yields exactly the elements whose box contains
    /// the point, borders included; each stored id appears once.
    #[verifier::external_body]
    fn query_point(&self, x: i64, y: i64) -> (r: Vec<u64>)
        ensures
            r@.no_duplicates(),
            point_query_result(store_entries(*self), x as int, y as int, r@),
    {
        self.tree
            .locate_in_envelope_intersecting(AABB::from_point([x, y]))
            .map(|e| e.data)
            .collect()
    }

    /// Relies on `rstar::RTree::locate_in_envelope_intersecting`: it yields
    /// exactly the elements whose box overlaps the given box, borders
    /// included; each stored id appears once.
    #[verifier::external_body]
    fn query_rect(&self, min_x: i64, min_y: i64, max_x: i64, max_y: i64) -> (r: Vec<u64>)
        requires
            min_x <= max_x,
            min_y <= max_y,
        ensures
            r@.no_duplicates(),
            rect_query_result(store_entries(*self), min_x as int, min_y as int, max_x as int, max_y as int, r@),
    {
        self.tree
            .locate_in_envelope_intersecting(AABB::from_corners([min_x, min_y], [max_x, max_y]))
            .map(|e| e.data)
            .collect()
    }

    /// Relies on `rstar::RTree::new` to drop every element at once.
    #[verifier::external_body]
    fn clear(&mut self)
        ensures
            (store_entries(*final(self)) == Map::<u64, (int, int, int, int)>::empty()),
    {
        self.tree = RTree::new();
    }
}

/// Spatial index over item bounding boxes, with point and rectangle
/// queries. Its model is a finite map from item id to box corners.
pub struct SpatialIndex {
    store: RTreeStore,
    entries: Vec<SpatialEntry>,
}

impl SpatialIndex {
    /// The model: item id to bounding box.
    pub closed spec fn view_map(&self) -> Map<u64, (int, int, int, int)> {
        store_entries(self.store)
    }

    /// The index is consistent: the flat entry list carries distinct ids,
    /// matches the tree's contents exactly, and every box is well-formed
    /// and in coordinate range.
    pub closed spec fn wf(&self) -> bool {
        &&& self.view_map().dom().finite()
        &&& self.entries@.len() == self.view_map().dom().len()
        &&& forall|i: int, j: int| 0 <= i < j < self.entries@.len()
            ==> (#[trigger] self.entries@[i]).item_id != (#[trigger] self.entries@[j]).item_id
        &&& forall|i: int| 0 <= i < self.entries@.len()
            ==> self.view_map().contains_key((#[trigger] self.entries@[i]).item_id)
                && self.view_map()[self.entries@[i].item_id] == entry_box(self.entries@[i])
        &&& forall|id: u64| self.view_map().contains_key(id)
            ==> exists|i: int| 0 <= i < self.entries@.len() && (#[trigger] self.entries@[i]).item_id == id
        &&& forall|i: int| 0 <= i < self.entries@.len() ==> {
            let e = #[trigger] self.entries@[i];
            -COORD_LIMIT <= e.min_x <= e.max_x <= 2 * COORD_LIMIT
                && -COORD_LIMIT <= e.min_y <= e.max_y <= 2 * COORD_LIMIT
        }
    }

    /// A fresh, empty index.
    pub fn new() -> (r: SpatialIndex)
        ensures
            r.wf(),
            r.view_map().dom().finite(),
            (r.view_map() == Map::<u64, (int, int, int, int)>::empty()),
    {
        SpatialIndex { store: RTreeStore::new(), entries: Vec::new() }
    }

    /// Where `id` sits in the entry list.
    fn find_entry(&self, item_id: u64) -> (r: Option<usize>)
        requires
            self.wf(),
        ensures
            match r {
                Some(i) => i < self.entries@.len() && self.entries@[i as int].item_id == item_id,
                None => !self.view_map().contains_key(item_id),
            },
    {
        let mut i: usize = 0;
        while i < self.entries.len()
            invariant
                self.wf(),
                0 <= i <= self.entries@.len(),
                forall|j: int| 0 <= j < i ==> (#[trigger] self.entries@[j]).item_id != item_id,
            decreases self.entries@.len() - i,
        {
            if self.entries[i].item_id == item_id {
                return Some(i);
            }
            i = i + 1;
        }
        proof {
            if self.view_map().contains_key(item_id) {
                let w = choose|k: int| 0 <= k < self.entries@.len()
                    && (#[trigger] self.entries@[k]).item_id == item_id;
            }
        }
        None
    }

    /// Insert an item's box, replacing any entry the id already has.
    pub fn insert(&mut self, item_id: u64, position: (i64, i64), size: (i64, i64))
        requires
            old(self).wf(),
            crate::geom::coord_in_range(position.0),
            crate::geom::coord_in_range(position.1),
            0 <= size.0 <= COORD_LIMIT,
            0 <= size.1 <= COORD_LIMIT,
        ensures
            final(self).wf(),
            final(self).view_map().dom().finite(),
            final(self).view_map() == old(self).view_map().insert(
                item_id,
                (position.0 as int, position.1 as int,
                 position.0 + size.0 as int, position.1 + size.1 as int),
            ),
    {
        self.remove(item_id);
        let e = SpatialEntry::new(item_id, position, size);
        let ghost mid = self.entries@;
        let ghost midmap = self.view_map();
        proof {
            vstd::set::axiom_set_insert_len(midmap.dom(), item_id);
            assert(midmap.insert(item_id, entry_box(e)).dom() =~= midmap.dom().insert(item_id));
        }
        self.store.insert(e);
        self.entries.push(e);
        proof {
            let new_entries = self.entries@;
            let n = new_entries.len() - 1;
            assert(new_entries[n] == e);
            assert(new_entries.drop_last() =~= mid);
            assert forall|id: u64| final(self).view_map().contains_key(id)
                implies exists|i: int| 0 <= i < new_entries.len() && (#[trigger] new_entries[i]).item_id == id by {
                if id == item_id {
                    assert(new_entries[n].item_id == id);
                } else {
                    assert(midmap.contains_key(id));
                    let w = choose|i: int| 0 <= i < mid.len() && (#[trigger] mid[i]).item_id == id;
                    assert(new_entries[w].item_id == id);
                }
            }
            assert(old(self).view_map().insert(item_id, entry_box(e))
                =~= midmap.insert(item_id, entry_box(e)));
        }
    }

    /// Remove an item's entry; reports whether one was there.
    pub fn remove(&mut self, item_id: u64) -> (r: bool)
        requires
            old(self).wf(),
        ensures
            final(self).wf(),
            final(self).view_map().dom().finite(),
            final(self).view_map() == old(self).view_map().remove(item_id),
            r == old(self).view_map().contains_key(item_id),
    {
        match self.find_entry(item_id) {
            Some(i) => {
                let e = self.entries[i];
                proof {
                    vstd::set::axiom_set_remove_len(self.view_map().dom(), item_id);
                    assert(self.view_map().remove(item_id).dom() =~= self.view_map().dom().remove(item_id));
                }
                self.store.remove(e);
                let _ = self.entries.swap_remove(i);
                proof {
                    let new_entries = self.entries@;
                    let old_entries = old(self).entries@;
                    assert forall|id: u64| final(self).view_map().contains_key(id)
                        implies exists|k: int| 0 <= k < new_entries.len() && (#[trigger] new_entries[k]).item_id == id by {
                        let w = choose|k: int| 0 <= k < old_entries.len()
                            && (#[trigger] old_entries[k]).item_id == id;
                        if w == new_entries.len() {
                            assert(new_entries[i as int].item_id == id);
                        } else if w != i {
                            assert(new_entries[w].item_id == id);
                        }
                    }
                }
                true
            },
            None => {
                proof {
                    assert(old(self).view_map().remove(item_id) =~= old(self).view_map());
                }
                false
            },
        }
    }

    /// Insert or replace an item's box: the same operation as `insert`,
    /// under the name callers use while a drag is in flight.
    pub fn update(&mut self, item_id: u64, position: (i64, i64), size: (i64, i64))
        requires
            old(self).wf(),
            crate::geom::coord_in_range(position.0),
            crate::geom::coord_in_range(position.1),
            0 <= size.0 <= COORD_LIMIT,
            0 <= size.1 <= COORD_LIMIT,
        ensures
            final(self).wf(),
            final(self).view_map().dom().finite(),
            final(self).view_map() == old(self).view_map().insert(
                item_id,
                (position.0 as int, position.1 as int,
                 position.0 + size.0 as int, position.1 + size.1 as int),
            ),
    {
        self.insert(item_id, position, size);
    }

    /// All ids whose box contains the point, borders included — exactly
    /// those, each once, in no particular order.
    pub fn query_point(&self, x: i64, y: i64) -> (r: Vec<u64>)
        requires
            self.wf(),
        ensures
            r@.no_duplicates(),
            forall|id: u64| #[trigger] r@.contains(id) <==> self.view_map().contains_key(id)
                && box_contains(self.view_map()[id], x as int, y as int),
    {
        self.store.query_point(x, y)
    }

    /// All ids whose box overlaps the rectangle, borders included —
    /// exactly those, each once, in no particular order.
    pub fn query_rect(&self, min_x: i64, min_y: i64, max_x: i64, max_y: i64) -> (r: Vec<u64>)
        requires
            self.wf(),
            min_x <= max_x,
            min_y <= max_y,
        ensures
            r@.no_duplicates(),
            forall|id: u64| #[trigger] r@.contains(id) <==> self.view_map().contains_key(id)
                && box_intersects(self.view_map()[id], min_x as int, min_y as int, max_x as int, max_y as int),
    {
        self.store.query_rect(min_x, min_y, max_x, max_y)
    }

    /// How many items are indexed.
    pub fn len(&self) -> (r: usize)
        requires
            self.wf(),
        ensures
            r == self.view_map().dom().len(),
            (r == 0 ==> self.view_map() == Map::<u64, (int, int, int, int)>::empty()),
    {
        proof {
            if self.entries@.len() == 0 {
                assert forall|id: u64| !(#[trigger] self.view_map().contains_key(id)) by {
                    if self.view_map().contains_key(id) {
                        let w = choose|i: int| 0 <= i < self.entries@.len()
                            && (#[trigger] self.entries@[i]).item_id == id;
                    }
                }
                assert(self.view_map() =~= Map::<u64, (int, int, int, int)>::empty());
            }
        }
        self.entries.len()
    }

    /// Whether the index holds nothing.
    pub fn is_empty(&self) -> (r: bool)
        requires
            self.wf(),
        ensures
            r == (self.view_map().dom().len() == 0),
            (r ==> self.view_map() == Map::<u64, (int, int, int, int)>::empty()),
    {
        self.len() == 0
    }

    /// A consistent index holds finitely many entries; callers may use
    /// this to reason about `len` across a chain of inserts and removes.
    pub proof fn lemma_index_finite(&self)
        requires
            self.wf(),
        ensures
            self.view_map().dom().finite(),
    {
    }

    /// Drop every entry.
    pub fn clear(&mut self)
        ensures
            final(self).wf(),
            final(self).view_map().dom().finite(),
            (final(self).view_map() == Map::<u64, (int, int, int, int)>::empty()),
    {
        self.store.clear();
        self.entries = Vec::new();
    }

    /// Build an index over a batch of items, later entries replacing
    /// earlier ones with the same id.
    pub fn from_items(items: &Vec<(u64, (i64, i64), (i64, i64))>) -> (r: SpatialIndex)
        requires
            forall|i: int| 0 <= i < items@.len() ==> {
                let it = #[trigger] items@[i];
                crate::geom::coord_in_range(it.1.0) && crate::geom::coord_in_range(it.1.1)
                    && 0 <= it.2.0 <= COORD_LIMIT && 0 <= it.2.1 <= COORD_LIMIT
            },
        ensures
            r.wf(),
            r.view_map().dom().finite(),
            r.view_map() == batch_boxes(items@),
    {
        let mut r = SpatialIndex::new();
        r.rebuild(items);
        r
    }

    /// Replace the whole index with a batch of items.
    pub fn rebuild(&mut self, items: &Vec<(u64, (i64, i64), (i64, i64))>)
        requires
            forall|i: int| 0 <= i < items@.len() ==> {
                let it = #[trigger] items@[i];
                crate::geom::coord_in_range(it.1.0) && crate::geom::coord_in_range(it.1.1)
                    && 0 <= it.2.0 <= COORD_LIMIT && 0 <= it.2.1 <= COORD_LIMIT
            },
        ensures
            final(self).wf(),
            final(self).view_map().dom().finite(),
            final(self).view_map() == batch_boxes(items@),
    {
        self.clear();
        let mut i: usize = 0;
        while i < items.len()
            invariant
                0 <= i <= items@.len(),
                self.wf(),
                self.view_map() == batch_boxes(items@.take(i as int)),
                forall|k: int| 0 <= k < items@.len() ==> {
                    let it = #[trigger] items@[k];
                    crate::geom::coord_in_range(it.1.0) && crate::geom::coord_in_range(it.1.1)
                        && 0 <= it.2.0 <= COORD_LIMIT && 0 <= it.2.1 <= COORD_LIMIT
                },
            decreases items@.len() - i,
        {
            let (id, pos, size) = items[i];
            proof {
                assert(items@.take(i + 1).drop_last() =~= items@.take(i as int));
            }
            self.insert(id, pos, size);
            i = i + 1;
        }
        proof {
            assert(items@.take(items@.len() as int) =~= items@);
        }
    }
}

/// The map a batch of `(id, position, size)` triples builds, in order.
pub open spec fn batch_boxes(items: Seq<(u64, (i64, i64), (i64, i64))>) -> Map<u64, (int, int, int, int)>
    decreases items.len(),
{
    if items.len() == 0 {
        Map::empty()
    } else {
        let it = items.last();
        batch_boxes(items.drop_last()).insert(
            it.0,
            (it.1.0 as int, it.1.1 as int, it.1.0 + it.2.0 as int, it.1.1 + it.2.1 as int),
        )
    }
}

} // verus!
