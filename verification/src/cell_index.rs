//! Spatial index from a pointer position to the cell occupying it.
//!
//! The rendering collaborator owns cell geometry; whenever a cell's geometry
//! changes it hands the new bounding box in, and the index upserts it (the
//! latest call wins). Positions are board-local integer coordinates, so the
//! collaborator converts its own units before calling in. Lookup is a linear
//! scan: the cell count is fixed and small, so no spatial partitioning is
//! needed. Boxes are assumed non-overlapping (cells tile the board exactly);
//! when they do overlap, the first entry found wins.

use vstd::prelude::*;
use crate::assoc::{
    lemma_assoc_push, lemma_assoc_update, lemma_unique_push, lemma_unique_update, spec_assoc,
    spec_upsert_all, unique_keys,
};

verus! {

/// A position in board-local integer coordinates.
#[derive(Clone, Copy, PartialEq, Eq, Structural, Debug)]
pub struct Point {
    pub x: i64,
    pub y: i64,
}

/// The axis-aligned rectangle that contains our cells
#[derive(Clone, Copy, PartialEq, Eq, Structural, Debug)]
pub struct BoundingBox {
    pub bottom_left: Point,
    pub top_right: Point,
}

impl BoundingBox {
    /// The position is inside the box on both axes, bounds inclusive.
    pub open spec fn spec_contains(self, p: Point) -> bool {
        &&& self.bottom_left.x <= p.x <= self.top_right.x
        &&& self.bottom_left.y <= p.y <= self.top_right.y
    }

    /// Checks if the position is in the bounding box on both x and y.
    pub fn contains(&self, position: Point) -> (b: bool)
        ensures
            b == self.spec_contains(position),
    {
        self.bottom_left.x <= position.x && position.x <= self.top_right.x
            && self.bottom_left.y <= position.y && position.y <= self.top_right.y
    }
}

/// The box stored for `id`: the first entry carrying that cell, if any.
pub open spec fn spec_box_of(s: Seq<(usize, BoundingBox)>, id: usize) -> Option<BoundingBox> {
    spec_assoc(s, id)
}

/// The cell of the first entry whose box contains `p`, if any.
pub open spec fn spec_lookup(s: Seq<(usize, BoundingBox)>, p: Point) -> Option<usize>
    decreases s.len(),
{
    if s.len() == 0 {
        Option::None
    } else if s[0].1.spec_contains(p) {
        Option::Some(s[0].0)
    } else {
        spec_lookup(s.drop_first(), p)
    }
}

/// An index that allows us to look up the cell at the correct position
pub struct CellIndex {
    cell_map: Vec<(usize, BoundingBox)>,
}

impl CellIndex {
    /// The entries of the index, one per cell with known geometry.
    pub closed spec fn entries(self) -> Seq<(usize, BoundingBox)> {
        self.cell_map@
    }

    /// No cell appears twice: the upsert discipline keeps one box per cell.
    pub open spec fn wf(self) -> bool {
        unique_keys(self.entries())
    }

    /// An index with no geometry yet: every lookup misses.
    pub fn new() -> (r: CellIndex)
        ensures
            r.wf(),
            r.entries().len() == 0,
    {
        CellIndex { cell_map: Vec::new() }
    }

    /// Upserts the bounding box for one cell; called whenever that cell's
    /// geometry changes (not every frame). Idempotent: the latest call wins.
    #[verifier::loop_isolation(false)]
    pub fn rebuild(&mut self, entity: usize, bounds: BoundingBox)
        requires
            old(self).wf(),
        ensures
            final(self).wf(),
            spec_box_of(final(self).entries(), entity) == Option::Some(bounds),
            forall|q: usize|
                q != entity ==> #[trigger] spec_box_of(final(self).entries(), q) == spec_box_of(
                    old(self).entries(), q),
    {
        let ghost s = old(self).entries();
        let mut i: usize = 0;
        while i < self.cell_map.len()
            invariant
                self.entries() == s,
                self.cell_map@ == s,
                0 <= i <= s.len(),
                forall|j: int| 0 <= j < i ==> (#[trigger] s[j]).0 != entity,
            decreases s.len() - i,
        {
            if self.cell_map[i].0 == entity {
                // Overwrite the existing box: the latest geometry wins
                self.cell_map.set(i, (entity, bounds));
                proof {
                    assert(self.entries() == s.update(i as int, (entity, bounds)));
                    lemma_unique_update(s, i as int, entity, bounds);
                    lemma_assoc_update(s, i as int, entity, bounds, entity);
                    assert forall|q: usize| q != entity implies #[trigger] spec_box_of(
                        self.entries(), q) == spec_box_of(s, q) by {
                        lemma_assoc_update(s, i as int, entity, bounds, q);
                    }
                }
                return ;
            }
            i = i + 1;
        }
        self.cell_map.push((entity, bounds));
        proof {
            assert(self.entries() == s.push((entity, bounds)));
            lemma_unique_push(s, entity, bounds);
            lemma_assoc_push(s, entity, bounds, entity);
            assert forall|q: usize| q != entity implies #[trigger] spec_box_of(self.entries(), q)
                == spec_box_of(s, q) by {
                lemma_assoc_push(s, entity, bounds, q);
            }
        }
    }

    /// Returns the cell whose box contains `position`, or none.
    #[verifier::loop_isolation(false)]
    pub fn get(&self, position: Point) -> (r: Option<usize>)
        ensures
            r == spec_lookup(self.entries(), position),
            r matches Some(id) ==> exists|i: int|
                0 <= i < self.entries().len() && (#[trigger] self.entries()[i]).0 == id
                    && self.entries()[i].1.spec_contains(position),
            r is None ==> forall|i: int|
                0 <= i < self.entries().len() ==> !(#[trigger] self.entries()[i]).1.spec_contains(
                    position),
    {
        // This is a slow and naive linear-time approach to spatial indexing,
        // but it works fine for 81 items.
        proof {
            assert(self.cell_map@.skip(0) =~= self.cell_map@);
        }
        let mut i: usize = 0;
        while i < self.cell_map.len()
            invariant
                0 <= i <= self.cell_map.len(),
                spec_lookup(self.cell_map@, position) == spec_lookup(
                    self.cell_map@.skip(i as int), position),
                forall|j: int|
                    0 <= j < i ==> !(#[trigger] self.cell_map@[j]).1.spec_contains(position),
            decreases self.cell_map.len() - i,
        {
            let entry = self.cell_map[i];
            proof {
                assert(self.cell_map@.skip(i as int)[0] == self.cell_map@[i as int]);
            }
            if entry.1.contains(position) {
                // This early return of a single item only works correctly
                // because the cells never overlap; the first match wins.
                return Some(entry.0);
            }
            proof {
                assert(self.cell_map@.skip(i as int).drop_first() =~= self.cell_map@.skip(
                    i as int + 1));
            }
            i = i + 1;
        }
        // No box contains the position
        None
    }

    /// Upserts the bounding box of every cell whose geometry changed since
    /// the last tick; the last update for a cell wins.
    #[verifier::loop_isolation(false)]
    pub fn index_cells(&mut self, changed: &Vec<(usize, BoundingBox)>)
        requires
            old(self).wf(),
        ensures
            final(self).wf(),
            forall|q: usize|
                #[trigger] spec_box_of(final(self).entries(), q) == spec_upsert_all(
                    spec_box_of(old(self).entries(), q), changed@, q),
    {
        let ghost orig = self.cell_map@;
        let mut i: usize = 0;
        while i < changed.len()
            invariant
                0 <= i <= changed.len(),
                self.wf(),
                forall|q: usize|
                    #[trigger] spec_box_of(self.entries(), q) == spec_upsert_all(
                        spec_box_of(orig, q), changed@.take(i as int), q),
            decreases changed.len() - i,
        {
            let ghost before = self.entries();
            let (entity, bounds) = changed[i];
            self.rebuild(entity, bounds);
            proof {
                let t = changed@.take(i as int + 1);
                assert(t.last() == changed@[i as int]);
                assert(t.drop_last() =~= changed@.take(i as int));
                assert forall|q: usize| #[trigger] spec_box_of(self.entries(), q)
                    == spec_upsert_all(spec_box_of(orig, q), t, q) by {
                    if q == entity {
                    } else {
                        assert(spec_box_of(self.entries(), q) == spec_box_of(before, q));
                    }
                }
            }
            i = i + 1;
        }
        proof {
            assert(changed@.take(changed@.len() as int) =~= changed@);
        }
    }
}

} // verus!
