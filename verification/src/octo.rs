//! The toroidal grid and cycle scheduler for the simplified contract over
//! the 8-way topology: each cycle maps every cell and its full
//! 8-neighborhood through a pure rule, then commits the whole buffer.

use crate::grid::{neighbor_index_of, torus_index};
use crate::neumann::{Direction, Neighbors};
use crate::sim::GridError;
use vstd::prelude::*;

verus! {

/// The cells of a borrowed neighborhood, by value, at the specification
/// level.
pub open spec fn deref_neighbors<T>(n: Neighbors<&T>) -> Neighbors<T> {
    Neighbors {
        right: *n.right,
        up_right: *n.up_right,
        up: *n.up,
        up_left: *n.up_left,
        left: *n.left,
        down_left: *n.down_left,
        down: *n.down,
        down_right: *n.down_right,
    }
}

/// The simplified simulation contract over the 8-way topology: one pure
/// function from a cell and its neighborhood to the next cell.
///
/// Each implementation fixes a specification function and proves its
/// executable counterpart equal to it, so a rule application depends on its
/// arguments alone and a whole cycle is deterministic.
pub trait Rule: Sized {
    type Cell;

    /// The value `rule` computes from a cell and its neighborhood.
    spec fn rule_spec(cell: Self::Cell, neighbors: Neighbors<Self::Cell>) -> Self::Cell;

    fn rule(cell: &Self::Cell, neighbors: Neighbors<&Self::Cell>) -> (r: Self::Cell)
        ensures
            r == Self::rule_spec(*cell, deref_neighbors(neighbors)),
    ;
}

/// The 8-way neighborhood of cell `i` in a flat cell buffer laid out on a
/// `w` by `h` torus. On a small grid the entries may repeat the same
/// physical cell; the neighborhood still holds one entry per direction.
pub open spec fn nbrs8_at<T>(cells: Seq<T>, w: int, h: int, i: int) -> Neighbors<T> {
    Neighbors {
        right: cells[torus_index(i, 1, 0, w, h)],
        up_right: cells[torus_index(i, 1, -1, w, h)],
        up: cells[torus_index(i, 0, -1, w, h)],
        up_left: cells[torus_index(i, -1, -1, w, h)],
        left: cells[torus_index(i, -1, 0, w, h)],
        down_left: cells[torus_index(i, -1, 1, w, h)],
        down: cells[torus_index(i, 0, 1, w, h)],
        down_right: cells[torus_index(i, 1, 1, w, h)],
    }
}

/// The whole cell buffer after one cycle of a rule `R`.
pub open spec fn rule_cycle_spec<R: Rule>(cells: Seq<R::Cell>, w: int, h: int) -> Seq<R::Cell> {
    Seq::new(cells.len(), |j: int| R::rule_spec(cells[j], nbrs8_at(cells, w, h, j)))
}

/// Determinism: the committed buffer after a cycle is a function of the
/// prior buffer and the dimensions alone. Two grids with identical
/// dimensions and identical initial cells, driven by the same rule, hold
/// identical buffers after a cycle — and, by induction, after any number
/// of cycles — however the per-cell step work is scheduled.
pub proof fn lemma_rule_cycle_deterministic<R: Rule>(
    cells1: Seq<R::Cell>,
    cells2: Seq<R::Cell>,
    w: int,
    h: int,
)
    requires
        cells1 == cells2,
    ensures
        rule_cycle_spec::<R>(cells1, w, h) == rule_cycle_spec::<R>(cells2, w, h),
{
}

/// A toroidal grid of cells driven by a simplified rule `R` over the 8-way
/// topology.
pub struct OctoGrid<R: Rule> {
    width: usize,
    height: usize,
    cells: Vec<R::Cell>,
}

impl<R: Rule> OctoGrid<R> {
    /// Structural invariant: positive dimensions, and a cell buffer of
    /// exactly `width * height` cells.
    pub closed spec fn wf(&self) -> bool {
        &&& 1 <= self.width
        &&& 1 <= self.height
        &&& self.cells@.len() == self.width * self.height
        &&& self.width * self.height <= usize::MAX
    }

    pub closed spec fn spec_width(&self) -> usize {
        self.width
    }

    pub closed spec fn spec_height(&self) -> usize {
        self.height
    }

    pub closed spec fn spec_cells(&self) -> Seq<R::Cell> {
        self.cells@
    }

    pub closed spec fn spec_size(&self) -> int {
        self.width * self.height
    }

    /// Builds a grid from fixed dimensions and initial cell contents,
    /// rejecting dimensions that do not describe the supplied buffer.
    pub fn new(width: usize, height: usize, cells: Vec<R::Cell>) -> (r: Result<
        OctoGrid<R>,
        GridError,
    >)
        ensures
            match r {
                Ok(g) => {
                    &&& g.wf()
                    &&& g.spec_width() == width
                    &&& g.spec_height() == height
                    &&& g.spec_cells() == cells@
                    &&& 1 <= width
                    &&& 1 <= height
                    &&& cells@.len() == width * height
                },
                Err(GridError::ZeroDimension) => width == 0 || height == 0,
                Err(GridError::SizeMismatch) => {
                    &&& 1 <= width
                    &&& 1 <= height
                    &&& cells@.len() != width * height
                },
            },
    {
        if width == 0 || height == 0 {
            return Err(GridError::ZeroDimension);
        }
        match width.checked_mul(height) {
            Some(sz) => {
                if sz == cells.len() {
                    Ok(OctoGrid { width, height, cells })
                } else {
                    Err(GridError::SizeMismatch)
                }
            },
            None => {
                let len = cells.len();
                proof {
                    assert(len <= usize::MAX);
                }
                Err(GridError::SizeMismatch)
            },
        }
    }

    pub fn width(&self) -> (r: usize)
        ensures
            r == self.spec_width(),
    {
        self.width
    }

    pub fn height(&self) -> (r: usize)
        ensures
            r == self.spec_height(),
    {
        self.height
    }

    /// Decides the structural invariant, for callers that hold a grid of
    /// unknown provenance. Every grid built by `new` satisfies it, and
    /// every method preserves it.
    pub fn is_well_formed(&self) -> (r: bool)
        ensures
            r == self.wf(),
    {
        match self.width.checked_mul(self.height) {
            Some(sz) => 1 <= self.width && 1 <= self.height && sz == self.cells.len(),
            None => false,
        }
    }

    /// The number of cells, `width * height`.
    pub fn size(&self) -> (r: usize)
        requires
            self.wf(),
        ensures
            r == self.spec_size(),
    {
        self.cells.len()
    }

    /// The current committed cell at a linear index; any index is valid,
    /// wrapping around the whole buffer.
    pub fn cell_at(&self, i: usize) -> (r: &R::Cell)
        requires
            self.wf(),
        ensures
            *r == self.spec_cells()[i as int % self.spec_size()],
    {
        proof {
            assert(1 * 1 <= self.width * self.height) by (nonlinear_arith)
                requires
                    1 <= self.width,
                    1 <= self.height,
            ;
            vstd::arithmetic::div_mod::lemma_mod_division_less_than_divisor(
                i as int,
                self.spec_size(),
            );
        }
        let sz = self.cells.len();
        &self.cells[i % sz]
    }

    /// The current committed cell at 2-D coordinates; any coordinates are
    /// valid, wrapping on each axis independently.
    pub fn cell_at_coord(&self, x: usize, y: usize) -> (r: &R::Cell)
        requires
            self.wf(),
        ensures
            *r == self.spec_cells()[x as int % self.spec_width() as int + self.spec_width() * (
            y as int % self.spec_height() as int)],
    {
        let xr = x % self.width;
        let yr = y % self.height;
        proof {
            assert(0 <= xr + self.width * yr < self.width * self.height) by (nonlinear_arith)
                requires
                    0 <= xr < self.width,
                    0 <= yr < self.height,
                    1 <= self.width,
            ;
        }
        &self.cells[xr + self.width * yr]
    }

    /// The wrapped linear index of the neighbor reached from `i` by a unit
    /// offset.
    pub fn neighbor_index(&self, i: usize, delta: (isize, isize)) -> (r: usize)
        requires
            self.wf(),
            -1 <= delta.0 <= 1,
            -1 <= delta.1 <= 1,
        ensures
            r == torus_index(
                i as int,
                delta.0 as int,
                delta.1 as int,
                self.spec_width() as int,
                self.spec_height() as int,
            ),
            r < self.spec_size(),
    {
        neighbor_index_of(i, delta.0, delta.1, self.width, self.height)
    }

    /// The references to the eight neighbors of cell `i`, one per
    /// direction, with no special case for small grids: entries that land
    /// on the same physical cell are still supplied once per direction.
    pub fn get_neighbors(&self, i: usize) -> (r: Neighbors<&R::Cell>)
        requires
            self.wf(),
            i < self.spec_size(),
        ensures
            deref_neighbors(r) == nbrs8_at(
                self.spec_cells(),
                self.spec_width() as int,
                self.spec_height() as int,
                i as int,
            ),
    {
        let w = self.width;
        let h = self.height;
        Neighbors {
            right: &self.cells[neighbor_index_of(i, 1, 0, w, h)],
            up_right: &self.cells[neighbor_index_of(i, 1, -1, w, h)],
            up: &self.cells[neighbor_index_of(i, 0, -1, w, h)],
            up_left: &self.cells[neighbor_index_of(i, -1, -1, w, h)],
            left: &self.cells[neighbor_index_of(i, -1, 0, w, h)],
            down_left: &self.cells[neighbor_index_of(i, -1, 1, w, h)],
            down: &self.cells[neighbor_index_of(i, 0, 1, w, h)],
            down_right: &self.cells[neighbor_index_of(i, 1, 1, w, h)],
        }
    }

    /// Phase-one unit of work: the rule applied to cell `i` and its full
    /// 8-neighborhood, computed from the current committed buffer alone.
    /// Safe to evaluate for different cells concurrently, since it only
    /// reads.
    pub fn step_cell(&self, i: usize) -> (r: R::Cell)
        requires
            self.wf(),
            i < self.spec_size(),
        ensures
            r == R::rule_spec(
                self.spec_cells()[i as int],
                nbrs8_at(
                    self.spec_cells(),
                    self.spec_width() as int,
                    self.spec_height() as int,
                    i as int,
                ),
            ),
    {
        let neighbors = self.get_neighbors(i);
        R::rule(&self.cells[i], neighbors)
    }

    /// Phase two: commits one cycle by swapping the computed buffer into
    /// the position of the current one.
    pub fn apply(&mut self, next: Vec<R::Cell>)
        requires
            old(self).wf(),
            next@.len() == old(self).spec_size(),
        ensures
            final(self).wf(),
            final(self).spec_width() == old(self).spec_width(),
            final(self).spec_height() == old(self).spec_height(),
            final(self).spec_cells() == next@,
    {
        self.cells = next;
    }

    /// Runs the grid for one cycle: a step pass that only reads the
    /// current committed buffer and applies the rule to every cell, then a
    /// commit pass. The committed buffer is a pure function of the prior
    /// buffer and the dimensions, so two grids with identical dimensions
    /// and identical cells agree after any number of cycles.
    pub fn cycle(&mut self)
        requires
            old(self).wf(),
        ensures
            final(self).wf(),
            final(self).spec_width() == old(self).spec_width(),
            final(self).spec_height() == old(self).spec_height(),
            final(self).spec_cells() == rule_cycle_spec::<R>(
                old(self).spec_cells(),
                old(self).spec_width() as int,
                old(self).spec_height() as int,
            ),
    {
        let n = self.cells.len();
        let ghost w_i = self.width as int;
        let ghost h_i = self.height as int;
        let mut next: Vec<R::Cell> = Vec::new();
        let mut i: usize = 0;
        while i < n
            invariant
                i <= n,
                self == old(self),
                self.wf(),
                n == self.spec_size(),
                w_i == self.spec_width() as int,
                h_i == self.spec_height() as int,
                next@.len() == i,
                forall|k: int|
                    0 <= k < i ==> next@[k] == rule_cycle_spec::<R>(
                        self.spec_cells(),
                        w_i,
                        h_i,
                    )[k],
            decreases n - i,
        {
            next.push(self.step_cell(i));
            i += 1;
        }
        self.apply(next);
        proof {
            assert(self.spec_cells() =~= rule_cycle_spec::<R>(old(self).spec_cells(), w_i, h_i));
        }
    }
}

} // verus!
