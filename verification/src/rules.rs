//! Small example rules exercising both contract shapes, with exact
//! contracts of their own. Concrete simulations are otherwise supplied by
//! the library's users; these exist so the engines can be driven end to
//! end.

use crate::moore::{MooreDirection, MooreNeighbors};
use crate::neumann::Neighbors;
use crate::octo::{deref_neighbors, Rule};
use crate::sim::{deref_moore, MooreRule, Sim};
use vstd::prelude::*;

verus! {

/// A simplified 4-way rule: every cell takes its right-hand (east)
/// neighbor's state.
pub struct CopyEast {}

impl MooreRule for CopyEast {
    type Cell = u64;

    open spec fn rule_spec(cell: u64, neighbors: MooreNeighbors<u64>) -> u64 {
        neighbors.right
    }

    fn rule(cell: &u64, neighbors: MooreNeighbors<&u64>) -> (r: u64)
        ensures
            r == Self::rule_spec(*cell, deref_moore(neighbors)),
    {
        *neighbors.right
    }
}

/// A general 4-way simulation with migration: every cell sends its whole
/// value east as a payload, and the committed cell is the payload arriving
/// from the west, or zero when none arrives. The total of all cell values
/// is conserved by every cycle.
pub struct ShiftEast {}

impl Sim for ShiftEast {
    type Cell = u64;

    type Diff = ();

    type Mv = u64;

    open spec fn step_spec(cell: u64, neighbors: MooreNeighbors<u64>) -> (
        (),
        Option<(MooreDirection, u64)>,
    ) {
        ((), Some((MooreDirection::Right, cell)))
    }

    open spec fn update_spec(cell: u64, diff: (), inbox: MooreNeighbors<Option<u64>>) -> u64 {
        match inbox.left {
            Some(v) => v,
            None => 0u64,
        }
    }

    fn step(cell: &u64, neighbors: MooreNeighbors<&u64>) -> (r: ((), Option<(MooreDirection, u64)>))
        ensures
            r == Self::step_spec(*cell, deref_moore(neighbors)),
    {
        ((), Some((MooreDirection::Right, *cell)))
    }

    fn update(cell: &mut u64, diff: (), inbox: MooreNeighbors<Option<u64>>)
        ensures
            *final(cell) == Self::update_spec(*old(cell), diff, inbox),
    {
        match inbox.left {
            Some(v) => {
                *cell = v;
            },
            None => {
                *cell = 0;
            },
        }
    }
}

/// A simplified 8-way rule: the next cell is the sum of the low byte of
/// every one of the eight neighborhood entries. On a small grid the same
/// physical cell is counted once per direction it is reached by.
pub struct ByteSum {}

impl Rule for ByteSum {
    type Cell = u64;

    open spec fn rule_spec(cell: u64, neighbors: Neighbors<u64>) -> u64 {
        (neighbors.right % 256 + neighbors.up_right % 256 + neighbors.up % 256
            + neighbors.up_left % 256 + neighbors.left % 256 + neighbors.down_left % 256
            + neighbors.down % 256 + neighbors.down_right % 256) as u64
    }

    fn rule(cell: &u64, neighbors: Neighbors<&u64>) -> (r: u64)
        ensures
            r == Self::rule_spec(*cell, deref_neighbors(neighbors)),
    {
        *neighbors.right % 256 + *neighbors.up_right % 256 + *neighbors.up % 256
            + *neighbors.up_left % 256 + *neighbors.left % 256 + *neighbors.down_left % 256
            + *neighbors.down % 256 + *neighbors.down_right % 256
    }
}

} // verus!
