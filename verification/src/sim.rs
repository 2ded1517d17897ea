//! The simulation contract: the interface a rule author implements, in its
//! general shape (diff plus optional outgoing migration payload) and in a
//! simplified shape (next cell only), with the adapter between the two.

use crate::moore::{MooreDirection, MooreNeighbors};
use vstd::prelude::*;

verus! {

/// The cells of a borrowed neighborhood, by value, at the specification
/// level.
pub open spec fn deref_moore<T>(n: MooreNeighbors<&T>) -> MooreNeighbors<T> {
    MooreNeighbors { right: *n.right, up: *n.up, left: *n.left, down: *n.down }
}

/// The general simulation contract over the 4-way topology.
///
/// `step` reads a cell and its neighborhood and produces the next-state diff
/// together with an optional outgoing migration payload tagged with the
/// direction it is sent toward. `update` commits a cell: it consumes the
/// cell's diff and the payloads addressed to it, one optional slot per
/// direction the payload arrived from.
///
/// Both are pure: each implementation fixes a specification function and
/// proves its executable counterpart equal to it, so a step depends on its
/// arguments alone and a whole cycle is deterministic.
pub trait Sim: Sized {
    type Cell;

    type Diff;

    type Mv;

    /// The value `step` computes from a cell and its neighborhood.
    spec fn step_spec(cell: Self::Cell, neighbors: MooreNeighbors<Self::Cell>) -> (
        Self::Diff,
        Option<(MooreDirection, Self::Mv)>,
    );

    /// The committed cell `update` computes from a cell, its diff, and the
    /// incoming payloads.
    spec fn update_spec(
        cell: Self::Cell,
        diff: Self::Diff,
        inbox: MooreNeighbors<Option<Self::Mv>>,
    ) -> Self::Cell;

    fn step(cell: &Self::Cell, neighbors: MooreNeighbors<&Self::Cell>) -> (r: (
        Self::Diff,
        Option<(MooreDirection, Self::Mv)>,
    ))
        ensures
            r == Self::step_spec(*cell, deref_moore(neighbors)),
    ;

    fn update(cell: &mut Self::Cell, diff: Self::Diff, inbox: MooreNeighbors<Option<Self::Mv>>)
        ensures
            *final(cell) == Self::update_spec(*old(cell), diff, inbox),
    ;
}

/// The simplified simulation contract over the 4-way topology, for
/// simulations with no migration payload and no distinct diff
/// representation: one pure function from a cell and its neighborhood to the
/// next cell.
pub trait MooreRule: Sized {
    type Cell;

    /// The value `rule` computes from a cell and its neighborhood.
    spec fn rule_spec(cell: Self::Cell, neighbors: MooreNeighbors<Self::Cell>) -> Self::Cell;

    fn rule(cell: &Self::Cell, neighbors: MooreNeighbors<&Self::Cell>) -> (r: Self::Cell)
        ensures
            r == Self::rule_spec(*cell, deref_moore(neighbors)),
    ;
}

/// Adapts a simplified rule into the general contract: `step` computes the
/// rule's next cell as the diff and emits no payload, and `update` replaces
/// the cell with the diff.
pub struct MooreRuleSim<R: MooreRule> {
    pub marker: core::marker::PhantomData<R>,
}

impl<R: MooreRule> Sim for MooreRuleSim<R> {
    type Cell = R::Cell;

    type Diff = R::Cell;

    type Mv = ();

    open spec fn step_spec(cell: R::Cell, neighbors: MooreNeighbors<R::Cell>) -> (
        R::Cell,
        Option<(MooreDirection, ())>,
    ) {
        (R::rule_spec(cell, neighbors), None)
    }

    open spec fn update_spec(
        cell: R::Cell,
        diff: R::Cell,
        inbox: MooreNeighbors<Option<()>>,
    ) -> R::Cell {
        diff
    }

    fn step(cell: &R::Cell, neighbors: MooreNeighbors<&R::Cell>) -> (r: (
        R::Cell,
        Option<(MooreDirection, ())>,
    )) {
        (R::rule(cell, neighbors), None)
    }

    fn update(cell: &mut R::Cell, diff: R::Cell, inbox: MooreNeighbors<Option<()>>) {
        *cell = diff;
    }
}

/// A fatal construction-time fault: the declared dimensions do not describe
/// the supplied cells.
#[derive(Copy, Clone, Debug, PartialEq, Eq, Structural)]
pub enum GridError {
    /// A dimension is zero, so the grid would have no cells to wrap onto.
    ZeroDimension,
    /// The number of supplied cells differs from `width * height`.
    SizeMismatch,
}

} // verus!
