//! The 4-way topology: a compass with one tag per axis-aligned neighbor,
//! and the fixed-arity neighborhood container keyed by those tags.

use vstd::prelude::*;

verus! {

/// One of the four axis-aligned neighbor offsets.
///
/// The canonical declaration order, which `directions` and every
/// neighborhood iteration follow, is `Right`, `Up`, `Left`, `Down`.
#[derive(Copy, Clone, Debug, PartialEq, Eq, Structural)]
pub enum MooreDirection {
    Right,
    Up,
    Left,
    Down,
}

impl MooreDirection {
    /// The integer offset `(dx, dy)` this direction stands for, with `y`
    /// growing downward.
    pub open spec fn delta_spec(self) -> (isize, isize) {
        match self {
            MooreDirection::Right => (1isize, 0isize),
            MooreDirection::Up => (0isize, -1isize),
            MooreDirection::Left => (-1isize, 0isize),
            MooreDirection::Down => (0isize, 1isize),
        }
    }

    /// The unique direction with the opposite offset.
    pub open spec fn inv_spec(self) -> MooreDirection {
        match self {
            MooreDirection::Right => MooreDirection::Left,
            MooreDirection::Up => MooreDirection::Down,
            MooreDirection::Left => MooreDirection::Right,
            MooreDirection::Down => MooreDirection::Up,
        }
    }

    /// The canonical enumeration order of the four directions.
    pub open spec fn order() -> Seq<MooreDirection> {
        seq![
            MooreDirection::Right,
            MooreDirection::Up,
            MooreDirection::Left,
            MooreDirection::Down,
        ]
    }

    #[verifier::when_used_as_spec(delta_spec)]
    pub fn delta(self) -> (r: (isize, isize))
        ensures
            r == self.delta_spec(),
    {
        match self {
            MooreDirection::Right => (1, 0),
            MooreDirection::Up => (0, -1),
            MooreDirection::Left => (-1, 0),
            MooreDirection::Down => (0, 1),
        }
    }

    #[verifier::when_used_as_spec(inv_spec)]
    pub fn inv(self) -> (r: MooreDirection)
        ensures
            r == self.inv_spec(),
    {
        match self {
            MooreDirection::Right => MooreDirection::Left,
            MooreDirection::Up => MooreDirection::Down,
            MooreDirection::Left => MooreDirection::Right,
            MooreDirection::Down => MooreDirection::Up,
        }
    }

    /// All four directions, in canonical order.
    pub fn directions() -> (r: Vec<MooreDirection>)
        ensures
            r@ == MooreDirection::order(),
    {
        let mut v: Vec<MooreDirection> = Vec::new();
        v.push(MooreDirection::Right);
        v.push(MooreDirection::Up);
        v.push(MooreDirection::Left);
        v.push(MooreDirection::Down);
        proof {
            assert(v@ =~= MooreDirection::order());
        }
        v
    }

    /// The position of this direction in the canonical order.
    pub open spec fn index_spec(self) -> usize {
        match self {
            MooreDirection::Right => 0usize,
            MooreDirection::Up => 1usize,
            MooreDirection::Left => 2usize,
            MooreDirection::Down => 3usize,
        }
    }

    #[verifier::when_used_as_spec(index_spec)]
    pub fn index_of(self) -> (r: usize)
        ensures
            r == self.index_spec(),
            MooreDirection::order()[r as int] == self,
    {
        match self {
            MooreDirection::Right => 0,
            MooreDirection::Up => 1,
            MooreDirection::Left => 2,
            MooreDirection::Down => 3,
        }
    }

    /// The direction at a given position of the canonical order.
    pub fn from_index(n: usize) -> (r: MooreDirection)
        requires
            n < 4,
        ensures
            r == MooreDirection::order()[n as int],
            r.index_spec() == n,
    {
        if n == 0 {
            MooreDirection::Right
        } else if n == 1 {
            MooreDirection::Up
        } else if n == 2 {
            MooreDirection::Left
        } else {
            MooreDirection::Down
        }
    }
}

/// For every 4-way direction `d`: `inv` is an involution, and the offsets of
/// `d` and `inv(d)` cancel, so stepping by `d` and then by `inv(d)` returns
/// to the origin.
pub proof fn lemma_moore_inv(d: MooreDirection)
    ensures
        d.inv_spec().inv_spec() == d,
        d.delta_spec().0 + d.inv_spec().delta_spec().0 == 0,
        d.delta_spec().1 + d.inv_spec().delta_spec().1 == 0,
{
}

/// A direction-keyed container holding exactly one `T` per 4-way direction.
#[derive(Copy, Clone, Debug)]
pub struct MooreNeighbors<T> {
    pub right: T,
    pub up: T,
    pub left: T,
    pub down: T,
}

impl<T> MooreNeighbors<T> {
    /// The element stored under a direction.
    pub open spec fn spec_get(self, d: MooreDirection) -> T {
        match d {
            MooreDirection::Right => self.right,
            MooreDirection::Up => self.up,
            MooreDirection::Left => self.left,
            MooreDirection::Down => self.down,
        }
    }

    /// The elements in canonical direction order.
    pub open spec fn seq(self) -> Seq<T> {
        seq![self.right, self.up, self.left, self.down]
    }

    pub fn get(&self, d: MooreDirection) -> (r: &T)
        ensures
            *r == self.spec_get(d),
    {
        match d {
            MooreDirection::Right => &self.right,
            MooreDirection::Up => &self.up,
            MooreDirection::Left => &self.left,
            MooreDirection::Down => &self.down,
        }
    }

    /// A same-shape container of references into this one.
    pub fn as_ref(&self) -> (r: MooreNeighbors<&T>)
        ensures
            r.right == self.right,
            r.up == self.up,
            r.left == self.left,
            r.down == self.down,
    {
        MooreNeighbors {
            right: &self.right,
            up: &self.up,
            left: &self.left,
            down: &self.down,
        }
    }

    /// Builds a neighborhood by evaluating a supplier once per direction, in
    /// canonical order.
    pub fn from_fn<F: Fn(MooreDirection) -> T>(f: F) -> (r: MooreNeighbors<T>)
        requires
            forall|d: MooreDirection| call_requires(f, (d,)),
        ensures
            call_ensures(f, (MooreDirection::Right,), r.right),
            call_ensures(f, (MooreDirection::Up,), r.up),
            call_ensures(f, (MooreDirection::Left,), r.left),
            call_ensures(f, (MooreDirection::Down,), r.down),
    {
        MooreNeighbors {
            right: f(MooreDirection::Right),
            up: f(MooreDirection::Up),
            left: f(MooreDirection::Left),
            down: f(MooreDirection::Down),
        }
    }

    /// The elements as a vector, in canonical direction order.
    pub fn to_vec(self) -> (r: Vec<T>)
        ensures
            r@ == self.seq(),
    {
        let mut v: Vec<T> = Vec::new();
        v.push(self.right);
        v.push(self.up);
        v.push(self.left);
        v.push(self.down);
        proof {
            assert(v@ =~= self.seq());
        }
        v
    }

    /// The elements paired with their directions, in canonical order.
    pub fn dir_to_vec(self) -> (r: Vec<(MooreDirection, T)>)
        ensures
            r@.len() == 4,
            forall|k: int|
                0 <= k < 4 ==> r@[k] == (
                MooreDirection::order()[k],
                self.spec_get(MooreDirection::order()[k]),
                ),
    {
        let mut v: Vec<(MooreDirection, T)> = Vec::new();
        v.push((MooreDirection::Right, self.right));
        v.push((MooreDirection::Up, self.up));
        v.push((MooreDirection::Left, self.left));
        v.push((MooreDirection::Down, self.down));
        v
    }
}

impl<T: Copy> MooreNeighbors<&T> {
    /// A container of owned copies of the referenced elements.
    pub fn copied(self) -> (r: MooreNeighbors<T>)
        ensures
            r.right == *self.right,
            r.up == *self.up,
            r.left == *self.left,
            r.down == *self.down,
    {
        MooreNeighbors {
            right: *self.right,
            up: *self.up,
            left: *self.left,
            down: *self.down,
        }
    }
}

/// Iteration order is a function of the container alone — identical across
/// repeated calls — and position `k` of `seq()` holds the element keyed by
/// position `k` of the canonical direction order.
pub proof fn lemma_moore_iteration_order<T>(n: MooreNeighbors<T>)
    ensures
        n.seq().len() == MooreDirection::order().len(),
        forall|k: int|
            0 <= k < 4 ==> n.seq()[k] == n.spec_get(MooreDirection::order()[k]),
{
    assert forall|k: int| 0 <= k < 4 implies n.seq()[k] == n.spec_get(
        MooreDirection::order()[k],
    ) by {
        if k == 0 {
        } else if k == 1 {
        } else if k == 2 {
        } else {
        }
    }
}

} // verus!
