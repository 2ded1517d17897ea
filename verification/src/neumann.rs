//! The 8-way topology: a compass tag per surrounding cell, diagonals
//! included, and the fixed-arity neighborhood container keyed by those tags.

use vstd::prelude::*;

verus! {

/// One of the eight surrounding neighbor offsets.
///
/// The canonical declaration order, which `directions` and every
/// neighborhood iteration follow, starts at `Right` and proceeds
/// counterclockwise.
#[derive(Copy, Clone, Debug, PartialEq, Eq, Structural)]
pub enum Direction {
    Right,
    UpRight,
    Up,
    UpLeft,
    Left,
    DownLeft,
    Down,
    DownRight,
}

impl Direction {
    /// The integer offset `(dx, dy)` this direction stands for, with `y`
    /// growing downward.
    pub open spec fn delta_spec(self) -> (isize, isize) {
        match self {
            Direction::Right => (1isize, 0isize),
            Direction::UpRight => (1isize, -1isize),
            Direction::Up => (0isize, -1isize),
            Direction::UpLeft => (-1isize, -1isize),
            Direction::Left => (-1isize, 0isize),
            Direction::DownLeft => (-1isize, 1isize),
            Direction::Down => (0isize, 1isize),
            Direction::DownRight => (1isize, 1isize),
        }
    }

    /// The unique direction with the opposite offset.
    pub open spec fn inv_spec(self) -> Direction {
        match self {
            Direction::Right => Direction::Left,
            Direction::UpRight => Direction::DownLeft,
            Direction::Up => Direction::Down,
            Direction::UpLeft => Direction::DownRight,
            Direction::Left => Direction::Right,
            Direction::DownLeft => Direction::UpRight,
            Direction::Down => Direction::Up,
            Direction::DownRight => Direction::UpLeft,
        }
    }

    /// The canonical enumeration order of the eight directions.
    pub open spec fn order() -> Seq<Direction> {
        seq![
            Direction::Right,
            Direction::UpRight,
            Direction::Up,
            Direction::UpLeft,
            Direction::Left,
            Direction::DownLeft,
            Direction::Down,
            Direction::DownRight,
        ]
    }

    #[verifier::when_used_as_spec(delta_spec)]
    pub fn delta(self) -> (r: (isize, isize))
        ensures
            r == self.delta_spec(),
    {
        match self {
            Direction::Right => (1, 0),
            Direction::UpRight => (1, -1),
            Direction::Up => (0, -1),
            Direction::UpLeft => (-1, -1),
            Direction::Left => (-1, 0),
            Direction::DownLeft => (-1, 1),
            Direction::Down => (0, 1),
            Direction::DownRight => (1, 1),
        }
    }

    #[verifier::when_used_as_spec(inv_spec)]
    pub fn inv(self) -> (r: Direction)
        ensures
            r == self.inv_spec(),
    {
        match self {
            Direction::Right => Direction::Left,
            Direction::UpRight => Direction::DownLeft,
            Direction::Up => Direction::Down,
            Direction::UpLeft => Direction::DownRight,
            Direction::Left => Direction::Right,
            Direction::DownLeft => Direction::UpRight,
            Direction::Down => Direction::Up,
            Direction::DownRight => Direction::UpLeft,
        }
    }

    /// All eight directions, in canonical order.
    pub fn directions() -> (r: Vec<Direction>)
        ensures
            r@ == Direction::order(),
    {
        let mut v: Vec<Direction> = Vec::new();
        v.push(Direction::Right);
        v.push(Direction::UpRight);
        v.push(Direction::Up);
        v.push(Direction::UpLeft);
        v.push(Direction::Left);
        v.push(Direction::DownLeft);
        v.push(Direction::Down);
        v.push(Direction::DownRight);
        proof {
            assert(v@ =~= Direction::order());
        }
        v
    }
}

/// For every 8-way direction `d`: `inv` is an involution, and the offsets of
/// `d` and `inv(d)` cancel, so stepping by `d` and then by `inv(d)` returns
/// to the origin.
pub proof fn lemma_direction_inv(d: Direction)
    ensures
        d.inv_spec().inv_spec() == d,
        d.delta_spec().0 + d.inv_spec().delta_spec().0 == 0,
        d.delta_spec().1 + d.inv_spec().delta_spec().1 == 0,
{
}

/// A direction-keyed container holding exactly one `T` per 8-way direction.
#[derive(Copy, Clone, Debug)]
pub struct Neighbors<T> {
    pub right: T,
    pub up_right: T,
    pub up: T,
    pub up_left: T,
    pub left: T,
    pub down_left: T,
    pub down: T,
    pub down_right: T,
}

impl<T> Neighbors<T> {
    /// The element stored under a direction.
    pub open spec fn spec_get(self, d: Direction) -> T {
        match d {
            Direction::Right => self.right,
            Direction::UpRight => self.up_right,
            Direction::Up => self.up,
            Direction::UpLeft => self.up_left,
            Direction::Left => self.left,
            Direction::DownLeft => self.down_left,
            Direction::Down => self.down,
            Direction::DownRight => self.down_right,
        }
    }

    /// The elements in canonical direction order.
    pub open spec fn seq(self) -> Seq<T> {
        seq![
            self.right,
            self.up_right,
            self.up,
            self.up_left,
            self.left,
            self.down_left,
            self.down,
            self.down_right,
        ]
    }

    pub fn get(&self, d: Direction) -> (r: &T)
        ensures
            *r == self.spec_get(d),
    {
        match d {
            Direction::Right => &self.right,
            Direction::UpRight => &self.up_right,
            Direction::Up => &self.up,
            Direction::UpLeft => &self.up_left,
            Direction::Left => &self.left,
            Direction::DownLeft => &self.down_left,
            Direction::Down => &self.down,
            Direction::DownRight => &self.down_right,
        }
    }

    /// A same-shape container of references into this one.
    pub fn as_ref(&self) -> (r: Neighbors<&T>)
        ensures
            r.right == self.right,
            r.up_right == self.up_right,
            r.up == self.up,
            r.up_left == self.up_left,
            r.left == self.left,
            r.down_left == self.down_left,
            r.down == self.down,
            r.down_right == self.down_right,
    {
        Neighbors {
            right: &self.right,
            up_right: &self.up_right,
            up: &self.up,
            up_left: &self.up_left,
            left: &self.left,
            down_left: &self.down_left,
            down: &self.down,
            down_right: &self.down_right,
        }
    }

    /// Builds a neighborhood by evaluating a supplier once per direction, in
    /// canonical order.
    pub fn from_fn<F: Fn(Direction) -> T>(f: F) -> (r: Neighbors<T>)
        requires
            forall|d: Direction| call_requires(f, (d,)),
        ensures
            call_ensures(f, (Direction::Right,), r.right),
            call_ensures(f, (Direction::UpRight,), r.up_right),
            call_ensures(f, (Direction::Up,), r.up),
            call_ensures(f, (Direction::UpLeft,), r.up_left),
            call_ensures(f, (Direction::Left,), r.left),
            call_ensures(f, (Direction::DownLeft,), r.down_left),
            call_ensures(f, (Direction::Down,), r.down),
            call_ensures(f, (Direction::DownRight,), r.down_right),
    {
        Neighbors {
            right: f(Direction::Right),
            up_right: f(Direction::UpRight),
            up: f(Direction::Up),
            up_left: f(Direction::UpLeft),
            left: f(Direction::Left),
            down_left: f(Direction::DownLeft),
            down: f(Direction::Down),
            down_right: f(Direction::DownRight),
        }
    }

    /// The elements as a vector, in canonical direction order.
    pub fn to_vec(self) -> (r: Vec<T>)
        ensures
            r@ == self.seq(),
    {
        let mut v: Vec<T> = Vec::new();
        v.push(self.right);
        v.push(self.up_right);
        v.push(self.up);
        v.push(self.up_left);
        v.push(self.left);
        v.push(self.down_left);
        v.push(self.down);
        v.push(self.down_right);
        proof {
            assert(v@ =~= self.seq());
        }
        v
    }

    /// The elements paired with their directions, in canonical order.
    pub fn dir_to_vec(self) -> (r: Vec<(Direction, T)>)
        ensures
            r@.len() == 8,
            forall|k: int|
                0 <= k < 8 ==> r@[k] == (
                Direction::order()[k],
                self.spec_get(Direction::order()[k]),
                ),
    {
        let mut v: Vec<(Direction, T)> = Vec::new();
        v.push((Direction::Right, self.right));
        v.push((Direction::UpRight, self.up_right));
        v.push((Direction::Up, self.up));
        v.push((Direction::UpLeft, self.up_left));
        v.push((Direction::Left, self.left));
        v.push((Direction::DownLeft, self.down_left));
        v.push((Direction::Down, self.down));
        v.push((Direction::DownRight, self.down_right));
        v
    }
}

impl<T: Copy> Neighbors<&T> {
    /// A container of owned copies of the referenced elements.
    pub fn copied(self) -> (r: Neighbors<T>)
        ensures
            r.right == *self.right,
            r.up_right == *self.up_right,
            r.up == *self.up,
            r.up_left == *self.up_left,
            r.left == *self.left,
            r.down_left == *self.down_left,
            r.down == *self.down,
            r.down_right == *self.down_right,
    {
        Neighbors {
            right: *self.right,
            up_right: *self.up_right,
            up: *self.up,
            up_left: *self.up_left,
            left: *self.left,
            down_left: *self.down_left,
            down: *self.down,
            down_right: *self.down_right,
        }
    }
}

/// Iteration order is a function of the container alone — identical across
/// repeated calls — and position `k` of `seq()` holds the element keyed by
/// position `k` of the canonical direction order.
pub proof fn lemma_neighbors_iteration_order<T>(n: Neighbors<T>)
    ensures
        n.seq().len() == Direction::order().len(),
        forall|k: int|
            0 <= k < 8 ==> n.seq()[k] == n.spec_get(Direction::order()[k]),
{
    assert forall|k: int| 0 <= k < 8 implies n.seq()[k] == n.spec_get(
        Direction::order()[k],
    ) by {
        assert(Direction::order()[0] == Direction::Right);
        assert(Direction::order()[1] == Direction::UpRight);
        assert(Direction::order()[2] == Direction::Up);
        assert(Direction::order()[3] == Direction::UpLeft);
        assert(Direction::order()[4] == Direction::Left);
        assert(Direction::order()[5] == Direction::DownLeft);
        assert(Direction::order()[6] == Direction::Down);
        assert(Direction::order()[7] == Direction::DownRight);
    }
}

} // verus!
