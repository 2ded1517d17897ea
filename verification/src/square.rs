//! The toroidal grid and the two-phase cycle scheduler for the general
//! simulation contract, with the exactly-once payload-migration protocol.

use crate::grid::{
    lemma_torus_index_bounds, lemma_torus_index_injective, lemma_torus_round_trip,
    neighbor_index_of, torus_index,
};
use crate::moore::{MooreDirection, MooreNeighbors};
use crate::sim::{deref_moore, GridError, Sim};
use vstd::prelude::*;

verus! {

/// The 4-way neighborhood of cell `i` in a flat cell buffer laid out on a
/// `w` by `h` torus.
pub open spec fn nbrs_at<T>(cells: Seq<T>, w: int, h: int, i: int) -> MooreNeighbors<T> {
    MooreNeighbors {
        right: cells[torus_index(i, 1, 0, w, h)],
        up: cells[torus_index(i, 0, -1, w, h)],
        left: cells[torus_index(i, -1, 0, w, h)],
        down: cells[torus_index(i, 0, 1, w, h)],
    }
}

/// The step result of cell `i`: its diff and its optional outgoing payload.
pub open spec fn step_at<S: Sim>(cells: Seq<S::Cell>, w: int, h: int, i: int) -> (
    S::Diff,
    Option<(MooreDirection, S::Mv)>,
) {
    S::step_spec(cells[i], nbrs_at(cells, w, h, i))
}

/// The outgoing payloads of all cells, one optional directed payload per
/// sender.
pub open spec fn step_outs<S: Sim>(cells: Seq<S::Cell>, w: int, h: int) -> Seq<
    Option<(MooreDirection, S::Mv)>,
> {
    Seq::new(cells.len(), |i: int| step_at::<S>(cells, w, h, i).1)
}

/// The payload destination `j` collects along direction `e`, out of a buffer
/// of outgoing payloads: the neighbor reached by `e` contributes its payload
/// exactly when that payload was sent toward `inv(e)`, the direction that
/// points from the neighbor back at `j`.
pub open spec fn inbox_slot_from<S: Sim>(
    outs: Seq<Option<(MooreDirection, S::Mv)>>,
    w: int,
    h: int,
    j: int,
    e: MooreDirection,
) -> Option<S::Mv> {
    let n = torus_index(j, e.delta_spec().0 as int, e.delta_spec().1 as int, w, h);
    match outs[n] {
        Some(dm) => if dm.0 == e.inv_spec() {
            Some(dm.1)
        } else {
            None
        },
        None => None,
    }
}

/// All payloads addressed to destination `j`, one optional slot per
/// direction they arrive from.
pub open spec fn inbox_from<S: Sim>(
    outs: Seq<Option<(MooreDirection, S::Mv)>>,
    w: int,
    h: int,
    j: int,
) -> MooreNeighbors<Option<S::Mv>> {
    MooreNeighbors {
        right: inbox_slot_from::<S>(outs, w, h, j, MooreDirection::Right),
        up: inbox_slot_from::<S>(outs, w, h, j, MooreDirection::Up),
        left: inbox_slot_from::<S>(outs, w, h, j, MooreDirection::Left),
        down: inbox_slot_from::<S>(outs, w, h, j, MooreDirection::Down),
    }
}

/// The whole cell buffer after one cycle: every cell committed with its own
/// diff and the payloads addressed to it.
pub open spec fn cycle_spec<S: Sim>(cells: Seq<S::Cell>, w: int, h: int) -> Seq<S::Cell> {
    Seq::new(
        cells.len(),
        |j: int|
            S::update_spec(
                cells[j],
                step_at::<S>(cells, w, h, j).0,
                inbox_from::<S>(step_outs::<S>(cells, w, h), w, h, j),
            ),
    )
}

/// The outgoing half of a buffer of step results.
pub open spec fn outs_of<S: Sim>(
    results: Seq<(S::Diff, Option<(MooreDirection, S::Mv)>)>,
) -> Seq<Option<(MooreDirection, S::Mv)>> {
    results.map(|k: int, p: (S::Diff, Option<(MooreDirection, S::Mv)>)| p.1)
}

/// An inbox with no payload on any slot.
spec fn empty_inbox<M>() -> MooreNeighbors<Option<M>> {
    MooreNeighbors { right: None, up: None, left: None, down: None }
}

/// The inbox slot of destination `j` along `e` once the senders below
/// `upto` have been resolved: already its final value if the examined
/// neighbor is resolved, still empty otherwise.
spec fn partial_slot<S: Sim>(
    outs: Seq<Option<(MooreDirection, S::Mv)>>,
    w: int,
    h: int,
    j: int,
    e: MooreDirection,
    upto: int,
) -> Option<S::Mv> {
    if torus_index(j, e.delta_spec().0 as int, e.delta_spec().1 as int, w, h) < upto {
        inbox_slot_from::<S>(outs, w, h, j, e)
    } else {
        None
    }
}

/// The committed value of cell `j`, given the prior buffer and the step
/// results of all cells.
spec fn committed<S: Sim>(
    cells: Seq<S::Cell>,
    results: Seq<(S::Diff, Option<(MooreDirection, S::Mv)>)>,
    w: int,
    h: int,
    j: int,
) -> S::Cell {
    S::update_spec(cells[j], results[j].0, inbox_from::<S>(outs_of::<S>(results), w, h, j))
}

/// Determinism: the committed buffer after a cycle is a function of the
/// prior buffer and the dimensions alone. Two grids with identical
/// dimensions and identical initial cells, driven by the same simulation,
/// hold identical buffers after a cycle — and, by induction, after any
/// number of cycles — however the per-cell step work is scheduled.
pub proof fn lemma_cycle_deterministic<S: Sim>(
    cells1: Seq<S::Cell>,
    cells2: Seq<S::Cell>,
    w: int,
    h: int,
)
    requires
        cells1 == cells2,
    ensures
        cycle_spec::<S>(cells1, w, h) == cycle_spec::<S>(cells2, w, h),
{
}

/// Migration conservation, sender side: a payload sent by cell `i` toward
/// `d` is observed by exactly one destination slot. It arrives at the
/// neighbor reached by `d`, on the slot of the inverse direction; and no
/// other slot of any destination that examines sender `i` passes the
/// direction check. Summed over a cycle, the payloads received therefore
/// equal the payloads emitted: none is duplicated and none is lost.
pub proof fn lemma_migration_exactly_once<S: Sim>(
    outs: Seq<Option<(MooreDirection, S::Mv)>>,
    w: int,
    h: int,
    i: int,
    d: MooreDirection,
    m: S::Mv,
)
    requires
        1 <= w,
        1 <= h,
        outs.len() == w * h,
        0 <= i < w * h,
        outs[i] == Some((d, m)),
    ensures
        inbox_from::<S>(
            outs,
            w,
            h,
            torus_index(i, d.delta_spec().0 as int, d.delta_spec().1 as int, w, h),
        ).spec_get(d.inv_spec()) == Some(m),
        forall|j: int, e: MooreDirection|
            {
                &&& 0 <= j < w * h
                &&& torus_index(j, e.delta_spec().0 as int, e.delta_spec().1 as int, w, h) == i
                &&& !(j == torus_index(i, d.delta_spec().0 as int, d.delta_spec().1 as int, w, h)
                    && e == d.inv_spec())
            } ==> #[trigger] inbox_from::<S>(outs, w, h, j).spec_get(e) == None::<S::Mv>,
{
    let dx = d.delta_spec().0 as int;
    let dy = d.delta_spec().1 as int;
    let dest = torus_index(i, dx, dy, w, h);
    let e0 = d.inv_spec();
    crate::moore::lemma_moore_inv(d);
    lemma_torus_round_trip(i, dx, dy, w, h);
    assert(torus_index(dest, e0.delta_spec().0 as int, e0.delta_spec().1 as int, w, h) == i);
    assert forall|j: int, e: MooreDirection|
        {
            &&& 0 <= j < w * h
            &&& torus_index(j, e.delta_spec().0 as int, e.delta_spec().1 as int, w, h) == i
            &&& !(j == dest && e == e0)
        } implies #[trigger] inbox_from::<S>(outs, w, h, j).spec_get(e) == None::<S::Mv> by {
        let e2dx = e.delta_spec().0 as int;
        let e2dy = e.delta_spec().1 as int;
        crate::moore::lemma_moore_inv(e);
        if d == e.inv_spec() {
            assert(e == e0);
            lemma_torus_round_trip(j, e2dx, e2dy, w, h);
            assert(j == dest);
        }
    }
}

/// Migration conservation, receiver side: destination `j` holds a payload
/// `m` on the slot of direction `e` exactly when the neighbor it examines
/// along `e` sent `m` toward the inverse of `e` — the direction that points
/// back at `j`. No slot invents a payload and none reads a payload sent
/// elsewhere.
pub proof fn lemma_migration_source<S: Sim>(
    outs: Seq<Option<(MooreDirection, S::Mv)>>,
    w: int,
    h: int,
    j: int,
    e: MooreDirection,
)
    requires
        1 <= w,
        1 <= h,
        outs.len() == w * h,
        0 <= j < w * h,
    ensures
        forall|m: S::Mv|
            inbox_from::<S>(outs, w, h, j).spec_get(e) == Some(m) <==> outs[torus_index(
                j,
                e.delta_spec().0 as int,
                e.delta_spec().1 as int,
                w,
                h,
            )] == Some((e.inv_spec(), m)),
{
}

/// The cells that emit a payload, given a buffer of outgoing payloads.
pub open spec fn sending_cells<S: Sim>(
    outs: Seq<Option<(MooreDirection, S::Mv)>>,
    w: int,
    h: int,
) -> Set<int> {
    Set::new(|i: int| 0 <= i < w * h && outs[i] is Some)
}

/// The inbox slots, over all destinations, that receive a payload.
pub open spec fn receiving_slots<S: Sim>(
    outs: Seq<Option<(MooreDirection, S::Mv)>>,
    w: int,
    h: int,
) -> Set<(int, MooreDirection)> {
    Set::new(
        |p: (int, MooreDirection)|
            0 <= p.0 < w * h && inbox_slot_from::<S>(outs, w, h, p.0, p.1) is Some,
    )
}

/// The destination slot a sender's payload lands on: the cell reached by
/// the payload's direction, on the slot of the inverse direction.
pub open spec fn landing_slot<S: Sim>(
    outs: Seq<Option<(MooreDirection, S::Mv)>>,
    w: int,
    h: int,
    i: int,
) -> (int, MooreDirection) {
    match outs[i] {
        Some(dm) => (
            torus_index(i, dm.0.delta_spec().0 as int, dm.0.delta_spec().1 as int, w, h),
            dm.0.inv_spec(),
        ),
        None => (0, MooreDirection::Right),
    }
}

/// Migration conservation, counted: over one cycle, the number of payloads
/// emitted equals the number of inbox slots that receive one, across all
/// destinations — zero duplication, zero loss. The map from a sender to
/// the slot its payload lands on is a bijection between the two sets.
pub proof fn lemma_migration_conservation<S: Sim>(
    outs: Seq<Option<(MooreDirection, S::Mv)>>,
    w: int,
    h: int,
)
    requires
        1 <= w,
        1 <= h,
        outs.len() == w * h,
    ensures
        sending_cells::<S>(outs, w, h).finite(),
        receiving_slots::<S>(outs, w, h).finite(),
        sending_cells::<S>(outs, w, h).len() == receiving_slots::<S>(outs, w, h).len(),
        sending_cells::<S>(outs, w, h).map(
            |i: int| landing_slot::<S>(outs, w, h, i),
        ) == receiving_slots::<S>(outs, w, h),
{
    let n = w * h;
    let senders = sending_cells::<S>(outs, w, h);
    let slots = receiving_slots::<S>(outs, w, h);
    let f = |i: int| landing_slot::<S>(outs, w, h, i);

    vstd::set_lib::lemma_int_range(0, n);
    vstd::set_lib::lemma_len_subset(senders, vstd::set_lib::set_int_range(0, n));

    assert(vstd::relations::injective_on(f, senders)) by {
        assert forall|i1: int, i2: int|
            senders.contains(i1) && senders.contains(i2) && #[trigger] f(i1) == #[trigger] f(
                i2,
            ) implies i1 == i2 by {
            let d1 = outs[i1]->Some_0.0;
            let d2 = outs[i2]->Some_0.0;
            crate::moore::lemma_moore_inv(d1);
            crate::moore::lemma_moore_inv(d2);
            assert(d1 == d2);
            lemma_torus_index_injective(
                i1,
                i2,
                d1.delta_spec().0 as int,
                d1.delta_spec().1 as int,
                w,
                h,
            );
        }
    }

    assert(senders.map(f) =~= slots) by {
        assert forall|p: (int, MooreDirection)| senders.map(f).contains(p) implies slots.contains(
            p,
        ) by {
            let i = choose|i: int| senders.contains(i) && p == f(i);
            let d = outs[i]->Some_0.0;
            let m = outs[i]->Some_0.1;
            crate::moore::lemma_moore_inv(d);
            let dx = d.delta_spec().0 as int;
            let dy = d.delta_spec().1 as int;
            lemma_torus_index_bounds(i, dx, dy, w, h);
            lemma_torus_round_trip(i, dx, dy, w, h);
            assert(inbox_slot_from::<S>(outs, w, h, p.0, p.1) == Some(m));
        }
        assert forall|p: (int, MooreDirection)| slots.contains(p) implies senders.map(f).contains(
            p,
        ) by {
            let edx = p.1.delta_spec().0 as int;
            let edy = p.1.delta_spec().1 as int;
            let i = torus_index(p.0, edx, edy, w, h);
            crate::moore::lemma_moore_inv(p.1);
            lemma_torus_index_bounds(p.0, edx, edy, w, h);
            lemma_torus_round_trip(p.0, edx, edy, w, h);
            assert(senders.contains(i) && p == f(i));
        }
    }

    vstd::set_lib::lemma_map_size(senders, slots, f);
}

/// A toroidal grid of cells driven by a simulation `S`.
///
/// Owns a flat cell buffer of length `width * height`; every neighbor
/// lookup wraps on each axis independently, so each cell has a full
/// neighborhood and no index is ever out of range.
pub struct SquareGrid<S: Sim> {
    width: usize,
    height: usize,
    cells: Vec<S::Cell>,
}

impl<S: Sim> SquareGrid<S> {
    /// Structural invariant: positive dimensions, and a cell buffer of
    /// exactly `width * height` cells.
    pub closed spec fn wf(&self) -> bool {
        &&& 1 <= self.width
        &&& 1 <= self.height
        &&& self.cells@.len() == self.width * self.height
        &&& self.width * self.height <= usize::MAX
    }

    pub closed spec fn spec_width(&self) -> usize {
        self.width
    }

    pub closed spec fn spec_height(&self) -> usize {
        self.height
    }

    pub closed spec fn spec_cells(&self) -> Seq<S::Cell> {
        self.cells@
    }

    pub closed spec fn spec_size(&self) -> int {
        self.width * self.height
    }

    /// Builds a grid from fixed dimensions and initial cell contents,
    /// rejecting dimensions that do not describe the supplied buffer.
    pub fn new(width: usize, height: usize, cells: Vec<S::Cell>) -> (r: Result<
        SquareGrid<S>,
        GridError,
    >)
        ensures
            match r {
                Ok(g) => {
                    &&& g.wf()
                    &&& g.spec_width() == width
                    &&& g.spec_height() == height
                    &&& g.spec_cells() == cells@
                    &&& 1 <= width
                    &&& 1 <= height
                    &&& cells@.len() == width * height
                },
                Err(GridError::ZeroDimension) => width == 0 || height == 0,
                Err(GridError::SizeMismatch) => {
                    &&& 1 <= width
                    &&& 1 <= height
                    &&& cells@.len() != width * height
                },
            },
    {
        if width == 0 || height == 0 {
            return Err(GridError::ZeroDimension);
        }
        match width.checked_mul(height) {
            Some(sz) => {
                if sz == cells.len() {
                    Ok(SquareGrid { width, height, cells })
                } else {
                    Err(GridError::SizeMismatch)
                }
            },
            None => {
                let len = cells.len();
                proof {
                    assert(len <= usize::MAX);
                }
                Err(GridError::SizeMismatch)
            },
        }
    }

    pub fn width(&self) -> (r: usize)
        ensures
            r == self.spec_width(),
    {
        self.width
    }

    pub fn height(&self) -> (r: usize)
        ensures
            r == self.spec_height(),
    {
        self.height
    }

    /// Decides the structural invariant, for callers that hold a grid of
    /// unknown provenance. Every grid built by `new` satisfies it, and
    /// every method preserves it.
    pub fn is_well_formed(&self) -> (r: bool)
        ensures
            r == self.wf(),
    {
        match self.width.checked_mul(self.height) {
            Some(sz) => 1 <= self.width && 1 <= self.height && sz == self.cells.len(),
            None => false,
        }
    }

    /// The number of cells, `width * height`.
    pub fn size(&self) -> (r: usize)
        requires
            self.wf(),
        ensures
            r == self.spec_size(),
    {
        self.cells.len()
    }

    /// The current committed cell at a linear index; any index is valid,
    /// wrapping around the whole buffer.
    pub fn cell_at(&self, i: usize) -> (r: &S::Cell)
        requires
            self.wf(),
        ensures
            *r == self.spec_cells()[i as int % self.spec_size()],
    {
        proof {
            assert(1 * 1 <= self.width * self.height) by (nonlinear_arith)
                requires
                    1 <= self.width,
                    1 <= self.height,
            ;
            assert(i as int % self.spec_size() < self.spec_size()) by {
                vstd::arithmetic::div_mod::lemma_mod_division_less_than_divisor(
                    i as int,
                    self.spec_size(),
                );
            }
        }
        let sz = self.cells.len();
        &self.cells[i % sz]
    }

    /// The current committed cell at 2-D coordinates; any coordinates are
    /// valid, wrapping on each axis independently.
    pub fn cell_at_coord(&self, x: usize, y: usize) -> (r: &S::Cell)
        requires
            self.wf(),
        ensures
            *r == self.spec_cells()[x as int % self.spec_width() as int + self.spec_width() * (
            y as int % self.spec_height() as int)],
    {
        let xr = x % self.width;
        let yr = y % self.height;
        proof {
            assert(0 <= xr + self.width * yr < self.width * self.height) by (nonlinear_arith)
                requires
                    0 <= xr < self.width,
                    0 <= yr < self.height,
                    1 <= self.width,
            ;
        }
        &self.cells[xr + self.width * yr]
    }

    /// The wrapped linear index of the neighbor reached from `i` by a unit
    /// offset.
    pub fn neighbor_index(&self, i: usize, delta: (isize, isize)) -> (r: usize)
        requires
            self.wf(),
            -1 <= delta.0 <= 1,
            -1 <= delta.1 <= 1,
        ensures
            r == torus_index(
                i as int,
                delta.0 as int,
                delta.1 as int,
                self.spec_width() as int,
                self.spec_height() as int,
            ),
            r < self.spec_size(),
    {
        neighbor_index_of(i, delta.0, delta.1, self.width, self.height)
    }

    /// The references to the four neighbors of cell `i`, one per direction.
    pub fn get_neighbors(&self, i: usize) -> (r: MooreNeighbors<&S::Cell>)
        requires
            self.wf(),
            i < self.spec_size(),
        ensures
            deref_moore(r) == nbrs_at(
                self.spec_cells(),
                self.spec_width() as int,
                self.spec_height() as int,
                i as int,
            ),
    {
        let w = self.width;
        let h = self.height;
        MooreNeighbors {
            right: &self.cells[neighbor_index_of(i, 1, 0, w, h)],
            up: &self.cells[neighbor_index_of(i, 0, -1, w, h)],
            left: &self.cells[neighbor_index_of(i, -1, 0, w, h)],
            down: &self.cells[neighbor_index_of(i, 0, 1, w, h)],
        }
    }

    /// Phase-one unit of work: the step result of cell `i`, computed from
    /// the current committed buffer alone. Safe to evaluate for different
    /// cells concurrently, since it only reads.
    pub fn step_cell(&self, i: usize) -> (r: (S::Diff, Option<(MooreDirection, S::Mv)>))
        requires
            self.wf(),
            i < self.spec_size(),
        ensures
            r == step_at::<S>(
                self.spec_cells(),
                self.spec_width() as int,
                self.spec_height() as int,
                i as int,
            ),
    {
        let neighbors = self.get_neighbors(i);
        S::step(&self.cells[i], neighbors)
    }

    /// Phase two: commits one cycle from the step results of all cells.
    ///
    /// Each outgoing payload is first resolved to its unique destination
    /// slot by a single authoritative take that clears the sender's slot —
    /// no payload can be claimed twice, and none is dropped — and then
    /// every cell is updated in place with its diff and its inbox.
    pub fn apply(&mut self, results: Vec<(S::Diff, Option<(MooreDirection, S::Mv)>)>)
        requires
            old(self).wf(),
            results@.len() == old(self).spec_size(),
        ensures
            final(self).wf(),
            final(self).spec_width() == old(self).spec_width(),
            final(self).spec_height() == old(self).spec_height(),
            final(self).spec_cells().len() == old(self).spec_cells().len(),
            forall|j: int|
                0 <= j < old(self).spec_size() ==> final(self).spec_cells()[j] == S::update_spec(
                    old(self).spec_cells()[j],
                    results@[j].0,
                    inbox_from::<S>(
                        outs_of::<S>(results@),
                        old(self).spec_width() as int,
                        old(self).spec_height() as int,
                        j,
                    ),
                ),
    {
        let n = self.cells.len();
        let w = self.width;
        let h = self.height;
        let ghost w_i = w as int;
        let ghost h_i = h as int;
        let mut results = results;
        let ghost results0 = results@;
        let ghost outs0 = outs_of::<S>(results0);

        let mut inboxes: Vec<MooreNeighbors<Option<S::Mv>>> = Vec::new();
        let mut m: usize = 0;
        while m < n
            invariant
                m <= n,
                inboxes@.len() == m,
                forall|j2: int| 0 <= j2 < m ==> inboxes@[j2] == empty_inbox::<S::Mv>(),
            decreases n - m,
        {
            inboxes.push(MooreNeighbors { right: None, up: None, left: None, down: None });
            m += 1;
        }

        let mut i: usize = 0;
        while i < n
            invariant
                i <= n,
                self == old(self),
                self.wf(),
                w == self.width,
                h == self.height,
                n == self.spec_size(),
                w_i == w as int,
                h_i == h as int,
                results@.len() == n,
                results0.len() == n,
                outs0 == outs_of::<S>(results0),
                forall|k: int| 0 <= k < n ==> results@[k].0 == results0[k].0,
                forall|k: int| i <= k < n ==> results@[k].1 == results0[k].1,
                inboxes@.len() == n,
                forall|j2: int, e2: MooreDirection|
                    0 <= j2 < n ==> #[trigger] inboxes@[j2].spec_get(e2) == partial_slot::<S>(
                        outs0,
                        w_i,
                        h_i,
                        j2,
                        e2,
                        i as int,
                    ),
            decreases n - i,
        {
            let ghost inboxes_before = inboxes@;
            let out = results[i].1.take();
            proof {
                assert(out == outs0[i as int]);
            }
            match out {
                Some(pair) => {
                    let (d, m_payload) = pair;
                    let dd = d.delta();
                    let j = neighbor_index_of(i, dd.0, dd.1, w, h);
                    let e0 = d.inv();
                    let slot = &mut inboxes[j];
                    let ghost slot0 = *slot;
                    match e0 {
                        MooreDirection::Right => {
                            slot.right = Some(m_payload);
                        },
                        MooreDirection::Up => {
                            slot.up = Some(m_payload);
                        },
                        MooreDirection::Left => {
                            slot.left = Some(m_payload);
                        },
                        MooreDirection::Down => {
                            slot.down = Some(m_payload);
                        },
                    }
                    proof {
                        assert(slot.spec_get(e0) == Some(m_payload));
                        assert(forall|e2: MooreDirection|
                            e2 != e0 ==> #[trigger] slot.spec_get(e2) == slot0.spec_get(e2));
                    }
                    proof {
                        let dx = d.delta_spec().0 as int;
                        let dy = d.delta_spec().1 as int;
                        crate::moore::lemma_moore_inv(d);
                        lemma_torus_round_trip(i as int, dx, dy, w_i, h_i);
                        assert(torus_index(
                            j as int,
                            e0.delta_spec().0 as int,
                            e0.delta_spec().1 as int,
                            w_i,
                            h_i,
                        ) == i as int);
                        assert forall|j2: int, e2: MooreDirection| 0 <= j2 < n implies #[trigger] inboxes@[j2].spec_get(e2)
                            == partial_slot::<S>(outs0, w_i, h_i, j2, e2, i + 1) by {
                            let e2dx = e2.delta_spec().0 as int;
                            let e2dy = e2.delta_spec().1 as int;
                            let nje = torus_index(j2, e2dx, e2dy, w_i, h_i);
                            lemma_torus_index_bounds(j2, e2dx, e2dy, w_i, h_i);
                            crate::moore::lemma_moore_inv(e2);
                            if j2 == j as int && e2 == e0 {
                                assert(nje == i as int);
                                assert(inboxes@[j2].spec_get(e2) == Some(m_payload));
                                assert(outs0[nje] == Some((d, m_payload)));
                                assert(d == e2.inv_spec());
                            } else {
                                if j2 == j as int {
                                    assert(inboxes@[j2].spec_get(e2) == inboxes_before[j2].spec_get(
                                        e2,
                                    ));
                                } else {
                                    assert(inboxes@[j2] == inboxes_before[j2]);
                                }
                                if nje == i as int {
                                    // the direction check for this sender passes only on
                                    // the one slot written above
                                    if d == e2.inv_spec() {
                                        assert(e2 == e0);
                                        lemma_torus_round_trip(j2, e2dx, e2dy, w_i, h_i);
                                        assert(j2 == j as int);
                                        assert(false);
                                    }
                                    assert(inbox_slot_from::<S>(outs0, w_i, h_i, j2, e2)
                                        == None::<S::Mv>);
                                }
                            }
                        }
                    }
                },
                None => {
                    proof {
                        assert forall|j2: int, e2: MooreDirection| 0 <= j2 < n implies #[trigger] inboxes@[j2].spec_get(e2)
                            == partial_slot::<S>(outs0, w_i, h_i, j2, e2, i + 1) by {
                            let e2dx = e2.delta_spec().0 as int;
                            let e2dy = e2.delta_spec().1 as int;
                            let nje = torus_index(j2, e2dx, e2dy, w_i, h_i);
                            lemma_torus_index_bounds(j2, e2dx, e2dy, w_i, h_i);
                            if nje == i as int {
                                assert(inbox_slot_from::<S>(outs0, w_i, h_i, j2, e2)
                                    == None::<S::Mv>);
                            }
                        }
                    }
                },
            }
            i += 1;
        }

        proof {
            assert forall|j2: int| 0 <= j2 < n implies inboxes@[j2] == inbox_from::<S>(
                outs0,
                w_i,
                h_i,
                j2,
            ) by {
                assert forall|e2: MooreDirection| #[trigger] inboxes@[j2].spec_get(e2)
                    == inbox_slot_from::<S>(outs0, w_i, h_i, j2, e2) by {
                    let e2dx = e2.delta_spec().0 as int;
                    let e2dy = e2.delta_spec().1 as int;
                    lemma_torus_index_bounds(j2, e2dx, e2dy, w_i, h_i);
                    assert(inboxes@[j2].spec_get(e2) == partial_slot::<S>(
                        outs0,
                        w_i,
                        h_i,
                        j2,
                        e2,
                        n as int,
                    ));
                }
                assert(inboxes@[j2].right == inboxes@[j2].spec_get(MooreDirection::Right));
                assert(inboxes@[j2].up == inboxes@[j2].spec_get(MooreDirection::Up));
                assert(inboxes@[j2].left == inboxes@[j2].spec_get(MooreDirection::Left));
                assert(inboxes@[j2].down == inboxes@[j2].spec_get(MooreDirection::Down));
            }
        }

        let mut k = n;
        while k > 0
            invariant
                k <= n,
                self.width == old(self).width,
                self.height == old(self).height,
                self.wf(),
                w == self.width,
                h == self.height,
                n == self.spec_size(),
                w_i == w as int,
                h_i == h as int,
                self.cells@.len() == n,
                results@.len() == k,
                results0.len() == n,
                outs0 == outs_of::<S>(results0),
                forall|j2: int| 0 <= j2 < k ==> results@[j2].0 == results0[j2].0,
                inboxes@.len() == k,
                forall|j2: int|
                    0 <= j2 < k ==> inboxes@[j2] == inbox_from::<S>(outs0, w_i, h_i, j2),
                forall|j2: int| 0 <= j2 < k ==> self.cells@[j2] == old(self).cells@[j2],
                forall|j2: int|
                    k <= j2 < n ==> self.cells@[j2] == committed::<S>(
                        old(self).cells@,
                        results0,
                        w_i,
                        h_i,
                        j2,
                    ),
            decreases k,
        {
            k -= 1;
            let inbox = inboxes.pop().unwrap();
            let (diff, _) = results.pop().unwrap();
            S::update(&mut self.cells[k], diff, inbox);
        }
    }

    /// Runs the grid for one cycle: a step pass that only reads the current
    /// committed buffer and computes every cell's step result, then a
    /// commit pass over those results. The committed buffer is a pure
    /// function of the prior buffer and the dimensions, so two grids with
    /// identical dimensions and identical cells agree after any number of
    /// cycles.
    pub fn cycle(&mut self)
        requires
            old(self).wf(),
        ensures
            final(self).wf(),
            final(self).spec_width() == old(self).spec_width(),
            final(self).spec_height() == old(self).spec_height(),
            final(self).spec_cells() == cycle_spec::<S>(
                old(self).spec_cells(),
                old(self).spec_width() as int,
                old(self).spec_height() as int,
            ),
    {
        let n = self.cells.len();
        let ghost w_i = self.width as int;
        let ghost h_i = self.height as int;
        let mut results: Vec<(S::Diff, Option<(MooreDirection, S::Mv)>)> = Vec::new();
        let mut i: usize = 0;
        while i < n
            invariant
                i <= n,
                self == old(self),
                self.wf(),
                n == self.spec_size(),
                w_i == self.spec_width() as int,
                h_i == self.spec_height() as int,
                results@.len() == i,
                forall|k: int|
                    0 <= k < i ==> results@[k] == step_at::<S>(self.spec_cells(), w_i, h_i, k),
            decreases n - i,
        {
            results.push(self.step_cell(i));
            i += 1;
        }
        proof {
            assert(outs_of::<S>(results@) =~= step_outs::<S>(old(self).spec_cells(), w_i, h_i));
        }
        self.apply(results);
        proof {
            assert(self.spec_cells() =~= cycle_spec::<S>(old(self).spec_cells(), w_i, h_i));
        }
    }
}

} // verus!
