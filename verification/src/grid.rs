//! Toroidal index arithmetic: the wrapped linear index of a neighbor, with
//! independent wraparound on each axis, and the proofs that stepping by a
//! direction and then by its inverse returns to the origin cell.

use crate::moore::MooreDirection;
use crate::neumann::Direction;
use vstd::arithmetic::div_mod::{
    lemma_add_mod_noop, lemma_add_mod_noop_right, lemma_basic_div, lemma_div_pos_is_pos,
    lemma_fundamental_div_mod, lemma_hoist_over_denominator, lemma_mod_add_multiples_vanish,
    lemma_mod_division_less_than_divisor, lemma_mod_multiples_vanish, lemma_mod_self_0,
    lemma_small_mod,
};
use vstd::prelude::*;

verus! {

/// The wrapped linear index of the cell reached from linear index `i` by
/// offset `(dx, dy)` on a `w` by `h` torus.
///
/// Each axis wraps independently: the column is `(i % w + dx) mod w` and the
/// row is `(i / w + dy) mod h`. A flat modulo of the combined index would be
/// wrong whenever the offset crosses a row boundary.
pub open spec fn torus_index(i: int, dx: int, dy: int, w: int, h: int) -> int {
    (i % w + dx) % w + w * ((i / w + dy) % h)
}

/// A torus index is always a valid cell index.
pub proof fn lemma_torus_index_bounds(i: int, dx: int, dy: int, w: int, h: int)
    requires
        1 <= w,
        1 <= h,
        0 <= i,
    ensures
        0 <= torus_index(i, dx, dy, w, h) < w * h,
{
    let x2 = (i % w + dx) % w;
    let y2 = (i / w + dy) % h;
    lemma_mod_division_less_than_divisor(i % w + dx, w);
    lemma_mod_division_less_than_divisor(i / w + dy, h);
    assert(0 <= x2 + w * y2 < w * h) by (nonlinear_arith)
        requires
            0 <= x2 < w,
            0 <= y2 < h,
            1 <= w,
    ;
}

/// A valid index `i` decomposes as column `i % w` and row `i / w`, with the
/// row below `h`.
pub proof fn lemma_index_decomposition(i: int, w: int, h: int)
    requires
        1 <= w,
        1 <= h,
        0 <= i < w * h,
    ensures
        0 <= i % w < w,
        0 <= i / w < h,
        i == w * (i / w) + i % w,
{
    lemma_mod_division_less_than_divisor(i, w);
    lemma_div_pos_is_pos(i, w);
    lemma_fundamental_div_mod(i, w);
    if i / w >= h {
        assert(w * (i / w) >= w * h) by (nonlinear_arith)
            requires
                i / w >= h,
                1 <= w,
        ;
    }
}

/// Stepping by `(dx, dy)` and then by `(-dx, -dy)` returns to the origin
/// cell, for every valid index — including cells on a grid edge or corner.
pub proof fn lemma_torus_round_trip(i: int, dx: int, dy: int, w: int, h: int)
    requires
        1 <= w,
        1 <= h,
        0 <= i < w * h,
    ensures
        torus_index(torus_index(i, dx, dy, w, h), -dx, -dy, w, h) == i,
{
    let x = i % w;
    let y = i / w;
    lemma_index_decomposition(i, w, h);
    let x2 = (x + dx) % w;
    let y2 = (y + dy) % h;
    lemma_mod_division_less_than_divisor(x + dx, w);
    lemma_mod_division_less_than_divisor(y + dy, h);
    let j = x2 + w * y2;
    assert(torus_index(i, dx, dy, w, h) == j);
    assert(j % w == x2) by {
        lemma_mod_multiples_vanish(y2, x2, w);
        lemma_small_mod(x2 as nat, w as nat);
    }
    assert(j / w == y2) by {
        lemma_hoist_over_denominator(x2, y2, w as nat);
        lemma_basic_div(x2, w);
    }
    assert((x2 + (-dx)) % w == x) by {
        lemma_add_mod_noop(x + dx, -dx, w);
        lemma_add_mod_noop_right((x + dx) % w, -dx, w);
        lemma_small_mod(x as nat, w as nat);
    }
    assert((y2 + (-dy)) % h == y) by {
        lemma_add_mod_noop(y + dy, -dy, h);
        lemma_add_mod_noop_right((y + dy) % h, -dy, h);
        lemma_small_mod(y as nat, h as nat);
    }
    assert(torus_index(j, -dx, -dy, w, h) == x + w * y);
}

/// Two distinct valid indices never reach the same cell by the same offset.
pub proof fn lemma_torus_index_injective(j1: int, j2: int, dx: int, dy: int, w: int, h: int)
    requires
        1 <= w,
        1 <= h,
        0 <= j1 < w * h,
        0 <= j2 < w * h,
        torus_index(j1, dx, dy, w, h) == torus_index(j2, dx, dy, w, h),
    ensures
        j1 == j2,
{
    lemma_torus_round_trip(j1, dx, dy, w, h);
    lemma_torus_round_trip(j2, dx, dy, w, h);
}

/// Round trip through a 4-way direction and its inverse returns to the
/// origin cell, for any valid index of a `w` by `h` grid.
pub proof fn lemma_moore_round_trip(i: int, d: MooreDirection, w: int, h: int)
    requires
        1 <= w,
        1 <= h,
        0 <= i < w * h,
    ensures
        torus_index(
            torus_index(i, d.delta_spec().0 as int, d.delta_spec().1 as int, w, h),
            d.inv_spec().delta_spec().0 as int,
            d.inv_spec().delta_spec().1 as int,
            w,
            h,
        ) == i,
{
    crate::moore::lemma_moore_inv(d);
    lemma_torus_round_trip(i, d.delta_spec().0 as int, d.delta_spec().1 as int, w, h);
}

/// Round trip through an 8-way direction and its inverse returns to the
/// origin cell, for any valid index of a `w` by `h` grid.
pub proof fn lemma_neumann_round_trip(i: int, d: Direction, w: int, h: int)
    requires
        1 <= w,
        1 <= h,
        0 <= i < w * h,
    ensures
        torus_index(
            torus_index(i, d.delta_spec().0 as int, d.delta_spec().1 as int, w, h),
            d.inv_spec().delta_spec().0 as int,
            d.inv_spec().delta_spec().1 as int,
            w,
            h,
        ) == i,
{
    crate::neumann::lemma_direction_inv(d);
    lemma_torus_round_trip(i, d.delta_spec().0 as int, d.delta_spec().1 as int, w, h);
}

/// Computes `torus_index` for a unit offset, without overflow.
pub fn neighbor_index_of(i: usize, dx: isize, dy: isize, w: usize, h: usize) -> (r: usize)
    requires
        1 <= w,
        1 <= h,
        w * h <= usize::MAX,
        -1 <= dx <= 1,
        -1 <= dy <= 1,
    ensures
        r == torus_index(i as int, dx as int, dy as int, w as int, h as int),
        r < w * h,
{
    let x = i % w;
    let y = (i / w) % h;
    proof {
        lemma_mod_division_less_than_divisor(i as int, w as int);
        lemma_mod_division_less_than_divisor(i as int / w as int, h as int);
        lemma_div_pos_is_pos(i as int, w as int);
    }
    let nx = if dx < 0 {
        proof {
            lemma_add_mod_noop(i as int, -1, w as int);
            lemma_add_mod_noop_right(x as int, -1, w as int);
            if x == 0 {
                lemma_mod_add_multiples_vanish(-1, w as int);
                lemma_small_mod((w - 1) as nat, w as nat);
            } else {
                lemma_small_mod((x - 1) as nat, w as nat);
            }
        }
        if x == 0 {
            w - 1
        } else {
            x - 1
        }
    } else if dx > 0 {
        proof {
            lemma_add_mod_noop(i as int, 1, w as int);
            lemma_add_mod_noop_right(x as int, 1, w as int);
            if x + 1 == w {
                lemma_mod_self_0(w as int);
            } else {
                lemma_small_mod((x + 1) as nat, w as nat);
            }
        }
        if x + 1 == w {
            0
        } else {
            x + 1
        }
    } else {
        proof {
            lemma_small_mod(x as nat, w as nat);
        }
        x
    };
    let ny = if dy < 0 {
        proof {
            lemma_add_mod_noop(i as int / w as int, -1, h as int);
            lemma_add_mod_noop_right(y as int, -1, h as int);
            if y == 0 {
                lemma_mod_add_multiples_vanish(-1, h as int);
                lemma_small_mod((h - 1) as nat, h as nat);
            } else {
                lemma_small_mod((y - 1) as nat, h as nat);
            }
        }
        if y == 0 {
            h - 1
        } else {
            y - 1
        }
    } else if dy > 0 {
        proof {
            lemma_add_mod_noop(i as int / w as int, 1, h as int);
            lemma_add_mod_noop_right(y as int, 1, h as int);
            if y + 1 == h {
                lemma_mod_self_0(h as int);
            } else {
                lemma_small_mod((y + 1) as nat, h as nat);
            }
        }
        if y + 1 == h {
            0
        } else {
            y + 1
        }
    } else {
        proof {
            lemma_small_mod(y as nat, h as nat);
        }
        y
    };
    proof {
        assert(0 <= nx + w * ny < w * h) by (nonlinear_arith)
            requires
                0 <= nx < w,
                0 <= ny < h,
                1 <= w,
        ;
    }
    nx + w * ny
}

} // verus!
