use gridsim::moore::{MooreDirection, MooreNeighbors};
use gridsim::neumann::{Direction, Neighbors};

#[test]
fn moore_inverse_is_involution_and_deltas_cancel() {
    for d in MooreDirection::directions() {
        assert_eq!(d.inv().inv(), d);
        let (dx, dy) = d.delta();
        let (ix, iy) = d.inv().delta();
        assert_eq!(dx + ix, 0);
        assert_eq!(dy + iy, 0);
    }
}

#[test]
fn neumann_inverse_is_involution_and_deltas_cancel() {
    for d in Direction::directions() {
        assert_eq!(d.inv().inv(), d);
        let (dx, dy) = d.delta();
        let (ix, iy) = d.inv().delta();
        assert_eq!(dx + ix, 0);
        assert_eq!(dy + iy, 0);
    }
}

#[test]
fn moore_directions_order_is_canonical_and_stable() {
    let once = MooreDirection::directions();
    let again = MooreDirection::directions();
    assert_eq!(once, again);
    assert_eq!(
        once,
        vec![
            MooreDirection::Right,
            MooreDirection::Up,
            MooreDirection::Left,
            MooreDirection::Down,
        ]
    );
}

#[test]
fn neumann_directions_order_is_canonical_and_stable() {
    let once = Direction::directions();
    let again = Direction::directions();
    assert_eq!(once, again);
    assert_eq!(
        once,
        vec![
            Direction::Right,
            Direction::UpRight,
            Direction::Up,
            Direction::UpLeft,
            Direction::Left,
            Direction::DownLeft,
            Direction::Down,
            Direction::DownRight,
        ]
    );
}

#[test]
fn moore_index_round_trip() {
    for (k, d) in MooreDirection::directions().into_iter().enumerate() {
        assert_eq!(d.index_of(), k);
        assert_eq!(MooreDirection::from_index(k), d);
    }
}

#[test]
fn moore_neighborhood_iteration_matches_directions_order() {
    let n = MooreNeighbors { right: 10u64, up: 20, left: 30, down: 40 };
    let values = n.to_vec();
    assert_eq!(values, vec![10, 20, 30, 40]);
    assert_eq!(n.to_vec(), values);
    for (k, d) in MooreDirection::directions().into_iter().enumerate() {
        assert_eq!(*n.get(d), values[k]);
    }
    let entries = n.dir_to_vec();
    let dirs: Vec<MooreDirection> = entries.iter().map(|e| e.0).collect();
    assert_eq!(dirs, MooreDirection::directions());
    for (d, v) in entries {
        assert_eq!(*n.get(d), v);
    }
}

#[test]
fn neumann_neighborhood_iteration_matches_directions_order() {
    let n = Neighbors {
        right: 1u64,
        up_right: 2,
        up: 3,
        up_left: 4,
        left: 5,
        down_left: 6,
        down: 7,
        down_right: 8,
    };
    let values = n.to_vec();
    assert_eq!(values, vec![1, 2, 3, 4, 5, 6, 7, 8]);
    assert_eq!(n.to_vec(), values);
    for (k, d) in Direction::directions().into_iter().enumerate() {
        assert_eq!(*n.get(d), values[k]);
    }
    let entries = n.dir_to_vec();
    let dirs: Vec<Direction> = entries.iter().map(|e| e.0).collect();
    assert_eq!(dirs, Direction::directions());
}

#[test]
fn moore_neighborhood_built_by_supplier_in_canonical_order() {
    let n = MooreNeighbors::from_fn(|d: MooreDirection| d.index_of() as u64 * 100);
    assert_eq!(n.right, 0);
    assert_eq!(n.up, 100);
    assert_eq!(n.left, 200);
    assert_eq!(n.down, 300);
}

#[test]
fn neumann_neighborhood_built_by_supplier() {
    let n = Neighbors::from_fn(|d: Direction| d.delta().0 + 2 * d.delta().1);
    assert_eq!(n.right, 1);
    assert_eq!(n.up_right, -1);
    assert_eq!(n.up, -2);
    assert_eq!(n.down_right, 3);
}

#[test]
fn as_ref_and_copied_preserve_fields() {
    let n = MooreNeighbors { right: 1u64, up: 2, left: 3, down: 4 };
    let r = n.as_ref();
    assert_eq!(*r.right, 1);
    assert_eq!(*r.down, 4);
    let c = r.copied();
    assert_eq!(c.to_vec(), n.to_vec());
    let n8 = Neighbors {
        right: 1u64,
        up_right: 2,
        up: 3,
        up_left: 4,
        left: 5,
        down_left: 6,
        down: 7,
        down_right: 8,
    };
    let c8 = n8.as_ref().copied();
    assert_eq!(c8.to_vec(), n8.to_vec());
}
