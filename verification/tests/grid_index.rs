use gridsim::moore::MooreDirection;
use gridsim::neumann::Direction;
use gridsim::octo::OctoGrid;
use gridsim::rules::{ByteSum, ShiftEast};
use gridsim::sim::GridError;
use gridsim::square::SquareGrid;

fn grid3x3() -> SquareGrid<ShiftEast> {
    match SquareGrid::new(3, 3, (0..9u64).collect()) {
        Ok(g) => g,
        Err(_) => panic!("3x3 grid must construct"),
    }
}

#[test]
fn construction_rejects_zero_dimension() {
    let r: Result<SquareGrid<ShiftEast>, GridError> = SquareGrid::new(0, 3, vec![]);
    assert!(matches!(r, Err(GridError::ZeroDimension)));
    let r: Result<SquareGrid<ShiftEast>, GridError> = SquareGrid::new(3, 0, vec![1, 2, 3]);
    assert!(matches!(r, Err(GridError::ZeroDimension)));
    let r: Result<OctoGrid<ByteSum>, GridError> = OctoGrid::new(0, 0, vec![]);
    assert!(matches!(r, Err(GridError::ZeroDimension)));
}

#[test]
fn construction_rejects_size_mismatch() {
    let r: Result<SquareGrid<ShiftEast>, GridError> = SquareGrid::new(3, 3, vec![1, 2, 3]);
    assert!(matches!(r, Err(GridError::SizeMismatch)));
    let r: Result<OctoGrid<ByteSum>, GridError> = OctoGrid::new(2, 2, (0..5u64).collect());
    assert!(matches!(r, Err(GridError::SizeMismatch)));
    let r: Result<SquareGrid<ShiftEast>, GridError> = SquareGrid::new(usize::MAX, 2, vec![7]);
    assert!(matches!(r, Err(GridError::SizeMismatch)));
}

#[test]
fn construction_accepts_matching_dimensions() {
    let g = grid3x3();
    assert!(g.is_well_formed());
    assert_eq!(g.width(), 3);
    assert_eq!(g.height(), 3);
    assert_eq!(g.size(), 9);
}

#[test]
fn cell_access_wraps_any_index() {
    let g = grid3x3();
    assert_eq!(*g.cell_at(4), 4);
    assert_eq!(*g.cell_at(13), 4);
    assert_eq!(*g.cell_at(9), 0);
    assert_eq!(*g.cell_at_coord(1, 2), 7);
    assert_eq!(*g.cell_at_coord(4, 5), 7);
}

#[test]
fn neighbor_index_wraps_each_axis_independently() {
    let g = grid3x3();
    // right edge wraps to column 0 of the same row, not to the next row
    assert_eq!(g.neighbor_index(2, (1, 0)), 0);
    assert_eq!(g.neighbor_index(5, (1, 0)), 3);
    assert_eq!(g.neighbor_index(0, (-1, 0)), 2);
    // top edge wraps to the bottom row
    assert_eq!(g.neighbor_index(0, (0, -1)), 6);
    assert_eq!(g.neighbor_index(8, (0, 1)), 2);
    // corner, both axes at once
    assert_eq!(g.neighbor_index(8, (1, 1)), 0);
    assert_eq!(g.neighbor_index(0, (-1, -1)), 8);
}

#[test]
fn neighbor_index_accepts_out_of_range_indices() {
    let g = grid3x3();
    // index 10 first reduces to column 1, row 0
    assert_eq!(g.neighbor_index(10, (1, 0)), 2);
    assert_eq!(g.neighbor_index(10, (0, 1)), 4);
    assert_eq!(g.neighbor_index(9, (0, 0)), 0);
}

#[test]
fn moore_neighbor_round_trip_everywhere() {
    let g = grid3x3();
    for i in 0..9 {
        for d in MooreDirection::directions() {
            let j = g.neighbor_index(i, d.delta());
            assert_eq!(g.neighbor_index(j, d.inv().delta()), i);
        }
    }
}

#[test]
fn neumann_neighbor_round_trip_everywhere() {
    let g: OctoGrid<ByteSum> = match OctoGrid::new(4, 3, (0..12u64).collect()) {
        Ok(g) => g,
        Err(_) => panic!("4x3 grid must construct"),
    };
    for i in 0..12 {
        for d in Direction::directions() {
            let j = g.neighbor_index(i, d.delta());
            assert_eq!(g.neighbor_index(j, d.inv().delta()), i);
        }
    }
}

#[test]
fn get_neighbors_reads_wrapped_cells() {
    let g = grid3x3();
    // cell 2 sits on the right edge of the top row
    let n = g.get_neighbors(2);
    assert_eq!(*n.right, 0);
    assert_eq!(*n.left, 1);
    assert_eq!(*n.up, 8);
    assert_eq!(*n.down, 5);
}
