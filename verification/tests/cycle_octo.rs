use gridsim::octo::OctoGrid;
use gridsim::rules::ByteSum;

fn build(w: usize, h: usize, cells: Vec<u64>) -> OctoGrid<ByteSum> {
    match OctoGrid::new(w, h, cells) {
        Ok(g) => g,
        Err(_) => panic!("grid must construct"),
    }
}

fn buffer(g: &OctoGrid<ByteSum>) -> Vec<u64> {
    (0..g.size()).map(|i| *g.cell_at(i)).collect()
}

#[test]
fn two_by_two_neighborhoods_repeat_physical_cells_once_per_direction() {
    let g = build(2, 2, vec![1, 2, 3, 4]);
    let n = g.get_neighbors(0);
    // only three distinct physical neighbors exist, yet all eight entries
    // are populated, one per direction
    assert_eq!(
        n.to_vec().into_iter().copied().collect::<Vec<u64>>(),
        vec![2, 4, 3, 4, 2, 4, 3, 4]
    );
}

#[test]
fn two_by_two_cycle_counts_duplicated_neighbors() {
    let mut g = build(2, 2, vec![1, 2, 3, 4]);
    g.cycle();
    // each sum counts a repeated neighbor once per direction; deduplicated
    // neighborhoods would give 9, 8, 7 and 6 instead
    assert_eq!(buffer(&g), vec![26, 22, 18, 14]);
}

#[test]
fn single_cell_grid_counts_itself_eight_times() {
    let mut g = build(1, 1, vec![9]);
    g.cycle();
    assert_eq!(buffer(&g), vec![72]);
    g.cycle();
    assert_eq!(buffer(&g), vec![576]);
    g.cycle();
    assert_eq!(buffer(&g), vec![8 * (576 % 256)]);
}

#[test]
fn byte_sum_uses_low_byte_only() {
    let mut g = build(1, 1, vec![0x1_0203]);
    g.cycle();
    assert_eq!(buffer(&g), vec![8 * 3]);
}

#[test]
fn identical_octo_grids_stay_identical_over_many_cycles() {
    let cells: Vec<u64> = (0..9).map(|i| i * 29 + 3).collect();
    let mut a = build(3, 3, cells.clone());
    let mut b = build(3, 3, cells);
    for _ in 0..4 {
        a.cycle();
        b.cycle();
        assert_eq!(buffer(&a), buffer(&b));
    }
}

#[test]
fn octo_step_results_applied_by_hand_match_cycle() {
    let cells: Vec<u64> = (0..12).collect();
    let mut by_phases = build(4, 3, cells.clone());
    let mut whole = build(4, 3, cells);
    let next: Vec<u64> = (0..by_phases.size()).map(|i| by_phases.step_cell(i)).collect();
    by_phases.apply(next);
    whole.cycle();
    assert_eq!(buffer(&by_phases), buffer(&whole));
}
