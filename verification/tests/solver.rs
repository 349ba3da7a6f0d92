use plant_simulation::engine::delaunay::{
    delaunay_triangulation, get_near_cells, solver_input, SolverOutcome, TetGenResult,
};
use plant_simulation::shared::cell::CellInformation;
use plant_simulation::shared::point::Point3;
use tritet::Tetgen;

const ONE: i64 = 1_000_000;

fn cell(id: u64, x: i64, y: i64, z: i64, radius: i64) -> CellInformation {
    CellInformation { id, position: Point3::new(x, y, z), radius }
}

/// Runs the solver on the centres that the library hands out.
fn solve(cells: &Vec<CellInformation>) -> SolverOutcome {
    let points = match solver_input(cells) {
        Some(points) => points,
        None => return SolverOutcome::NotRun,
    };
    let mut tetgen = match Tetgen::new(points.len(), None, None, None) {
        Ok(tetgen) => tetgen,
        Err(message) => return SolverOutcome::Failed(String::from(message)),
    };
    for (index, p) in points.iter().enumerate() {
        if let Err(message) = tetgen.set_point(index, 0, p.x as f64, p.y as f64, p.z as f64) {
            return SolverOutcome::Failed(String::from(message));
        }
    }
    if let Err(message) = tetgen.generate_delaunay(false) {
        return SolverOutcome::Failed(String::from(message));
    }
    let mut tetrahedra = vec![];
    for t in 0..tetgen.out_ncell() {
        tetrahedra.push([
            tetgen.out_cell_point(t, 0),
            tetgen.out_cell_point(t, 1),
            tetgen.out_cell_point(t, 2),
            tetgen.out_cell_point(t, 3),
        ]);
    }
    SolverOutcome::Tetrahedra(tetrahedra)
}

fn sorted_ids(map: &std::collections::HashMap<u64, CellInformation>) -> Vec<u64> {
    let mut ids: Vec<u64> = map.keys().copied().collect();
    ids.sort();
    ids
}

#[test]
fn four_corners_of_a_tetrahedron_are_each_other_s_neighbours() {
    let cells = vec![
        cell(10, 0, 0, 0, 100_000),
        cell(11, ONE, 0, 0, 100_000),
        cell(12, 0, ONE, 0, 100_000),
        cell(13, 0, 0, ONE, 100_000),
    ];
    let result = delaunay_triangulation(&cells, &solve(&cells)).expect("a tetrahedralization");
    match &result {
        TetGenResult::Success(tetraeders) => {
            assert_eq!(tetraeders.len(), 1);
            for c in &cells {
                assert!(tetraeders[0].has(c.id));
            }
        }
        other => panic!("expected one tetrahedron, got {:?}", other),
    }
    for me in &cells {
        let expected: Vec<u64> = cells.iter().map(|c| c.id).filter(|id| *id != me.id).collect();
        assert_eq!(sorted_ids(&get_near_cells(me, &result)), expected);
    }
}

#[test]
fn cells_in_one_plane_fall_back_to_overlap() {
    let cells = vec![
        cell(1, 0, 0, 0, 600_000),
        cell(2, ONE, 0, 0, 600_000),
        cell(3, 0, ONE, 0, 300_000),
        cell(4, ONE, ONE, 0, 300_000),
    ];
    let result = delaunay_triangulation(&cells, &solve(&cells)).expect("a fallback");
    match &result {
        TetGenResult::NoTetGenPossible(given) => assert_eq!(given, &cells),
        other => panic!("expected the cells back, got {:?}", other),
    }
    assert_eq!(sorted_ids(&get_near_cells(&cells[0], &result)), vec![2]);
    assert_eq!(sorted_ids(&get_near_cells(&cells[1], &result)), vec![1]);
    assert!(get_near_cells(&cells[3], &result).is_empty());
}

#[test]
fn five_cells_share_tetrahedra_with_the_one_in_their_middle() {
    let cells = vec![
        cell(1, 0, 0, 0, 100_000),
        cell(2, 4 * ONE, 0, 0, 100_000),
        cell(3, 0, 4 * ONE, 0, 100_000),
        cell(4, 0, 0, 4 * ONE, 100_000),
        cell(5, ONE, ONE, ONE, 100_000),
    ];
    let result = delaunay_triangulation(&cells, &solve(&cells)).expect("a tetrahedralization");
    assert_eq!(sorted_ids(&get_near_cells(&cells[4], &result)), vec![1, 2, 3, 4]);
    let near_corner = sorted_ids(&get_near_cells(&cells[0], &result));
    assert!(near_corner.contains(&5));
    assert!(!near_corner.contains(&1));
}
