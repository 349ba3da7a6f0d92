use plant_simulation::engine::delaunay::{
    delaunay_triangulation, get_near_cells, is_coplanar_failure, solver_input, SolverOutcome,
    TetGenResult, TetraederOfCells, TriangulationError,
};
use plant_simulation::shared::cell::CellInformation;
use plant_simulation::shared::point::Point3;

const ONE: i64 = 1_000_000;

fn cell(id: u64, x: i64, y: i64, z: i64, radius: i64) -> CellInformation {
    CellInformation { id, position: Point3::new(x, y, z), radius }
}

fn corners() -> Vec<CellInformation> {
    vec![
        cell(10, 0, 0, 0, 100_000),
        cell(11, ONE, 0, 0, 100_000),
        cell(12, 0, ONE, 0, 100_000),
        cell(13, 0, 0, ONE, 100_000),
    ]
}

fn sorted_ids(map: &std::collections::HashMap<u64, CellInformation>) -> Vec<u64> {
    let mut ids: Vec<u64> = map.keys().copied().collect();
    ids.sort();
    ids
}

#[test]
fn three_cells_are_too_few_for_tetrahedra() {
    let cells = vec![cell(1, 0, 0, 0, ONE), cell(2, ONE, 0, 0, ONE), cell(3, 0, ONE, 0, ONE)];
    assert!(solver_input(&cells).is_none());
    for outcome in [
        SolverOutcome::NotRun,
        SolverOutcome::Tetrahedra(vec![[0, 1, 2, 3]]),
        SolverOutcome::Failed(String::from("anything")),
    ] {
        match delaunay_triangulation(&cells, &outcome) {
            Ok(TetGenResult::NoTetGenPossible(given)) => assert_eq!(given, cells),
            other => panic!("expected the cells back, got {:?}", other),
        }
    }
}

#[test]
fn no_cells_are_too_few_as_well() {
    let cells: Vec<CellInformation> = vec![];
    match delaunay_triangulation(&cells, &SolverOutcome::NotRun) {
        Ok(TetGenResult::NoTetGenPossible(given)) => assert!(given.is_empty()),
        other => panic!("expected no cells back, got {:?}", other),
    }
}

#[test]
fn solver_gets_the_centres_of_four_cells() {
    let cells = corners();
    assert_eq!(
        solver_input(&cells),
        Some(vec![
            Point3::new(0, 0, 0),
            Point3::new(ONE, 0, 0),
            Point3::new(0, ONE, 0),
            Point3::new(0, 0, ONE),
        ])
    );
}

#[test]
fn four_cells_need_the_solver() {
    match delaunay_triangulation(&corners(), &SolverOutcome::NotRun) {
        Err(TriangulationError::SolverNotRun) => {}
        other => panic!("expected an error, got {:?}", other),
    }
}

#[test]
fn coplanar_points_fall_back_to_overlap() {
    let cells = corners();
    let outcome =
        SolverOutcome::Failed(String::from("TetGen failed: points are probably coplanar"));
    match delaunay_triangulation(&cells, &outcome) {
        Ok(TetGenResult::NoTetGenPossible(given)) => assert_eq!(given, cells),
        other => panic!("expected the cells back, got {:?}", other),
    }
    assert!(is_coplanar_failure(&String::from("TetGen failed: points are probably coplanar")));
    assert!(!is_coplanar_failure(&String::from("TetGen failed: points are probably coplanar.")));
}

#[test]
fn other_solver_failures_are_errors() {
    let outcome = SolverOutcome::Failed(String::from("INTERNAL ERROR: found NULL data"));
    match delaunay_triangulation(&corners(), &outcome) {
        Err(TriangulationError::SolverFailed(message)) => {
            assert_eq!(message, "INTERNAL ERROR: found NULL data")
        }
        other => panic!("expected an error, got {:?}", other),
    }
}

#[test]
fn unknown_corner_is_an_error() {
    let outcome = SolverOutcome::Tetrahedra(vec![[0, 1, 2, 3], [0, 1, 7, 9]]);
    match delaunay_triangulation(&corners(), &outcome) {
        Err(TriangulationError::UnknownCorner(1, 7)) => {}
        other => panic!("expected an unknown corner, got {:?}", other),
    }
}

#[test]
fn tetrahedra_hold_the_cells_at_their_corners() {
    let cells = corners();
    let outcome = SolverOutcome::Tetrahedra(vec![[3, 1, 2, 0]]);
    match delaunay_triangulation(&cells, &outcome) {
        Ok(TetGenResult::Success(tetraeders)) => {
            assert_eq!(tetraeders.len(), 1);
            assert_eq!(tetraeders[0].nodes(), &[cells[3], cells[1], cells[2], cells[0]]);
        }
        other => panic!("expected one tetrahedron, got {:?}", other),
    }
}

#[test]
fn one_tetrahedron_makes_the_other_three_neighbours() {
    let cells = corners();
    let result = delaunay_triangulation(&cells, &SolverOutcome::Tetrahedra(vec![[0, 1, 2, 3]]))
        .expect("a tetrahedralization");
    for me in &cells {
        let near = get_near_cells(me, &result);
        let mut expected: Vec<u64> = cells.iter().map(|c| c.id).filter(|id| *id != me.id).collect();
        expected.sort();
        assert_eq!(sorted_ids(&near), expected);
        for (id, other) in &near {
            assert_eq!(*id, other.id);
            assert!(cells.contains(other));
        }
    }
}

#[test]
fn only_shared_tetrahedra_make_neighbours() {
    let cells = vec![
        cell(1, 0, 0, 0, 5 * ONE),
        cell(2, ONE, 0, 0, 5 * ONE),
        cell(3, 0, ONE, 0, 5 * ONE),
        cell(4, 0, 0, ONE, 5 * ONE),
        cell(5, ONE, ONE, ONE, 5 * ONE),
        cell(6, 2 * ONE, 0, 0, 5 * ONE),
    ];
    let result = TetGenResult::Success(vec![
        TetraederOfCells::new([cells[0], cells[1], cells[2], cells[3]]),
        TetraederOfCells::new([cells[1], cells[2], cells[3], cells[4]]),
    ]);
    // close and overlapping, but in no common tetrahedron
    assert_eq!(sorted_ids(&get_near_cells(&cells[0], &result)), vec![2, 3, 4]);
    assert_eq!(sorted_ids(&get_near_cells(&cells[4], &result)), vec![2, 3, 4]);
    assert_eq!(sorted_ids(&get_near_cells(&cells[1], &result)), vec![1, 3, 4, 5]);
    // a cell that no tetrahedron holds has no neighbours
    assert!(get_near_cells(&cells[5], &result).is_empty());
}

#[test]
fn fallback_takes_overlapping_cells() {
    let a = cell(1, 0, 0, 0, 600_000);
    let b = cell(2, ONE, 0, 0, 600_000);
    let result = TetGenResult::NoTetGenPossible(vec![a, b]);
    let near_a = get_near_cells(&a, &result);
    assert_eq!(sorted_ids(&near_a), vec![2]);
    assert_eq!(near_a[&2], b);
    let near_b = get_near_cells(&b, &result);
    assert_eq!(sorted_ids(&near_b), vec![1]);
    assert_eq!(near_b[&1], a);
}

#[test]
fn fallback_leaves_distant_cells_out() {
    let a = cell(1, 0, 0, 0, 300_000);
    let b = cell(2, ONE, 0, 0, 300_000);
    let result = TetGenResult::NoTetGenPossible(vec![a, b]);
    assert!(get_near_cells(&a, &result).is_empty());
    assert!(get_near_cells(&b, &result).is_empty());
}

#[test]
fn tetrahedron_knows_its_cells() {
    let cells = corners();
    let mut t = TetraederOfCells::new([cells[0], cells[1], cells[2], cells[3]]);
    assert!(t.has(12));
    assert!(!t.has(14));
    assert_eq!(t.points()[1], Point3::new(ONE, 0, 0));
    assert_eq!(t.center(), Point3::new(ONE, ONE, ONE));
    t.set_nodes([cells[3], cells[2], cells[1], cells[0]]);
    assert_eq!(t.nodes()[0], cells[3]);
}
