use plant_simulation::model::cell::{halve, logistic_growth, Cell, GrowthFactors, GROWTH_FACTOR};
use plant_simulation::model::hormone::{HormoneFlowEvent, Phytohormones};
use plant_simulation::model::tissue::{
    find_central_cell, GrowingConfig, Tissue, TissueConfig, TissueType,
};
use plant_simulation::model::transport::{active_transport, diffuse, flux_between, is_within_cone};
use plant_simulation::shared::cell::CellInformation;
use plant_simulation::shared::math::Vector3;
use plant_simulation::shared::overlapping_cells::OverlappingCells;
use plant_simulation::shared::point::Point3;

const ONE: i64 = 1_000_000;
const LIMIT: i64 = 1_000_000_000_000;

fn info(id: u64, x: i64, y: i64, z: i64) -> CellInformation {
    CellInformation { id, position: Point3::new(x, y, z), radius: 800_000 }
}

fn auxin(level: i64) -> Phytohormones {
    Phytohormones { auxin_level: level, cytokinin_level: 0 }
}

fn flow(target: u64, amount: i64) -> HormoneFlowEvent {
    HormoneFlowEvent { target_cell: target, amount: auxin(amount) }
}

fn config(growing: Option<GrowingConfig>) -> TissueConfig {
    TissueConfig {
        max_cell_volume: 20 * ONE,
        auxin_production_rate: 500_000,
        growing_config: growing,
        diffusion_factor: 100_000,
        active_transport_factor: 10_000,
    }
}

fn same_config(a: &TissueConfig, b: &TissueConfig) -> bool {
    a.max_cell_volume == b.max_cell_volume
        && a.auxin_production_rate == b.auxin_production_rate
        && a.diffusion_factor == b.diffusion_factor
        && a.active_transport_factor == b.active_transport_factor
        && a.growing_config.is_some() == b.growing_config.is_some()
}

#[test]
fn growth_starts_at_the_start_volume() {
    for (ceiling, start) in [(20 * ONE, ONE), (20 * ONE, 19_999_999), (ONE, 7), (3, 20 * ONE)] {
        let g = GrowthFactors { growth_factor: 300, start_value: start, size_threshold: ceiling };
        assert_eq!(logistic_growth(g, 0), start);
    }
}

#[test]
fn growth_follows_the_logistic_curve() {
    let g = GrowthFactors { growth_factor: 300, start_value: ONE, size_threshold: 20 * ONE };
    assert_eq!(logistic_growth(g, ONE), 1_005_716);
    assert_eq!(logistic_growth(g, 100 * ONE), 1_750_178);
    assert_eq!(logistic_growth(g, 500 * ONE), 10_277_740);
    assert_eq!(logistic_growth(g, 1000 * ONE), 19_100_700);
    assert_eq!(logistic_growth(g, 5000 * ONE), 20 * ONE);
    assert_eq!(logistic_growth(g, LIMIT), 20 * ONE);
}

#[test]
fn growth_never_shrinks_and_stays_below_the_ceiling() {
    let g = GrowthFactors { growth_factor: 300, start_value: ONE, size_threshold: 20 * ONE };
    let mut last = ONE;
    for step in 0..400 {
        let v = logistic_growth(g, step * 10 * ONE);
        assert!(v >= last);
        assert!(v <= 20 * ONE);
        last = v;
    }
}

#[test]
fn growth_without_rate_stands_still() {
    let g = GrowthFactors { growth_factor: 0, start_value: ONE, size_threshold: 20 * ONE };
    assert_eq!(logistic_growth(g, 1000 * ONE), ONE);
}

#[test]
fn new_cell_takes_its_ceiling_from_the_tissue() {
    let cell = Cell::new(ONE, 4, 17, auxin(600_000), config(None));
    assert_eq!(cell.birth_time, 17);
    assert_eq!(
        cell.growth_factors,
        GrowthFactors {
            growth_factor: GROWTH_FACTOR,
            start_value: ONE,
            size_threshold: 20 * ONE,
        }
    );
    assert_eq!(GROWTH_FACTOR, 300);
    assert_eq!(cell.tissue(), 4);
    assert_eq!(cell.auxin_level(), 600_000);
    assert_eq!(cell.cytokinin_level(), 0);
    assert_eq!(*cell.hormones(), auxin(600_000));
    assert_eq!(cell.update_size(17), ONE);
    assert_eq!(cell.update_size(17 + 1000 * ONE), 19_100_700);
}

#[test]
fn on_divide_starts_the_growth_anew_and_halves_the_auxin() {
    let mut cell = Cell::new(
        ONE,
        4,
        0,
        Phytohormones { auxin_level: 900_001, cytokinin_level: -5 },
        config(None),
    );
    cell.update_tissue_config(TissueConfig { max_cell_volume: 30 * ONE, ..config(None) });
    assert_eq!(cell.growth_factors.size_threshold, 30 * ONE);
    cell.growth_factors.size_threshold = 1;
    cell.on_divide(9 * ONE, 77);
    assert_eq!(cell.birth_time, 77);
    assert_eq!(
        cell.growth_factors,
        GrowthFactors { growth_factor: 300, start_value: 9 * ONE, size_threshold: 30 * ONE }
    );
    // the cytokinin is not touched
    assert_eq!(*cell.hormones(), Phytohormones { auxin_level: 450_000, cytokinin_level: -5 });
    assert_eq!(halve(-5), -2);
    assert_eq!(halve(5), 2);
    assert_eq!(halve(i64::MIN), i64::MIN / 2);
}

#[test]
fn cell_moves_between_tissues() {
    let mut cell = Cell::new(ONE, 4, 0, auxin(1), config(None));
    cell.update_tissue(9);
    assert_eq!(cell.tissue(), 9);
    assert_eq!(cell.birth_time, 0);
}

#[test]
fn hormones_are_added_within_the_limit_only() {
    let mut cell = Cell::new(ONE, 4, 0, auxin(600_000), config(None));
    assert!(cell.add_to_hormone_level(Phytohormones { auxin_level: -700_000, cytokinin_level: 3 }));
    assert_eq!(*cell.hormones(), Phytohormones { auxin_level: -100_000, cytokinin_level: 3 });
    assert!(!cell.add_to_hormone_level(Phytohormones {
        auxin_level: LIMIT + 100_001,
        cytokinin_level: 0,
    }));
    assert!(!cell.add_to_hormone_level(Phytohormones { auxin_level: 0, cytokinin_level: -LIMIT - 4 }));
    assert_eq!(*cell.hormones(), Phytohormones { auxin_level: -100_000, cytokinin_level: 3 });
    assert!(cell.add_to_hormone_level(Phytohormones { auxin_level: LIMIT + 100_000, cytokinin_level: 0 }));
    assert_eq!(cell.auxin_level(), LIMIT);
}

#[test]
fn diffusion_moves_auxin_down_the_gradient() {
    let a = auxin(ONE);
    let b = auxin(400_000);
    let seen_by_a = OverlappingCells(vec![(2, info(2, ONE, 0, 0), b)]);
    let seen_by_b = OverlappingCells(vec![(1, info(1, 0, 0, 0), a)]);
    assert_eq!(flux_between(100_000, ONE, 400_000, ONE), 60_000);
    assert_eq!(flux_between(100_000, 400_000, ONE, ONE), -60_000);
    assert_eq!(
        diffuse(&a, &seen_by_a, 100_000, ONE),
        Some((auxin(940_000), vec![flow(2, 60_000)]))
    );
    assert_eq!(
        diffuse(&b, &seen_by_b, 100_000, ONE),
        Some((auxin(460_000), vec![flow(1, -60_000)]))
    );
}

#[test]
fn diffusion_takes_every_flux_from_the_level_before_the_step() {
    let own = Phytohormones { auxin_level: ONE, cytokinin_level: 55 };
    let others = OverlappingCells(vec![
        (2, info(2, ONE, 0, 0), auxin(400_000)),
        (3, info(3, 0, ONE, 0), auxin(0)),
    ]);
    assert_eq!(
        diffuse(&own, &others, 100_000, ONE),
        Some((
            Phytohormones { auxin_level: 840_000, cytokinin_level: 55 },
            vec![flow(2, 60_000), flow(3, 100_000)],
        ))
    );
    assert_eq!(diffuse(&own, &OverlappingCells(vec![]), 100_000, ONE), Some((own, vec![])));
}

#[test]
fn diffusion_gives_equal_neighbours_equal_amounts() {
    let others = OverlappingCells(vec![
        (2, info(2, ONE, 0, 0), auxin(0)),
        (3, info(3, 0, ONE, 0), auxin(0)),
    ]);
    assert_eq!(
        diffuse(&auxin(ONE), &others, 500_000, ONE),
        Some((auxin(0), vec![flow(2, 500_000), flow(3, 500_000)]))
    );
}

#[test]
fn diffusion_does_not_depend_on_the_order_of_the_neighbours() {
    let a = (2, info(2, ONE, 0, 0), auxin(400_000));
    let b = (3, info(3, 0, ONE, 0), auxin(-250_000));
    let c = (4, info(4, 0, 0, ONE), auxin(2 * ONE));
    let (level, flows) =
        diffuse(&auxin(ONE), &OverlappingCells(vec![a, b, c]), 300_000, 500_000).unwrap();
    let (turned, turned_flows) =
        diffuse(&auxin(ONE), &OverlappingCells(vec![c, a, b]), 300_000, 500_000).unwrap();
    assert_eq!(level, turned);
    assert_eq!(flows, vec![flow(2, 90_000), flow(3, 187_500), flow(4, -150_000)]);
    assert_eq!(turned_flows, vec![flows[2], flows[0], flows[1]]);
    assert_eq!(level, auxin(ONE - 90_000 - 187_500 + 150_000));
}

#[test]
fn diffusion_may_take_a_level_below_zero() {
    let own = auxin(100_000);
    let others = OverlappingCells(vec![(2, info(2, ONE, 0, 0), auxin(-900_000))]);
    assert_eq!(
        diffuse(&own, &others, 2 * ONE, ONE),
        Some((auxin(-1_900_000), vec![flow(2, 2 * ONE)]))
    );
}

#[test]
fn diffusion_gives_up_beyond_the_limit() {
    let own = auxin(LIMIT);
    let others = OverlappingCells(vec![(2, info(2, ONE, 0, 0), auxin(-LIMIT))]);
    assert_eq!(diffuse(&own, &others, LIMIT, ONE), None);
    assert_eq!(diffuse(&own, &others, -ONE, ONE), None);
}

#[test]
fn cone_of_thirty_degrees() {
    let up = Vector3 { x: 0, y: ONE, z: 0 };
    assert!(is_within_cone(&up, &up));
    assert!(is_within_cone(&up, &Vector3 { x: 447_213, y: 894_427, z: 0 }));
    assert!(is_within_cone(&up, &Vector3 { x: 500_000, y: 866_026, z: 0 }));
    assert!(!is_within_cone(&up, &Vector3 { x: 500_000, y: 866_025, z: 0 }));
    assert!(!is_within_cone(&up, &Vector3 { x: 707_107, y: 707_107, z: 0 }));
    assert!(!is_within_cone(&up, &Vector3 { x: ONE, y: 0, z: 0 }));
    assert!(!is_within_cone(&up, &Vector3 { x: 0, y: -ONE, z: 0 }));
    assert!(!is_within_cone(&up, &Vector3 { x: 0, y: 0, z: 0 }));
}

#[test]
fn active_transport_feeds_the_neighbours_toward_the_target() {
    let me = info(1, 0, 0, 0);
    let target = Point3::new(0, 10 * ONE, 0);
    let others = OverlappingCells(vec![
        (2, info(2, 0, ONE, 0), auxin(0)),
        (3, info(3, ONE, 0, 0), auxin(0)),
        (4, info(4, ONE, 2 * ONE, 0), auxin(0)),
        (5, info(5, -ONE, 5 * ONE, 0), auxin(0)),
    ]);
    // 0.01 * 1.0 * 10.0 for each neighbour in the cone, while the level is positive
    assert_eq!(
        active_transport(&me, &auxin(150_000), &target, &others, 10_000, ONE),
        Some((auxin(-50_000), vec![flow(2, 100_000), flow(4, 100_000)]))
    );
    assert_eq!(
        active_transport(&me, &auxin(0), &target, &others, 10_000, ONE),
        Some((auxin(0), vec![]))
    );
    assert_eq!(
        active_transport(&me, &auxin(ONE), &target, &others, 10_000, ONE),
        Some((auxin(700_000), vec![flow(2, 100_000), flow(4, 100_000), flow(5, 100_000)]))
    );
}

#[test]
fn active_transport_gives_up_beyond_the_limit() {
    let me = info(1, 0, 0, 0);
    let target = Point3::new(0, 10 * ONE, 0);
    let others = OverlappingCells(vec![(2, info(2, 0, ONE, 0), auxin(0))]);
    assert_eq!(active_transport(&me, &auxin(ONE), &target, &others, LIMIT, LIMIT), None);
    assert_eq!(active_transport(&me, &auxin(ONE), &target, &others, -LIMIT, ONE), None);
}

#[test]
fn hormones_are_produced_then_diffused() {
    let mut cell = Cell::new(ONE, 4, 0, auxin(600_000), config(None));
    let me = info(1, 0, 0, 0);
    let others = OverlappingCells(vec![(2, info(2, ONE, 0, 0), auxin(400_000))]);
    // produced: 0.5 * 1.0 * 0.8 * 1.0
    assert_eq!(cell.simulate_hormones(ONE, &me, &others), Some(vec![flow(2, 60_000)]));
    assert_eq!(*cell.hormones(), auxin(940_000));
}

#[test]
fn hormones_are_transported_in_a_tissue_with_a_central_cell() {
    let growing = GrowingConfig {
        growing_direction: Vector3 { x: 0, y: ONE, z: 0 },
        central_cell: Some((9, info(9, 0, 9 * ONE, 0))),
    };
    let mut cell = Cell::new(ONE, 4, 0, auxin(600_000), config(Some(growing)));
    assert_eq!(cell.target(), Some(Point3::new(0, 10 * ONE, 0)));
    let me = info(1, 0, 0, 0);
    let others = OverlappingCells(vec![(2, info(2, 0, ONE, 0), auxin(400_000))]);
    assert_eq!(
        cell.simulate_hormones(ONE, &me, &others),
        Some(vec![flow(2, 60_000), flow(2, 100_000)])
    );
    assert_eq!(*cell.hormones(), auxin(840_000));
    let resting = Cell::new(ONE, 4, 0, auxin(0), config(Some(GrowingConfig::new(
        Vector3 { x: 0, y: ONE, z: 0 },
    ))));
    assert_eq!(resting.target(), None);
}

#[test]
fn hormones_stay_as_they_are_when_a_level_leaves_the_limit() {
    let mut cell = Cell::new(ONE, 4, 0, auxin(LIMIT), config(None));
    let me = info(1, 0, 0, 0);
    assert_eq!(cell.simulate_hormones(ONE, &me, &OverlappingCells(vec![])), None);
    assert_eq!(*cell.hormones(), auxin(LIMIT));
}

#[test]
fn central_cell_lies_farthest_along_the_growing_direction() {
    let up = Vector3 { x: 0, y: ONE, z: 0 };
    let cells = vec![
        (1, info(1, 0, 0, 0)),
        (2, info(2, 5, 7 * ONE, 0)),
        (3, info(3, -5, 7 * ONE, 0)),
        (4, info(4, 0, -ONE, 0)),
    ];
    // the last of the farthest
    assert_eq!(find_central_cell(&up, &cells), Some((3, info(3, -5, 7 * ONE, 0))));
    assert_eq!(find_central_cell(&up, &vec![]), None);
}

#[test]
fn tissue_kinds_and_new_tissues() {
    assert!(TissueType::Meristem.can_divide());
    assert!(!TissueType::Parenchyma.can_divide());
    assert_eq!(TissueType::Meristem.name(), "Meristem");
    assert_eq!(TissueType::Parenchyma.name(), "Parenchyma");
    let tissue = Tissue::new(TissueType::Parenchyma, config(None), 3);
    assert!(tissue.kind == TissueType::Parenchyma);
    assert_eq!(tissue.organ_ref, 3);
    assert!(tissue.cell_refs.is_empty());
    assert!(same_config(&tissue.config, &config(None)));
    let growing = GrowingConfig::new(Vector3 { x: 1, y: 2, z: 3 });
    assert_eq!(growing.growing_direction, Vector3 { x: 1, y: 2, z: 3 });
    assert!(growing.central_cell.is_none());
}
