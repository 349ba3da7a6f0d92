use plant_simulation::engine::cell_events::{
    check_division, check_division_request, divide_cell, divide_in_registry, find_cell, find_organ, find_tissue,
    find_tissue_of_kind, handle_cell_division_events, handle_hormone_flow_events,
    CellDifferentiateEvent, CellDivideEvent, CellRecord, CellSpawnEvent, Differentiation,
    Division, LifecycleError, OrganRecord, TissueRecord,
};
use plant_simulation::engine::differentiation::{
    check_differentiation_request, differentiate_cell, handle_cell_differentiation_events,
};
use plant_simulation::engine::simulation::{
    collect_requests, overlapping_cells_of, pre_update, should_differentiate, should_divide,
    update_cell,
};
use plant_simulation::engine::state::SimulationTime;
use plant_simulation::model::cell::Cell;
use plant_simulation::model::hormone::{HormoneFlowEvent, Phytohormones};
use plant_simulation::model::organ::{Organ, OrganConfig, OrganType};
use plant_simulation::model::species::{arabidopsis_id, Species, SpeciesConfig};
use plant_simulation::model::tissue::{GrowingConfig, Tissue, TissueConfig, TissueType};
use plant_simulation::shared::cell::CellInformation;
use plant_simulation::shared::math::Vector3;
use plant_simulation::shared::point::Point3;

const ONE: i64 = 1_000_000;
const LIMIT: i64 = 1_000_000_000_000;

fn config(ceiling: i64, growing: bool) -> TissueConfig {
    TissueConfig {
        max_cell_volume: ceiling,
        auxin_production_rate: 0,
        growing_config: if growing {
            Some(GrowingConfig::new(Vector3 { x: 0, y: 500_000, z: 0 }))
        } else {
            None
        },
        diffusion_factor: 100_000,
        active_transport_factor: 10_000,
    }
}

fn record(id: u64, tissue: u64, x: i64, auxin: i64) -> CellRecord {
    CellRecord {
        id,
        cell: Cell::new(
            ONE,
            tissue,
            0,
            Phytohormones { auxin_level: auxin, cytokinin_level: 0 },
            config(20 * ONE, true),
        ),
        info: CellInformation { id, position: Point3::new(x, 0, 0), radius: 620_350 },
    }
}

fn tissue(id: u64, kind: TissueType, organ: u64, members: Vec<u64>) -> TissueRecord {
    let growing = kind == TissueType::Meristem;
    let mut t = Tissue::new(kind, config(20 * ONE, growing), organ);
    t.cell_refs = members;
    TissueRecord { id, tissue: t }
}

fn organs() -> Vec<OrganRecord> {
    vec![
        OrganRecord { id: 70, organ: Organ::new(OrganType::Leaf, OrganConfig::new()) },
        OrganRecord { id: 71, organ: Organ::new(OrganType::Root, OrganConfig::new()) },
    ]
}

fn species() -> Species {
    Species::new(
        arabidopsis_id(),
        SpeciesConfig {
            organs: vec![
                (
                    OrganType::Stem,
                    OrganConfig {
                        tissues: vec![
                            (TissueType::Meristem, config(20 * ONE, true)),
                            (TissueType::Parenchyma, config(30 * ONE, false)),
                        ],
                    },
                ),
                (
                    OrganType::Root,
                    OrganConfig { tissues: vec![(TissueType::Parenchyma, config(40 * ONE, false))] },
                ),
                (
                    OrganType::Root,
                    OrganConfig { tissues: vec![(TissueType::Parenchyma, config(50 * ONE, false))] },
                ),
                (OrganType::Leaf, OrganConfig { tissues: vec![] }),
            ],
        },
    )
}

fn members(tissues: &Vec<TissueRecord>) -> Vec<Vec<u64>> {
    tissues.iter().map(|t| t.tissue.cell_refs.clone()).collect()
}

#[test]
fn division_halves_volume_and_hormones() {
    let mut parent = Cell::new(
        ONE,
        5,
        0,
        Phytohormones { auxin_level: 900_001, cytokinin_level: 45 },
        config(20 * ONE, true),
    );
    let mut info = CellInformation { id: 1, position: Point3::new(ONE, 2, 3), radius: 1_658_263 };
    let home = tissue(5, TissueType::Meristem, 70, vec![1]);
    // the volume at the time 1000 is 19.1007
    let outcome = divide_cell(&mut parent, &mut info, &home.tissue, 1000 * ONE);
    // both get half of the auxin; the daughter gets half of the cytokinin, the parent the rest
    assert_eq!(
        outcome,
        Division::Divided(CellSpawnEvent {
            position: Point3::new(ONE, 500_002, 3),
            radius: 1_316_164,
            tissue: 5,
            hormones: Phytohormones { auxin_level: 450_000, cytokinin_level: 22 },
        })
    );
    assert_eq!(parent.birth_time, 1000 * ONE);
    assert_eq!(parent.growth_factors.start_value, 9_550_350);
    assert_eq!(parent.growth_factors.size_threshold, 20 * ONE);
    assert_eq!(parent.growth_factors.growth_factor, 300);
    assert_eq!(*parent.hormones(), Phytohormones { auxin_level: 450_000, cytokinin_level: 23 });
    assert_eq!(parent.tissue(), 5);
    assert_eq!(info, CellInformation { id: 1, position: Point3::new(ONE, 2, 3), radius: 1_316_164 });
}

#[test]
fn division_is_refused_outside_of_a_growing_meristem() {
    for home in [
        tissue(5, TissueType::Parenchyma, 70, vec![1]),
        TissueRecord {
            id: 5,
            tissue: Tissue::new(TissueType::Meristem, config(20 * ONE, false), 70),
        },
    ] {
        let mut parent = Cell::new(ONE, 5, 0, Phytohormones::new(), config(20 * ONE, true));
        let mut info = CellInformation { id: 1, position: Point3::new(0, 0, 0), radius: 7 };
        assert_eq!(divide_cell(&mut parent, &mut info, &home.tissue, 1000 * ONE), Division::Refused);
        assert_eq!(parent.birth_time, 0);
        assert_eq!(parent.growth_factors.start_value, ONE);
        assert_eq!(info.radius, 7);
    }
}

#[test]
fn registry_lookups_find_the_first_of_each() {
    let cells = vec![record(1, 5, 0, 0), record(2, 5, 0, 0), record(1, 6, 0, 0)];
    assert_eq!(find_cell(&cells, 1), Some(0));
    assert_eq!(find_cell(&cells, 2), Some(1));
    assert_eq!(find_cell(&cells, 3), None);
    let tissues = vec![
        tissue(5, TissueType::Meristem, 70, vec![]),
        tissue(6, TissueType::Parenchyma, 70, vec![]),
        tissue(7, TissueType::Parenchyma, 70, vec![]),
    ];
    assert_eq!(find_tissue(&tissues, 7), Some(2));
    assert_eq!(find_tissue(&tissues, 8), None);
    assert_eq!(find_tissue_of_kind(&tissues, TissueType::Parenchyma), Some(1));
    let dividing = vec![tissue(5, TissueType::Meristem, 70, vec![])];
    assert_eq!(find_tissue_of_kind(&dividing, TissueType::Parenchyma), None);
    assert_eq!(find_organ(&organs(), 71), Some(1));
    assert_eq!(find_organ(&organs(), 72), None);
}

#[test]
fn division_requests_are_carried_out_in_turn() {
    let mut cells = vec![record(1, 5, 0, 800_000), record(2, 6, ONE, 0), record(3, 5, 2 * ONE, 0)];
    let tissues = vec![
        tissue(5, TissueType::Meristem, 70, vec![1, 3]),
        tissue(6, TissueType::Parenchyma, 70, vec![2]),
    ];
    let events = vec![
        CellDivideEvent { parent: 1 },
        CellDivideEvent { parent: 2 },
        CellDivideEvent { parent: 1 },
    ];
    let spawned = handle_cell_division_events(&events, &mut cells, &tissues, 1000 * ONE)
        .expect("all cells and tissues are known");
    // the second division of the first cell halves what the first one left
    assert_eq!(spawned.len(), 2);
    assert_eq!(spawned[0].hormones.auxin_level, 400_000);
    assert_eq!(spawned[0].radius, 1_316_164);
    assert_eq!(spawned[0].position, Point3::new(0, 500_000, 0));
    assert_eq!(spawned[1].hormones.auxin_level, 200_000);
    assert_eq!(cells[0].cell.growth_factors.start_value, 9_550_350 / 2);
    assert_eq!(cells[0].cell.auxin_level(), 200_000);
    assert_eq!(cells[1].cell.birth_time, 0);
    assert_eq!(cells[2].cell.birth_time, 0);
}

#[test]
fn division_requests_are_tested_against_the_registry() {
    let cells = vec![record(1, 5, 0, 800_000), record(2, 8, 0, 0)];
    let tissues = vec![tissue(5, TissueType::Meristem, 70, vec![1])];
    assert_eq!(check_division_request(&cells, &tissues, 1), None);
    assert_eq!(check_division_request(&cells, &tissues, 9), Some(LifecycleError::UnknownCell(9)));
    assert_eq!(
        check_division_request(&cells, &tissues, 2),
        Some(LifecycleError::UnknownTissue(2, 8))
    );
}

#[test]
fn division_in_the_registry_changes_the_parent_only() {
    let mut cells = vec![record(1, 5, 0, 800_000), record(2, 5, ONE, 0)];
    let tissues = vec![tissue(5, TissueType::Meristem, 70, vec![1, 2])];
    let outcome = divide_in_registry(&mut cells, &tissues, 1, 1000 * ONE);
    assert!(matches!(outcome, Ok(Division::Divided(_))));
    assert_eq!(cells[0].cell.birth_time, 1000 * ONE);
    assert_eq!(cells[1].cell.birth_time, 0);
}

#[test]
fn division_out_of_range_is_an_error() {
    let mut cells = vec![record(1, 5, 0, 800_000)];
    let tissues = vec![tissue(5, TissueType::Meristem, 70, vec![1])];
    // before the birth of the cell
    assert_eq!(
        divide_in_registry(&mut cells, &tissues, 1, -1),
        Err(LifecycleError::OutOfRange(1))
    );
    cells[0].info.position.x = LIMIT + 1;
    assert_eq!(
        divide_in_registry(&mut cells, &tissues, 1, 5),
        Err(LifecycleError::OutOfRange(1))
    );
    assert!(!check_division(&cells[0].cell, &cells[0].info, &tissues[0].tissue.config, 5));
    cells[0].info.position.x = LIMIT;
    assert!(check_division(&cells[0].cell, &cells[0].info, &tissues[0].tissue.config, 5));
    assert_eq!(cells[0].cell.birth_time, 0);
}

#[test]
fn differentiation_moves_the_cell_to_the_first_parenchyma() {
    let mut cells = vec![record(1, 5, 0, 100_000), record(2, 5, ONE, 0)];
    let mut tissues = vec![
        tissue(5, TissueType::Meristem, 71, vec![2, 1, 1]),
        tissue(6, TissueType::Parenchyma, 70, vec![4]),
        tissue(7, TissueType::Parenchyma, 70, vec![]),
    ];
    let before = cells[0];
    let outcome = differentiate_cell(&mut cells, &mut tissues, &organs(), &species(), 1, 99);
    assert_eq!(outcome, Differentiation::Moved(6));
    assert_eq!(members(&tissues), vec![vec![2, 1], vec![4, 1], vec![]]);
    assert_eq!(cells[0].cell.tissue(), 6);
    // the first entry of the species for a root counts
    assert_eq!(cells[0].cell.tissue_config.max_cell_volume, 40 * ONE);
    assert_eq!(cells[0].cell.growth_factors.size_threshold, 40 * ONE);
    assert!(cells[0].cell.tissue_config.growing_config.is_none());
    assert_eq!(cells[0].info, before.info);
    assert_eq!(*cells[0].cell.hormones(), *before.cell.hormones());
    assert_eq!(cells[0].cell.birth_time, before.cell.birth_time);
    assert_eq!(cells[1].cell.tissue(), 5);
}

#[test]
fn differentiation_founds_a_parenchyma_where_there_is_none() {
    let mut cells = vec![record(1, 5, 0, 100_000)];
    let mut tissues = vec![tissue(5, TissueType::Meristem, 123, vec![1])];
    let outcome = differentiate_cell(&mut cells, &mut tissues, &organs(), &species(), 1, 99);
    assert_eq!(outcome, Differentiation::Founded(99));
    assert_eq!(tissues.len(), 2);
    assert_eq!(members(&tissues), vec![vec![], vec![1]]);
    assert_eq!(tissues[1].id, 99);
    assert!(tissues[1].tissue.kind == TissueType::Parenchyma);
    assert_eq!(tissues[1].tissue.organ_ref, 123);
    // configured as the species has it for a stem
    assert_eq!(tissues[1].tissue.config.max_cell_volume, 30 * ONE);
    assert_eq!(cells[0].cell.tissue(), 99);
    assert_eq!(cells[0].cell.growth_factors.size_threshold, 30 * ONE);
}

#[test]
fn differentiation_is_refused_in_a_parenchyma() {
    let mut cells = vec![record(1, 6, 0, 100_000)];
    let mut tissues = vec![tissue(6, TissueType::Parenchyma, 70, vec![1])];
    let outcome = differentiate_cell(&mut cells, &mut tissues, &organs(), &species(), 1, 99);
    assert_eq!(outcome, Differentiation::Refused);
    assert_eq!(members(&tissues), vec![vec![1]]);
    assert_eq!(cells[0].cell.tissue(), 6);
}

#[test]
fn differentiation_requests_are_tested_against_the_registry() {
    let spec = species();
    let cells = vec![record(1, 5, 0, 0), record(2, 8, 0, 0), record(3, 5, 0, 0), record(4, 6, 0, 0)];
    let mut tissues = vec![
        tissue(5, TissueType::Meristem, 70, vec![1]),
        tissue(6, TissueType::Parenchyma, 70, vec![]),
    ];
    let check = |tissues: &Vec<TissueRecord>, cell: u64| {
        check_differentiation_request(&cells, tissues, &organs(), &spec, cell)
    };
    assert_eq!(check(&tissues, 9), Some(LifecycleError::UnknownCell(9)));
    assert_eq!(check(&tissues, 2), Some(LifecycleError::UnknownTissue(2, 8)));
    assert_eq!(check(&tissues, 3), Some(LifecycleError::CellNotInTissue(3, 5)));
    // a cell of a tissue that does not divide lacks nothing: its request is refused
    assert_eq!(check(&tissues, 4), None);
    // the species has nothing for the parenchyma of a leaf
    assert_eq!(
        check(&tissues, 1),
        Some(LifecycleError::MissingConfig(OrganType::Leaf, TissueType::Parenchyma))
    );
    tissues[0].tissue.organ_ref = 72;
    assert_eq!(check(&tissues, 1), Some(LifecycleError::UnknownOrgan(5, 72)));
    tissues[0].tissue.organ_ref = 71;
    assert_eq!(check(&tissues, 1), None);
    let bare = Species::new(arabidopsis_id(), SpeciesConfig { organs: vec![] });
    let lonely = vec![tissue(5, TissueType::Meristem, 70, vec![1])];
    assert_eq!(
        check_differentiation_request(&cells, &lonely, &organs(), &bare, 1),
        Some(LifecycleError::MissingConfig(OrganType::Stem, TissueType::Parenchyma))
    );
    assert_eq!(check_differentiation_request(&cells, &lonely, &organs(), &spec, 1), None);
}

#[test]
fn differentiation_requests_found_at_most_one_tissue() {
    let mut cells = vec![record(1, 5, 0, 0), record(2, 5, 0, 0), record(3, 5, 0, 0)];
    let mut tissues = vec![tissue(5, TissueType::Meristem, 71, vec![1, 2, 3])];
    let events = vec![
        CellDifferentiateEvent { cell: 2 },
        CellDifferentiateEvent { cell: 3 },
        CellDifferentiateEvent { cell: 3 },
    ];
    let outcome =
        handle_cell_differentiation_events(&events, &mut cells, &mut tissues, &organs(), &species(), 99);
    assert_eq!(
        outcome,
        vec![
            Differentiation::Founded(99),
            Differentiation::Moved(99),
            Differentiation::Refused,
        ]
    );
    assert_eq!(members(&tissues), vec![vec![1], vec![2, 3]]);
    assert_eq!(cells[1].cell.tissue(), 99);
    assert_eq!(cells[2].cell.tissue(), 99);
    assert_eq!(cells[0].cell.tissue(), 5);
    // founded for a stem, joined as in a root
    assert_eq!(cells[1].cell.growth_factors.size_threshold, 30 * ONE);
    assert_eq!(cells[2].cell.growth_factors.size_threshold, 40 * ONE);
    let done = handle_cell_differentiation_events(
        &vec![CellDifferentiateEvent { cell: 1 }, CellDifferentiateEvent { cell: 2 }],
        &mut cells,
        &mut tissues,
        &organs(),
        &species(),
        100,
    );
    assert_eq!(done, vec![Differentiation::Moved(99), Differentiation::Refused]);
    assert_eq!(members(&tissues), vec![vec![], vec![2, 3, 1]]);
    // every cell is listed once, in the tissue that it names
    for cell in &cells {
        let listed: Vec<u64> = tissues
            .iter()
            .filter(|t| t.tissue.cell_refs.contains(&cell.id))
            .map(|t| t.id)
            .collect();
        assert_eq!(listed, vec![cell.cell.tissue()]);
    }
}

#[test]
fn hormone_flows_reach_their_targets() {
    let mut cells = vec![record(1, 5, 0, 100_000), record(2, 5, 0, LIMIT)];
    let flows = vec![
        HormoneFlowEvent {
            target_cell: 1,
            amount: Phytohormones { auxin_level: 60_000, cytokinin_level: -7 },
        },
        HormoneFlowEvent {
            target_cell: 2,
            amount: Phytohormones { auxin_level: 1, cytokinin_level: 0 },
        },
        HormoneFlowEvent {
            target_cell: 1,
            amount: Phytohormones { auxin_level: -200_000, cytokinin_level: 0 },
        },
    ];
    assert_eq!(handle_hormone_flow_events(&flows, &mut cells), Ok(1));
    assert_eq!(
        *cells[0].cell.hormones(),
        Phytohormones { auxin_level: -40_000, cytokinin_level: -7 }
    );
    assert_eq!(cells[1].cell.auxin_level(), LIMIT);
    let lost = vec![flows[0], HormoneFlowEvent { target_cell: 3, amount: Phytohormones::new() }, flows[0]];
    assert_eq!(handle_hormone_flow_events(&lost, &mut cells), Err(LifecycleError::UnknownCell(3)));
    assert_eq!(cells[0].cell.auxin_level(), 20_000);
}

#[test]
fn overlapping_cells_are_found_for_every_cell() {
    let mut cells = vec![record(1, 5, 0, 1), record(2, 5, ONE, 2), record(3, 5, 3 * ONE, 3)];
    cells[2].info.radius = 1_500_000;
    let near = pre_update(&cells);
    let ids: Vec<Vec<u64>> = near.iter().map(|n| n.0.iter().map(|e| e.0).collect()).collect();
    assert_eq!(ids, vec![vec![2], vec![1, 3], vec![2]]);
    assert_eq!(near[1].0[1].1, cells[2].info);
    assert_eq!(near[1].0[1].2, *cells[2].cell.hormones());
    assert_eq!(overlapping_cells_of(&cells, 0).0.len(), 1);
}

#[test]
fn a_tick_grows_the_cell_and_passes_hormones_on() {
    let mut me = record(1, 5, 0, ONE);
    let near = pre_update(&vec![me, record(2, 5, ONE, 400_000)]);
    let time = SimulationTime { elapsed: 1000 * ONE, delta_secs: ONE };
    let fallback = Vector3 { x: ONE, y: 0, z: 0 };
    let (volume, flows) = update_cell(&mut me, &near[0], &time, &fallback).expect("within the limit");
    assert_eq!(volume, 19_100_700);
    assert_eq!(me.info.radius, 1_658_263);
    assert_eq!(
        flows,
        vec![HormoneFlowEvent {
            target_cell: 2,
            amount: Phytohormones { auxin_level: 60_000, cytokinin_level: 0 },
        }]
    );
    assert_eq!(me.cell.auxin_level(), 940_000);
    // the neighbour's centre is within the new radius: the cell retreats
    assert_eq!(me.info.position, Point3::new(-658_263, 0, 0));
}

#[test]
fn requests_follow_volume_and_auxin() {
    assert!(should_divide(19_999_001, 20 * ONE, TissueType::Meristem));
    assert!(!should_divide(19_999_000, 20 * ONE, TissueType::Meristem));
    assert!(!should_divide(20 * ONE, 20 * ONE, TissueType::Parenchyma));
    assert!(should_differentiate(199_999, TissueType::Meristem));
    assert!(!should_differentiate(200_000, TissueType::Meristem));
    assert!(!should_differentiate(0, TissueType::Parenchyma));
    let cells = vec![
        record(1, 5, 0, 100_000),
        record(2, 5, 0, 900_000),
        record(3, 6, 0, 100_000),
        record(4, 5, 0, 0),
    ];
    let tissues = vec![
        tissue(5, TissueType::Meristem, 70, vec![1, 2, 4]),
        tissue(6, TissueType::Parenchyma, 70, vec![3]),
    ];
    let volumes = vec![20 * ONE, 20 * ONE, 20 * ONE, 5 * ONE];
    assert_eq!(
        collect_requests(&cells, &tissues, &volumes),
        Ok((
            vec![CellDivideEvent { parent: 1 }, CellDivideEvent { parent: 2 }],
            vec![CellDifferentiateEvent { cell: 1 }, CellDifferentiateEvent { cell: 4 }],
        ))
    );
    let stray = vec![record(1, 5, 0, 0), record(2, 9, 0, 0), record(3, 10, 0, 0)];
    assert_eq!(
        collect_requests(&stray, &tissues, &volumes[..3].to_vec()),
        Err(LifecycleError::UnknownTissue(2, 9))
    );
}
