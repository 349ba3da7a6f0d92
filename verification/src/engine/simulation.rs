//! One tick of the simulation: who overlaps whom, how each cell grows and
//! passes hormones on, and which cells ask to divide or to differentiate.
use crate::engine::cell_events::{
    find_tissue, models, tissue_ids, CellDifferentiateEvent, CellDivideEvent, CellRecord,
    LifecycleError, TissueModel, TissueRecord,
};
use crate::engine::state::SimulationTime;
use crate::model::cell::{logistic_growth_spec, simulated_hormones, Cell};
use crate::model::hormone::{HormoneFlowEvent, Phytohormones};
use crate::model::tissue::TissueType;
use crate::shared::cell::{overlap, overlaps, repositioned, CellInformation};
use crate::shared::fixed::{in_limit, LIMIT};
use crate::shared::lookup::first_index;
use crate::shared::math::{sphere_radius, Vector3, MAX_MEAN_POINTS};
use crate::shared::overlapping_cells::OverlappingCells;
use vstd::prelude::*;

verus! {

/// How close to its ceiling the volume of a cell must come for the cell to
/// divide.
pub const VOLUME_MARGIN: i64 = 1_000;

/// The auxin level below which a cell differentiates.
pub const AUXIN_THRESHOLD: i64 = 200_000;

/// Those of the first `upto` cells that overlap the cell at `index` and are
/// not that cell, each with its identifier, its geometry and its hormones.
pub open spec fn overlapping_of(cells: Seq<CellRecord>, index: int, upto: int) -> Seq<
    (u64, CellInformation, Phytohormones),
>
    decreases upto,
{
    if upto <= 0 {
        Seq::empty()
    } else {
        let before = overlapping_of(cells, index, upto - 1);
        let other = cells[upto - 1];
        if other.id != cells[index].id && overlaps(cells[index].info, other.info) {
            before.push((other.id, other.info, other.cell.hormones))
        } else {
            before
        }
    }
}

/// Every cell has valid geometry.
pub open spec fn geometry_wf(cells: Seq<CellRecord>) -> bool {
    forall|i: int| 0 <= i < cells.len() ==> (#[trigger] cells[i]).info.wf()
}

/// Finds the cells that overlap the cell at `index`.
pub fn overlapping_cells_of(cells: &Vec<CellRecord>, index: usize) -> (neighbors: OverlappingCells)
    requires
        index < cells@.len(),
        geometry_wf(cells@),
    ensures
        neighbors.0@ == overlapping_of(cells@, index as int, cells@.len() as int),
        neighbors.wf(),
        neighbors.0@.len() <= cells@.len(),
{
    let entity: u64 = cells[index].id;
    let info: CellInformation = cells[index].info;
    let mut neighbors: Vec<(u64, CellInformation, Phytohormones)> = Vec::new();
    let n: usize = cells.len();
    let mut i: usize = 0;
    while i < n
        invariant
            n == cells@.len(),
            i <= n,
            index < n,
            geometry_wf(cells@),
            entity == cells@[index as int].id,
            info == cells@[index as int].info,
            neighbors@ == overlapping_of(cells@, index as int, i as int),
            neighbors@.len() <= i,
            forall|k: int| 0 <= k < neighbors@.len() ==> (#[trigger] neighbors@[k]).1.wf(),
        decreases n - i,
    {
        let other: CellRecord = cells[i];
        proof {
            assert(cells@[i as int].info.wf());
            assert(cells@[index as int].info.wf());
        }
        if other.id != entity && overlap(&info, &other.info) {
            neighbors.push((other.id, other.info, other.cell.hormones));
        }
        i = i + 1;
    }
    OverlappingCells(neighbors)
}

/// Finds, for every cell, the cells that overlap it.
pub fn pre_update(cells: &Vec<CellRecord>) -> (neighbors: Vec<OverlappingCells>)
    requires
        geometry_wf(cells@),
    ensures
        neighbors@.len() == cells@.len(),
        forall|i: int|
            0 <= i < cells@.len() ==> (#[trigger] neighbors@[i]).0@ == overlapping_of(
                cells@,
                i,
                cells@.len() as int,
            ) && neighbors@[i].wf(),
{
    let mut neighbors: Vec<OverlappingCells> = Vec::new();
    let n: usize = cells.len();
    let mut i: usize = 0;
    while i < n
        invariant
            n == cells@.len(),
            i <= n,
            geometry_wf(cells@),
            neighbors@.len() == i,
            forall|k: int|
                0 <= k < i ==> (#[trigger] neighbors@[k]).0@ == overlapping_of(
                    cells@,
                    k,
                    cells@.len() as int,
                ) && neighbors@[k].wf(),
        decreases n - i,
    {
        neighbors.push(overlapping_cells_of(cells, i));
        i = i + 1;
    }
    neighbors
}

/// The cell can be carried through a tick: its growth curve, its hormones,
/// its configuration and its geometry are valid, and the time is within the
/// limit after its birth.
pub open spec fn can_update(record: CellRecord, sim_time: SimulationTime) -> bool {
    &&& record.cell.growth_factors.wf()
    &&& record.cell.hormones.wf()
    &&& record.cell.tissue_config.wf()
    &&& record.info.wf()
    &&& 0 <= sim_time.elapsed - record.cell.birth_time <= LIMIT
    &&& in_limit(sim_time.delta_secs as int)
}

/// Carries one cell through a tick: the cell takes the volume that its
/// growth curve gives for the time, its hormones go through one step, its
/// radius follows its volume, and it retreats from the overlapping cells
/// whose core it has entered.
///
/// Returns the cell's volume and the reports of the hormones that left for
/// its neighbours; nothing, with the cell left as it was, if a hormone level
/// or an amount leaves the limit.
pub fn update_cell(
    record: &mut CellRecord,
    overlapping_cells: &OverlappingCells,
    sim_time: &SimulationTime,
    fallback: &Vector3,
) -> (result: Option<(i64, Vec<HormoneFlowEvent>)>)
    requires
        can_update(*old(record), *sim_time),
        overlapping_cells.wf(),
        overlapping_cells.hormones_wf(),
        overlapping_cells.0@.len() <= MAX_MEAN_POINTS,
        fallback.is_direction(),
    ensures
        final(record).id == old(record).id,
        match simulated_hormones(
            old(record).cell,
            sim_time.delta_secs,
            old(record).info,
            overlapping_cells.0@,
        ) {
            None => result is None && *final(record) == *old(record),
            Some((hormones, events)) => {
                let volume = logistic_growth_spec(
                    old(record).cell.growth_factors,
                    sim_time.elapsed - old(record).cell.birth_time,
                );
                &&& result matches Some((grown, reported)) && grown == volume && reported@
                    == events
                &&& final(record).cell == (Cell { hormones, ..old(record).cell })
                &&& final(record).info.id == old(record).info.id
                &&& final(record).info.radius == sphere_radius(volume)
                &&& final(record).info.position == repositioned(
                    CellInformation { radius: final(record).info.radius, ..old(record).info },
                    overlapping_cells.geometry(),
                    *fallback,
                )
            },
        },
{
    let mut cell: Cell = record.cell;
    let mut info: CellInformation = record.info;
    let new_volume: i64 = cell.update_size(sim_time.elapsed);
    match cell.simulate_hormones(sim_time.delta_secs, &info, overlapping_cells) {
        None => None,
        Some(events) => {
            info.update(overlapping_cells, new_volume, fallback);
            record.cell = cell;
            record.info = info;
            Some((new_volume, events))
        },
    }
}

/// A cell asks to divide when its tissue is of a kind that divides and its
/// volume has come within the margin of its ceiling.
pub open spec fn divides_now(volume: i64, ceiling: i64, kind: TissueType) -> bool {
    kind.divides() && volume > ceiling - VOLUME_MARGIN
}

/// A cell asks to differentiate when its tissue is of a kind that divides
/// and its auxin level is below the threshold.
pub open spec fn differentiates_now(auxin: i64, kind: TissueType) -> bool {
    kind.divides() && auxin < AUXIN_THRESHOLD
}

/// Tells whether a cell of the given volume asks to divide.
pub fn should_divide(volume: i64, ceiling: i64, kind: TissueType) -> (b: bool)
    ensures
        b == divides_now(volume, ceiling, kind),
{
    kind.can_divide() && (volume as i128) > (ceiling as i128) - (VOLUME_MARGIN as i128)
}

/// Tells whether a cell with the given auxin level asks to differentiate.
pub fn should_differentiate(auxin: i64, kind: TissueType) -> (b: bool)
    ensures
        b == differentiates_now(auxin, kind),
{
    kind.can_divide() && auxin < AUXIN_THRESHOLD
}

/// The kind of the tissue that the cell belongs to, if the tissue is known.
pub open spec fn kind_of(record: CellRecord, tissues: Seq<TissueModel>) -> Option<TissueType> {
    match first_index(tissue_ids(tissues), record.cell.tissue) {
        Some(t) => Some(tissues[t].kind),
        None => None,
    }
}

/// The requests of the first `upto` cells: first those to divide, then those
/// to differentiate, each in the order of the cells; or the error that the
/// first cell without a known tissue is.
pub open spec fn requests(
    cells: Seq<CellRecord>,
    tissues: Seq<TissueModel>,
    volumes: Seq<i64>,
    upto: int,
) -> Result<(Seq<CellDivideEvent>, Seq<CellDifferentiateEvent>), LifecycleError>
    decreases upto,
{
    if upto <= 0 {
        Ok((Seq::empty(), Seq::empty()))
    } else {
        match requests(cells, tissues, volumes, upto - 1) {
            Err(e) => Err(e),
            Ok((divide, differentiate)) => {
                let record = cells[upto - 1];
                match kind_of(record, tissues) {
                    None => Err(LifecycleError::UnknownTissue(record.id, record.cell.tissue)),
                    Some(kind) => Ok(
                        (
                            if divides_now(
                                volumes[upto - 1],
                                record.cell.growth_factors.size_threshold,
                                kind,
                            ) {
                                divide.push(CellDivideEvent { parent: record.id })
                            } else {
                                divide
                            },
                            if differentiates_now(record.cell.hormones.auxin_level, kind) {
                                differentiate.push(CellDifferentiateEvent { cell: record.id })
                            } else {
                                differentiate
                            },
                        ),
                    ),
                }
            },
        }
    }
}

/// An error among the requests of the first cells is the error of all.
proof fn lemma_requests_stop(
    cells: Seq<CellRecord>,
    tissues: Seq<TissueModel>,
    volumes: Seq<i64>,
    upto: int,
    end: int,
)
    requires
        0 <= upto <= end,
        requests(cells, tissues, volumes, upto) is Err,
    ensures
        requests(cells, tissues, volumes, end) == requests(cells, tissues, volumes, upto),
    decreases end - upto,
{
    if upto < end {
        lemma_requests_stop(cells, tissues, volumes, upto, end - 1);
    }
}

/// Collects the requests of the cells after a tick, given the volume of
/// each cell.
pub fn collect_requests(
    cells: &Vec<CellRecord>,
    tissues: &Vec<TissueRecord>,
    volumes: &Vec<i64>,
) -> (collected: Result<(Vec<CellDivideEvent>, Vec<CellDifferentiateEvent>), LifecycleError>)
    requires
        volumes@.len() == cells@.len(),
    ensures
        match requests(cells@, models(tissues@), volumes@, cells@.len() as int) {
            Ok((divide, differentiate)) => collected matches Ok((to_divide, to_differentiate))
                && to_divide@ == divide && to_differentiate@ == differentiate,
            Err(e) => collected matches Err(found) && found == e,
        },
{
    let mut divide: Vec<CellDivideEvent> = Vec::new();
    let mut differentiate: Vec<CellDifferentiateEvent> = Vec::new();
    let n: usize = cells.len();
    let mut i: usize = 0;
    while i < n
        invariant
            n == cells@.len(),
            n == volumes@.len(),
            i <= n,
            requests(cells@, models(tissues@), volumes@, i as int) == Ok::<
                (Seq<CellDivideEvent>, Seq<CellDifferentiateEvent>),
                LifecycleError,
            >((divide@, differentiate@)),
        decreases n - i,
    {
        let record: CellRecord = cells[i];
        match find_tissue(tissues, record.cell.tissue) {
            None => {
                proof {
                    assert(requests(cells@, models(tissues@), volumes@, i + 1) is Err);
                    lemma_requests_stop(cells@, models(tissues@), volumes@, i + 1, n as int);
                }
                return Err(LifecycleError::UnknownTissue(record.id, record.cell.tissue));
            },
            Some(t) => {
                let kind: TissueType = tissues[t].tissue.kind;
                if should_divide(volumes[i], record.cell.growth_factors.size_threshold, kind) {
                    divide.push(CellDivideEvent { parent: record.id });
                }
                if should_differentiate(record.cell.hormones.auxin_level, kind) {
                    differentiate.push(CellDifferentiateEvent { cell: record.id });
                }
            },
        }
        i = i + 1;
    }
    Ok((divide, differentiate))
}

} // verus!
