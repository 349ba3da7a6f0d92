//! Division and differentiation: what becomes of a cell, of its tissue and
//! of the registry of cells and tissues when a request is carried out.
//!
//! A request must name a cell of the registry whose tissue the registry
//! knows. Whoever hands requests over tests this with
//! `check_division_request` and stops on what it names. A request that the
//! cell's tissue does not allow changes nothing.
use crate::model::cell::{half, halve, logistic_growth_spec, Cell, GrowthFactors};
use crate::model::hormone::{HormoneFlowEvent, Phytohormones};
use crate::model::organ::{Organ, OrganType};
use crate::model::tissue::{Tissue, TissueConfig, TissueType};
use crate::shared::cell::CellInformation;
use crate::shared::fixed::LIMIT;
use crate::shared::lookup::{
    first_index, lemma_first_index_found, lemma_first_index_is, lemma_first_index_none,
};
use crate::shared::math::{radius_from_volume, sphere_radius};
use crate::shared::point::Point3;
use vstd::prelude::*;

verus! {

/// The request to divide a cell.
#[derive(Clone, Copy, Debug, PartialEq, Eq, Structural)]
pub struct CellDivideEvent {
    pub parent: u64,
}

/// The request to move a cell to a tissue of differentiated cells.
#[derive(Clone, Copy, Debug, PartialEq, Eq, Structural)]
pub struct CellDifferentiateEvent {
    pub cell: u64,
}

/// The request to create a cell.
#[derive(Clone, Copy, Debug, PartialEq, Eq, Structural)]
pub struct CellSpawnEvent {
    pub position: Point3,
    pub radius: i64,
    pub tissue: u64,
    pub hormones: Phytohormones,
}

/// A cell in the registry: its identifier, its living state and its
/// geometry.
#[derive(Clone, Copy, Debug)]
pub struct CellRecord {
    pub id: u64,
    pub cell: Cell,
    pub info: CellInformation,
}

/// A tissue in the registry, with its identifier.
#[derive(Debug)]
pub struct TissueRecord {
    pub id: u64,
    pub tissue: Tissue,
}

/// An organ in the registry, with its identifier.
#[derive(Debug)]
pub struct OrganRecord {
    pub id: u64,
    pub organ: Organ,
}

/// What a tissue of the registry is, with its cells as a sequence.
pub struct TissueModel {
    pub id: u64,
    pub kind: TissueType,
    pub organ_ref: u64,
    pub members: Seq<u64>,
    pub config: TissueConfig,
}

/// A broken link between a request and the registry.
#[derive(Clone, Copy, Debug, PartialEq, Eq, Structural)]
pub enum LifecycleError {
    /// No cell has this identifier.
    UnknownCell(u64),
    /// The cell, named first, belongs to a tissue, named second, that the
    /// registry does not know.
    UnknownTissue(u64, u64),
    /// The tissue, named first, belongs to an organ, named second, that the
    /// registry does not know.
    UnknownOrgan(u64, u64),
    /// The cell, named first, is not among the cells of its tissue, named
    /// second.
    CellNotInTissue(u64, u64),
    /// The species has no configuration for this kind of tissue in this
    /// kind of organ.
    MissingConfig(OrganType, TissueType),
    /// The growth curve or the position of this cell is outside of what the
    /// geometry accepts.
    OutOfRange(u64),
}

/// What became of a request to divide.
#[derive(Clone, Copy, Debug, PartialEq, Eq, Structural)]
pub enum Division {
    /// The cell has divided: the daughter is to be created.
    Divided(CellSpawnEvent),
    /// The cell's tissue does not divide, or has no growing direction:
    /// nothing has changed.
    Refused,
}

/// What became of a request to differentiate.
#[derive(Clone, Copy, Debug, PartialEq, Eq, Structural)]
pub enum Differentiation {
    /// The cell has moved to the existing tissue with this identifier.
    Moved(u64),
    /// The cell has moved to a new tissue with this identifier.
    Founded(u64),
    /// The cell's tissue does not differentiate: nothing has changed.
    Refused,
}

impl TissueRecord {
    /// What this tissue is.
    pub open spec fn model(self) -> TissueModel {
        TissueModel {
            id: self.id,
            kind: self.tissue.kind,
            organ_ref: self.tissue.organ_ref,
            members: self.tissue.cell_refs@,
            config: self.tissue.config,
        }
    }
}

/// What the tissues of the registry are, in their order.
pub open spec fn models(tissues: Seq<TissueRecord>) -> Seq<TissueModel> {
    Seq::new(tissues.len(), |i: int| tissues[i].model())
}

/// The identifiers of the cells, in their order.
pub open spec fn cell_ids(cells: Seq<CellRecord>) -> Seq<u64> {
    Seq::new(cells.len(), |i: int| cells[i].id)
}

/// The identifiers of the tissues, in their order.
pub open spec fn tissue_ids(tissues: Seq<TissueModel>) -> Seq<u64> {
    Seq::new(tissues.len(), |i: int| tissues[i].id)
}

/// The kinds of the tissues, in their order.
pub open spec fn kinds_of(tissues: Seq<TissueModel>) -> Seq<TissueType> {
    Seq::new(tissues.len(), |i: int| tissues[i].kind)
}

/// The identifiers of the organs, in their order.
pub open spec fn organ_ids(organs: Seq<OrganRecord>) -> Seq<u64> {
    Seq::new(organs.len(), |i: int| organs[i].id)
}

/// Finds the first cell with an identifier.
pub fn find_cell(cells: &Vec<CellRecord>, id: u64) -> (found: Option<usize>)
    ensures
        match found {
            Some(index) => first_index(cell_ids(cells@), id) == Some(index as int) && index
                < cells@.len(),
            None => first_index(cell_ids(cells@), id) is None,
        },
{
    let n: usize = cells.len();
    let mut i: usize = 0;
    while i < n
        invariant
            n == cells@.len(),
            i <= n,
            forall|k: int| 0 <= k < i ==> cell_ids(cells@)[k] != id,
        decreases n - i,
    {
        if cells[i].id == id {
            proof {
                lemma_first_index_is(cell_ids(cells@), id, i as int);
            }
            return Some(i);
        }
        i = i + 1;
    }
    proof {
        lemma_first_index_none(cell_ids(cells@), id);
    }
    None
}

/// Finds the first tissue with an identifier.
pub fn find_tissue(tissues: &Vec<TissueRecord>, id: u64) -> (found: Option<usize>)
    ensures
        match found {
            Some(index) => first_index(tissue_ids(models(tissues@)), id) == Some(index as int)
                && index < tissues@.len(),
            None => first_index(tissue_ids(models(tissues@)), id) is None,
        },
{
    let n: usize = tissues.len();
    let mut i: usize = 0;
    while i < n
        invariant
            n == tissues@.len(),
            i <= n,
            forall|k: int| 0 <= k < i ==> tissue_ids(models(tissues@))[k] != id,
        decreases n - i,
    {
        if tissues[i].id == id {
            proof {
                lemma_first_index_is(tissue_ids(models(tissues@)), id, i as int);
            }
            return Some(i);
        }
        i = i + 1;
    }
    proof {
        lemma_first_index_none(tissue_ids(models(tissues@)), id);
    }
    None
}

/// Finds the first tissue of a kind.
pub fn find_tissue_of_kind(tissues: &Vec<TissueRecord>, kind: TissueType) -> (found: Option<usize>)
    ensures
        match found {
            Some(index) => first_index(kinds_of(models(tissues@)), kind) == Some(index as int)
                && index < tissues@.len(),
            None => first_index(kinds_of(models(tissues@)), kind) is None,
        },
{
    let n: usize = tissues.len();
    let mut i: usize = 0;
    while i < n
        invariant
            n == tissues@.len(),
            i <= n,
            forall|k: int| 0 <= k < i ==> kinds_of(models(tissues@))[k] != kind,
        decreases n - i,
    {
        if tissues[i].tissue.kind == kind {
            proof {
                lemma_first_index_is(kinds_of(models(tissues@)), kind, i as int);
            }
            return Some(i);
        }
        i = i + 1;
    }
    proof {
        lemma_first_index_none(kinds_of(models(tissues@)), kind);
    }
    None
}

/// Finds the first organ with an identifier.
pub fn find_organ(organs: &Vec<OrganRecord>, id: u64) -> (found: Option<usize>)
    ensures
        match found {
            Some(index) => first_index(organ_ids(organs@), id) == Some(index as int) && index
                < organs@.len(),
            None => first_index(organ_ids(organs@), id) is None,
        },
{
    let n: usize = organs.len();
    let mut i: usize = 0;
    while i < n
        invariant
            n == organs@.len(),
            i <= n,
            forall|k: int| 0 <= k < i ==> organ_ids(organs@)[k] != id,
        decreases n - i,
    {
        if organs[i].id == id {
            proof {
                lemma_first_index_is(organ_ids(organs@), id, i as int);
            }
            return Some(i);
        }
        i = i + 1;
    }
    proof {
        lemma_first_index_none(organ_ids(organs@), id);
    }
    None
}

/// A tissue allows a division if it is of a kind that divides and has a
/// growing direction.
pub open spec fn allows_division(kind: TissueType, config: TissueConfig) -> bool {
    kind.divides() && config.growing_config is Some
}

/// The parent after its division at the time `sim_time`: born anew with half
/// of its volume and half of its auxin, under the ceiling of its tissue's
/// configuration. Of its cytokinin it keeps what the daughter does not get.
pub open spec fn divided_parent(parent: Cell, sim_time: i64) -> Cell {
    Cell {
        birth_time: sim_time,
        growth_factors: GrowthFactors {
            growth_factor: parent.growth_factors.growth_factor,
            start_value: (logistic_growth_spec(
                parent.growth_factors,
                sim_time - parent.birth_time,
            ) / 2) as i64,
            size_threshold: parent.tissue_config.max_cell_volume,
        },
        hormones: Phytohormones {
            auxin_level: half(parent.hormones.auxin_level as int) as i64,
            cytokinin_level: (parent.hormones.cytokinin_level - half(
                parent.hormones.cytokinin_level as int,
            )) as i64,
        },
        tissue: parent.tissue,
        tissue_config: parent.tissue_config,
    }
}

/// The geometry of the parent after its division: where it was, with the
/// radius of its halved volume.
pub open spec fn divided_info(parent: Cell, info: CellInformation, sim_time: i64) -> CellInformation {
    CellInformation {
        radius: sphere_radius(
            divided_parent(parent, sim_time).growth_factors.start_value as int,
        ) as i64,
        ..info
    }
}

/// The daughter of a division: a cell of the parent's tissue at the
/// parent's position moved by the growing direction, with the parent's new
/// radius, as much auxin as the parent keeps, and half of the cytokinin that
/// the parent had.
pub open spec fn daughter(
    parent: Cell,
    info: CellInformation,
    config: TissueConfig,
    sim_time: i64,
) -> CellSpawnEvent {
    let after = divided_parent(parent, sim_time);
    let growing = config.growing_config->0;
    CellSpawnEvent {
        position: Point3 {
            x: (info.position.x + growing.growing_direction.x) as i64,
            y: (info.position.y + growing.growing_direction.y) as i64,
            z: (info.position.z + growing.growing_direction.z) as i64,
        },
        radius: divided_info(parent, info, sim_time).radius,
        tissue: parent.tissue,
        hormones: Phytohormones {
            auxin_level: after.hormones.auxin_level,
            cytokinin_level: half(parent.hormones.cytokinin_level as int) as i64,
        },
    }
}

/// The cell's growth curve is valid, the time is within the limit after its
/// birth, and its position and the growing direction are within bounds.
pub open spec fn can_divide_now(
    cell: Cell,
    info: CellInformation,
    config: TissueConfig,
    sim_time: i64,
) -> bool {
    &&& cell.growth_factors.wf()
    &&& 0 <= sim_time - cell.birth_time <= LIMIT
    &&& info.position.in_bounds()
    &&& config.growing_config matches Some(growing) ==> growing.growing_direction.in_bounds()
}

/// Divides a cell at the time `sim_time`, if its tissue allows it.
///
/// The parent keeps half of its volume at that time and half of its auxin,
/// and its growth starts anew; its radius becomes that of the halved volume.
/// The daughter gets the same volume and the same auxin. The cytokinin is
/// shared: the daughter gets half of it, the parent keeps the rest. In a
/// tissue that does not divide, or has no growing direction, nothing
/// changes.
pub fn divide_cell(
    parent_cell: &mut Cell,
    cell_info: &mut CellInformation,
    tissue: &Tissue,
    sim_time: i64,
) -> (outcome: Division)
    requires
        can_divide_now(*old(parent_cell), *old(cell_info), tissue.config, sim_time),
    ensures
        allows_division(tissue.kind, tissue.config) ==> *final(parent_cell) == divided_parent(
            *old(parent_cell),
            sim_time,
        ) && *final(cell_info) == divided_info(*old(parent_cell), *old(cell_info), sim_time)
            && outcome == Division::Divided(
            daughter(*old(parent_cell), *old(cell_info), tissue.config, sim_time),
        ),
        !allows_division(tissue.kind, tissue.config) ==> *final(parent_cell) == *old(parent_cell)
            && *final(cell_info) == *old(cell_info) && outcome == Division::Refused,
{
    if !tissue.kind.can_divide() {
        return Division::Refused;
    }
    match tissue.config.growing_config {
        None => Division::Refused,
        Some(growing) => {
            let volume: i64 = parent_cell.update_size(sim_time);
            let new_volume: i64 = volume / 2;
            parent_cell.on_divide(new_volume, sim_time);
            let cytokinin_flux: i64 = halve(parent_cell.cytokinin_level());
            parent_cell.hormones.cytokinin_level = parent_cell.cytokinin_level() - cytokinin_flux;
            let new_radius: i64 = radius_from_volume(new_volume);
            cell_info.radius = new_radius;
            Division::Divided(
                CellSpawnEvent {
                    position: Point3 {
                        x: cell_info.position.x + growing.growing_direction.x,
                        y: cell_info.position.y + growing.growing_direction.y,
                        z: cell_info.position.z + growing.growing_direction.z,
                    },
                    radius: new_radius,
                    tissue: parent_cell.tissue(),
                    hormones: Phytohormones {
                        auxin_level: parent_cell.auxin_level(),
                        cytokinin_level: cytokinin_flux,
                    },
                },
            )
        },
    }
}

/// What a request to divide the cell `parent` makes of the cells of the
/// registry, and what comes of it.
pub open spec fn division(
    cells: Seq<CellRecord>,
    tissues: Seq<TissueModel>,
    parent: u64,
    sim_time: i64,
) -> (Seq<CellRecord>, Result<Division, LifecycleError>) {
    match first_index(cell_ids(cells), parent) {
        None => (cells, Err(LifecycleError::UnknownCell(parent))),
        Some(c) => match first_index(tissue_ids(tissues), cells[c].cell.tissue) {
            None => (cells, Err(LifecycleError::UnknownTissue(parent, cells[c].cell.tissue))),
            Some(t) => if !allows_division(tissues[t].kind, tissues[t].config) {
                (cells, Ok(Division::Refused))
            } else if !can_divide_now(cells[c].cell, cells[c].info, tissues[t].config, sim_time) {
                (cells, Err(LifecycleError::OutOfRange(parent)))
            } else {
                (
                    cells.update(
                        c,
                        CellRecord {
                            id: parent,
                            cell: divided_parent(cells[c].cell, sim_time),
                            info: divided_info(cells[c].cell, cells[c].info, sim_time),
                        },
                    ),
                    Ok(
                        Division::Divided(
                            daughter(cells[c].cell, cells[c].info, tissues[t].config, sim_time),
                        ),
                    ),
                )
            },
        },
    }
}

/// Tells whether a cell can be divided at the time `sim_time`.
pub fn check_division(cell: &Cell, info: &CellInformation, config: &TissueConfig, sim_time: i64) -> (ok:
    bool)
    ensures
        ok == can_divide_now(*cell, *info, *config, sim_time),
{
    let g: GrowthFactors = cell.growth_factors;
    let elapsed: i128 = sim_time as i128 - cell.birth_time as i128;
    let growth_ok: bool = 0 < g.start_value && g.start_value <= LIMIT && 0 < g.size_threshold
        && g.size_threshold <= LIMIT && 0 <= g.growth_factor && g.growth_factor <= LIMIT && 0
        <= elapsed && elapsed <= LIMIT as i128;
    let position_ok: bool = within_limit(info.position.x) && within_limit(info.position.y)
        && within_limit(info.position.z);
    let direction_ok: bool = match config.growing_config {
        Some(growing) => within_limit(growing.growing_direction.x) && within_limit(
            growing.growing_direction.y,
        ) && within_limit(growing.growing_direction.z),
        None => true,
    };
    growth_ok && position_ok && direction_ok
}

/// Tells whether a scalar is within the limit.
pub fn within_limit(x: i64) -> (ok: bool)
    ensures
        ok == crate::shared::fixed::in_limit(x as int),
{
    -LIMIT <= x && x <= LIMIT
}

/// What a request to divide the cell `parent` lacks in the registry, if it
/// lacks anything: the cell, or the tissue that the cell belongs to.
pub open spec fn division_fault(
    cells: Seq<CellRecord>,
    tissues: Seq<TissueModel>,
    parent: u64,
) -> Option<LifecycleError> {
    match first_index(cell_ids(cells), parent) {
        None => Some(LifecycleError::UnknownCell(parent)),
        Some(c) => match first_index(tissue_ids(tissues), cells[c].cell.tissue) {
            None => Some(LifecycleError::UnknownTissue(parent, cells[c].cell.tissue)),
            Some(_) => None,
        },
    }
}

/// Every request names a cell of the registry whose tissue the registry
/// knows.
pub open spec fn divisions_fit(
    cells: Seq<CellRecord>,
    tissues: Seq<TissueModel>,
    events: Seq<CellDivideEvent>,
) -> bool {
    forall|i: int|
        0 <= i < events.len() ==> division_fault(cells, tissues, (#[trigger] events[i]).parent)
            is None
}

/// Tells what a request to divide the cell `parent` lacks in the registry,
/// if it lacks anything.
pub fn check_division_request(cells: &Vec<CellRecord>, tissues: &Vec<TissueRecord>, parent: u64) -> (fault:
    Option<LifecycleError>)
    ensures
        fault == division_fault(cells@, models(tissues@), parent),
{
    match find_cell(cells, parent) {
        None => Some(LifecycleError::UnknownCell(parent)),
        Some(c) => match find_tissue(tissues, cells[c].cell.tissue) {
            None => Some(LifecycleError::UnknownTissue(parent, cells[c].cell.tissue)),
            Some(_) => None,
        },
    }
}

/// A division leaves every cell its identifier and its tissue, so what a
/// request lacks in the registry is the same before and after it.
pub proof fn lemma_division_keeps_links(
    cells: Seq<CellRecord>,
    tissues: Seq<TissueModel>,
    parent: u64,
    sim_time: i64,
    other: u64,
)
    ensures
        division_fault(division(cells, tissues, parent, sim_time).0, tissues, other)
            == division_fault(cells, tissues, other),
{
    let after = division(cells, tissues, parent, sim_time).0;
    lemma_first_index_found(cell_ids(cells), parent);
    assert(cell_ids(after) =~= cell_ids(cells));
    lemma_first_index_found(cell_ids(cells), other);
    match first_index(cell_ids(cells), other) {
        Some(c) => {
            assert(after[c].cell.tissue == cells[c].cell.tissue);
        },
        None => {},
    }
}

/// Carries out the request to divide the cell `parent`, which the registry
/// knows together with its tissue. A cell whose growth curve or position is
/// outside of what the geometry accepts is left as it is and named in the
/// error.
pub fn divide_in_registry(
    cells: &mut Vec<CellRecord>,
    tissues: &Vec<TissueRecord>,
    parent: u64,
    sim_time: i64,
) -> (outcome: Result<Division, LifecycleError>)
    requires
        division_fault(old(cells)@, models(tissues@), parent) is None,
    ensures
        (final(cells)@, outcome) == division(old(cells)@, models(tissues@), parent, sim_time),
        outcome matches Err(e) ==> e == LifecycleError::OutOfRange(parent),
{
    let c: usize = match find_cell(cells, parent) {
        Some(c) => c,
        None => {
            return Err(LifecycleError::UnknownCell(parent));
        },
    };
    let record: CellRecord = cells[c];
    proof {
        lemma_first_index_found(cell_ids(cells@), parent);
    }
    let t: usize = match find_tissue(tissues, record.cell.tissue) {
        Some(t) => t,
        None => {
            return Err(LifecycleError::UnknownTissue(parent, record.cell.tissue));
        },
    };
    let tissue: &Tissue = &tissues[t].tissue;
    if !tissue.kind.can_divide() || tissue.config.growing_config.is_none() {
        return Ok(Division::Refused);
    }
    if !check_division(&record.cell, &record.info, &tissue.config, sim_time) {
        return Err(LifecycleError::OutOfRange(parent));
    }
    let mut cell: Cell = record.cell;
    let mut info: CellInformation = record.info;
    let outcome: Division = divide_cell(&mut cell, &mut info, tissue, sim_time);
    cells.set(c, CellRecord { id: record.id, cell, info });
    Ok(outcome)
}

/// What a list of requests to divide makes of the cells of the registry:
/// the cells afterwards, the daughters to create, and the error at which
/// the work stopped, if it did. The requests are carried out in turn, each
/// on the cells as the requests before it left them.
pub open spec fn divisions(
    cells: Seq<CellRecord>,
    tissues: Seq<TissueModel>,
    events: Seq<CellDivideEvent>,
    sim_time: i64,
) -> (Seq<CellRecord>, Seq<CellSpawnEvent>, Option<LifecycleError>)
    decreases events.len(),
{
    if events.len() == 0 {
        (cells, Seq::empty(), None)
    } else {
        let (before, spawned, error) = divisions(cells, tissues, events.drop_last(), sim_time);
        if error is Some {
            (before, spawned, error)
        } else {
            let (after, outcome) = division(before, tissues, events.last().parent, sim_time);
            match outcome {
                Ok(Division::Divided(daughter)) => (after, spawned.push(daughter), None),
                Ok(Division::Refused) => (after, spawned, None),
                Err(e) => (after, spawned, Some(e)),
            }
        }
    }
}

/// Once the work has stopped at an error, later requests change nothing.
proof fn lemma_divisions_stop(
    cells: Seq<CellRecord>,
    tissues: Seq<TissueModel>,
    events: Seq<CellDivideEvent>,
    sim_time: i64,
    upto: int,
)
    requires
        0 <= upto <= events.len(),
        divisions(cells, tissues, events.subrange(0, upto), sim_time).2 is Some,
    ensures
        divisions(cells, tissues, events, sim_time) == divisions(
            cells,
            tissues,
            events.subrange(0, upto),
            sim_time,
        ),
    decreases events.len() - upto,
{
    if upto < events.len() {
        assert(events.subrange(0, upto + 1).drop_last() =~= events.subrange(0, upto));
        lemma_divisions_stop(cells, tissues, events, sim_time, upto + 1);
    } else {
        assert(events.subrange(0, upto) =~= events);
    }
}

/// Carries out the requests to divide, in turn, and returns the daughters
/// to create. Every request must name a cell of the registry whose tissue
/// the registry knows. Stops at the first cell whose growth curve or
/// position is outside of what the geometry accepts and returns it as an
/// error; the requests before it stay carried out.
pub fn handle_cell_division_events(
    divide_events: &Vec<CellDivideEvent>,
    cells: &mut Vec<CellRecord>,
    tissues: &Vec<TissueRecord>,
    sim_time: i64,
) -> (spawn_events: Result<Vec<CellSpawnEvent>, LifecycleError>)
    requires
        divisions_fit(old(cells)@, models(tissues@), divide_events@),
    ensures
        spawn_events matches Err(e) ==> exists|i: int|
            0 <= i < divide_events@.len() && e == LifecycleError::OutOfRange(
                (#[trigger] divide_events@[i]).parent,
            ),
        ({
            let (after, spawned, error) = divisions(
                old(cells)@,
                models(tissues@),
                divide_events@,
                sim_time,
            );
            &&& final(cells)@ == after
            &&& match error {
                Some(e) => spawn_events == Err::<Vec<CellSpawnEvent>, LifecycleError>(e),
                None => spawn_events matches Ok(list) && list@ == spawned,
            }
        }),
{
    let mut spawned: Vec<CellSpawnEvent> = Vec::new();
    let n: usize = divide_events.len();
    let mut i: usize = 0;
    while i < n
        invariant
            n == divide_events@.len(),
            i <= n,
            divisions_fit(cells@, models(tissues@), divide_events@),
            divisions(
                old(cells)@,
                models(tissues@),
                divide_events@.subrange(0, i as int),
                sim_time,
            ) == (cells@, spawned@, None::<LifecycleError>),
        decreases n - i,
    {
        let ghost before = cells@;
        proof {
            assert(division_fault(before, models(tissues@), divide_events@[i as int].parent)
                is None);
            assert forall|k: int| 0 <= k < divide_events@.len() implies division_fault(
                division(before, models(tissues@), divide_events@[i as int].parent, sim_time).0,
                models(tissues@),
                (#[trigger] divide_events@[k]).parent,
            ) is None by {
                lemma_division_keeps_links(
                    before,
                    models(tissues@),
                    divide_events@[i as int].parent,
                    sim_time,
                    divide_events@[k].parent,
                );
            }
            assert(divide_events@.subrange(0, i + 1).drop_last() =~= divide_events@.subrange(
                0,
                i as int,
            ));
            assert(divide_events@.subrange(0, i + 1).last() == divide_events@[i as int]);
        }
        match divide_in_registry(cells, tissues, divide_events[i].parent, sim_time) {
            Ok(Division::Divided(daughter)) => {
                spawned.push(daughter);
            },
            Ok(Division::Refused) => {},
            Err(e) => {
                proof {
                    lemma_divisions_stop(
                        old(cells)@,
                        models(tissues@),
                        divide_events@,
                        sim_time,
                        i + 1,
                    );
                }
                return Err(e);
            },
        }
        i = i + 1;
    }
    proof {
        assert(divide_events@.subrange(0, n as int) =~= divide_events@);
    }
    Ok(spawned)
}

/// The reported amount fits the cell: with it, both hormone levels stay
/// within the limit.
pub open spec fn flow_fits(cell: Cell, amount: Phytohormones) -> bool {
    crate::shared::fixed::in_limit(cell.hormones.auxin_level + amount.auxin_level)
        && crate::shared::fixed::in_limit(cell.hormones.cytokinin_level + amount.cytokinin_level)
}

/// The cell with a reported amount of hormones added, if the amount fits;
/// else as it is.
pub open spec fn with_flow(record: CellRecord, amount: Phytohormones) -> CellRecord {
    if flow_fits(record.cell, amount) {
        CellRecord {
            cell: Cell {
                hormones: Phytohormones {
                    auxin_level: (record.cell.hormones.auxin_level + amount.auxin_level) as i64,
                    cytokinin_level: (record.cell.hormones.cytokinin_level
                        + amount.cytokinin_level) as i64,
                },
                ..record.cell
            },
            ..record
        }
    } else {
        record
    }
}

/// What a list of reports of hormones makes of the cells of the registry:
/// the cells afterwards, the number of reports that did not fit their
/// target, and the error at which the work stopped, if it did. Each report
/// reaches the first cell with the identifier of its target, as the reports
/// before it left that cell.
pub open spec fn flows(cells: Seq<CellRecord>, events: Seq<HormoneFlowEvent>) -> (
    Seq<CellRecord>,
    nat,
    Option<LifecycleError>,
)
    decreases events.len(),
{
    if events.len() == 0 {
        (cells, 0, None)
    } else {
        let (before, left_out, error) = flows(cells, events.drop_last());
        if error is Some {
            (before, left_out, error)
        } else {
            match first_index(cell_ids(before), events.last().target_cell) {
                None => (
                    before,
                    left_out,
                    Some(LifecycleError::UnknownCell(events.last().target_cell)),
                ),
                Some(c) => (
                    before.update(c, with_flow(before[c], events.last().amount)),
                    if flow_fits(before[c].cell, events.last().amount) {
                        left_out
                    } else {
                        left_out + 1
                    },
                    None,
                ),
            }
        }
    }
}

/// Once the work has stopped at an error, later reports change nothing.
proof fn lemma_flows_stop(cells: Seq<CellRecord>, events: Seq<HormoneFlowEvent>, upto: int)
    requires
        0 <= upto <= events.len(),
        flows(cells, events.subrange(0, upto)).2 is Some,
    ensures
        flows(cells, events) == flows(cells, events.subrange(0, upto)),
    decreases events.len() - upto,
{
    if upto < events.len() {
        assert(events.subrange(0, upto + 1).drop_last() =~= events.subrange(0, upto));
        lemma_flows_stop(cells, events, upto + 1);
    } else {
        assert(events.subrange(0, upto) =~= events);
    }
}

/// Adds each reported amount of hormones to its target, in turn, and
/// returns how many reports did not fit their target and were left out.
/// Stops at the first report for a cell that the registry does not know and
/// returns the error; the reports before it stay added.
pub fn handle_hormone_flow_events(flow_events: &Vec<HormoneFlowEvent>, cells: &mut Vec<CellRecord>) -> (left_out:
    Result<usize, LifecycleError>)
    ensures
        ({
            let (after, count, error) = flows(old(cells)@, flow_events@);
            &&& final(cells)@ == after
            &&& match error {
                Some(e) => left_out == Err::<usize, LifecycleError>(e),
                None => left_out == Ok::<usize, LifecycleError>(count as usize),
            }
        }),
{
    let n: usize = flow_events.len();
    let mut left_out: usize = 0;
    let mut i: usize = 0;
    while i < n
        invariant
            n == flow_events@.len(),
            i <= n,
            left_out <= i,
            flows(old(cells)@, flow_events@.subrange(0, i as int)) == (
                cells@,
                left_out as nat,
                None::<LifecycleError>,
            ),
        decreases n - i,
    {
        proof {
            assert(flow_events@.subrange(0, i + 1).drop_last() =~= flow_events@.subrange(
                0,
                i as int,
            ));
            assert(flow_events@.subrange(0, i + 1).last() == flow_events@[i as int]);
        }
        let event: HormoneFlowEvent = flow_events[i];
        match find_cell(cells, event.target_cell) {
            None => {
                proof {
                    lemma_flows_stop(old(cells)@, flow_events@, i + 1);
                }
                return Err(LifecycleError::UnknownCell(event.target_cell));
            },
            Some(c) => {
                let record: CellRecord = cells[c];
                let mut cell: Cell = record.cell;
                let added: bool = cell.add_to_hormone_level(event.amount);
                if !added {
                    left_out = left_out + 1;
                }
                cells.set(c, CellRecord { id: record.id, cell, info: record.info });
            },
        }
        i = i + 1;
    }
    proof {
        assert(flow_events@.subrange(0, n as int) =~= flow_events@);
    }
    Ok(left_out)
}

/// A division halves the state of the cell: parent and daughter each end up
/// with half of the parent's auxin, the parent's growth starts anew at half
/// of the volume that it had, and the daughter has the radius that the
/// parent is left with. The cytokinin is shared between the two.
pub proof fn lemma_division_halves(
    parent: Cell,
    info: CellInformation,
    config: TissueConfig,
    sim_time: i64,
)
    requires
        can_divide_now(parent, info, config, sim_time),
    ensures
        ({
            let volume = logistic_growth_spec(parent.growth_factors, sim_time - parent.birth_time);
            let after = divided_parent(parent, sim_time);
            let child = daughter(parent, info, config, sim_time);
            &&& 0 <= volume <= LIMIT
            &&& after.birth_time == sim_time
            &&& after.growth_factors.start_value == volume / 2
            &&& after.hormones.auxin_level == half(parent.hormones.auxin_level as int)
            &&& child.hormones.auxin_level == after.hormones.auxin_level
            &&& child.hormones.cytokinin_level == half(parent.hormones.cytokinin_level as int)
            &&& after.hormones.cytokinin_level + child.hormones.cytokinin_level
                == parent.hormones.cytokinin_level
            &&& child.radius == divided_info(parent, info, sim_time).radius
            &&& child.tissue == parent.tissue
        }),
{
    let g = parent.growth_factors;
    let elapsed: int = sim_time - parent.birth_time;
    crate::shared::decay::lemma_exp_neg_monotone(0, 0);
    crate::model::cell::lemma_growth_exponent_monotone(
        g.growth_factor as int,
        g.size_threshold as int,
        0,
        elapsed,
    );
    let x: int = crate::model::cell::growth_exponent(
        g.growth_factor as int,
        g.size_threshold as int,
        elapsed,
    );
    crate::shared::decay::lemma_exp_neg_monotone(x, x);
    crate::model::cell::lemma_logistic_range(
        g.size_threshold as int,
        g.start_value as int,
        crate::shared::decay::exp_neg_spec(x),
    );
}

} // verus!
