//! Differentiation: a cell leaves its dividing tissue for a tissue of
//! differentiated cells. Its geometry and its hormones stay as they are;
//! its tissue and, with it, the configuration that it lives by change.
//!
//! A request must fit the registry: its cell and the cell's tissue are
//! known, and a dividing tissue lists the cell, has a known organ and finds
//! a configuration for the tissue that the cell moves to. Whoever hands
//! requests over tests this with `check_differentiation_request` and stops
//! on what it names.
use crate::engine::cell_events::{
    cell_ids, find_cell, find_organ, find_tissue, find_tissue_of_kind, kinds_of, models,
    organ_ids, tissue_ids, CellDifferentiateEvent, CellRecord, Differentiation, LifecycleError,
    OrganRecord, TissueModel, TissueRecord,
};
use crate::model::cell::{Cell, GrowthFactors};
use crate::model::organ::OrganType;
use crate::model::species::{species_config, Species};
use crate::model::tissue::{Tissue, TissueConfig, TissueType};
use crate::shared::lookup::{find_id, first_index, lemma_first_index_found};
use vstd::prelude::*;

verus! {

/// The cell as a member of another tissue: it belongs to that tissue and
/// lives by that tissue's configuration, under that configuration's ceiling.
pub open spec fn moved_cell(record: CellRecord, tissue: u64, config: TissueConfig) -> CellRecord {
    CellRecord {
        cell: Cell {
            tissue,
            tissue_config: config,
            growth_factors: GrowthFactors {
                size_threshold: config.max_cell_volume,
                ..record.cell.growth_factors
            },
            ..record.cell
        },
        ..record
    }
}

/// The tissue without the member at `index`.
pub open spec fn without_member(tissue: TissueModel, index: int) -> TissueModel {
    TissueModel { members: tissue.members.remove(index), ..tissue }
}

/// The tissue with one more member.
pub open spec fn with_member(tissue: TissueModel, cell: u64) -> TissueModel {
    TissueModel { members: tissue.members.push(cell), ..tissue }
}

/// What a request to differentiate the cell `cell` makes of the cells and
/// tissues of the registry, and what comes of it.
///
/// A tissue that does not divide does not differentiate either: nothing
/// changes. Else the cell leaves its tissue for the first tissue of
/// differentiated cells, configured as the species has it for the organ of
/// the tissue that it leaves. Where there is no such tissue yet, one is
/// founded in that organ under the identifier `fresh`, configured as the
/// species has it for a stem. A request that does not fit the registry is
/// answered with what is missing, and nothing changes.
pub open spec fn differentiation(
    cells: Seq<CellRecord>,
    tissues: Seq<TissueModel>,
    organs: Seq<OrganRecord>,
    species: Species,
    cell: u64,
    fresh: u64,
) -> (Seq<CellRecord>, Seq<TissueModel>, Result<Differentiation, LifecycleError>) {
    match first_index(cell_ids(cells), cell) {
        None => (cells, tissues, Err(LifecycleError::UnknownCell(cell))),
        Some(c) => {
            let home = cells[c].cell.tissue;
            match first_index(tissue_ids(tissues), home) {
                None => (cells, tissues, Err(LifecycleError::UnknownTissue(cell, home))),
                Some(t) => if !tissues[t].kind.divides() {
                    (cells, tissues, Ok(Differentiation::Refused))
                } else {
                    match first_index(tissues[t].members, cell) {
                        None => (cells, tissues, Err(LifecycleError::CellNotInTissue(cell, home))),
                        Some(m) => match first_index(kinds_of(tissues), TissueType::Parenchyma) {
                            Some(p) => match first_index(organ_ids(organs), tissues[t].organ_ref) {
                                None => (
                                    cells,
                                    tissues,
                                    Err(LifecycleError::UnknownOrgan(home, tissues[t].organ_ref)),
                                ),
                                Some(o) => match species_config(
                                    species.config,
                                    organs[o].organ.kind,
                                    TissueType::Parenchyma,
                                ) {
                                    None => (
                                        cells,
                                        tissues,
                                        Err(
                                            LifecycleError::MissingConfig(
                                                organs[o].organ.kind,
                                                TissueType::Parenchyma,
                                            ),
                                        ),
                                    ),
                                    Some(config) => (
                                        cells.update(c, moved_cell(cells[c], tissues[p].id, config)),
                                        tissues.update(t, without_member(tissues[t], m)).update(
                                            p,
                                            with_member(tissues[p], cell),
                                        ),
                                        Ok(Differentiation::Moved(tissues[p].id)),
                                    ),
                                },
                            },
                            None => match species_config(
                                species.config,
                                OrganType::Stem,
                                TissueType::Parenchyma,
                            ) {
                                None => (
                                    cells,
                                    tissues,
                                    Err(
                                        LifecycleError::MissingConfig(
                                            OrganType::Stem,
                                            TissueType::Parenchyma,
                                        ),
                                    ),
                                ),
                                Some(config) => (
                                    cells.update(c, moved_cell(cells[c], fresh, config)),
                                    tissues.update(t, without_member(tissues[t], m)).push(
                                        TissueModel {
                                            id: fresh,
                                            kind: TissueType::Parenchyma,
                                            organ_ref: tissues[t].organ_ref,
                                            members: seq![cell],
                                            config,
                                        },
                                    ),
                                    Ok(Differentiation::Founded(fresh)),
                                ),
                            },
                        },
                    }
                },
            }
        },
    }
}

/// What a request to differentiate the cell `cell` lacks in the registry,
/// if it lacks anything.
pub open spec fn differentiation_fault(
    cells: Seq<CellRecord>,
    tissues: Seq<TissueModel>,
    organs: Seq<OrganRecord>,
    species: Species,
    cell: u64,
) -> Option<LifecycleError> {
    match differentiation(cells, tissues, organs, species, cell, 0).2 {
        Ok(_) => None,
        Err(e) => Some(e),
    }
}

/// The identifier is free for a new tissue: no tissue has it. It matters
/// only while there is no tissue of differentiated cells, for only then is
/// one founded.
pub open spec fn fresh_is_free(tissues: Seq<TissueModel>, fresh: u64) -> bool {
    first_index(kinds_of(tissues), TissueType::Parenchyma) is None ==> !tissue_ids(
        tissues,
    ).contains(fresh)
}

/// A tissue like the given one with other cells.
fn with_cells(record: &TissueRecord, cell_refs: Vec<u64>) -> (changed: TissueRecord)
    ensures
        changed.model() == (TissueModel { members: cell_refs@, ..record.model() }),
{
    TissueRecord {
        id: record.id,
        tissue: Tissue {
            kind: record.tissue.kind,
            organ_ref: record.tissue.organ_ref,
            cell_refs,
            config: record.tissue.config,
        },
    }
}

/// Tells what a request to differentiate the cell `cell` lacks in the
/// registry, if it lacks anything.
pub fn check_differentiation_request(
    cells: &Vec<CellRecord>,
    tissues: &Vec<TissueRecord>,
    organs: &Vec<OrganRecord>,
    species: &Species,
    cell: u64,
) -> (fault: Option<LifecycleError>)
    ensures
        fault == differentiation_fault(cells@, models(tissues@), organs@, *species, cell),
{
    let c: usize = match find_cell(cells, cell) {
        Some(c) => c,
        None => {
            return Some(LifecycleError::UnknownCell(cell));
        },
    };
    let home: u64 = cells[c].cell.tissue;
    let t: usize = match find_tissue(tissues, home) {
        Some(t) => t,
        None => {
            return Some(LifecycleError::UnknownTissue(cell, home));
        },
    };
    if !tissues[t].tissue.kind.can_divide() {
        return None;
    }
    if find_id(&tissues[t].tissue.cell_refs, cell).is_none() {
        return Some(LifecycleError::CellNotInTissue(cell, home));
    }
    let organ_ref: u64 = tissues[t].tissue.organ_ref;
    match find_tissue_of_kind(tissues, TissueType::Parenchyma) {
        Some(_) => {
            let o: usize = match find_organ(organs, organ_ref) {
                Some(o) => o,
                None => {
                    return Some(LifecycleError::UnknownOrgan(home, organ_ref));
                },
            };
            let kind: OrganType = organs[o].organ.kind;
            match species.tissue_config(kind, TissueType::Parenchyma) {
                Some(_) => None,
                None => Some(LifecycleError::MissingConfig(kind, TissueType::Parenchyma)),
            }
        },
        None => match species.tissue_config(OrganType::Stem, TissueType::Parenchyma) {
            Some(_) => None,
            None => Some(LifecycleError::MissingConfig(OrganType::Stem, TissueType::Parenchyma)),
        },
    }
}

/// Carries out the request to differentiate the cell `cell`, which fits the
/// registry. After it there is a tissue of differentiated cells, or the
/// tissues are those that there were.
pub fn differentiate_cell(
    cells: &mut Vec<CellRecord>,
    tissues: &mut Vec<TissueRecord>,
    organs: &Vec<OrganRecord>,
    species: &Species,
    cell: u64,
    fresh: u64,
) -> (outcome: Differentiation)
    requires
        differentiation_fault(old(cells)@, models(old(tissues)@), organs@, *species, cell)
            is None,
        fresh_is_free(models(old(tissues)@), fresh),
    ensures
        (final(cells)@, models(final(tissues)@), Ok::<Differentiation, LifecycleError>(outcome))
            == differentiation(
            old(cells)@,
            models(old(tissues)@),
            organs@,
            *species,
            cell,
            fresh,
        ),
        fresh_is_free(models(final(tissues)@), fresh),
{
    let ghost before = models(tissues@);
    // The request fits the registry: every lookup below finds what it looks
    // for, and none of the early returns for a failed lookup is ever taken.
    let c: usize = match find_cell(cells, cell) {
        Some(c) => c,
        None => {
            return Differentiation::Refused;
        },
    };
    let record: CellRecord = cells[c];
    let home: u64 = record.cell.tissue;
    let t: usize = match find_tissue(tissues, home) {
        Some(t) => t,
        None => {
            return Differentiation::Refused;
        },
    };
    if !tissues[t].tissue.kind.can_divide() {
        return Differentiation::Refused;
    }
    let m: usize = match find_id(&tissues[t].tissue.cell_refs, cell) {
        Some(m) => m,
        None => {
            return Differentiation::Refused;
        },
    };
    let organ_ref: u64 = tissues[t].tissue.organ_ref;
    match find_tissue_of_kind(tissues, TissueType::Parenchyma) {
        Some(p) => {
            let o: usize = match find_organ(organs, organ_ref) {
                Some(o) => o,
                None => {
                    return Differentiation::Refused;
                },
            };
            let kind: OrganType = organs[o].organ.kind;
            let config: TissueConfig = match species.tissue_config(kind, TissueType::Parenchyma) {
                Some(config) => config,
                None => {
                    return Differentiation::Refused;
                },
            };
            let target: u64 = tissues[p].id;
            let mut left: Vec<u64> = tissues[t].tissue.cell_refs.clone();
            left.remove(m);
            let home_record: TissueRecord = with_cells(&tissues[t], left);
            proof {
                lemma_first_index_found(kinds_of(before), TissueType::Parenchyma);
                assert(kinds_of(before)[p as int] == TissueType::Parenchyma);
                assert(before[t as int].kind == TissueType::Meristem);
                assert(p != t);
                assert(home_record.model() == without_member(before[t as int], m as int));
            }
            tissues.set(t, home_record);
            let ghost mid = models(tissues@);
            proof {
                assert(mid =~= before.update(t as int, without_member(before[t as int], m as int)));
                assert(tissues@[p as int].model() == before[p as int]);
            }
            let mut joined: Vec<u64> = tissues[p].tissue.cell_refs.clone();
            joined.push(cell);
            let target_record: TissueRecord = with_cells(&tissues[p], joined);
            proof {
                assert(target_record.model() == with_member(before[p as int], cell));
            }
            tissues.set(p, target_record);
            let mut moved: Cell = record.cell;
            moved.update_tissue(target);
            moved.update_tissue_config(config);
            cells.set(c, CellRecord { id: record.id, cell: moved, info: record.info });
            proof {
                assert(models(tissues@) =~= mid.update(
                    p as int,
                    with_member(before[p as int], cell),
                ));
                assert(kinds_of(models(tissues@)) =~= kinds_of(before));
            }
            Differentiation::Moved(target)
        },
        None => {
            let config: TissueConfig = match species.tissue_config(
                OrganType::Stem,
                TissueType::Parenchyma,
            ) {
                Some(config) => config,
                None => {
                    return Differentiation::Refused;
                },
            };
            let mut left: Vec<u64> = tissues[t].tissue.cell_refs.clone();
            left.remove(m);
            let home_record: TissueRecord = with_cells(&tissues[t], left);
            tissues.set(t, home_record);
            let mut founded: Tissue = Tissue::new(TissueType::Parenchyma, config, organ_ref);
            founded.cell_refs.push(cell);
            proof {
                assert(founded.cell_refs@ =~= seq![cell]);
            }
            tissues.push(TissueRecord { id: fresh, tissue: founded });
            let mut moved: Cell = record.cell;
            moved.update_tissue(fresh);
            moved.update_tissue_config(config);
            cells.set(c, CellRecord { id: record.id, cell: moved, info: record.info });
            proof {
                assert(models(tissues@) =~= before.update(
                    t as int,
                    without_member(before[t as int], m as int),
                ).push(
                    TissueModel {
                        id: fresh,
                        kind: TissueType::Parenchyma,
                        organ_ref: before[t as int].organ_ref,
                        members: seq![cell],
                        config,
                    },
                ));
                let kinds = kinds_of(models(tissues@));
                assert(kinds[kinds.len() - 1] == TissueType::Parenchyma);
                assert(kinds.contains(TissueType::Parenchyma));
            }
            Differentiation::Founded(fresh)
        },
    }
}

/// What a list of requests to differentiate makes of the cells and tissues
/// of the registry: the cells and tissues afterwards, what came of each
/// request that was carried out, and what the first request that did not
/// fit the registry lacked, if there was one. The requests are carried out
/// in turn, each on the registry as the requests before it left it; after a
/// request that does not fit nothing changes any more.
pub open spec fn differentiations(
    cells: Seq<CellRecord>,
    tissues: Seq<TissueModel>,
    organs: Seq<OrganRecord>,
    species: Species,
    events: Seq<CellDifferentiateEvent>,
    fresh: u64,
) -> (Seq<CellRecord>, Seq<TissueModel>, Seq<Differentiation>, Option<LifecycleError>)
    decreases events.len(),
{
    if events.len() == 0 {
        (cells, tissues, Seq::empty(), None)
    } else {
        let (cells_before, tissues_before, done, error) = differentiations(
            cells,
            tissues,
            organs,
            species,
            events.drop_last(),
            fresh,
        );
        if error is Some {
            (cells_before, tissues_before, done, error)
        } else {
            let (cells_after, tissues_after, outcome) = differentiation(
                cells_before,
                tissues_before,
                organs,
                species,
                events.last().cell,
                fresh,
            );
            match outcome {
                Ok(what) => (cells_after, tissues_after, done.push(what), None),
                Err(e) => (cells_after, tissues_after, done, Some(e)),
            }
        }
    }
}

/// Every request fits the registry when its turn comes.
pub open spec fn requests_fit(
    cells: Seq<CellRecord>,
    tissues: Seq<TissueModel>,
    organs: Seq<OrganRecord>,
    species: Species,
    events: Seq<CellDifferentiateEvent>,
    fresh: u64,
) -> bool {
    differentiations(cells, tissues, organs, species, events, fresh).3 is None
}

/// Where every request fits at its turn, so do the first of them.
proof fn lemma_first_requests_fit(
    cells: Seq<CellRecord>,
    tissues: Seq<TissueModel>,
    organs: Seq<OrganRecord>,
    species: Species,
    events: Seq<CellDifferentiateEvent>,
    fresh: u64,
    upto: int,
)
    requires
        0 <= upto <= events.len(),
        requests_fit(cells, tissues, organs, species, events, fresh),
    ensures
        requests_fit(cells, tissues, organs, species, events.subrange(0, upto), fresh),
    decreases events.len() - upto,
{
    if upto < events.len() {
        lemma_first_requests_fit(cells, tissues, organs, species, events, fresh, upto + 1);
        assert(events.subrange(0, upto + 1).drop_last() =~= events.subrange(0, upto));
    } else {
        assert(events.subrange(0, upto) =~= events);
    }
}

/// Carries out the requests to differentiate, in turn, and returns what came
/// of each. Every request must fit the registry when its turn comes, and
/// the identifier for a new tissue must be free.
pub fn handle_cell_differentiation_events(
    events: &Vec<CellDifferentiateEvent>,
    cells: &mut Vec<CellRecord>,
    tissues: &mut Vec<TissueRecord>,
    organs: &Vec<OrganRecord>,
    species: &Species,
    fresh: u64,
) -> (outcomes: Vec<Differentiation>)
    requires
        requests_fit(old(cells)@, models(old(tissues)@), organs@, *species, events@, fresh),
        fresh_is_free(models(old(tissues)@), fresh),
    ensures
        (final(cells)@, models(final(tissues)@), outcomes@, None::<LifecycleError>)
            == differentiations(
            old(cells)@,
            models(old(tissues)@),
            organs@,
            *species,
            events@,
            fresh,
        ),
{
    let mut done: Vec<Differentiation> = Vec::new();
    let n: usize = events.len();
    let mut i: usize = 0;
    while i < n
        invariant
            n == events@.len(),
            i <= n,
            requests_fit(old(cells)@, models(old(tissues)@), organs@, *species, events@, fresh),
            fresh_is_free(models(tissues@), fresh),
            differentiations(
                old(cells)@,
                models(old(tissues)@),
                organs@,
                *species,
                events@.subrange(0, i as int),
                fresh,
            ) == (cells@, models(tissues@), done@, None::<LifecycleError>),
        decreases n - i,
    {
        proof {
            assert(events@.subrange(0, i + 1).drop_last() =~= events@.subrange(0, i as int));
            assert(events@.subrange(0, i + 1).last() == events@[i as int]);
            lemma_first_requests_fit(
                old(cells)@,
                models(old(tissues)@),
                organs@,
                *species,
                events@,
                fresh,
                i + 1,
            );
            lemma_fault_ignores_fresh(
                cells@,
                models(tissues@),
                organs@,
                *species,
                events@[i as int].cell,
                fresh,
            );
        }
        let what: Differentiation = differentiate_cell(
            cells,
            tissues,
            organs,
            species,
            events[i].cell,
            fresh,
        );
        done.push(what);
        i = i + 1;
    }
    proof {
        assert(events@.subrange(0, n as int) =~= events@);
    }
    done
}

/// Whether a request fits the registry does not depend on the identifier
/// for a new tissue.
pub proof fn lemma_fault_ignores_fresh(
    cells: Seq<CellRecord>,
    tissues: Seq<TissueModel>,
    organs: Seq<OrganRecord>,
    species: Species,
    cell: u64,
    fresh: u64,
)
    ensures
        differentiation(cells, tissues, organs, species, cell, fresh).2 is Err
            <==> differentiation_fault(cells, tissues, organs, species, cell) is Some,
        differentiation(cells, tissues, organs, species, cell, fresh).2 matches Err(e)
            ==> differentiation_fault(cells, tissues, organs, species, cell) == Some(e),
{
}

} // verus!
