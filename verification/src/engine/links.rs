//! The links between cells and tissues: every cell is listed exactly once,
//! in the tissue that it names. A differentiation that fits the registry
//! keeps it so.
use crate::engine::cell_events::{
    cell_ids, kinds_of, tissue_ids, CellRecord, Differentiation, OrganRecord, TissueModel,
};
use crate::engine::differentiation::{
    differentiation, differentiation_fault, fresh_is_free,
};
use crate::model::species::Species;
use crate::model::tissue::TissueType;
use crate::shared::lookup::{first_index, lemma_first_index_found};
use vstd::prelude::*;

verus! {

/// The identifier occurs exactly once among the members.
pub open spec fn listed_once(members: Seq<u64>, id: u64) -> bool {
    exists|m: int|
        0 <= m < members.len() && #[trigger] members[m] == id && forall|j: int|
            0 <= j < members.len() && j != m ==> #[trigger] members[j] != id
}

/// The tissue lists the cell as it should: once if the cell names the
/// tissue, and not at all if it names another.
pub open spec fn lists_rightly(tissue: TissueModel, cell: CellRecord) -> bool {
    if tissue.id == cell.cell.tissue {
        listed_once(tissue.members, cell.id)
    } else {
        !tissue.members.contains(cell.id)
    }
}

/// No two cells and no two tissues share an identifier, every cell names a
/// tissue of the registry, and every cell is listed exactly once, in the
/// tissue that it names.
pub open spec fn registry_linked(cells: Seq<CellRecord>, tissues: Seq<TissueModel>) -> bool {
    &&& cell_ids(cells).no_duplicates()
    &&& tissue_ids(tissues).no_duplicates()
    &&& forall|i: int|
        0 <= i < cells.len() ==> tissue_ids(tissues).contains((#[trigger] cells[i]).cell.tissue)
    &&& forall|i: int, t: int|
        0 <= i < cells.len() && 0 <= t < tissues.len() ==> lists_rightly(
            #[trigger] tissues[t],
            #[trigger] cells[i],
        )
}

/// Taking a member out leaves the others listed as they were.
proof fn lemma_remove_keeps_others(members: Seq<u64>, m: int, other: u64)
    requires
        0 <= m < members.len(),
        members[m] != other,
    ensures
        listed_once(members, other) ==> listed_once(members.remove(m), other),
        !members.contains(other) ==> !members.remove(m).contains(other),
{
    let left = members.remove(m);
    if listed_once(members, other) {
        let at = choose|at: int|
            0 <= at < members.len() && #[trigger] members[at] == other && forall|j: int|
                0 <= j < members.len() && j != at ==> #[trigger] members[j] != other;
        let now: int = if at < m {
            at
        } else {
            at - 1
        };
        assert(left[now] == other);
        assert forall|j: int| 0 <= j < left.len() && j != now implies #[trigger] left[j]
            != other by {
            if j < m {
                assert(left[j] == members[j]);
            } else {
                assert(left[j] == members[j + 1]);
            }
        }
        assert(listed_once(left, other));
    }
    if !members.contains(other) {
        if left.contains(other) {
            let j = choose|j: int| 0 <= j < left.len() && left[j] == other;
            if j < m {
                assert(members[j] == other);
            } else {
                assert(members[j + 1] == other);
            }
        }
    }
}

/// Taking out the one place where an identifier is listed leaves it
/// unlisted.
proof fn lemma_remove_only(members: Seq<u64>, m: int, id: u64)
    requires
        0 <= m < members.len(),
        members[m] == id,
        listed_once(members, id),
    ensures
        !members.remove(m).contains(id),
{
    let left = members.remove(m);
    let at = choose|at: int|
        0 <= at < members.len() && #[trigger] members[at] == id && forall|j: int|
            0 <= j < members.len() && j != at ==> #[trigger] members[j] != id;
    assert(at == m);
    if left.contains(id) {
        let j = choose|j: int| 0 <= j < left.len() && left[j] == id;
        if j < m {
            assert(members[j] == id);
        } else {
            assert(members[j + 1] == id);
        }
    }
}

/// One more member leaves the others listed as they were, and is itself
/// listed once if it was not listed before.
proof fn lemma_push_lists(members: Seq<u64>, id: u64, other: u64)
    ensures
        other != id && listed_once(members, other) ==> listed_once(members.push(id), other),
        other != id && !members.contains(other) ==> !members.push(id).contains(other),
        !members.contains(id) ==> listed_once(members.push(id), id),
{
    let more = members.push(id);
    if other != id && listed_once(members, other) {
        let at = choose|at: int|
            0 <= at < members.len() && #[trigger] members[at] == other && forall|j: int|
                0 <= j < members.len() && j != at ==> #[trigger] members[j] != other;
        assert(more[at] == other);
        assert forall|j: int| 0 <= j < more.len() && j != at implies #[trigger] more[j]
            != other by {
            if j < members.len() {
                assert(more[j] == members[j]);
            }
        }
        assert(listed_once(more, other));
    }
    if other != id && !members.contains(other) {
        if more.contains(other) {
            let j = choose|j: int| 0 <= j < more.len() && more[j] == other;
            assert(members[j] == other);
        }
    }
    if !members.contains(id) {
        let at: int = members.len() as int;
        assert(more[at] == id);
        assert forall|j: int| 0 <= j < more.len() && j != at implies #[trigger] more[j] != id by {
            assert(more[j] == members[j]);
            if members[j] == id {
                assert(members.contains(id));
            }
        }
        assert(listed_once(more, id));
    }
}

/// A differentiation that fits the registry keeps the links between cells
/// and tissues: afterwards, as before, every cell is listed exactly once, in
/// the tissue that it names. The number of cells stays, and so does every
/// cell but the one that differentiates.
pub proof fn lemma_differentiation_keeps_links(
    cells: Seq<CellRecord>,
    tissues: Seq<TissueModel>,
    organs: Seq<OrganRecord>,
    species: Species,
    cell: u64,
    fresh: u64,
)
    requires
        registry_linked(cells, tissues),
        differentiation_fault(cells, tissues, organs, species, cell) is None,
        fresh_is_free(tissues, fresh),
    ensures
        ({
            let (cells_after, tissues_after, outcome) = differentiation(
                cells,
                tissues,
                organs,
                species,
                cell,
                fresh,
            );
            &&& registry_linked(cells_after, tissues_after)
            &&& cells_after.len() == cells.len()
            &&& forall|i: int|
                0 <= i < cells.len() && cells[i].id != cell ==> #[trigger] cells_after[i]
                    == cells[i]
            &&& outcome == Ok::<Differentiation, crate::engine::cell_events::LifecycleError>(
                Differentiation::Refused,
            ) ==> cells_after == cells && tissues_after == tissues
        }),
{
    let (cells_after, tissues_after, outcome) = differentiation(
        cells,
        tissues,
        organs,
        species,
        cell,
        fresh,
    );
    crate::engine::differentiation::lemma_fault_ignores_fresh(
        cells,
        tissues,
        organs,
        species,
        cell,
        fresh,
    );
    lemma_first_index_found(cell_ids(cells), cell);
    let c: int = first_index(cell_ids(cells), cell)->0;
    let home: u64 = cells[c].cell.tissue;
    lemma_first_index_found(tissue_ids(tissues), home);
    let t: int = first_index(tissue_ids(tissues), home)->0;
    if tissues[t].kind.divides() {
        lemma_first_index_found(tissues[t].members, cell);
        let m: int = first_index(tissues[t].members, cell)->0;
        lemma_first_index_found(kinds_of(tissues), TissueType::Parenchyma);
        assert(cell_ids(cells_after) =~= cell_ids(cells));
        assert(lists_rightly(tissues[t], cells[c]));
        assert(tissues[t].id == home);
        let left = tissues[t].members.remove(m);
        lemma_remove_only(tissues[t].members, m, cell);
        match first_index(kinds_of(tissues), TissueType::Parenchyma) {
            Some(p) => {
                assert(kinds_of(tissues)[p] == TissueType::Parenchyma);
                assert(p != t);
                let target: u64 = tissues[p].id;
                assert(tissue_ids(tissues)[p] == target && tissue_ids(tissues)[t] == home);
                assert(target != home);
                assert(tissue_ids(tissues_after) =~= tissue_ids(tissues));
                assert(lists_rightly(tissues[p], cells[c]));
                lemma_push_lists(tissues[p].members, cell, cell);
                assert forall|i: int| 0 <= i < cells_after.len() implies tissue_ids(
                    tissues_after,
                ).contains((#[trigger] cells_after[i]).cell.tissue) by {
                    if i == c {
                        assert(tissue_ids(tissues_after)[p] == target);
                    } else {
                        assert(cells_after[i] == cells[i]);
                    }
                }
                assert forall|i: int, k: int|
                    0 <= i < cells_after.len() && 0 <= k < tissues_after.len() implies lists_rightly(
                    #[trigger] tissues_after[k],
                    #[trigger] cells_after[i],
                ) by {
                    assert(lists_rightly(tissues[k], cells[i]));
                    assert(tissue_ids(tissues)[k] == tissues[k].id);
                    if i == c {
                        if k != t && k != p {
                            assert(tissues[k].id != home);
                            assert(tissues[k].id != target);
                        }
                    } else {
                        assert(cell_ids(cells)[i] == cells[i].id && cell_ids(cells)[c] == cell);
                        assert(cells[i].id != cell);
                        if k == t {
                            lemma_remove_keeps_others(tissues[t].members, m, cells[i].id);
                        } else if k == p {
                            lemma_push_lists(tissues[p].members, cell, cells[i].id);
                        }
                    }
                }
            },
            None => {
                let n: int = tissues.len() as int;
                assert(!tissue_ids(tissues).contains(fresh));
                assert(tissues_after.len() == n + 1);
                assert(tissue_ids(tissues_after) =~= tissue_ids(tissues).push(fresh));
                assert(tissue_ids(tissues_after).no_duplicates()) by {
                    assert forall|a: int, b: int|
                        0 <= a < n + 1 && 0 <= b < n + 1 && a != b implies tissue_ids(
                        tissues_after,
                    )[a] != tissue_ids(tissues_after)[b] by {
                        if a < n && b < n {
                            assert(tissue_ids(tissues)[a] != tissue_ids(tissues)[b]);
                        } else if a < n {
                            assert(tissue_ids(tissues)[a] != fresh);
                        } else {
                            assert(tissue_ids(tissues)[b] != fresh);
                        }
                    }
                }
                assert forall|i: int| 0 <= i < cells_after.len() implies tissue_ids(
                    tissues_after,
                ).contains((#[trigger] cells_after[i]).cell.tissue) by {
                    if i == c {
                        assert(tissue_ids(tissues_after)[n] == fresh);
                    } else {
                        assert(cells_after[i] == cells[i]);
                        let id = cells[i].cell.tissue;
                        let k = choose|k: int|
                            0 <= k < tissue_ids(tissues).len() && tissue_ids(tissues)[k] == id;
                        assert(tissue_ids(tissues_after)[k] == id);
                    }
                }
                assert forall|i: int, k: int|
                    0 <= i < cells_after.len() && 0 <= k < tissues_after.len() implies lists_rightly(
                    #[trigger] tissues_after[k],
                    #[trigger] cells_after[i],
                ) by {
                    if k < n {
                        assert(lists_rightly(tissues[k], cells[i]));
                        assert(tissue_ids(tissues)[k] == tissues[k].id);
                        assert(tissues[k].id != fresh);
                    }
                    if i == c {
                        if k == n {
                            assert(tissues_after[n].members =~= seq![cell]);
                            lemma_push_lists(Seq::<u64>::empty(), cell, cell);
                            assert(Seq::<u64>::empty().push(cell) =~= seq![cell]);
                        } else if k != t {
                            assert(tissues[k].id != home);
                        }
                    } else {
                        assert(cell_ids(cells)[i] == cells[i].id && cell_ids(cells)[c] == cell);
                        assert(cells[i].id != cell);
                        assert(tissue_ids(tissues).contains(cells[i].cell.tissue));
                        assert(cells[i].cell.tissue != fresh);
                        if k == t {
                            lemma_remove_keeps_others(tissues[t].members, m, cells[i].id);
                        } else if k == n {
                            assert(tissues_after[n].members =~= seq![cell]);
                            lemma_push_lists(Seq::<u64>::empty(), cell, cells[i].id);
                            assert(Seq::<u64>::empty().push(cell) =~= seq![cell]);
                        }
                    }
                }
            },
        }
    }
}

/// A differentiation that fits the registry leaves the identifier for a new
/// tissue free for as long as it is needed.
pub proof fn lemma_fresh_stays_free(
    cells: Seq<CellRecord>,
    tissues: Seq<TissueModel>,
    organs: Seq<OrganRecord>,
    species: Species,
    cell: u64,
    fresh: u64,
)
    requires
        differentiation_fault(cells, tissues, organs, species, cell) is None,
        fresh_is_free(tissues, fresh),
    ensures
        fresh_is_free(differentiation(cells, tissues, organs, species, cell, fresh).1, fresh),
{
    let after = differentiation(cells, tissues, organs, species, cell, fresh).1;
    crate::engine::differentiation::lemma_fault_ignores_fresh(
        cells,
        tissues,
        organs,
        species,
        cell,
        fresh,
    );
    lemma_first_index_found(cell_ids(cells), cell);
    let c: int = first_index(cell_ids(cells), cell)->0;
    lemma_first_index_found(tissue_ids(tissues), cells[c].cell.tissue);
    let t: int = first_index(tissue_ids(tissues), cells[c].cell.tissue)->0;
    if tissues[t].kind.divides() {
        lemma_first_index_found(tissues[t].members, cell);
        lemma_first_index_found(kinds_of(tissues), TissueType::Parenchyma);
        match first_index(kinds_of(tissues), TissueType::Parenchyma) {
            Some(p) => {
                assert(kinds_of(after) =~= kinds_of(tissues));
                assert(tissue_ids(after) =~= tissue_ids(tissues));
            },
            None => {
                let kinds = kinds_of(after);
                assert(kinds[kinds.len() - 1] == TissueType::Parenchyma);
                assert(kinds.contains(TissueType::Parenchyma));
            },
        }
    }
}

/// Requests to differentiate that fit the registry, each at its turn, keep
/// the links between cells and tissues: after all of them every cell is
/// still listed exactly once, in the tissue that it names, and there are as
/// many cells as before.
pub proof fn lemma_differentiations_keep_links(
    cells: Seq<CellRecord>,
    tissues: Seq<TissueModel>,
    organs: Seq<OrganRecord>,
    species: Species,
    events: Seq<crate::engine::cell_events::CellDifferentiateEvent>,
    fresh: u64,
)
    requires
        registry_linked(cells, tissues),
        crate::engine::differentiation::requests_fit(
            cells,
            tissues,
            organs,
            species,
            events,
            fresh,
        ),
        fresh_is_free(tissues, fresh),
    ensures
        ({
            let (cells_after, tissues_after, done, error) =
                crate::engine::differentiation::differentiations(
                cells,
                tissues,
                organs,
                species,
                events,
                fresh,
            );
            &&& registry_linked(cells_after, tissues_after)
            &&& fresh_is_free(tissues_after, fresh)
            &&& cells_after.len() == cells.len()
            &&& done.len() == events.len()
        }),
    decreases events.len(),
{
    if events.len() > 0 {
        let (cells_before, tissues_before, done, error) =
            crate::engine::differentiation::differentiations(
            cells,
            tissues,
            organs,
            species,
            events.drop_last(),
            fresh,
        );
        lemma_differentiations_keep_links(cells, tissues, organs, species, events.drop_last(), fresh);
        crate::engine::differentiation::lemma_fault_ignores_fresh(
            cells_before,
            tissues_before,
            organs,
            species,
            events.last().cell,
            fresh,
        );
        lemma_differentiation_keeps_links(
            cells_before,
            tissues_before,
            organs,
            species,
            events.last().cell,
            fresh,
        );
        lemma_fresh_stays_free(
            cells_before,
            tissues_before,
            organs,
            species,
            events.last().cell,
            fresh,
        );
    }
}

} // verus!
